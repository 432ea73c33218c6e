//! The decisions of a chaos run: what the engine records and answers at
//! each step of the operations a script drives.
//!
//! Each operation alternates work on the substrate (hosting, applying and
//! clearing faults, querying status, sleeping) with decisions over the
//! application state. The work is done by the application around this
//! crate; the decisions and the state updates are the functions here.
use vstd::prelude::*;

use crate::config::Config;
use crate::event::{CheckKind, ExperimentEvent};
use crate::fault::{weighted_of, Fault, FaultTree, StepResult};
use crate::log::{metrics_of, EventLog};
use crate::oracle::OracleReport;
use crate::rng::seeded_stream;
use crate::state::{
    config_handle, ids_with_config, index_of_handle, index_of_handle_spec, index_of_id,
    index_of_id_spec, resolved_handle, subject_name, AppState, RecordView, SubjectRecord,
};
use crate::subject::{HostedSubject, SubjectStatus};
use crate::text::{decimal, join2, join3, opt_text, str_eq, text_result, u64_text};
use crate::time::Duration;

verus! {

/// Two configs hold the same settings.
pub open spec fn same_config(a: Config, b: Config) -> bool {
    &&& a.substrate == b.substrate
    &&& a.seed == b.seed
    &&& a.fault_weights@ == b.fault_weights@
    &&& a.accumulation_mode == b.accumulation_mode
    &&& a.http_timeout_secs == b.http_timeout_secs
    &&& a.http_retries == b.http_retries
    &&& a.http_retry_delay_ms == b.http_retry_delay_ms
    &&& a.step_delay_ms == b.step_delay_ms
    &&& a.steps == b.steps
    &&& a.require_seed == b.require_seed
}

pub open spec fn no_seed_message(h: Seq<char>) -> Seq<char> {
    "config '"@ + h + "' has no seed: set seed = n in dstest.config()"@
}

pub open spec fn no_subjects_message(h: Seq<char>) -> Seq<char> {
    "no subjects for config '"@ + h + "' \u{2014} call dstest.setup("@ + h + ", {...}) first"@
}

/// Structured result of a fault step.
pub struct StepOutcome {
    pub fault: Fault,
    pub subject: String,
    pub config: String,
    pub round: usize,
    pub total_rounds: usize,
    pub remaining: usize,
    pub more: bool,
    pub oracle: Option<OracleReport>,
}

impl StepOutcome {
    /// The outcome of step `step` of config `config`, with the oracle report
    /// of the checks run after it, if the oracle was enabled.
    pub fn new(step: StepResult, config: String, oracle: Option<OracleReport>) -> (o: StepOutcome)
        ensures
            o.fault == step.fault,
            o.subject@ == step.subject_id@,
            o.config@ == config@,
            o.round == step.round,
            o.total_rounds == step.total_rounds,
            o.remaining == step.remaining,
            o.more == step.more,
            o.oracle == oracle,
    {
        StepOutcome {
            fault: step.fault,
            subject: step.subject_id,
            config,
            round: step.round,
            total_rounds: step.total_rounds,
            remaining: step.remaining,
            more: step.more,
            oracle,
        }
    }
}

/// Open a fault step: resolve the config handle, check the seed, and create
/// the config's fault tree on its first step from the subjects hosted under
/// it so far. Returns the handle and a copy of the config.
pub fn begin_step(state: &mut AppState, cfg_arg: Option<String>) -> (r: Result<(String, Config), String>)
    ensures
        final(state).log == old(state).log,
        final(state).subjects == old(state).subjects,
        final(state).configs == old(state).configs,
        ({
            let resolved = resolved_handle(old(state).configs.spec_handles(), opt_text(cfg_arg));
            match resolved {
                Err(e) => r matches Err(m) && m@ == e && final(state).fault_trees == old(state).fault_trees,
                Ok(h) => {
                    let entries = old(state).configs.spec_entries();
                    let cfg = entries[index_of_handle(entries, h)].1;
                    let ids = ids_with_config(old(state).subjects.spec_records(), h);
                    if cfg.require_seed && cfg.seed is None {
                        r matches Err(m) && m@ == no_seed_message(h) && final(state).fault_trees
                            == old(state).fault_trees
                    } else if old(state).fault_trees.spec_handles().contains(h) {
                        r matches Ok((rh, rc)) && rh@ == h && same_config(rc, cfg)
                            && final(state).fault_trees == old(state).fault_trees
                    } else if ids.len() == 0 {
                        r matches Err(m) && m@ == no_subjects_message(h) && final(state).fault_trees
                            == old(state).fault_trees
                    } else if cfg.seed is None {
                        r matches Err(m) && m@ == "config '"@ + h + "' has no seed"@
                            && final(state).fault_trees == old(state).fault_trees
                    } else {
                        &&& r matches Ok((rh, rc)) && rh@ == h && same_config(rc, cfg)
                        &&& final(state).fault_trees.spec_handles() == old(state).fault_trees.spec_handles().push(h)
                        &&& {
                            let t = final(state).fault_trees.spec_trees().last();
                            &&& t.spec_weighted() == weighted_of(cfg.spec_weights())
                            &&& t.spec_subjects() == ids
                            &&& t.spec_total() == cfg.steps
                            &&& t.spec_current() == 0
                            &&& t.spec_rng() == seeded_stream(cfg.seed->0)
                        }
                    }
                },
            }
        }),
{
    let resolved = state.configs.resolve_handle(cfg_arg);
    let h = match resolved {
        Ok(h) => h,
        Err(e) => return Err(e),
    };
    proof {
        index_of_handle_spec(state.configs.spec_entries(), h@);
        if index_of_handle(state.configs.spec_entries(), h@) < 0 {
            let k = choose|k: int| 0 <= k < state.configs.spec_handles().len() && state.configs.spec_handles()[k] == h@;
            assert(state.configs.spec_entries()[k].0 == h@);
        }
    }
    let cfg = match state.configs.get(h.as_str()) {
        Some(c) => c.clone(),
        None => {
            return Err(join2("unknown config ", h.as_str()));
        },
    };
    if cfg.require_seed && cfg.seed.is_none() {
        return Err(join3("config '", h.as_str(), "' has no seed: set seed = n in dstest.config()"));
    }
    if !state.fault_trees.contains(h.as_str()) {
        let ids = state.subjects.ids_for_config(h.as_str());
        if ids.len() == 0 {
            let head = join3("no subjects for config '", h.as_str(), "' \u{2014} call dstest.setup(");
            return Err(join3(head.as_str(), h.as_str(), ", {...}) first"));
        }
        let seed = match cfg.seed {
            Some(s) => s,
            None => {
                return Err(join3("config '", h.as_str(), "' has no seed"));
            },
        };
        let tree = FaultTree::new(seed, ids, &cfg);
        state.fault_trees.insert(h.clone(), tree);
    }
    Ok((h, cfg))
}

/// Record that the faults of subject `subject_id` were cleared on the
/// substrate: forget them and log the clear.
pub fn record_faults_cleared(state: &mut AppState, subject_id: &str)
    ensures
        final(state).configs == old(state).configs,
        final(state).fault_trees == old(state).fault_trees,
        final(state).log.spec_events() == old(state).log.spec_events().push(ExperimentEvent::FaultCleared),
        final(state).subjects.spec_hosts() == old(state).subjects.spec_hosts(),
        final(state).subjects.spec_counter() == old(state).subjects.spec_counter(),
        ({
            let i = index_of_id(old(state).subjects.spec_records(), subject_id@);
            &&& i >= 0 ==> final(state).subjects.spec_records() == old(state).subjects.spec_records().update(
                i,
                RecordView { active_faults: Seq::empty(), faulted_at: None, ..old(state).subjects.spec_records()[i] },
            )
            &&& i == -1 ==> final(state).subjects.spec_records() == old(state).subjects.spec_records()
        }),
{
    state.subjects.clear_faults(subject_id);
    state.log.push(ExperimentEvent::FaultCleared);
}

/// Number of ids in `ids` whose first record has a fault applied.
pub open spec fn faulted_count(recs: Seq<RecordView>, ids: Seq<Seq<char>>) -> nat
    decreases ids.len(),
{
    if ids.len() == 0 {
        0
    } else {
        let i = index_of_id(recs, ids.last());
        faulted_count(recs, ids.drop_last()) + if i >= 0 && recs[i].active_faults.len() > 0 {
            1nat
        } else {
            0nat
        }
    }
}

/// Whether the first record with id `id` has a fault applied.
pub open spec fn faulted_in(recs: Seq<RecordView>) -> spec_fn(Seq<char>) -> bool {
    |id: Seq<char>| index_of_id(recs, id) >= 0 && recs[index_of_id(recs, id)].active_faults.len() > 0
}

/// The faulted count of `ids` is the number of its ids whose record has a
/// fault applied: never more than there are ids, and at least one when one
/// of them has.
pub proof fn faulted_count_counts_faulted_ids(recs: Seq<RecordView>, ids: Seq<Seq<char>>)
    ensures
        faulted_count(recs, ids) == ids.filter(faulted_in(recs)).len(),
        faulted_count(recs, ids) <= ids.len(),
        (exists|k: int| 0 <= k < ids.len() && (#[trigger] faulted_in(recs)(ids[k]))) ==> faulted_count(recs, ids) >= 1,
    decreases ids.len(),
{
    reveal_with_fuel(Seq::filter, 1);
    if ids.len() > 0 {
        let prev = ids.drop_last();
        faulted_count_counts_faulted_ids(recs, prev);
        if exists|k: int| 0 <= k < ids.len() && (#[trigger] faulted_in(recs)(ids[k])) {
            let k = choose|k: int| 0 <= k < ids.len() && (#[trigger] faulted_in(recs)(ids[k]));
            if k < ids.len() - 1 {
                assert(prev[k] == ids[k]);
                assert(faulted_in(recs)(prev[k]));
            }
        }
    }
}

/// The id of every record under `config` is among the config's ids.
proof fn ids_with_config_has(recs: Seq<RecordView>, i: int)
    requires
        0 <= i < recs.len(),
    ensures
        ids_with_config(recs, recs[i].config).contains(recs[i].id),
    decreases recs.len(),
{
    let c = recs[i].config;
    let rest = ids_with_config(recs.drop_last(), c);
    if i == recs.len() - 1 {
        assert(ids_with_config(recs, c) == rest.push(recs[i].id));
        assert(ids_with_config(recs, c)[rest.len() as int] == recs[i].id);
    } else {
        assert(recs.drop_last()[i] == recs[i]);
        ids_with_config_has(recs.drop_last(), i);
        let k = choose|k: int| 0 <= k < rest.len() && rest[k] == recs[i].id;
        if recs.last().config == c {
            assert(ids_with_config(recs, c)[k] == rest.push(recs.last().id)[k]);
        }
    }
}

/// Records with the same ids and configs in the same places have the same
/// ids under every config.
proof fn ids_with_config_same(a: Seq<RecordView>, b: Seq<RecordView>, config: Seq<char>)
    requires
        a.len() == b.len(),
        forall|j: int| 0 <= j < a.len() ==> a[j].id == b[j].id && a[j].config == b[j].config,
    ensures
        ids_with_config(a, config) == ids_with_config(b, config),
    decreases a.len(),
{
    if a.len() > 0 {
        ids_with_config_same(a.drop_last(), b.drop_last(), config);
    }
}

/// A fault round counts the faulted subject: when a fault is applied to a
/// subject created under `handle` (its record changes as
/// [`record_fault_applied`] states), the config keeps its subjects and at
/// least one of them counts as affected in the round's node blast radius.
pub proof fn fault_round_counts_faulted_subject(
    before: Seq<RecordView>,
    after: Seq<RecordView>,
    subject_id: Seq<char>,
    handle: Seq<char>,
    fault: Fault,
)
    requires
        index_of_id(before, subject_id) >= 0,
        before[index_of_id(before, subject_id)].config == handle,
        after.len() == before.len(),
        ({
            let i = index_of_id(before, subject_id);
            &&& after[i].active_faults == before[i].active_faults.push(fault)
            &&& after[i].id == before[i].id && after[i].config == before[i].config
            &&& forall|j: int| 0 <= j < before.len() && j != i ==> after[j] == before[j]
        }),
    ensures
        ids_with_config(after, handle) == ids_with_config(before, handle),
        faulted_count(after, ids_with_config(after, handle)) >= 1,
{
    let i = index_of_id(before, subject_id);
    index_of_id_spec(before, subject_id);
    assert forall|j: int| 0 <= j < after.len() implies after[j].id == before[j].id && after[j].config == before[j].config by {
        if j != i {
            assert(after[j] == before[j]);
        }
    }
    ids_with_config_same(after, before, handle);
    crate::state::index_of_id_same_ids(after, before, subject_id);
    ids_with_config_has(after, i);
    let ids = ids_with_config(after, handle);
    let k = choose|k: int| 0 <= k < ids.len() && ids[k] == after[i].id;
    assert(faulted_in(after)(ids[k]));
    faulted_count_counts_faulted_ids(after, ids);
}

/// The events one applied fault adds to the log: the fault, a new state,
/// a new interleaving when the config has several subjects, and the node
/// blast radius of the config.
pub open spec fn fault_round_events(fault: Fault, subject_count: nat, faulted: nat) -> Seq<ExperimentEvent> {
    let head = seq![
        ExperimentEvent::FaultApplied { fault },
        ExperimentEvent::StateEnumerated { unique: true },
    ];
    let mid = if subject_count > 1 {
        head.push(ExperimentEvent::InterleavingEnumerated { unique: true })
    } else {
        head
    };
    mid.push(
        ExperimentEvent::BlastAffected {
            class: "node",
            affected: faulted as u64,
            total: subject_count as u64,
        },
    )
}

/// Record that `fault` was applied on the substrate to subject `subject_id`
/// of config `handle`: remember the fault and when it was applied, and log
/// the round (see [`fault_round_events`]).
pub fn record_fault_applied(state: &mut AppState, handle: &str, subject_id: &str, fault: Fault)
    requires
        metrics_of(old(state).log.spec_events()).has_room_for_fault_round(),
    ensures
        final(state).configs == old(state).configs,
        final(state).fault_trees == old(state).fault_trees,
        final(state).subjects.spec_hosts() == old(state).subjects.spec_hosts(),
        final(state).subjects.spec_counter() == old(state).subjects.spec_counter(),
        ({
            let recs = final(state).subjects.spec_records();
            let ids = ids_with_config(recs, handle@);
            final(state).log.spec_events() == old(state).log.spec_events() + fault_round_events(
                fault,
                ids.len(),
                faulted_count(recs, ids),
            )
        }),
        ({
            let i = index_of_id(old(state).subjects.spec_records(), subject_id@);
            &&& i >= 0 ==> {
                let before = old(state).subjects.spec_records();
                let after = final(state).subjects.spec_records();
                &&& after.len() == before.len()
                &&& after[i].active_faults == before[i].active_faults.push(fault)
                &&& after[i].faulted_at is Some
                &&& after[i].id == before[i].id && after[i].name == before[i].name && after[i].config == before[i].config
                &&& forall|j: int| 0 <= j < before.len() && j != i ==> after[j] == before[j]
            }
            &&& i == -1 ==> final(state).subjects.spec_records() == old(state).subjects.spec_records()
        }),
        ({
            let i = index_of_id(old(state).subjects.spec_records(), subject_id@);
            let recs = final(state).subjects.spec_records();
            i >= 0 && old(state).subjects.spec_records()[i].config == handle@ ==> faulted_count(
                recs,
                ids_with_config(recs, handle@),
            ) >= 1
        }),
{
    proof {
        index_of_id_spec(state.subjects.spec_records(), subject_id@);
    }
    let ghost r0 = state.subjects.spec_records();
    state.subjects.push_fault(subject_id, fault);
    proof {
        crate::state::index_of_id_same_ids(r0, state.subjects.spec_records(), subject_id@);
    }
    let ghost r1 = state.subjects.spec_records();
    state.subjects.mark_faulted(subject_id);
    proof {
        crate::state::index_of_id_same_ids(r1, state.subjects.spec_records(), subject_id@);
    }
    let ghost e0 = state.log.spec_events();
    state.log.push(ExperimentEvent::FaultApplied { fault });
    proof {
        crate::log::metrics_of_push(e0, ExperimentEvent::FaultApplied { fault });
    }
    let ghost e1 = state.log.spec_events();
    state.log.push(ExperimentEvent::StateEnumerated { unique: true });
    proof {
        crate::log::metrics_of_push(e1, ExperimentEvent::StateEnumerated { unique: true });
    }
    let ids = state.subjects.ids_for_config(handle);
    let subject_count = ids.len();
    if subject_count > 1 {
        state.log.push(ExperimentEvent::InterleavingEnumerated { unique: true });
    }
    let mut faulted: usize = 0;
    let mut k: usize = 0;
    let ghost recs = state.subjects.spec_records();
    let ghost idv = ids@.map_values(|s: String| s@);
    while k < ids.len()
        invariant
            k <= ids@.len(),
            recs == state.subjects.spec_records(),
            idv == ids@.map_values(|s: String| s@),
            faulted as nat == faulted_count(recs, idv.subrange(0, k as int)),
            faulted <= k,
        decreases ids.len() - k,
    {
        assert(idv.subrange(0, k + 1).drop_last() =~= idv.subrange(0, k as int));
        let counted = match state.subjects.find(ids[k].as_str()) {
            Some(rec) => rec.active_faults.len() > 0,
            None => false,
        };
        if counted {
            faulted += 1;
        }
        k += 1;
    }
    assert(idv.subrange(0, ids@.len() as int) =~= idv);
    state.log.push(
        ExperimentEvent::BlastAffected {
            class: "node",
            affected: faulted as u64,
            total: subject_count as u64,
        },
    );
    assert(state.log.spec_events() =~= e0 + fault_round_events(fault, idv.len(), faulted_count(recs, idv)));
    proof {
        let i = index_of_id(r0, subject_id@);
        if i >= 0 && r0[i].config == handle@ {
            fault_round_counts_faulted_subject(r0, state.subjects.spec_records(), subject_id@, handle@, fault);
        }
    }
}

/// The `CheckRun` event of a check that ran. `outcome` is what the check
/// returned (passed, and an optional message) or the text of the error it
/// raised; an error counts as a failure whose message is prefixed with the
/// kind of check. A passing check carries no message.
pub open spec fn check_event_of(
    kind: CheckKind,
    outcome: Result<(bool, Option<Seq<char>>), Seq<char>>,
) -> (bool, Option<Seq<char>>) {
    let (passed, error) = match outcome {
        Ok((p, m)) => (p, m),
        Err(e) => (
            false,
            Some(
                match kind {
                    CheckKind::Predicate => "predicate error: "@,
                    CheckKind::Invariant => "invariant error: "@,
                } + e,
            ),
        ),
    };
    (passed, if passed { None } else { error })
}

/// A check that raised an error has failed, with the error behind the
/// kind's prefix (`predicate error: ` or `invariant error: `); a check that
/// returned keeps its verdict, and only a failing one keeps its message.
pub proof fn erroring_check_fails(
    kind: CheckKind,
    outcome: Result<(bool, Option<Seq<char>>), Seq<char>>,
)
    ensures
        outcome matches Err(e) ==> !check_event_of(kind, outcome).0 && check_event_of(kind, outcome).1 == Some(
            (if kind == CheckKind::Predicate { "predicate error: "@ } else { "invariant error: "@ }) + e,
        ),
        outcome matches Ok((p, m)) ==> check_event_of(kind, outcome).0 == p && check_event_of(kind, outcome).1 == (
        if p {
            None
        } else {
            m
        }),
        check_event_of(kind, outcome).0 ==> check_event_of(kind, outcome).1 is None,
{
}

/// Build the `CheckRun` event of a check (see [`check_event_of`]).
pub fn check_event(
    kind: CheckKind,
    name: String,
    outcome: Result<(bool, Option<String>), String>,
    fault: Option<String>,
    subject: Option<String>,
    round: Option<usize>,
) -> (ev: ExperimentEvent)
    ensures
        ({
            let spec_outcome = match outcome {
                Ok((p, m)) => Ok((p, opt_text(m))),
                Err(e) => Err(e@),
            };
            let (passed, error) = check_event_of(kind, spec_outcome);
            ev matches ExperimentEvent::CheckRun { kind: k, name: n, passed: p, error: e, fault: f, subject: s, round: r }
                && k == kind && n@ == name@ && p == passed && opt_text(e) == error && opt_text(f) == opt_text(fault)
                && opt_text(s) == opt_text(subject) && r == round
        }),
{
    let (passed, error) = match outcome {
        Ok((p, m)) => (p, m),
        Err(e) => {
            let prefix = match kind {
                CheckKind::Predicate => "predicate error: ",
                CheckKind::Invariant => "invariant error: ",
            };
            (false, Some(join2(prefix, e.as_str())))
        },
    };
    let error = if passed { None } else { error };
    ExperimentEvent::CheckRun { kind, name, passed, error, fault, subject, round }
}

/// Whether an event is a `CheckRun`.
pub open spec fn is_check(ev: ExperimentEvent) -> bool {
    ev is CheckRun
}

/// Append the `CheckRun` events `checks` to the log, in order.
pub fn record_checks(log: &mut EventLog, checks: &Vec<ExperimentEvent>)
    requires
        forall|i: int| 0 <= i < checks@.len() ==> is_check(#[trigger] checks@[i]),
    ensures
        final(log).spec_events() == old(log).spec_events() + checks@,
{
    let mut i: usize = 0;
    while i < checks.len()
        invariant
            i <= checks@.len(),
            forall|j: int| 0 <= j < checks@.len() ==> is_check(#[trigger] checks@[j]),
            log.spec_events() == old(log).spec_events() + checks@.subrange(0, i as int),
        decreases checks.len() - i,
    {
        assert(is_check(checks@[i as int]));
        log.push(checks[i].clone());
        i += 1;
        assert(log.spec_events() =~= old(log).spec_events() + checks@.subrange(0, i as int));
    }
    assert(checks@.subrange(0, checks@.len() as int) =~= checks@);
}

/// Whether the first subject with id `subject_id` has a fault applied:
/// clearing a subject without one records nothing.
pub fn has_active_faults(state: &AppState, subject_id: &str) -> (b: bool)
    ensures
        b == ({
            let recs = state.subjects.spec_records();
            let i = index_of_id(recs, subject_id@);
            i >= 0 && recs[i].active_faults.len() > 0
        }),
{
    match state.subjects.find(subject_id) {
        Some(rec) => rec.active_faults.len() > 0,
        None => false,
    }
}

/// Record a recovery of subject `subject_id` after its faults were cleared
/// on the substrate: forget its faults, log the clear and the recovery,
/// which took `took` and succeeded when `ok`.
pub fn record_recovery(state: &mut AppState, subject_id: &str, ok: bool, took: Duration)
    requires
        metrics_of(old(state).log.spec_events()).can_apply(ExperimentEvent::Recovery { took, ok }),
    ensures
        final(state).configs == old(state).configs,
        final(state).fault_trees == old(state).fault_trees,
        final(state).log.spec_events() == old(state).log.spec_events().push(ExperimentEvent::FaultCleared).push(
            ExperimentEvent::Recovery { took, ok },
        ),
        final(state).subjects.spec_hosts() == old(state).subjects.spec_hosts(),
        final(state).subjects.spec_counter() == old(state).subjects.spec_counter(),
        ({
            let i = index_of_id(old(state).subjects.spec_records(), subject_id@);
            &&& i >= 0 ==> final(state).subjects.spec_records() == old(state).subjects.spec_records().update(
                i,
                RecordView { active_faults: Seq::empty(), faulted_at: None, ..old(state).subjects.spec_records()[i] },
            )
            &&& i == -1 ==> final(state).subjects.spec_records() == old(state).subjects.spec_records()
        }),
{
    let ghost e0 = state.log.spec_events();
    record_faults_cleared(state, subject_id);
    proof {
        crate::log::metrics_of_push(e0, ExperimentEvent::FaultCleared);
    }
    state.log.push(ExperimentEvent::Recovery { took, ok });
}

pub open spec fn unknown_config_message(h: Seq<char>) -> Seq<char> {
    "unknown config '"@ + h + "' \u{2014} pass the handle returned by dstest.config()"@
}

pub open spec fn mismatch_message(h: Seq<char>, wanted: Option<Seq<char>>, built: Seq<char>) -> Seq<char> {
    "substrate mismatch: config '"@ + h + "' wants \""@ + match wanted {
        Some(w) => w,
        None => "<none>"@,
    } + "\" but the engine was built for \""@ + built + "\""@
}

/// Open the hosting of a subject under config `handle` on the substrate
/// named `substrate`: the config must exist and declare that substrate.
/// Returns the name for the new subject.
pub fn begin_setup(state: &mut AppState, handle: &str, substrate: &str) -> (r: Result<String, String>)
    requires
        old(state).subjects.spec_counter() < usize::MAX,
    ensures
        final(state).log == old(state).log,
        final(state).configs == old(state).configs,
        final(state).fault_trees == old(state).fault_trees,
        final(state).subjects.spec_records() == old(state).subjects.spec_records(),
        final(state).subjects.spec_hosts() == old(state).subjects.spec_hosts(),
        ({
            let entries = old(state).configs.spec_entries();
            let i = index_of_handle(entries, handle@);
            if !old(state).configs.spec_handles().contains(handle@) {
                r matches Err(m) && m@ == unknown_config_message(handle@)
                    && final(state).subjects.spec_counter() == old(state).subjects.spec_counter()
            } else if opt_text(entries[i].1.substrate) != Some(substrate@) {
                r matches Err(m) && m@ == mismatch_message(handle@, opt_text(entries[i].1.substrate), substrate@)
                    && final(state).subjects.spec_counter() == old(state).subjects.spec_counter()
            } else {
                &&& r matches Ok(name) && name@ == subject_name(handle@, old(state).subjects.spec_counter() + 1)
                &&& final(state).subjects.spec_counter() == old(state).subjects.spec_counter() + 1
            }
        }),
{
    proof {
        index_of_handle_spec(state.configs.spec_entries(), handle@);
    }
    let cfg = match state.configs.get(handle) {
        Some(c) => c,
        None => {
            return Err(join3("unknown config '", handle, "' \u{2014} pass the handle returned by dstest.config()"));
        },
    };
    proof {
        assert(state.configs.spec_handles().contains(handle@)) by {
            let i = index_of_handle(state.configs.spec_entries(), handle@);
            assert(state.configs.spec_handles()[i] == handle@);
        }
    }
    let matches = match &cfg.substrate {
        Some(s) => str_eq(s.as_str(), substrate),
        None => false,
    };
    if !matches {
        let wanted = match &cfg.substrate {
            Some(s) => s.clone(),
            None => String::from_str("<none>"),
        };
        let a = join3("substrate mismatch: config '", handle, "' wants \"");
        let b = join3(a.as_str(), wanted.as_str(), "\" but the engine was built for \"");
        return Err(join3(b.as_str(), substrate, "\""));
    }
    Ok(state.subjects.next_name(handle))
}

/// Attempts made to see a dependency running before giving up: 60 checks
/// 500 ms apart, 30 s in all.
pub const DEP_WAIT_ATTEMPTS: u64 = 60;

/// Pause between two readiness checks of a dependency, in milliseconds.
pub const DEP_WAIT_INTERVAL_MS: u64 = 500;

/// What to do after one readiness check of a dependency.
pub enum DependencyStep {
    /// The dependency is running.
    Ready,
    /// Sleep for the wait interval, then check again.
    Wait,
    /// Give up with this error.
    Fail(String),
}

/// The readiness wait for one dependency before a subject is hosted.
pub struct DependencyWait {
    pub dep_id: String,
    pub checks_left: u64,
}

impl DependencyWait {
    pub fn new(dep_id: String) -> (w: DependencyWait)
        ensures
            w.dep_id@ == dep_id@,
            w.checks_left == DEP_WAIT_ATTEMPTS,
    {
        DependencyWait { dep_id, checks_left: DEP_WAIT_ATTEMPTS }
    }

    /// Whether another readiness check is to be made.
    pub fn should_check(&self) -> (b: bool)
        ensures
            b == (self.checks_left > 0),
    {
        self.checks_left > 0
    }

    /// The error once every check found the dependency not running:
    /// `dependency <id> not ready after 30s` (the attempts times the
    /// interval, in whole seconds).
    pub fn timeout_error(&self) -> (e: String)
        ensures
            e@ == "dependency "@ + self.dep_id@ + " not ready after "@ + decimal(
                (DEP_WAIT_ATTEMPTS * DEP_WAIT_INTERVAL_MS / 1000) as nat,
            ) + "s"@,
    {
        let secs = DEP_WAIT_ATTEMPTS * DEP_WAIT_INTERVAL_MS / 1000;
        let digits = u64_text(secs);
        let a = join3("dependency ", self.dep_id.as_str(), " not ready after ");
        join3(a.as_str(), digits.as_str(), "s")
    }

    /// Decide after one readiness check: running is ready; terminated is
    /// an error; anything else (including a failed check) uses up one check
    /// and waits.
    pub fn observe(&mut self, status: Result<SubjectStatus, String>) -> (step: DependencyStep)
        requires
            old(self).checks_left > 0,
        ensures
            final(self).dep_id == old(self).dep_id,
            match status {
                Ok(SubjectStatus::Running) => step is Ready && final(self).checks_left == old(self).checks_left,
                Ok(SubjectStatus::Terminated) => step matches DependencyStep::Fail(e) && e@ == "dependency "@
                    + old(self).dep_id@ + " has terminated"@ && final(self).checks_left == old(self).checks_left,
                _ => step is Wait && final(self).checks_left == old(self).checks_left - 1,
            },
    {
        match status {
            Ok(SubjectStatus::Running) => DependencyStep::Ready,
            Ok(SubjectStatus::Terminated) => DependencyStep::Fail(
                join3("dependency ", self.dep_id.as_str(), " has terminated"),
            ),
            _ => {
                self.checks_left -= 1;
                DependencyStep::Wait
            },
        }
    }
}

/// Finish hosting a subject: it is known as `<substrate>/<instance id>`,
/// recorded under config `handle` with name `name` and its address, and the
/// hosting is logged. Returns the subject id.
pub fn finish_setup(
    state: &mut AppState,
    handle: String,
    name: String,
    substrate: &str,
    hosted: HostedSubject,
) -> (id: String)
    ensures
        id@ == substrate@ + "/"@ + hosted.id@,
        final(state).configs == old(state).configs,
        final(state).fault_trees == old(state).fault_trees,
        final(state).log.spec_events() == old(state).log.spec_events().push(ExperimentEvent::SubjectHosted),
        final(state).subjects.spec_records() == old(state).subjects.spec_records().push(
            RecordView {
                id: id@,
                name: name@,
                config: handle@,
                active_faults: Seq::empty(),
                faulted_at: None,
            },
        ),
        final(state).subjects.spec_hosts() == (match hosted.addr {
            Some(a) => old(state).subjects.spec_hosts().insert(id@, a@),
            None => old(state).subjects.spec_hosts(),
        }),
        final(state).subjects.spec_counter() == old(state).subjects.spec_counter(),
{
    let subject_id = join3(substrate, "/", hosted.id.as_str());
    let record = SubjectRecord {
        id: subject_id.clone(),
        name,
        config: handle,
        active_faults: Vec::new(),
        faulted_at: None,
    };
    assert(record@.active_faults =~= Seq::<Fault>::empty());
    state.subjects.add(record, hosted.addr);
    state.log.push(ExperimentEvent::SubjectHosted);
    subject_id
}

/// Log that a subject was torn down.
pub fn record_torn_down(state: &mut AppState)
    ensures
        final(state).configs == old(state).configs,
        final(state).fault_trees == old(state).fault_trees,
        final(state).subjects == old(state).subjects,
        final(state).log.spec_events() == old(state).log.spec_events().push(ExperimentEvent::SubjectTornDown),
{
    state.log.push(ExperimentEvent::SubjectTornDown);
}

/// A config must declare its substrate.
pub fn require_substrate(cfg: &Config) -> (r: Result<(), String>)
    ensures
        match r {
            Ok(()) => cfg.substrate is Some,
            Err(e) => cfg.substrate is None && e@ == "dstest.config requires a `substrate` field"@,
        },
{
    match &cfg.substrate {
        Some(_) => Ok(()),
        None => Err(String::from_str("dstest.config requires a `substrate` field")),
    }
}

/// Register a config under `name`, or under a generated unique handle when
/// no name is given; a handle may be registered once. The registration is
/// logged. Returns the handle.
pub fn register_config(state: &mut AppState, name: Option<String>, cfg: Config) -> (r: Result<String, String>)
    requires
        cfg.weights_sorted(),
    ensures
        final(state).subjects == old(state).subjects,
        final(state).fault_trees == old(state).fault_trees,
        ({
            let handles = old(state).configs.spec_handles();
            match r {
                Ok(h) => {
                    &&& !handles.contains(h@)
                    &&& name matches Some(n) ==> h@ == n@
                    &&& name is None ==> exists|m: nat| {
                        &&& m >= handles.len() + 1
                        &&& h@ == config_handle(m)
                        &&& forall|k: nat| handles.len() + 1 <= k < m ==> #[trigger] handles.contains(config_handle(k))
                    }
                    &&& final(state).configs.spec_entries() == old(state).configs.spec_entries().push((h@, cfg))
                    &&& final(state).log.spec_events() == old(state).log.spec_events().push(ExperimentEvent::ConfigRegistered)
                },
                Err(e) => {
                    &&& name matches Some(n) && handles.contains(n@) && e@ == "config '"@ + n@ + "' already exists"@
                    &&& final(state).configs == old(state).configs
                    &&& final(state).log == old(state).log
                },
            }
        }),
{
    let handle = match name {
        Some(n) => n,
        None => state.configs.unique_handle(),
    };
    if state.configs.contains(handle.as_str()) {
        return Err(join3("config '", handle.as_str(), "' already exists"));
    }
    proof {
        index_of_handle_spec(state.configs.spec_entries(), handle@);
        if index_of_handle(state.configs.spec_entries(), handle@) >= 0 {
            assert(state.configs.spec_handles()[index_of_handle(state.configs.spec_entries(), handle@)] == handle@);
        }
    }
    state.configs.register(handle.clone(), cfg);
    state.log.push(ExperimentEvent::ConfigRegistered);
    Ok(handle)
}

/// The error when a run asks for a second substrate: the first one
/// declared fixes the substrate for the whole run. `None` when the names
/// agree.
pub fn substrate_conflict(resolved: &str, requested: &str) -> (r: Option<String>)
    ensures
        resolved@ == requested@ ==> r is None,
        resolved@ != requested@ ==> (r matches Some(e) && e@ == "substrate already resolved to '"@
            + resolved@ + "'; cannot use '"@ + requested@ + "' in the same run"@),
{
    if str_eq(resolved, requested) {
        None
    } else {
        let a = join3("substrate already resolved to '", resolved, "'; cannot use '");
        Some(join3(a.as_str(), requested, "' in the same run"))
    }
}

/// The position of the substrate named `name` among the registered names,
/// or the error listing the registered ones.
pub fn find_substrate(names: &Vec<String>, name: &str) -> (r: Result<usize, String>)
    ensures
        match r {
            Ok(i) => i < names@.len() && names@[i as int]@ == name@ && forall|j: int| 0 <= j < i ==> names@[j]@ != name@,
            Err(e) => (forall|j: int| 0 <= j < names@.len() ==> names@[j]@ != name@) && e@ == "unknown substrate '"@
                + name@ + "' (registered: "@ + crate::text::seq_join(names@.map_values(|n: String| n@), ", "@) + ")"@,
        },
{
    let mut i: usize = 0;
    while i < names.len()
        invariant
            i <= names@.len(),
            forall|j: int| 0 <= j < i ==> names@[j]@ != name@,
        decreases names.len() - i,
    {
        if str_eq(names[i].as_str(), name) {
            return Ok(i);
        }
        i += 1;
    }
    let listed = crate::text::join_with(names, ", ");
    let a = join3("unknown substrate '", name, "' (registered: ");
    Err(join3(a.as_str(), listed.as_str(), ")"))
}

/// Where and how to reach a subject over HTTP: its address and the HTTP
/// settings of the config it was set up under.
pub struct HttpTarget {
    pub host: String,
    pub timeout_secs: u64,
    pub retries: u32,
    pub retry_delay_ms: u64,
}

/// The config a subject was set up under, when the subject and its config
/// are known.
pub open spec fn subject_config_of(state: AppState, id: Seq<char>) -> Option<Config> {
    let records = state.subjects.spec_records();
    let i = index_of_id(records, id);
    if i < 0 {
        None
    } else {
        let h = records[i].config;
        let j = index_of_handle(state.configs.spec_entries(), h);
        if j < 0 {
            None
        } else {
            Some(state.configs.spec_entries()[j].1)
        }
    }
}

/// The error when a subject or its config is unknown.
pub open spec fn subject_config_error(state: AppState, id: Seq<char>) -> Seq<char> {
    let records = state.subjects.spec_records();
    let i = index_of_id(records, id);
    if i < 0 {
        "unknown subject "@ + id
    } else {
        "subject "@ + id + " has unknown config '"@ + records[i].config + "'"@
    }
}

fn subject_config<'a>(state: &'a AppState, id: &str) -> (r: Result<&'a Config, String>)
    ensures
        match r {
            Ok(c) => subject_config_of(*state, id@) == Some(*c),
            Err(e) => subject_config_of(*state, id@) is None && e@ == subject_config_error(*state, id@),
        },
{
    proof {
        index_of_id_spec(state.subjects.spec_records(), id@);
    }
    let config = match state.subjects.config_for(id) {
        Some(c) => c,
        None => return Err(join2("unknown subject ", id)),
    };
    proof {
        index_of_handle_spec(state.configs.spec_entries(), config@);
    }
    match state.configs.get(config) {
        Some(cfg) => Ok(cfg),
        None => {
            proof {
                let j = index_of_handle(state.configs.spec_entries(), config@);
                if j >= 0 {
                    assert(state.configs.spec_handles()[j] == config@);
                }
            }
            let a = join3("subject ", id, " has unknown config '");
            Err(join2(a.as_str(), config).concat("'"))
        },
    }
}

/// The HTTP target of a subject: its recorded address (`subject <id> has
/// no address` without one), then its config (see
/// [`subject_config_error`] for the errors).
pub fn resolve_subject_http(state: &AppState, id: &str) -> (r: Result<HttpTarget, String>)
    ensures
        match r {
            Ok(t) => {
                &&& state.subjects.spec_hosts().contains_key(id@)
                &&& t.host@ == state.subjects.spec_hosts()[id@]
                &&& subject_config_of(*state, id@) matches Some(c)
                &&& t.timeout_secs == c.http_timeout_secs
                &&& t.retries == c.http_retries
                &&& t.retry_delay_ms == c.http_retry_delay_ms
            },
            Err(e) => if !state.subjects.spec_hosts().contains_key(id@) {
                e@ == "subject "@ + id@ + " has no address"@
            } else {
                subject_config_of(*state, id@) is None && e@ == subject_config_error(*state, id@)
            },
        },
{
    let host = match state.subjects.host_for(id) {
        Some(h) => String::from_str(h),
        None => return Err(join3("subject ", id, " has no address")),
    };
    match subject_config(state, id) {
        Ok(cfg) => Ok(
            HttpTarget {
                host,
                timeout_secs: cfg.http_timeout_secs,
                retries: cfg.http_retries,
                retry_delay_ms: cfg.http_retry_delay_ms,
            },
        ),
        Err(e) => Err(e),
    }
}

/// `host` up to its first `:` (all of it when it has none).
pub open spec fn host_part(host: Seq<char>) -> Seq<char>
    decreases host.len(),
{
    if host.len() == 0 {
        host
    } else if host.last() == ':' && !host.drop_last().contains(':') {
        host.drop_last()
    } else if host.drop_last().contains(':') {
        host_part(host.drop_last())
    } else {
        host
    }
}

fn host_part_of(host: &str) -> (r: String)
    ensures
        r@ == host_part(host@),
{
    let v = crate::text::chars_of(host);
    let mut out: Vec<char> = Vec::new();
    let mut i: usize = 0;
    while i < v.len() && v[i] != ':'
        invariant
            i <= v@.len(),
            v@ == host@,
            out@ == host@.subrange(0, i as int),
            !out@.contains(':'),
        decreases v.len() - i,
    {
        out.push(v[i]);
        i += 1;
        assert(out@ =~= host@.subrange(0, i as int));
    }
    proof {
        lemma_host_part(host@, i as int);
    }
    crate::text::string_of(&out)
}

/// The part of a host before the first `:` is the text before the first
/// `:`.
proof fn lemma_host_part(host: Seq<char>, i: int)
    requires
        0 <= i <= host.len(),
        !host.subrange(0, i).contains(':'),
        i < host.len() ==> host[i] == ':',
    ensures
        host_part(host) == host.subrange(0, i),
    decreases host.len(),
{
    if host.len() == 0 {
    } else if i == host.len() {
        assert(host.subrange(0, i) =~= host);
        assert(!host.drop_last().contains(':')) by {
            if host.drop_last().contains(':') {
                let k = choose|k: int| 0 <= k < host.drop_last().len() && host.drop_last()[k] == ':';
                assert(host.subrange(0, i)[k] == ':');
            }
        }
        assert(host.last() != ':') by {
            assert(host.subrange(0, i)[i - 1] == host.last());
        }
    } else {
        if i == host.len() - 1 {
            assert(host.drop_last() =~= host.subrange(0, i));
        } else {
            assert(host.drop_last().contains(':')) by {
                assert(host.drop_last()[i] == ':');
            }
            assert(host.drop_last().subrange(0, i) =~= host.subrange(0, i));
            lemma_host_part(host.drop_last(), i);
        }
    }
}

/// The TCP address of a subject's `port` on the host part of its recorded
/// address, with the subject's config timeout.
pub fn resolve_subject_tcp(state: &AppState, id: &str, port: u16) -> (r: Result<(String, u64), String>)
    ensures
        match r {
            Ok((addr, timeout)) => {
                &&& state.subjects.spec_hosts().contains_key(id@)
                &&& addr@ == host_part(state.subjects.spec_hosts()[id@]) + ":"@ + decimal(port as nat)
                &&& subject_config_of(*state, id@) matches Some(c)
                &&& timeout == c.http_timeout_secs
            },
            Err(e) => if !state.subjects.spec_hosts().contains_key(id@) {
                e@ == "unknown subject "@ + id@ + " (or no address)"@
            } else {
                subject_config_of(*state, id@) is None && e@ == subject_config_error(*state, id@)
            },
        },
{
    let host = match state.subjects.host_for(id) {
        Some(h) => h,
        None => return Err(join3("unknown subject ", id, " (or no address)")),
    };
    match subject_config(state, id) {
        Ok(cfg) => {
            let ip = host_part_of(host);
            let p = u64_text(port as u64);
            Ok((join3(ip.as_str(), ":", p.as_str()), cfg.http_timeout_secs))
        },
        Err(e) => Err(e),
    }
}

/// The exit status of a finished run: 2 when checks ran and some failed,
/// else 0.
pub fn run_exit_code(report: &OracleReport) -> (code: i32)
    ensures
        code == if report.total_checks > 0 && !report.passed {
            2i32
        } else {
            0i32
        },
{
    if report.total_checks > 0 && !report.passed {
        2
    } else {
        0
    }
}

/// What a check function returned: a flag, a `{passed, message?}` table,
/// or a value of another type (by its type name).
pub enum CheckReturn {
    Flag(bool),
    Table(bool, Option<String>),
    Other(String),
}

/// The outcome of a predicate (or invariant, `kind`) from what it returned:
/// passed with no message for a flag, passed and message for a table, an
/// error for anything else.
pub fn check_outcome(kind: &str, ret: CheckReturn) -> (r: Result<(bool, Option<String>), String>)
    ensures
        match ret {
            CheckReturn::Flag(b) => r matches Ok((p, None)) && p == b,
            CheckReturn::Table(b, m) => r matches Ok((p, m2)) && p == b && opt_text(m2) == opt_text(m),
            CheckReturn::Other(t) => r matches Err(e) && e@ == kind@
                + " must return boolean or {passed, message?}, got \""@ + t@ + "\""@,
        },
{
    match ret {
        CheckReturn::Flag(b) => Ok((b, None)),
        CheckReturn::Table(b, m) => Ok((b, m)),
        CheckReturn::Other(t) => {
            let a = join3(kind, " must return boolean or {passed, message?}, got \"", t.as_str());
            Err(join2(a.as_str(), "\""))
        },
    }
}

} // verus!

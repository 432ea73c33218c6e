//! The fault model: what can be done to a subject, and the seeded schedule
//! of faults a config produces.
use vstd::prelude::*;

use rand::rngs::StdRng;

use crate::config::{Config, WeightEntry};
use crate::rng::{below, seeded, seeded_stream, usize_draw};
use crate::text::{
    all_ascii, ascii_lower_seq, eq_ignore_ascii_case, err_view, join2, str_eq, strip_prefix,
    to_unicode_lower, unicode_lower,
};

verus! {

/// A resource a subject can be deprived of.
#[derive(Clone, Copy, Debug, PartialEq, Eq, Structural)]
pub enum Tier {
    Disk,
    Network,
    Memory,
    Cpu,
}

impl Tier {
    /// Display name of a tier.
    pub open spec fn spec_name(self) -> Seq<char> {
        match self {
            Tier::Disk => "disk"@,
            Tier::Network => "network"@,
            Tier::Memory => "memory"@,
            Tier::Cpu => "cpu"@,
        }
    }

    /// The tier named by already lower-cased text, if any.
    pub open spec fn spec_from_lowercase(lower: Seq<char>) -> Option<Tier> {
        if lower == "disk"@ {
            Some(Tier::Disk)
        } else if lower == "network"@ {
            Some(Tier::Network)
        } else if lower == "memory"@ {
            Some(Tier::Memory)
        } else if lower == "cpu"@ {
            Some(Tier::Cpu)
        } else {
            None
        }
    }

    /// Parsing a tier: the Unicode lower-cased text must name one.
    pub open spec fn spec_parse(s: Seq<char>) -> Result<Tier, Seq<char>> {
        match Self::spec_from_lowercase(unicode_lower(s)) {
            Some(t) => Ok(t),
            None => Err("unknown tier: "@ + s),
        }
    }

    /// Parsing a tier from ASCII text, where Unicode and ASCII lower-casing
    /// agree.
    pub open spec fn spec_parse_ascii(s: Seq<char>) -> Result<Tier, Seq<char>> {
        match Self::spec_from_lowercase(ascii_lower_seq(s)) {
            Some(t) => Ok(t),
            None => Err("unknown tier: "@ + s),
        }
    }

    /// The display name of the tier (`disk`, `network`, `memory`, `cpu`).
    pub fn to_string(&self) -> (s: String)
        ensures
            s@ == self.spec_name(),
    {
        match self {
            Tier::Disk => String::from_str("disk"),
            Tier::Network => String::from_str("network"),
            Tier::Memory => String::from_str("memory"),
            Tier::Cpu => String::from_str("cpu"),
        }
    }

    /// The tier named by `lower`, which the caller has lower-cased.
    pub fn from_lowercase(lower: &str) -> (r: Option<Tier>)
        ensures
            r == Self::spec_from_lowercase(lower@),
    {
        if str_eq(lower, "disk") {
            Some(Tier::Disk)
        } else if str_eq(lower, "network") {
            Some(Tier::Network)
        } else if str_eq(lower, "memory") {
            Some(Tier::Memory)
        } else if str_eq(lower, "cpu") {
            Some(Tier::Cpu)
        } else {
            None
        }
    }

    /// Parse a tier name, case-insensitively.
    pub fn from_str(s: &str) -> (r: Result<Tier, String>)
        ensures
            err_view(r) == Self::spec_parse(s@),
            all_ascii(s@) ==> err_view(r) == Self::spec_parse_ascii(s@),
    {
        let lower = to_unicode_lower(s);
        match Self::from_lowercase(lower.as_str()) {
            Some(t) => Ok(t),
            None => Err(join2("unknown tier: ", s)),
        }
    }
}

/// A fault applied to a subject.
#[derive(Clone, Copy, Debug, PartialEq, Eq, Structural)]
pub enum Fault {
    Pause,
    Kill,
    Deprive(Tier),
}

impl Fault {
    /// Display name of a fault: `pause`, `kill`, or `deprive:<tier>`.
    pub open spec fn spec_name(self) -> Seq<char> {
        match self {
            Fault::Pause => "pause"@,
            Fault::Kill => "kill"@,
            Fault::Deprive(t) => "deprive:"@ + t.spec_name(),
        }
    }

    /// Parsing a fault name: `pause` and `kill` match ASCII
    /// case-insensitively; `deprive:` (exactly) followed by a tier name.
    pub open spec fn spec_parse(s: Seq<char>) -> Result<Fault, Seq<char>> {
        if ascii_lower_seq(s) == ascii_lower_seq("pause"@) {
            Ok(Fault::Pause)
        } else if ascii_lower_seq(s) == ascii_lower_seq("kill"@) {
            Ok(Fault::Kill)
        } else if "deprive:"@.is_prefix_of(s) {
            match Tier::spec_parse(s.subrange("deprive:"@.len() as int, s.len() as int)) {
                Ok(t) => Ok(Fault::Deprive(t)),
                Err(e) => Err(e),
            }
        } else {
            Err("unknown fault type: "@ + s)
        }
    }

    /// Parsing a fault name from ASCII text (see [`Fault::spec_parse`]).
    pub open spec fn spec_parse_ascii(s: Seq<char>) -> Result<Fault, Seq<char>> {
        if ascii_lower_seq(s) == ascii_lower_seq("pause"@) {
            Ok(Fault::Pause)
        } else if ascii_lower_seq(s) == ascii_lower_seq("kill"@) {
            Ok(Fault::Kill)
        } else if "deprive:"@.is_prefix_of(s) {
            match Tier::spec_parse_ascii(s.subrange("deprive:"@.len() as int, s.len() as int)) {
                Ok(t) => Ok(Fault::Deprive(t)),
                Err(e) => Err(e),
            }
        } else {
            Err("unknown fault type: "@ + s)
        }
    }

    /// The display name of the fault (see [`Fault::spec_name`]).
    pub fn to_string(&self) -> (s: String)
        ensures
            s@ == self.spec_name(),
    {
        match self {
            Fault::Pause => String::from_str("pause"),
            Fault::Kill => String::from_str("kill"),
            Fault::Deprive(t) => {
                let name = t.to_string();
                join2("deprive:", name.as_str())
            },
        }
    }

    /// Parse a fault name (see [`Fault::spec_parse`]).
    pub fn from_str(s: &str) -> (r: Result<Fault, String>)
        ensures
            err_view(r) == Self::spec_parse(s@),
            all_ascii(s@) ==> err_view(r) == Self::spec_parse_ascii(s@),
    {
        if eq_ignore_ascii_case(s, "pause") {
            Ok(Fault::Pause)
        } else if eq_ignore_ascii_case(s, "kill") {
            Ok(Fault::Kill)
        } else {
            match strip_prefix(s, "deprive:") {
                Some(rest) => {
                    assert(rest@ =~= s@.subrange("deprive:"@.len() as int, s@.len() as int));
                    assert(all_ascii(s@) ==> all_ascii(rest@));
                    match Tier::from_str(rest) {
                        Ok(t) => Ok(Fault::Deprive(t)),
                        Err(e) => Err(e),
                    }
                },
                None => Err(join2("unknown fault type: ", s)),
            }
        }
    }
}

/// A fault with its selection weight. The weight is a 32-bit
/// floating-point number held by its IEEE-754 bit pattern.
#[derive(Clone, Copy, Debug, PartialEq, Eq, Structural)]
pub struct WeightedFault {
    pub fault: Fault,
    pub weight_bits: u32,
}

impl WeightedFault {
    pub fn new(fault: Fault, weight_bits: u32) -> (w: WeightedFault)
        ensures
            w == (WeightedFault { fault, weight_bits }),
    {
        WeightedFault { fault, weight_bits }
    }
}

/// The weighted fault table of a list of fault weights: the entries whose
/// name parses as a fault, in the order given.
pub open spec fn weighted_of(entries: Seq<(Seq<char>, u32)>) -> Seq<WeightedFault>
    decreases entries.len(),
{
    if entries.len() == 0 {
        Seq::empty()
    } else {
        let rest = weighted_of(entries.drop_last());
        match Fault::spec_parse(entries.last().0) {
            Ok(f) => rest.push(WeightedFault { fault: f, weight_bits: entries.last().1 }),
            Err(_) => rest,
        }
    }
}

/// One step of a fault schedule.
pub struct StepResult {
    pub fault: Fault,
    pub subject_id: String,
    pub round: usize,
    pub total_rounds: usize,
    pub remaining: usize,
    pub more: bool,
}

/// The seeded fault schedule of one config: which fault hits which subject
/// at each round.
///
/// The weighted choice of a fault is made on floating-point weights and is
/// done by the caller (see [`FaultTree::fault_without_draw`] and
/// [`FaultTree::rng_mut`]); the tree owns the generator, the subjects, the
/// weighted table and the round counter, and draws the subject.
pub struct FaultTree {
    weighted_faults: Vec<WeightedFault>,
    subjects: Vec<String>,
    rng: StdRng,
    total_steps: usize,
    current_step: usize,
}

impl FaultTree {
    pub closed spec fn spec_weighted(&self) -> Seq<WeightedFault> {
        self.weighted_faults@
    }

    pub closed spec fn spec_subjects(&self) -> Seq<Seq<char>> {
        self.subjects@.map_values(|s: String| s@)
    }

    pub closed spec fn spec_total(&self) -> nat {
        self.total_steps as nat
    }

    pub closed spec fn spec_current(&self) -> nat {
        self.current_step as nat
    }

    pub closed spec fn spec_rng(&self) -> StdRng {
        self.rng
    }

    /// Steps the schedule still yields.
    pub open spec fn spec_remaining(&self) -> nat {
        if self.spec_subjects().len() == 0 || self.spec_current() >= self.spec_total() {
            0
        } else {
            (self.spec_total() - self.spec_current()) as nat
        }
    }

    /// The subject draw of a step: an index below the number of subjects
    /// from the tree's generator, and the generator after it.
    pub open spec fn subject_draw(t: FaultTree) -> (usize, StdRng) {
        usize_draw(t.spec_rng(), t.spec_subjects().len() as usize, usize::BITS)
    }

    /// Taking a step with `fault` turns `before` into `after` and gives `r`:
    /// the weights, subjects and length of the schedule stay; an exhausted
    /// schedule (or one without subjects) gives `None` and stays as it is;
    /// otherwise the round advances by one and `r` names `fault`, the
    /// subject that the generator draws (see [`FaultTree::subject_draw`]),
    /// the new round and what remains.
    pub open spec fn stepped(before: FaultTree, after: FaultTree, fault: Fault, r: Option<StepResult>) -> bool {
        &&& after.spec_weighted() == before.spec_weighted()
        &&& after.spec_subjects() == before.spec_subjects()
        &&& after.spec_total() == before.spec_total()
        &&& before.spec_remaining() == 0 ==> r is None && after == before
        &&& before.spec_remaining() > 0 ==> {
            &&& after.spec_current() == before.spec_current() + 1
            &&& after.spec_remaining() == before.spec_remaining() - 1
            &&& after.spec_rng() == FaultTree::subject_draw(before).1
            &&& r matches Some(s) && {
                &&& s.fault == fault
                &&& before.spec_subjects().contains(s.subject_id@)
                &&& s.subject_id@ == before.spec_subjects()[FaultTree::subject_draw(before).0 as int]
                &&& s.round == before.spec_current() + 1
                &&& s.total_rounds == before.spec_total()
                &&& s.remaining == before.spec_total() - (before.spec_current() + 1)
                &&& s.more == (before.spec_current() + 1 < before.spec_total())
            }
        }
    }

    /// A fresh schedule of `config.steps` rounds over `subjects`, drawing
    /// from a generator seeded with `seed`. The config's weights are sorted
    /// by name, so the weighted table is in name order.
    pub fn new(seed: u64, subjects: Vec<String>, config: &Config) -> (t: FaultTree)
        requires
            config.weights_sorted(),
        ensures
            t.spec_weighted() == weighted_of(config.spec_weights()),
            t.spec_subjects() == subjects@.map_values(|s: String| s@),
            t.spec_total() == config.steps,
            t.spec_current() == 0,
            t.spec_rng() == seeded_stream(seed),
    {
        let rng = seeded(seed);
        let total_steps = config.steps;
        let weighted_faults = Self::build_weighted_faults(&config.fault_weights);
        FaultTree { weighted_faults, subjects, rng, total_steps, current_step: 0 }
    }

    /// Build the weighted fault table: entries whose name is a fault, in
    /// the order given (the config keeps them sorted by name, so the table
    /// is identical on every run).
    pub fn build_weighted_faults(weights: &Vec<WeightEntry>) -> (w: Vec<WeightedFault>)
        ensures
            w@ == weighted_of(weights@.map_values(|e: WeightEntry| (e.name@, e.weight_bits))),
    {
        let ghost entries = weights@.map_values(|e: WeightEntry| (e.name@, e.weight_bits));
        let mut out: Vec<WeightedFault> = Vec::new();
        let mut i: usize = 0;
        while i < weights.len()
            invariant
                i <= weights@.len(),
                entries == weights@.map_values(|e: WeightEntry| (e.name@, e.weight_bits)),
                out@ == weighted_of(entries.subrange(0, i as int)),
            decreases weights.len() - i,
        {
            assert(entries.subrange(0, i + 1).drop_last() =~= entries.subrange(0, i as int));
            let entry = &weights[i];
            if let Ok(fault) = Fault::from_str(entry.name.as_str()) {
                out.push(WeightedFault::new(fault, entry.weight_bits));
            }
            i += 1;
        }
        assert(entries.subrange(0, weights@.len() as int) =~= entries);
        out
    }

    /// Whether the schedule yields another step.
    pub fn has_next(&self) -> (b: bool)
        ensures
            b == (self.spec_remaining() > 0),
    {
        self.current_step < self.total_steps && self.subjects.len() > 0
    }

    /// The weighted fault table.
    pub fn weighted_faults(&self) -> (w: &Vec<WeightedFault>)
        ensures
            w@ == self.spec_weighted(),
    {
        &self.weighted_faults
    }

    /// The fault of the next step when no weighted draw is made: `pause`
    /// when the weighted table is empty; `None` when the fault must be drawn
    /// by weight from the tree's generator.
    pub fn fault_without_draw(&self) -> (f: Option<Fault>)
        ensures
            f == (if self.spec_weighted().len() == 0 {
                Some(Fault::Pause)
            } else {
                None::<Fault>
            }),
    {
        if self.weighted_faults.len() == 0 {
            Some(Fault::Pause)
        } else {
            None
        }
    }

    /// The tree's generator, for the weighted fault draw. Only the generator
    /// can change through it.
    pub fn rng_mut(&mut self) -> (r: &mut StdRng)
        ensures
            *r == old(self).spec_rng(),
            final(self).spec_rng() == *final(r),
            final(self).spec_weighted() == old(self).spec_weighted(),
            final(self).spec_subjects() == old(self).spec_subjects(),
            final(self).spec_total() == old(self).spec_total(),
            final(self).spec_current() == old(self).spec_current(),
    {
        &mut self.rng
    }

    /// Take the next step with `fault`: draw a subject and advance the round.
    /// `None` once the schedule is exhausted (or has no subjects), with the
    /// tree unchanged.
    pub fn step(&mut self, fault: Fault) -> (r: Option<StepResult>)
        ensures
            FaultTree::stepped(*old(self), *final(self), fault, r),
    {
        if self.current_step >= self.total_steps || self.subjects.len() == 0 {
            return None;
        }
        let idx = below(&mut self.rng, self.subjects.len());
        let subject_id = self.subjects[idx].clone();
        assert(self.spec_subjects()[idx as int] == subject_id@);
        self.current_step += 1;
        Some(
            StepResult {
                fault,
                subject_id,
                round: self.current_step,
                total_rounds: self.total_steps,
                remaining: self.total_steps - self.current_step,
                more: self.current_step < self.total_steps,
            },
        )
    }
}

/// `trees[k + 1]` is `trees[k]` stepped with `faults[k]`, giving
/// `results[k]`, for every step `k`.
pub open spec fn step_chain(trees: Seq<FaultTree>, faults: Seq<Fault>, results: Seq<Option<StepResult>>) -> bool {
    &&& trees.len() == faults.len() + 1
    &&& results.len() == faults.len()
    &&& forall|k: int| 0 <= k < faults.len() ==> #[trigger] FaultTree::stepped(trees[k], trees[k + 1], faults[k], results[k])
}

/// The state of a chain of steps after `k` of them.
proof fn step_chain_at(trees: Seq<FaultTree>, faults: Seq<Fault>, results: Seq<Option<StepResult>>, k: int)
    requires
        step_chain(trees, faults, results),
        0 <= k < trees.len(),
    ensures
        trees[k].spec_subjects() == trees[0].spec_subjects(),
        trees[k].spec_weighted() == trees[0].spec_weighted(),
        trees[k].spec_total() == trees[0].spec_total(),
        trees[k].spec_remaining() == if k <= trees[0].spec_remaining() { trees[0].spec_remaining() - k } else { 0 },
        trees[k].spec_current() == trees[0].spec_current() + if k <= trees[0].spec_remaining() { k } else { trees[0].spec_remaining() as int },
    decreases k,
{
    if k > 0 {
        let j = k - 1;
        step_chain_at(trees, faults, results, j);
        assert(FaultTree::stepped(trees[j], trees[j + 1], faults[j], results[j]));
    }
}

/// A fault schedule, stepped call after call, keeps its subjects, weights
/// and length; it yields a step on exactly its first `remaining` calls, each
/// naming one of its subjects at the next round, and nothing after that.
pub proof fn schedule_across_steps(trees: Seq<FaultTree>, faults: Seq<Fault>, results: Seq<Option<StepResult>>)
    requires
        step_chain(trees, faults, results),
    ensures
        forall|k: int| 0 <= k < trees.len() ==> (#[trigger] trees[k]).spec_subjects() == trees[0].spec_subjects()
            && trees[k].spec_weighted() == trees[0].spec_weighted() && trees[k].spec_total() == trees[0].spec_total(),
        forall|k: int| 0 <= k < results.len() ==> ((#[trigger] results[k]) is Some <==> k < trees[0].spec_remaining()),
        forall|k: int| 0 <= k < results.len() && (#[trigger] results[k]) is Some ==> {
            &&& trees[0].spec_subjects().contains(results[k]->0.subject_id@)
            &&& results[k]->0.fault == faults[k]
            &&& results[k]->0.round == trees[0].spec_current() + k + 1
        },
{
    assert forall|k: int| 0 <= k < trees.len() implies (#[trigger] trees[k]).spec_subjects() == trees[0].spec_subjects()
        && trees[k].spec_weighted() == trees[0].spec_weighted() && trees[k].spec_total() == trees[0].spec_total() by {
        step_chain_at(trees, faults, results, k);
    }
    assert forall|k: int| 0 <= k < results.len() implies ((#[trigger] results[k]) is Some <==> k < trees[0].spec_remaining()) by {
        step_chain_at(trees, faults, results, k);
        assert(FaultTree::stepped(trees[k], trees[k + 1], faults[k], results[k]));
    }
    assert forall|k: int| 0 <= k < results.len() && (#[trigger] results[k]) is Some implies {
        &&& trees[0].spec_subjects().contains(results[k]->0.subject_id@)
        &&& results[k]->0.fault == faults[k]
        &&& results[k]->0.round == trees[0].spec_current() + k + 1
    } by {
        step_chain_at(trees, faults, results, k);
        assert(FaultTree::stepped(trees[k], trees[k + 1], faults[k], results[k]));
    }
}

/// Same seed, same schedule: two schedules in the same state (such as two
/// made by [`FaultTree::new`] from the same seed, subjects and config),
/// stepped with the same fault, give the same step and stay in the same
/// state as each other.
pub proof fn same_state_same_step(
    a: FaultTree,
    a2: FaultTree,
    b: FaultTree,
    b2: FaultTree,
    fault: Fault,
    ra: Option<StepResult>,
    rb: Option<StepResult>,
)
    requires
        FaultTree::stepped(a, a2, fault, ra),
        FaultTree::stepped(b, b2, fault, rb),
        a.spec_rng() == b.spec_rng(),
        a.spec_subjects() == b.spec_subjects(),
        a.spec_current() == b.spec_current(),
        a.spec_total() == b.spec_total(),
    ensures
        ra is Some <==> rb is Some,
        ra is Some ==> ra->0.subject_id@ == rb->0.subject_id@ && ra->0.fault == rb->0.fault && ra->0.round
            == rb->0.round && ra->0.remaining == rb->0.remaining && ra->0.more == rb->0.more,
        a2.spec_rng() == b2.spec_rng(),
        a2.spec_subjects() == b2.spec_subjects(),
        a2.spec_current() == b2.spec_current(),
        a2.spec_total() == b2.spec_total(),
{
}

/// Reading back the name of any tier gives the same tier, and names are
/// ASCII (so `Tier::from_str` reads them as [`Tier::spec_parse_ascii`]).
pub proof fn tier_name_round_trip(t: Tier)
    ensures
        all_ascii(t.spec_name()),
        Tier::spec_parse_ascii(t.spec_name()) == Ok::<Tier, Seq<char>>(t),
{
    reveal_strlit("disk");
    reveal_strlit("network");
    reveal_strlit("memory");
    reveal_strlit("cpu");
    let n = t.spec_name();
    assert(ascii_lower_seq(n) =~= n);
}

/// Reading back the name of any fault gives the same fault, and names are
/// ASCII (so `Fault::from_str` reads them as [`Fault::spec_parse_ascii`]).
pub proof fn fault_name_round_trip(f: Fault)
    ensures
        all_ascii(f.spec_name()),
        Fault::spec_parse_ascii(f.spec_name()) == Ok::<Fault, Seq<char>>(f),
{
    reveal_strlit("pause");
    reveal_strlit("kill");
    reveal_strlit("deprive:");
    reveal_strlit("disk");
    reveal_strlit("network");
    reveal_strlit("memory");
    reveal_strlit("cpu");
    let n = f.spec_name();
    match f {
        Fault::Pause => {
            assert(ascii_lower_seq(n) =~= n);
        },
        Fault::Kill => {
            assert(ascii_lower_seq(n) =~= n);
            assert(ascii_lower_seq("pause"@) =~= "pause"@);
            assert(n != "pause"@);
        },
        Fault::Deprive(t) => {
            tier_name_round_trip(t);
            assert(ascii_lower_seq("pause"@) =~= "pause"@);
            assert(ascii_lower_seq("kill"@) =~= "kill"@);
            assert(ascii_lower_seq(n)[0] == 'd');
            assert("deprive:"@.is_prefix_of(n));
            assert(n.subrange("deprive:"@.len() as int, n.len() as int) =~= t.spec_name());
        },
    }
}

} // verus!

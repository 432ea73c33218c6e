//! Application state: the owned registries behind the engine.
//!
//! The event log (what happened), the subject registry (what is live), the
//! config registry and the fault-tree registry. Each owns its invariants;
//! callers go through methods instead of mutating raw collections.
use vstd::prelude::*;

use std::time::Instant;

use crate::config::Config;
use crate::fault::{Fault, FaultTree, StepResult};
use crate::log::EventLog;
use crate::text::{decimal, decimal_injective, is_digit, lemma_decimal_digits, join2, join3, str_eq, string_of, u128_text, u64_text};
use crate::time::instant_now;

verus! {

/// A hosted subject and everything the engine remembers about it.
pub struct SubjectRecord {
    /// Fully-qualified subject id, e.g. `"docker/<container_id>"`.
    pub id: String,
    /// Engine-assigned name passed to the substrate (e.g. container name).
    pub name: String,
    /// Handle of the config this subject was created under.
    pub config: String,
    /// Faults currently applied to this subject.
    pub active_faults: Vec<Fault>,
    /// When the most recent fault was applied, used to measure recovery.
    pub faulted_at: Option<Instant>,
}

/// A subject record as plain values.
pub struct RecordView {
    pub id: Seq<char>,
    pub name: Seq<char>,
    pub config: Seq<char>,
    pub active_faults: Seq<Fault>,
    pub faulted_at: Option<Instant>,
}

impl View for SubjectRecord {
    type V = RecordView;

    open spec fn view(&self) -> RecordView {
        RecordView {
            id: self.id@,
            name: self.name@,
            config: self.config@,
            active_faults: self.active_faults@,
            faulted_at: self.faulted_at,
        }
    }
}

/// Index of the first record with id `id`, or -1.
pub open spec fn index_of_id(recs: Seq<RecordView>, id: Seq<char>) -> int
    decreases recs.len(),
{
    if recs.len() == 0 {
        -1
    } else {
        let i = index_of_id(recs.drop_last(), id);
        if i >= 0 {
            i
        } else if recs.last().id == id {
            recs.len() - 1
        } else {
            -1
        }
    }
}

/// The first record with id `id` is at [`index_of_id`]; none has it when
/// that is -1.
pub proof fn index_of_id_spec(recs: Seq<RecordView>, id: Seq<char>)
    ensures
        -1 <= index_of_id(recs, id) < recs.len(),
        index_of_id(recs, id) >= 0 ==> recs[index_of_id(recs, id)].id == id && forall|j: int|
            0 <= j < index_of_id(recs, id) ==> recs[j].id != id,
        index_of_id(recs, id) == -1 ==> forall|j: int| 0 <= j < recs.len() ==> recs[j].id != id,
    decreases recs.len(),
{
    if recs.len() > 0 {
        index_of_id_spec(recs.drop_last(), id);
        assert forall|j: int| 0 <= j < recs.len() - 1 implies recs.drop_last()[j] == recs[j] by {}
    }
}

/// Records with the same ids in the same places have the same first index
/// for every id.
pub proof fn index_of_id_same_ids(a: Seq<RecordView>, b: Seq<RecordView>, id: Seq<char>)
    requires
        a.len() == b.len(),
        forall|j: int| 0 <= j < a.len() ==> a[j].id == b[j].id,
    ensures
        index_of_id(a, id) == index_of_id(b, id),
    decreases a.len(),
{
    if a.len() > 0 {
        index_of_id_same_ids(a.drop_last(), b.drop_last(), id);
    }
}

/// Ids of the records created under `config`, in order.
pub open spec fn ids_with_config(recs: Seq<RecordView>, config: Seq<char>) -> Seq<Seq<char>>
    decreases recs.len(),
{
    if recs.len() == 0 {
        Seq::empty()
    } else {
        let rest = ids_with_config(recs.drop_last(), config);
        if recs.last().config == config {
            rest.push(recs.last().id)
        } else {
            rest
        }
    }
}

/// The address map built by recording `(id, addr)` pairs in order: a later
/// pair for the same id replaces an earlier one.
pub open spec fn host_map(pairs: Seq<(Seq<char>, Seq<char>)>) -> Map<Seq<char>, Seq<char>>
    decreases pairs.len(),
{
    if pairs.len() == 0 {
        Map::empty()
    } else {
        host_map(pairs.drop_last()).insert(pairs.last().0, pairs.last().1)
    }
}

/// Characters kept as they are in a subject name; others become `-`.
pub open spec fn name_char(c: char) -> char {
    if ('a' <= c && c <= 'z') || ('A' <= c && c <= 'Z') || ('0' <= c && c <= '9') || c == '_'
        || c == '.' || c == '-' {
        c
    } else {
        '-'
    }
}

/// The subject name for a config handle and counter value:
/// `dstest-<handle, sanitised>-<n>`.
pub open spec fn subject_name(handle: Seq<char>, n: nat) -> Seq<char> {
    "dstest-"@ + handle.map_values(|c: char| name_char(c)) + "-"@ + decimal(n)
}

/// The parts of a subject name: the characters after its last `-` are the
/// number's digits, and the `-` before them is at the given place.
proof fn subject_name_parts(h: Seq<char>, n: nat)
    ensures
        ({
            let s = subject_name(h, n);
            let d = decimal(n);
            &&& s.len() > d.len()
            &&& s[s.len() - d.len() - 1] == '-'
            &&& forall|k: int| 0 <= k < d.len() ==> #[trigger] s[s.len() - d.len() + k] == d[k]
            &&& forall|k: int| 0 <= k < d.len() ==> is_digit(#[trigger] d[k])
        }),
{
    reveal_strlit("-");
    lemma_decimal_digits(n);
    let a = "dstest-"@ + h.map_values(|c: char| name_char(c));
    let d = decimal(n);
    let s = subject_name(h, n);
    assert(s == a + "-"@ + d);
    assert("-"@ == seq!['-']);
    assert(s.len() == a.len() + 1 + d.len());
    assert(s[a.len() as int] == '-');
    assert forall|k: int| 0 <= k < d.len() implies #[trigger] s[s.len() - d.len() + k] == d[k] by {
        assert(s.len() - d.len() + k == a.len() + 1 + k);
    }
}

/// Names handed out by one registry never repeat: the registry numbers its
/// names one after another, and names with different numbers differ,
/// whatever the config handles.
pub proof fn subject_names_distinct(h1: Seq<char>, h2: Seq<char>, n1: nat, n2: nat)
    requires
        n1 != n2,
    ensures
        subject_name(h1, n1) != subject_name(h2, n2),
{
    if subject_name(h1, n1) == subject_name(h2, n2) {
        let s = subject_name(h1, n1);
        let d1 = decimal(n1);
        let d2 = decimal(n2);
        subject_name_parts(h1, n1);
        subject_name_parts(h2, n2);
        assert('-' as u32 == 45 && '0' as u32 == 48);
        if d1.len() < d2.len() {
            let k = d2.len() - d1.len() - 1;
            assert(s[s.len() - d2.len() + k] == d2[k]);
            assert(is_digit(d2[k]));
        } else if d2.len() < d1.len() {
            let k = d1.len() - d2.len() - 1;
            assert(s[s.len() - d1.len() + k] == d1[k]);
            assert(is_digit(d1[k]));
        } else {
            assert(d1 =~= d2) by {
                assert forall|k: int| 0 <= k < d1.len() implies d1[k] == d2[k] by {
                    assert(s[s.len() - d1.len() + k] == d1[k]);
                    assert(s[s.len() - d2.len() + k] == d2[k]);
                }
            }
            decimal_injective(n1, n2);
        }
    }
}

fn sanitize_name(handle: &str) -> (s: String)
    ensures
        s@ == handle@.map_values(|c: char| name_char(c)),
{
    let v = crate::text::chars_of(handle);
    let mut out: Vec<char> = Vec::new();
    let mut i: usize = 0;
    while i < v.len()
        invariant
            i <= v.len(),
            v@ == handle@,
            out@ == handle@.subrange(0, i as int).map_values(|c: char| name_char(c)),
        decreases v.len() - i,
    {
        let c = v[i];
        let keep = ('a' <= c && c <= 'z') || ('A' <= c && c <= 'Z') || ('0' <= c && c <= '9')
            || c == '_' || c == '.' || c == '-';
        out.push(if keep { c } else { '-' });
        i += 1;
        assert(out@ =~= handle@.subrange(0, i as int).map_values(|c: char| name_char(c)));
    }
    assert(handle@.subrange(0, v.len() as int) =~= handle@);
    string_of(&out)
}

/// Owns the set of live subjects and the address map.
pub struct SubjectRegistry {
    subjects: Vec<SubjectRecord>,
    hosts: Vec<(String, String)>,
    name_counter: usize,
}

impl SubjectRegistry {
    /// The live records, in the order they were added.
    pub closed spec fn spec_records(&self) -> Seq<RecordView> {
        self.subjects@.map_values(|r: SubjectRecord| r@)
    }

    /// Reachable address of each subject that has one.
    pub closed spec fn spec_hosts(&self) -> Map<Seq<char>, Seq<char>> {
        host_map(self.hosts@.map_values(|p: (String, String)| (p.0@, p.1@)))
    }

    /// Number of names handed out so far.
    pub closed spec fn spec_counter(&self) -> nat {
        self.name_counter as nat
    }

    pub fn new() -> (r: SubjectRegistry)
        ensures
            r.spec_records() == Seq::<RecordView>::empty(),
            r.spec_hosts() == Map::<Seq<char>, Seq<char>>::empty(),
            r.spec_counter() == 0,
    {
        let r = SubjectRegistry { subjects: Vec::new(), hosts: Vec::new(), name_counter: 0 };
        assert(r.spec_records() =~= Seq::<RecordView>::empty());
        assert(r.hosts@.map_values(|p: (String, String)| (p.0@, p.1@)) =~= Seq::empty());
        r
    }

    /// How many names have been handed out.
    pub fn names_handed_out(&self) -> (n: usize)
        ensures
            n == self.spec_counter(),
    {
        self.name_counter
    }

    /// Generate the next subject name for a config handle; names are
    /// numbered from 1 in the order they are handed out.
    pub fn next_name(&mut self, handle: &str) -> (name: String)
        requires
            old(self).spec_counter() < usize::MAX,
        ensures
            final(self).spec_counter() == old(self).spec_counter() + 1,
            final(self).spec_records() == old(self).spec_records(),
            final(self).spec_hosts() == old(self).spec_hosts(),
            name@ == subject_name(handle@, old(self).spec_counter() + 1),
    {
        self.name_counter += 1;
        let cleaned = sanitize_name(handle);
        let number = u64_text(self.name_counter as u64);
        let head = join3("dstest-", cleaned.as_str(), "-");
        head.concat(number.as_str())
    }

    /// Register a hosted subject, recording its address when it has one.
    pub fn add(&mut self, subject: SubjectRecord, host: Option<String>)
        ensures
            final(self).spec_records() == old(self).spec_records().push(subject@),
            final(self).spec_hosts() == (match host {
                Some(a) => old(self).spec_hosts().insert(subject.id@, a@),
                None => old(self).spec_hosts(),
            }),
            final(self).spec_counter() == old(self).spec_counter(),
    {
        let ghost pairs = self.hosts@;
        if let Some(addr) = host {
            self.hosts.push((subject.id.clone(), addr));
            assert(self.hosts@.map_values(|p: (String, String)| (p.0@, p.1@)).drop_last()
                =~= pairs.map_values(|p: (String, String)| (p.0@, p.1@)));
        }
        self.subjects.push(subject);
        assert(self.spec_records() =~= old(self).spec_records().push(subject@));
    }

    /// Position of the first record with id `id`.
    pub fn position(&self, id: &str) -> (r: Option<usize>)
        ensures
            match r {
                Some(i) => i as int == index_of_id(self.spec_records(), id@),
                None => index_of_id(self.spec_records(), id@) == -1,
            },
    {
        let mut i: usize = 0;
        while i < self.subjects.len()
            invariant
                i <= self.subjects@.len(),
                forall|j: int| 0 <= j < i ==> self.spec_records()[j].id != id@,
            decreases self.subjects.len() - i,
        {
            if str_eq(self.subjects[i].id.as_str(), id) {
                proof {
                    lemma_first_index(self.spec_records(), id@, i as int);
                }
                return Some(i);
            }
            i += 1;
        }
        proof {
            index_of_id_spec(self.spec_records(), id@);
        }
        None
    }

    /// The first record with id `id`.
    pub fn find(&self, id: &str) -> (r: Option<&SubjectRecord>)
        ensures
            match r {
                Some(rec) => index_of_id(self.spec_records(), id@) >= 0 && rec@ == self.spec_records()[index_of_id(self.spec_records(), id@)],
                None => index_of_id(self.spec_records(), id@) == -1,
            },
    {
        proof {
            index_of_id_spec(self.spec_records(), id@);
        }
        match self.position(id) {
            Some(i) => Some(&self.subjects[i]),
            None => None,
        }
    }

    /// The first record with id `id`, for in-place update.
    pub fn find_mut(&mut self, id: &str) -> (r: Option<&mut SubjectRecord>)
        ensures
            final(self).spec_hosts() == old(self).spec_hosts(),
            final(self).spec_counter() == old(self).spec_counter(),
            match r {
                Some(rec) => {
                    let i = index_of_id(old(self).spec_records(), id@);
                    &&& i >= 0
                    &&& (*rec)@ == old(self).spec_records()[i]
                    &&& final(self).spec_records() == old(self).spec_records().update(i, (*final(rec))@)
                },
                None => index_of_id(old(self).spec_records(), id@) == -1 && final(self).spec_records()
                    == old(self).spec_records(),
            },
    {
        proof {
            index_of_id_spec(self.spec_records(), id@);
        }
        match self.position(id) {
            Some(i) => {
                let rec = &mut self.subjects[i];
                Some(rec)
            },
            None => None,
        }
    }

    /// Record that `fault` was applied to the first subject with id `id`;
    /// nothing happens when there is none.
    pub fn push_fault(&mut self, id: &str, fault: Fault)
        ensures
            final(self).spec_hosts() == old(self).spec_hosts(),
            final(self).spec_counter() == old(self).spec_counter(),
            ({
                let i = index_of_id(old(self).spec_records(), id@);
                &&& i >= 0 ==> final(self).spec_records() == old(self).spec_records().update(
                    i,
                    RecordView {
                        active_faults: old(self).spec_records()[i].active_faults.push(fault),
                        ..old(self).spec_records()[i]
                    },
                )
                &&& i == -1 ==> final(self).spec_records() == old(self).spec_records()
            }),
    {
        if let Some(rec) = self.find_mut(id) {
            rec.active_faults.push(fault);
        }
    }

    /// Record that a fault was applied at `at` to the first subject with id
    /// `id`.
    pub fn mark_faulted_at(&mut self, id: &str, at: Instant)
        ensures
            final(self).spec_hosts() == old(self).spec_hosts(),
            final(self).spec_counter() == old(self).spec_counter(),
            ({
                let i = index_of_id(old(self).spec_records(), id@);
                &&& i >= 0 ==> final(self).spec_records() == old(self).spec_records().update(
                    i,
                    RecordView { faulted_at: Some(at), ..old(self).spec_records()[i] },
                )
                &&& i == -1 ==> final(self).spec_records() == old(self).spec_records()
            }),
    {
        proof {
            index_of_id_spec(self.spec_records(), id@);
        }
        let ghost before = self.spec_records();
        let ghost i = index_of_id(before, id@);
        if let Some(rec) = self.find_mut(id) {
            rec.faulted_at = Some(at);
        }
        proof {
            if i >= 0 {
                assert(self.spec_records() =~= before.update(i, RecordView { faulted_at: Some(at), ..before[i] }));
            }
        }
    }

    /// Record that a fault was just applied to the first subject with id
    /// `id` (the time is taken now; see [`SubjectRegistry::mark_faulted_at`]).
    pub fn mark_faulted(&mut self, id: &str)
        ensures
            final(self).spec_hosts() == old(self).spec_hosts(),
            final(self).spec_counter() == old(self).spec_counter(),
            ({
                let i = index_of_id(old(self).spec_records(), id@);
                &&& i >= 0 ==> final(self).spec_records()[i].faulted_at is Some
                    && final(self).spec_records() == old(self).spec_records().update(
                    i,
                    RecordView {
                        faulted_at: final(self).spec_records()[i].faulted_at,
                        ..old(self).spec_records()[i]
                    },
                )
                &&& i == -1 ==> final(self).spec_records() == old(self).spec_records()
            }),
    {
        proof {
            index_of_id_spec(self.spec_records(), id@);
        }
        let now = instant_now();
        self.mark_faulted_at(id, now);
    }

    /// When the most recent fault was applied to the first subject with id
    /// `id`, if it has one.
    pub fn faulted_at(&self, id: &str) -> (r: Option<Instant>)
        ensures
            r == (if index_of_id(self.spec_records(), id@) >= 0 {
                self.spec_records()[index_of_id(self.spec_records(), id@)].faulted_at
            } else {
                None
            }),
    {
        match self.find(id) {
            Some(rec) => rec.faulted_at,
            None => None,
        }
    }

    /// Forget the faults of the first subject with id `id`.
    pub fn clear_faults(&mut self, id: &str)
        ensures
            final(self).spec_hosts() == old(self).spec_hosts(),
            final(self).spec_counter() == old(self).spec_counter(),
            ({
                let i = index_of_id(old(self).spec_records(), id@);
                &&& i >= 0 ==> final(self).spec_records() == old(self).spec_records().update(
                    i,
                    RecordView {
                        active_faults: Seq::empty(),
                        faulted_at: None,
                        ..old(self).spec_records()[i]
                    },
                )
                &&& i == -1 ==> final(self).spec_records() == old(self).spec_records()
            }),
    {
        if let Some(rec) = self.find_mut(id) {
            rec.active_faults.clear();
            rec.faulted_at = None;
        }
    }

    /// Drain the registry for teardown, returning the id and name of every
    /// subject in order. The address map is kept.
    pub fn drain(&mut self) -> (pairs: Vec<(String, String)>)
        ensures
            pairs@.map_values(|p: (String, String)| (p.0@, p.1@)) == old(self).spec_records().map_values(
                |r: RecordView| (r.id, r.name),
            ),
            final(self).spec_records() == Seq::<RecordView>::empty(),
            final(self).spec_hosts() == old(self).spec_hosts(),
            final(self).spec_counter() == old(self).spec_counter(),
    {
        let mut records: Vec<SubjectRecord> = Vec::new();
        std::mem::swap(&mut records, &mut self.subjects);
        let mut out: Vec<(String, String)> = Vec::new();
        let mut i: usize = 0;
        while i < records.len()
            invariant
                i <= records@.len(),
                out@.map_values(|p: (String, String)| (p.0@, p.1@)) == records@.subrange(0, i as int).map_values(
                    |r: SubjectRecord| (r.id@, r.name@),
                ),
            decreases records.len() - i,
        {
            let rec = &records[i];
            let ghost prev = out@;
            let pair = (rec.id.clone(), rec.name.clone());
            out.push(pair);
            assert(out@ == prev.push(pair));
            i += 1;
            assert(records@.subrange(0, i as int).drop_last() =~= records@.subrange(0, i - 1));
            assert(out@.map_values(|p: (String, String)| (p.0@, p.1@)) =~= prev.map_values(|p: (String, String)| (p.0@, p.1@)).push((rec.id@, rec.name@)));
            assert(records@.subrange(0, i as int).map_values(|r: SubjectRecord| (r.id@, r.name@)) =~= records@.subrange(0, i - 1).map_values(|r: SubjectRecord| (r.id@, r.name@)).push((rec.id@, rec.name@)));
        }
        assert(out@.map_values(|p: (String, String)| (p.0@, p.1@)) =~= old(self).spec_records().map_values(
            |r: RecordView| (r.id, r.name),
        ));
        assert(self.spec_records() =~= Seq::<RecordView>::empty());
        out
    }

    /// Ids of the subjects created under `config`, in order.
    pub fn ids_for_config(&self, config: &str) -> (ids: Vec<String>)
        ensures
            ids@.map_values(|s: String| s@) == ids_with_config(self.spec_records(), config@),
    {
        let mut ids: Vec<String> = Vec::new();
        let mut i: usize = 0;
        while i < self.subjects.len()
            invariant
                i <= self.subjects@.len(),
                ids@.map_values(|s: String| s@) == ids_with_config(
                    self.spec_records().subrange(0, i as int),
                    config@,
                ),
            decreases self.subjects.len() - i,
        {
            assert(self.spec_records().subrange(0, i + 1).drop_last() =~= self.spec_records().subrange(0, i as int));
            let rec = &self.subjects[i];
            if str_eq(rec.config.as_str(), config) {
                let ghost before = ids@;
                ids.push(rec.id.clone());
                assert(ids@.map_values(|s: String| s@) =~= before.map_values(|s: String| s@).push(rec.id@));
            }
            i += 1;
        }
        assert(self.spec_records().subrange(0, self.subjects@.len() as int) =~= self.spec_records());
        ids
    }

    /// The reachable address recorded for `id`.
    pub fn host_for(&self, id: &str) -> (r: Option<&str>)
        ensures
            match r {
                Some(a) => self.spec_hosts().contains_key(id@) && a@ == self.spec_hosts()[id@],
                None => !self.spec_hosts().contains_key(id@),
            },
    {
        let ghost pairs = self.hosts@.map_values(|p: (String, String)| (p.0@, p.1@));
        let mut i: usize = self.hosts.len();
        while i > 0
            invariant
                i <= self.hosts@.len(),
                pairs == self.hosts@.map_values(|p: (String, String)| (p.0@, p.1@)),
                forall|j: int| i <= j < pairs.len() ==> pairs[j].0 != id@,
            decreases i,
        {
            if str_eq(self.hosts[i - 1].0.as_str(), id) {
                proof {
                    lemma_host_map_last(pairs, id@, i - 1);
                }
                return Some(self.hosts[i - 1].1.as_str());
            }
            i -= 1;
        }
        proof {
            lemma_host_map_absent(pairs, id@);
        }
        None
    }

    /// The config handle of the first record with id `id`.
    pub fn config_for(&self, id: &str) -> (r: Option<&str>)
        ensures
            match r {
                Some(c) => index_of_id(self.spec_records(), id@) >= 0 && c@ == self.spec_records()[index_of_id(self.spec_records(), id@)].config,
                None => index_of_id(self.spec_records(), id@) == -1,
            },
    {
        match self.find(id) {
            Some(rec) => Some(rec.config.as_str()),
            None => None,
        }
    }
}

/// Index of the first entry with handle `h`, or -1.
pub open spec fn index_of_handle<T>(entries: Seq<(Seq<char>, T)>, h: Seq<char>) -> int
    decreases entries.len(),
{
    if entries.len() == 0 {
        -1
    } else {
        let i = index_of_handle(entries.drop_last(), h);
        if i >= 0 {
            i
        } else if entries.last().0 == h {
            entries.len() - 1
        } else {
            -1
        }
    }
}

pub proof fn index_of_handle_spec<T>(entries: Seq<(Seq<char>, T)>, h: Seq<char>)
    ensures
        -1 <= index_of_handle(entries, h) < entries.len(),
        index_of_handle(entries, h) >= 0 ==> entries[index_of_handle(entries, h)].0 == h
            && forall|j: int| 0 <= j < index_of_handle(entries, h) ==> entries[j].0 != h,
        index_of_handle(entries, h) == -1 ==> forall|j: int|
            0 <= j < entries.len() ==> entries[j].0 != h,
    decreases entries.len(),
{
    if entries.len() > 0 {
        index_of_handle_spec(entries.drop_last(), h);
        assert forall|j: int| 0 <= j < entries.len() - 1 implies entries.drop_last()[j]
            == entries[j] by {}
    }
}

/// The generated handle with number `n`: `config_<n>`.
pub open spec fn config_handle(n: nat) -> Seq<char> {
    "config_"@ + decimal(n)
}

/// Registered experiment configs, keyed by handle.
pub struct ConfigRegistry {
    configs: Vec<(String, Config)>,
}

/// Result of resolving a config handle (see [`ConfigRegistry::resolve_handle`]).
pub open spec fn resolved_handle(
    handles: Seq<Seq<char>>,
    arg: Option<Seq<char>>,
) -> Result<Seq<char>, Seq<char>> {
    match arg {
        Some(h) => if handles.contains(h) {
            Ok(h)
        } else {
            Err(
                "unknown config '"@ + h + "' \u{2014} pass the handle returned by dstest.config()"@,
            )
        },
        None => if handles.len() == 0 {
            Err("no configs registered: call dstest.config({...}) first"@)
        } else if handles.len() == 1 {
            Ok(handles[0])
        } else {
            Err(
                "multiple configs registered; pass a config handle, e.g. dstest.dst.step(cfg)"@,
            )
        },
    }
}

impl ConfigRegistry {
    /// No handle is registered twice, and every config's weights are
    /// sorted by name.
    #[verifier::type_invariant]
    spec fn handles_distinct(self) -> bool {
        &&& forall|i: int, j: int|
            0 <= i < j < self.configs@.len() ==> #[trigger] self.configs@[i].0@ != #[trigger] self.configs@[j].0@
        &&& forall|i: int| 0 <= i < self.configs@.len() ==> (#[trigger] self.configs@[i]).1.weights_sorted()
    }

    /// The registered handles and configs, in registration order.
    pub closed spec fn spec_entries(&self) -> Seq<(Seq<char>, Config)> {
        self.configs@.map_values(|p: (String, Config)| (p.0@, p.1))
    }

    pub open spec fn spec_handles(&self) -> Seq<Seq<char>> {
        self.spec_entries().map_values(|e: (Seq<char>, Config)| e.0)
    }

    pub fn new() -> (r: ConfigRegistry)
        ensures
            r.spec_entries() == Seq::<(Seq<char>, Config)>::empty(),
    {
        let r = ConfigRegistry { configs: Vec::new() };
        assert(r.spec_entries() =~= Seq::<(Seq<char>, Config)>::empty());
        r
    }

    /// Position of the first entry with handle `handle`.
    fn position(&self, handle: &str) -> (r: Option<usize>)
        ensures
            match r {
                Some(i) => i as int == index_of_handle(self.spec_entries(), handle@),
                None => index_of_handle(self.spec_entries(), handle@) == -1,
            },
    {
        proof {
            index_of_handle_spec(self.spec_entries(), handle@);
        }
        let mut i: usize = 0;
        while i < self.configs.len()
            invariant
                i <= self.configs@.len(),
                forall|j: int| 0 <= j < i ==> self.spec_entries()[j].0 != handle@,
                -1 <= index_of_handle(self.spec_entries(), handle@) < self.spec_entries().len(),
                index_of_handle(self.spec_entries(), handle@) >= 0 ==> self.spec_entries()[index_of_handle(self.spec_entries(), handle@)].0 == handle@
                    && forall|j: int| 0 <= j < index_of_handle(self.spec_entries(), handle@) ==> self.spec_entries()[j].0 != handle@,
                index_of_handle(self.spec_entries(), handle@) == -1 ==> forall|j: int|
                    0 <= j < self.spec_entries().len() ==> self.spec_entries()[j].0 != handle@,
            decreases self.configs.len() - i,
        {
            if str_eq(self.configs[i].0.as_str(), handle) {
                assert(self.spec_entries()[i as int].0 == handle@);
                return Some(i);
            }
            assert(self.spec_entries()[i as int].0 != handle@);
            i += 1;
        }
        None
    }

    /// Register `cfg` under `handle`, replacing a config already registered
    /// under it.
    pub fn register(&mut self, handle: String, cfg: Config)
        requires
            cfg.weights_sorted(),
        ensures
            ({
                let i = index_of_handle(old(self).spec_entries(), handle@);
                &&& i >= 0 ==> final(self).spec_entries() == old(self).spec_entries().update(i, (handle@, cfg))
                &&& i == -1 ==> final(self).spec_entries() == old(self).spec_entries().push((handle@, cfg))
            }),
    {
        proof {
            use_type_invariant(&*self);
            index_of_handle_spec(self.spec_entries(), handle@);
        }
        let ghost hv = handle@;
        let ghost before = self.configs@;
        let pos = self.position(handle.as_str());
        let mut configs: Vec<(String, Config)> = Vec::new();
        std::mem::swap(&mut configs, &mut self.configs);
        match pos {
            Some(i) => {
                assert(before[i as int].0@ == hv);
                configs.set(i, (handle, cfg));
                proof {
                    assert forall|x: int, y: int| 0 <= x < y < configs@.len() implies #[trigger] configs@[x].0@
                        != #[trigger] configs@[y].0@ by {
                        assert(configs@[x].0@ == before[x].0@);
                        assert(configs@[y].0@ == before[y].0@);
                    }
                }
            },
            None => {
                assert forall|j: int| 0 <= j < before.len() implies before[j].0@ != hv by {
                    assert(old(self).spec_entries()[j].0 == before[j].0@);
                }
                configs.push((handle, cfg));
                proof {
                    assert forall|x: int, y: int| 0 <= x < y < configs@.len() implies #[trigger] configs@[x].0@
                        != #[trigger] configs@[y].0@ by {
                        assert(configs@[x] == before[x]);
                        if y < before.len() {
                            assert(configs@[y] == before[y]);
                        }
                    }
                }
            },
        }
        self.configs = configs;
        match pos {
            Some(i) => {
                assert(self.spec_entries() =~= old(self).spec_entries().update(i as int, (hv, cfg)));
            },
            None => {
                assert(self.spec_entries() =~= old(self).spec_entries().push((hv, cfg)));
            },
        }
    }

    pub fn contains(&self, handle: &str) -> (b: bool)
        ensures
            b == self.spec_handles().contains(handle@),
    {
        proof {
            index_of_handle_spec(self.spec_entries(), handle@);
        }
        match self.position(handle) {
            Some(i) => {
                assert(self.spec_handles()[i as int] == handle@);
                true
            },
            None => {
                assert(!self.spec_handles().contains(handle@)) by {
                    if self.spec_handles().contains(handle@) {
                        let k = choose|k: int| 0 <= k < self.spec_handles().len() && self.spec_handles()[k] == handle@;
                        assert(self.spec_entries()[k].0 == handle@);
                    }
                }
                false
            },
        }
    }

    /// The config registered under `handle`.
    pub fn get(&self, handle: &str) -> (r: Option<&Config>)
        ensures
            match r {
                Some(c) => index_of_handle(self.spec_entries(), handle@) >= 0 && *c == self.spec_entries()[index_of_handle(self.spec_entries(), handle@)].1
                    && c.weights_sorted(),
                None => !self.spec_handles().contains(handle@),
            },
    {
        proof {
            use_type_invariant(self);
            index_of_handle_spec(self.spec_entries(), handle@);
        }
        match self.position(handle) {
            Some(i) => Some(&self.configs[i].1),
            None => {
                assert(!self.spec_handles().contains(handle@)) by {
                    if self.spec_handles().contains(handle@) {
                        let k = choose|k: int| 0 <= k < self.spec_handles().len() && self.spec_handles()[k] == handle@;
                        assert(self.spec_entries()[k].0 == handle@);
                    }
                }
                None
            },
        }
    }

    /// Number of registered configs.
    pub fn len(&self) -> (n: usize)
        ensures
            n == self.spec_entries().len(),
    {
        self.configs.len()
    }

    /// A handle not registered yet: `config_<n>` for the least `n` from the
    /// number of configs plus one on.
    pub fn unique_handle(&self) -> (h: String)
        ensures
            exists|m: nat|
                {
                    &&& m >= self.spec_entries().len() + 1
                    &&& h@ == config_handle(m)
                    &&& !self.spec_handles().contains(h@)
                    &&& forall|k: nat|
                        self.spec_entries().len() + 1 <= k < m ==> #[trigger] self.spec_handles().contains(
                            config_handle(k),
                        )
                },
    {
        let c = self.configs.len() as u128;
        let mut n: u128 = c + 1;
        loop
            invariant
                c == self.spec_entries().len(),
                c <= usize::MAX,
                c + 1 <= n,
                forall|k: nat| c + 1 <= k < n ==> #[trigger] self.spec_handles().contains(config_handle(k)),
            decreases 2 * c + 2 - n,
        {
            proof {
                taken_handles_bound(self.spec_handles(), c as nat, n as nat);
            }
            let digits = u128_text(n);
            let candidate = join2("config_", digits.as_str());
            if !self.contains(candidate.as_str()) {
                assert(candidate@ == config_handle(n as nat));
                return candidate;
            }
            assert(self.spec_handles().contains(config_handle(n as nat)));
            proof {
                assert forall|k: nat| c + 1 <= k < n + 1 implies #[trigger] self.spec_handles().contains(
                    config_handle(k),
                ) by {
                    if k < n {
                    }
                }
                taken_handles_bound(self.spec_handles(), c as nat, (n + 1) as nat);
            }
            n += 1;
        }
    }

    /// Resolve an explicit or implicit config handle: an explicit handle must
    /// be registered; without one, exactly one config must be registered.
    pub fn resolve_handle(&self, arg: Option<String>) -> (r: Result<String, String>)
        ensures
            crate::text::text_result(r) == resolved_handle(
                self.spec_handles(),
                crate::text::opt_text(arg),
            ),
    {
        match arg {
            Some(h) => {
                if self.contains(h.as_str()) {
                    Ok(h)
                } else {
                    Err(join3("unknown config '", h.as_str(), "' \u{2014} pass the handle returned by dstest.config()"))
                }
            },
            None => {
                let n = self.configs.len();
                if n == 0 {
                    Err(String::from_str("no configs registered: call dstest.config({...}) first"))
                } else if n == 1 {
                    Ok(self.configs[0].0.clone())
                } else {
                    Err(String::from_str("multiple configs registered; pass a config handle, e.g. dstest.dst.step(cfg)"))
                }
            },
        }
    }
}

/// The fault trees of the configs, keyed by config handle. Each is created
/// lazily on the first step of its config and kept so the schedule persists
/// across steps.
pub struct FaultTreeRegistry {
    trees: Vec<(String, FaultTree)>,
}

impl FaultTreeRegistry {
    /// No handle has two trees.
    #[verifier::type_invariant]
    spec fn handles_distinct(self) -> bool {
        forall|i: int, j: int|
            0 <= i < j < self.trees@.len() ==> #[trigger] self.trees@[i].0@ != #[trigger] self.trees@[j].0@
    }

    /// Handles that have a tree, in the registry's order (new trees go at
    /// the end unless put at a given position).
    pub closed spec fn spec_handles(&self) -> Seq<Seq<char>> {
        self.trees@.map_values(|p: (String, FaultTree)| p.0@)
    }

    /// The trees, in the same order as [`FaultTreeRegistry::spec_handles`].
    pub closed spec fn spec_trees(&self) -> Seq<FaultTree> {
        self.trees@.map_values(|p: (String, FaultTree)| p.1)
    }

    pub fn new() -> (r: FaultTreeRegistry)
        ensures
            r.spec_handles() == Seq::<Seq<char>>::empty(),
            r.spec_trees() == Seq::<FaultTree>::empty(),
    {
        let r = FaultTreeRegistry { trees: Vec::new() };
        assert(r.spec_handles() =~= Seq::<Seq<char>>::empty());
        assert(r.spec_trees() =~= Seq::<FaultTree>::empty());
        r
    }

    fn position(&self, handle: &str) -> (r: Option<usize>)
        ensures
            match r {
                Some(i) => i < self.spec_handles().len() && self.spec_handles()[i as int] == handle@
                    && forall|j: int| 0 <= j < i ==> self.spec_handles()[j] != handle@,
                None => !self.spec_handles().contains(handle@),
            },
    {
        let mut i: usize = 0;
        while i < self.trees.len()
            invariant
                i <= self.trees@.len(),
                forall|j: int| 0 <= j < i ==> self.spec_handles()[j] != handle@,
            decreases self.trees.len() - i,
        {
            if str_eq(self.trees[i].0.as_str(), handle) {
                return Some(i);
            }
            i += 1;
        }
        None
    }

    pub fn contains(&self, handle: &str) -> (b: bool)
        ensures
            b == self.spec_handles().contains(handle@),
    {
        match self.position(handle) {
            Some(_) => true,
            None => false,
        }
    }

    /// Keep `tree` for `handle`, replacing a tree already kept for it.
    pub fn insert(&mut self, handle: String, tree: FaultTree)
        ensures
            final(self).spec_handles().contains(handle@),
            old(self).spec_handles().contains(handle@) ==> final(self).spec_handles() == old(self).spec_handles(),
            !old(self).spec_handles().contains(handle@) ==> {
                &&& final(self).spec_handles() == old(self).spec_handles().push(handle@)
                &&& final(self).spec_trees() == old(self).spec_trees().push(tree)
            },
    {
        let at = self.trees.len();
        self.put_tree(handle, tree, at);
    }

    /// Keep `tree` for `handle`: in place of the tree already kept for it,
    /// or else at position `at` (at the end when `at` is past it).
    pub fn put_tree(&mut self, handle: String, tree: FaultTree, at: usize)
        ensures
            final(self).spec_handles().contains(handle@),
            old(self).spec_handles().contains(handle@) ==> final(self).spec_handles() == old(self).spec_handles()
                && exists|i: int|
                0 <= i < old(self).spec_handles().len() && old(self).spec_handles()[i] == handle@
                    && (forall|j: int| 0 <= j < i ==> old(self).spec_handles()[j] != handle@)
                    && final(self).spec_trees() == old(self).spec_trees().update(i, tree),
            ({
                let k = if at < old(self).spec_handles().len() { at as int } else { old(self).spec_handles().len() as int };
                &&& !old(self).spec_handles().contains(handle@) ==> {
                    &&& final(self).spec_handles() == old(self).spec_handles().insert(k, handle@)
                    &&& final(self).spec_trees() == old(self).spec_trees().insert(k, tree)
                }
            }),
    {
        proof {
            use_type_invariant(&*self);
        }
        let ghost hv = handle@;
        let ghost before = self.trees@;
        let pos = self.position(handle.as_str());
        let mut trees: Vec<(String, FaultTree)> = Vec::new();
        std::mem::swap(&mut trees, &mut self.trees);
        match pos {
            Some(i) => {
                assert(old(self).spec_handles()[i as int] == hv);
                assert(before[i as int].0@ == hv);
                trees.set(i, (handle, tree));
                proof {
                    assert forall|x: int, y: int| 0 <= x < y < trees@.len() implies #[trigger] trees@[x].0@
                        != #[trigger] trees@[y].0@ by {
                        assert(trees@[x].0@ == before[x].0@);
                        assert(trees@[y].0@ == before[y].0@);
                    }
                }
                self.trees = trees;
                proof {
                    assert(self.spec_handles() =~= old(self).spec_handles());
                    assert(self.spec_trees() =~= old(self).spec_trees().update(i as int, tree));
                    assert(self.spec_handles()[i as int] == hv);
                }
            },
            None => {
                let k = if at < trees.len() { at } else { trees.len() };
                assert forall|j: int| 0 <= j < before.len() implies before[j].0@ != hv by {
                    assert(old(self).spec_handles()[j] == before[j].0@);
                }
                trees.insert(k, (handle, tree));
                proof {
                    assert forall|x: int, y: int| 0 <= x < y < trees@.len() implies #[trigger] trees@[x].0@
                        != #[trigger] trees@[y].0@ by {
                        if x < k && y < k {
                            assert(trees@[x] == before[x] && trees@[y] == before[y]);
                        } else if x < k && y > k {
                            assert(trees@[x] == before[x] && trees@[y] == before[y - 1]);
                        } else if x > k {
                            assert(trees@[x] == before[x - 1] && trees@[y] == before[y - 1]);
                        }
                    }
                }
                self.trees = trees;
                proof {
                    assert(self.spec_handles() =~= old(self).spec_handles().insert(k as int, hv));
                    assert(self.spec_trees() =~= old(self).spec_trees().insert(k as int, tree));
                    assert(self.spec_handles()[k as int] == hv);
                }
            },
        }
    }

    /// Take out the tree of `handle` with its position, for stepping it and
    /// putting it back (see [`FaultTreeRegistry::put_tree`]); `None` when
    /// there is no tree for `handle`.
    pub fn take_tree(&mut self, handle: &str) -> (r: Option<(usize, FaultTree)>)
        ensures
            match r {
                Some((i, t)) => {
                    &&& i < old(self).spec_handles().len()
                    &&& old(self).spec_handles()[i as int] == handle@
                    &&& t == old(self).spec_trees()[i as int]
                    &&& final(self).spec_handles() == old(self).spec_handles().remove(i as int)
                    &&& final(self).spec_trees() == old(self).spec_trees().remove(i as int)
                    &&& !final(self).spec_handles().contains(handle@)
                },
                None => !old(self).spec_handles().contains(handle@) && final(self).spec_handles()
                    == old(self).spec_handles() && final(self).spec_trees() == old(self).spec_trees(),
            },
    {
        proof {
            use_type_invariant(&*self);
        }
        let ghost before = self.trees@;
        match self.position(handle) {
            None => None,
            Some(i) => {
                let mut trees: Vec<(String, FaultTree)> = Vec::new();
                std::mem::swap(&mut trees, &mut self.trees);
                assert(trees@ == before);
                let (_, t) = trees.remove(i);
                proof {
                    assert(trees@ == before.remove(i as int));
                    assert forall|x: int, y: int| 0 <= x < y < trees@.len() implies #[trigger] trees@[x].0@
                        != #[trigger] trees@[y].0@ by {
                        let bx = if x < i { x } else { x + 1 };
                        let by_ = if y < i { y } else { y + 1 };
                        assert(trees@[x] == before[bx]);
                        assert(trees@[y] == before[by_]);
                        assert(0 <= bx < by_ < before.len());
                        assert(before[bx].0@ != before[by_].0@);
                    }
                }
                self.trees = trees;
                proof {
                    assert(self.spec_handles() =~= old(self).spec_handles().remove(i as int));
                    assert(self.spec_trees() =~= old(self).spec_trees().remove(i as int));
                    assert(!self.spec_handles().contains(handle@)) by {
                        if self.spec_handles().contains(handle@) {
                            let k = choose|k: int| 0 <= k < self.spec_handles().len() && self.spec_handles()[k] == handle@;
                            if k < i {
                                assert(before[k].0@ == handle@);
                            } else {
                                assert(before[k + 1].0@ == handle@);
                                assert(before[i as int].0@ == handle@);
                            }
                        }
                    }
                }
                Some((i, t))
            },
        }
    }

    /// Step the tree of `handle` with `fault` (see [`FaultTree::step`]);
    /// `None` when there is no tree for `handle`.
    pub fn step(&mut self, handle: &str, fault: Fault) -> (r: Option<StepResult>)
        ensures
            final(self).spec_handles() == old(self).spec_handles(),
            !old(self).spec_handles().contains(handle@) ==> r is None && final(self).spec_trees()
                == old(self).spec_trees(),
            old(self).spec_handles().contains(handle@) ==> exists|i: int|
                0 <= i < old(self).spec_handles().len() && old(self).spec_handles()[i] == handle@
                    && (forall|j: int| 0 <= j < i ==> old(self).spec_handles()[j] != handle@)
                    && final(self).spec_trees() == old(self).spec_trees().update(i, final(self).spec_trees()[i])
                    && FaultTree::stepped(old(self).spec_trees()[i], final(self).spec_trees()[i], fault, r),
    {
        proof {
            use_type_invariant(&*self);
        }
        let ghost h0 = self.spec_handles();
        let ghost t0 = self.spec_trees();
        match self.take_tree(handle) {
            None => None,
            Some((i, mut t)) => {
                let ghost t_before = t;
                let r = t.step(fault);
                let ghost t_after = t;
                let ghost h1 = self.spec_handles();
                let ghost t1 = self.spec_trees();
                let key = String::from_str(handle);
                self.put_tree(key, t, i);
                proof {
                    assert(i <= h1.len());
                    assert(h0.remove(i as int).insert(i as int, handle@) =~= h0);
                    assert(t0.remove(i as int).insert(i as int, t_after) =~= t0.update(i as int, t_after));
                    assert(self.spec_trees()[i as int] == t_after);
                    assert forall|j: int| 0 <= j < i implies h0[j] != handle@ by {
                        assert(h1[j] == h0.remove(i as int)[j]);
                        assert(h0.remove(i as int)[j] == h0[j]);
                        assert(!h1.contains(handle@));
                        if h0[j] == handle@ {
                            assert(h1[j] == handle@);
                        }
                    }
                }
                r
            },
        }
    }
}

/// The composed application state behind the engine.
pub struct AppState {
    pub log: EventLog,
    pub subjects: SubjectRegistry,
    pub configs: ConfigRegistry,
    pub fault_trees: FaultTreeRegistry,
}

impl AppState {
    pub fn new() -> (s: AppState)
        ensures
            s.log.spec_events() == Seq::<crate::event::ExperimentEvent>::empty(),
            s.subjects.spec_records() == Seq::<RecordView>::empty(),
            s.subjects.spec_hosts() == Map::<Seq<char>, Seq<char>>::empty(),
            s.subjects.spec_counter() == 0,
            s.configs.spec_entries() == Seq::<(Seq<char>, Config)>::empty(),
            s.fault_trees.spec_handles() == Seq::<Seq<char>>::empty(),
            s.fault_trees.spec_trees() == Seq::<FaultTree>::empty(),
    {
        AppState {
            log: EventLog::new(),
            subjects: SubjectRegistry::new(),
            configs: ConfigRegistry::new(),
            fault_trees: FaultTreeRegistry::new(),
        }
    }
}

/// When every generated handle numbered `c + 1 .. n` is among `handles`, a
/// sequence of length `c`, then at most `c` numbers were skipped.
proof fn taken_handles_bound(handles: Seq<Seq<char>>, c: nat, n: nat)
    requires
        handles.len() == c,
        c + 1 <= n,
        forall|k: nat| c + 1 <= k < n ==> #[trigger] handles.contains(config_handle(k)),
    ensures
        n <= 2 * c + 1,
{
    let range = vstd::set_lib::set_int_range((c + 1) as int, n as int);
    let f = |k: int| config_handle(k as nat);
    vstd::set_lib::lemma_int_range((c + 1) as int, n as int);
    assert(vstd::relations::injective_on(f, range)) by {
        assert forall|a: int, b: int| range.contains(a) && range.contains(b) && #[trigger] f(a) == #[trigger] f(b) implies a == b by {
            assert(config_handle(a as nat).subrange(7, config_handle(a as nat).len() as int) =~= decimal(a as nat)) by {
                reveal_strlit("config_");
            }
            assert(config_handle(b as nat).subrange(7, config_handle(b as nat).len() as int) =~= decimal(b as nat)) by {
                reveal_strlit("config_");
            }
            decimal_injective(a as nat, b as nat);
        }
    }
    let image = range.map(f);
    vstd::set_lib::lemma_map_size(range, image, f);
    assert(image.subset_of(handles.to_set())) by {
        assert forall|x: Seq<char>| image.contains(x) implies handles.to_set().contains(x) by {
            let k = choose|k: int| range.contains(k) && f(k) == x;
            assert(handles.contains(config_handle(k as nat)));
        }
    }
    vstd::seq::Seq::lemma_cardinality_of_set(handles);
    vstd::set_lib::lemma_len_subset(image, handles.to_set());
}

proof fn lemma_first_index(recs: Seq<RecordView>, id: Seq<char>, i: int)
    requires
        0 <= i < recs.len(),
        recs[i].id == id,
        forall|j: int| 0 <= j < i ==> recs[j].id != id,
    ensures
        index_of_id(recs, id) == i,
{
    index_of_id_spec(recs, id);
}

proof fn lemma_host_map_last(pairs: Seq<(Seq<char>, Seq<char>)>, id: Seq<char>, k: int)
    requires
        0 <= k < pairs.len(),
        pairs[k].0 == id,
        forall|j: int| k < j < pairs.len() ==> pairs[j].0 != id,
    ensures
        host_map(pairs).contains_key(id),
        host_map(pairs)[id] == pairs[k].1,
    decreases pairs.len(),
{
    if k < pairs.len() - 1 {
        lemma_host_map_last(pairs.drop_last(), id, k);
    }
}

proof fn lemma_host_map_absent(pairs: Seq<(Seq<char>, Seq<char>)>, id: Seq<char>)
    requires
        forall|j: int| 0 <= j < pairs.len() ==> pairs[j].0 != id,
    ensures
        !host_map(pairs).contains_key(id),
    decreases pairs.len(),
{
    if pairs.len() > 0 {
        lemma_host_map_absent(pairs.drop_last(), id);
    }
}

} // verus!

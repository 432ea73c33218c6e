//! Virtual clocks for Docker subjects.
//!
//! A subject that opts in runs with a preloaded shim that reads the current
//! time, as nanoseconds since the epoch, from an 8-byte little-endian
//! control file on every call: a fully harness-controlled manual clock.
//! This module keeps the per-container control files, plans the container
//! environment, encodes and decodes the control file, and computes the
//! clock readings; the file operations are done by the application.
use vstd::prelude::*;

use crate::subject::Subject;
use crate::text::{join2, join3, join_path, path_join, str_eq, strip_prefix, trunc_div};

verus! {

/// The error of `set_rate`: the manual clock only moves when advanced.
pub const SET_RATE_NOT_SUPPORTED: &'static str = "set_rate is not supported by the manual clock: time only moves when advanced";

/// The error of `release`: a subject with a virtual clock must be
/// recreated to run on real time again.
pub const RELEASE_NOT_SUPPORTED: &'static str = "release is not supported: a virtual-clock subject must be recreated to regain real time";

/// The file name of the clock shim in the assets directory.
pub const SHIM_FILE: &'static str = "dstest_clock.so";

/// Parsed from the `clock` table of a subject's setup.
pub struct ClockSpec {
    /// Fixed epoch the clock starts at (unix seconds). Defaults to the real
    /// current time.
    pub start_epoch_secs: Option<u64>,
}

/// Everything hosting needs to wire a virtual clock into a container.
pub struct ClockPrep {
    pub env: Vec<String>,
    pub bind: String,
    pub ctl_path: String,
}

/// The container id of a subject id: the id without its `docker/` prefix.
pub open spec fn container_id_of(subject_id: Seq<char>) -> Seq<char> {
    if "docker/"@.is_prefix_of(subject_id) {
        subject_id.subrange("docker/"@.len() as int, subject_id.len() as int)
    } else {
        subject_id
    }
}

/// The container id of a subject (see [`container_id_of`]).
pub fn container_id(subject: &Subject) -> (id: &str)
    ensures
        id@ == container_id_of(subject.id@),
{
    match strip_prefix(subject.id.as_str(), "docker/") {
        Some(rest) => {
            assert(rest@ =~= subject.id@.subrange("docker/"@.len() as int, subject.id@.len() as int));
            rest
        },
        None => subject.id.as_str(),
    }
}

/// The 8-byte little-endian encoding of a signed 64-bit number.
pub open spec fn le_bytes(n: i64) -> Seq<u8> {
    let u = n as u64;
    seq![
        u as u8,
        (u >> 8u64) as u8,
        (u >> 16u64) as u8,
        (u >> 24u64) as u8,
        (u >> 32u64) as u8,
        (u >> 40u64) as u8,
        (u >> 48u64) as u8,
        (u >> 56u64) as u8,
    ]
}

/// The number whose 8-byte little-endian encoding is `b`.
pub open spec fn from_le_bytes(b: Seq<u8>) -> i64 {
    ((b[0] as u64) | ((b[1] as u64) << 8u64) | ((b[2] as u64) << 16u64) | ((b[3] as u64) << 24u64)
        | ((b[4] as u64) << 32u64) | ((b[5] as u64) << 40u64) | ((b[6] as u64) << 48u64) | ((
    b[7] as u64) << 56u64)) as i64
}

/// Encode a clock reading for the control file.
pub fn encode_nanos(n: i64) -> (b: [u8; 8])
    ensures
        b@ == le_bytes(n),
{
    let u = n as u64;
    let b: [u8; 8] = [
        u as u8,
        (u >> 8u64) as u8,
        (u >> 16u64) as u8,
        (u >> 24u64) as u8,
        (u >> 32u64) as u8,
        (u >> 40u64) as u8,
        (u >> 48u64) as u8,
        (u >> 56u64) as u8,
    ];
    assert(b@ =~= le_bytes(n));
    b
}

/// Decode a clock reading from the control file.
pub fn decode_nanos(b: [u8; 8]) -> (n: i64)
    ensures
        n == from_le_bytes(b@),
{
    let u: u64 = (b[0] as u64) | ((b[1] as u64) << 8u64) | ((b[2] as u64) << 16u64) | ((
    b[3] as u64) << 24u64) | ((b[4] as u64) << 32u64) | ((b[5] as u64) << 40u64) | ((
    b[6] as u64) << 48u64) | ((b[7] as u64) << 56u64);
    u as i64
}

/// What is written to the control file reads back unchanged.
pub proof fn nanos_round_trip(n: i64)
    ensures
        from_le_bytes(le_bytes(n)) == n,
{
    let u = n as u64;
    assert(((u as u8) as u64) | ((((u >> 8u64) as u8) as u64) << 8u64) | ((((u >> 16u64) as u8)
        as u64) << 16u64) | ((((u >> 24u64) as u8) as u64) << 24u64) | ((((u >> 32u64) as u8)
        as u64) << 32u64) | ((((u >> 40u64) as u8) as u64) << 40u64) | ((((u >> 48u64) as u8)
        as u64) << 48u64) | ((((u >> 56u64) as u8) as u64) << 56u64) == u) by (bit_vector);
    assert((n as u64) as i64 == n) by (bit_vector);
}

/// A clock reading in several units, from milliseconds.
pub struct ClockReading {
    pub millis: i64,
    pub secs: i64,
    pub nanos: i64,
    pub micros: i64,
}

/// The reading of `millis` milliseconds in seconds (rounded toward zero),
/// nanoseconds and microseconds.
pub fn clock_reading(millis: i64) -> (r: ClockReading)
    requires
        i64::MIN <= millis * 1_000_000 <= i64::MAX,
    ensures
        r.millis == millis,
        r.secs == trunc_div(millis as int, 1000),
        r.nanos == millis * 1_000_000,
        r.micros == millis * 1000,
{
    ClockReading {
        millis,
        secs: millis / 1000,
        nanos: millis * 1_000_000,
        micros: millis * 1000,
    }
}

/// Control-file bookkeeping of the virtual clocks of Docker subjects.
pub struct DockerClock {
    /// container id -> control file path on the host
    clocks: Vec<(String, String)>,
}

pub open spec fn no_clock_message(subject_id: Seq<char>) -> Seq<char> {
    "subject "@ + subject_id + " has no virtual clock (set clock = { virtual = true } in setup)"@
}

impl DockerClock {
    /// Control file of each container with a virtual clock.
    pub closed spec fn spec_clocks(&self) -> Map<Seq<char>, Seq<char>> {
        Map::new(
            |k: Seq<char>| exists|i: int| 0 <= i < self.clocks@.len() && self.clocks@[i].0@ == k,
            |k: Seq<char>| {
                let i = choose|i: int| 0 <= i < self.clocks@.len() && self.clocks@[i].0@ == k;
                self.clocks@[i].1@
            },
        )
    }

    /// Containers appear once in the bookkeeping.
    pub closed spec fn wf(&self) -> bool {
        forall|i: int, j: int|
            0 <= i < j < self.clocks@.len() ==> self.clocks@[i].0@ != self.clocks@[j].0@
    }

    pub fn new() -> (c: DockerClock)
        ensures
            c.wf(),
            c.spec_clocks() == Map::<Seq<char>, Seq<char>>::empty(),
    {
        let c = DockerClock { clocks: Vec::new() };
        assert(c.spec_clocks() =~= Map::<Seq<char>, Seq<char>>::empty());
        c
    }

    fn position(&self, container_id: &str) -> (r: Option<usize>)
        requires
            self.wf(),
        ensures
            match r {
                Some(i) => i < self.clocks@.len() && self.clocks@[i as int].0@ == container_id@,
                None => forall|j: int| 0 <= j < self.clocks@.len() ==> self.clocks@[j].0@ != container_id@,
            },
    {
        let mut i: usize = 0;
        while i < self.clocks.len()
            invariant
                i <= self.clocks@.len(),
                forall|j: int| 0 <= j < i ==> self.clocks@[j].0@ != container_id@,
            decreases self.clocks.len() - i,
        {
            if str_eq(self.clocks[i].0.as_str(), container_id) {
                return Some(i);
            }
            i += 1;
        }
        None
    }

    /// Associate a running container with its control file.
    pub fn register(&mut self, container_id: String, ctl_path: String)
        requires
            old(self).wf(),
        ensures
            final(self).wf(),
            final(self).spec_clocks() == old(self).spec_clocks().insert(container_id@, ctl_path@),
    {
        let ghost k = container_id@;
        let ghost v = ctl_path@;
        match self.position(container_id.as_str()) {
            Some(i) => {
                self.clocks.set(i, (container_id, ctl_path));
                assert(self.spec_clocks() =~= old(self).spec_clocks().insert(k, v)) by {
                    assert forall|key: Seq<char>| self.spec_clocks().contains_key(key) implies self.spec_clocks()[key] == old(self).spec_clocks().insert(k, v)[key] by {
                        let j = choose|j: int| 0 <= j < self.clocks@.len() && self.clocks@[j].0@ == key;
                        if key != k {
                            assert(old(self).clocks@[j].0@ == key);
                        }
                    }
                    assert forall|key: Seq<char>| old(self).spec_clocks().insert(k, v).contains_key(key) implies self.spec_clocks().contains_key(key) by {
                        if key == k {
                            assert(self.clocks@[i as int].0@ == key);
                        } else {
                            let j = choose|j: int| 0 <= j < old(self).clocks@.len() && old(self).clocks@[j].0@ == key;
                            assert(self.clocks@[j].0@ == key);
                        }
                    }
                }
            },
            None => {
                self.clocks.push((container_id, ctl_path));
                assert(self.spec_clocks() =~= old(self).spec_clocks().insert(k, v)) by {
                    let n = old(self).clocks@.len();
                    assert(self.clocks@[n as int].0@ == k);
                    assert forall|key: Seq<char>| self.spec_clocks().contains_key(key) implies self.spec_clocks()[key] == old(self).spec_clocks().insert(k, v)[key] by {
                        let j = choose|j: int| 0 <= j < self.clocks@.len() && self.clocks@[j].0@ == key;
                        if key != k {
                            assert(old(self).clocks@[j].0@ == key);
                        }
                    }
                    assert forall|key: Seq<char>| old(self).spec_clocks().insert(k, v).contains_key(key) implies self.spec_clocks().contains_key(key) by {
                        if key != k {
                            let j = choose|j: int| 0 <= j < old(self).clocks@.len() && old(self).clocks@[j].0@ == key;
                            assert(self.clocks@[j].0@ == key);
                        }
                    }
                }
            },
        }
    }

    /// Forget a container's clock, returning its control file (for the
    /// caller to delete).
    pub fn unregister(&mut self, container_id: &str) -> (r: Option<String>)
        requires
            old(self).wf(),
        ensures
            final(self).wf(),
            final(self).spec_clocks() == old(self).spec_clocks().remove(container_id@),
            match r {
                Some(p) => old(self).spec_clocks().contains_key(container_id@) && p@ == old(self).spec_clocks()[container_id@],
                None => !old(self).spec_clocks().contains_key(container_id@),
            },
    {
        match self.position(container_id) {
            Some(i) => {
                let ghost before = self.clocks@;
                let (_, path) = self.clocks.remove(i);
                assert(self.clocks@ =~= before.remove(i as int));
                assert(self.spec_clocks() =~= old(self).spec_clocks().remove(container_id@)) by {
                    assert forall|key: Seq<char>| self.spec_clocks().contains_key(key) implies old(self).spec_clocks().remove(container_id@).contains_key(key)
                        && self.spec_clocks()[key] == old(self).spec_clocks()[key] by {
                        let j = choose|j: int| 0 <= j < self.clocks@.len() && self.clocks@[j].0@ == key;
                        let jj = if j < i { j } else { j + 1 };
                        assert(before[jj].0@ == key);
                    }
                    assert forall|key: Seq<char>| old(self).spec_clocks().remove(container_id@).contains_key(key) implies self.spec_clocks().contains_key(key) by {
                        let j = choose|j: int| 0 <= j < before.len() && before[j].0@ == key;
                        assert(j != i);
                        let jj = if j < i { j } else { j - 1 };
                        assert(self.clocks@[jj].0@ == key);
                    }
                }
                assert(old(self).spec_clocks().contains_key(container_id@));
                Some(path)
            },
            None => {
                assert(old(self).spec_clocks().remove(container_id@) =~= old(self).spec_clocks());
                None
            },
        }
    }

    /// The control file of a subject's clock.
    pub fn ctl_for(&self, subject: &Subject) -> (r: Result<String, String>)
        requires
            self.wf(),
        ensures
            match r {
                Ok(p) => self.spec_clocks().contains_key(container_id_of(subject.id@))
                    && p@ == self.spec_clocks()[container_id_of(subject.id@)],
                Err(e) => !self.spec_clocks().contains_key(container_id_of(subject.id@))
                    && e@ == no_clock_message(subject.id@),
            },
    {
        let id = container_id(subject);
        match self.position(id) {
            Some(i) => Ok(self.clocks[i].1.clone()),
            None => Err(join3("subject ", subject.id.as_str(), " has no virtual clock (set clock = { virtual = true } in setup)")),
        }
    }

    /// The clock reading of a control file holding `nanos`, in milliseconds
    /// (rounded toward zero).
    pub fn now_millis(nanos: i64) -> (m: i64)
        ensures
            m == trunc_div(nanos as int, 1_000_000),
    {
        nanos / 1_000_000
    }

    /// The control value placing a clock `offset_ms` from the real time
    /// `real_now` (nanoseconds since the epoch).
    pub fn offset_nanos(real_now: i64, offset_ms: i64) -> (n: i64)
        requires
            i64::MIN <= offset_ms * 1_000_000 <= i64::MAX,
            i64::MIN <= real_now + offset_ms * 1_000_000 <= i64::MAX,
        ensures
            n == real_now + offset_ms * 1_000_000,
    {
        real_now + offset_ms * 1_000_000
    }

    /// The control value of a clock holding `current` advanced by
    /// `delta_ms`.
    pub fn advanced_nanos(current: i64, delta_ms: i64) -> (n: i64)
        requires
            i64::MIN <= delta_ms * 1_000_000 <= i64::MAX,
            i64::MIN <= current + delta_ms * 1_000_000 <= i64::MAX,
        ensures
            n == current + delta_ms * 1_000_000,
    {
        current + delta_ms * 1_000_000
    }

    /// The epoch and offset (milliseconds, rounded toward zero) of a clock
    /// holding `nanos` when the real time is `real_now`.
    pub fn state_millis(nanos: i64, real_now: i64) -> (r: (i64, i64))
        requires
            i64::MIN <= nanos - real_now <= i64::MAX,
        ensures
            r.0 == trunc_div(nanos as int, 1_000_000),
            r.1 == trunc_div(nanos - real_now, 1_000_000),
    {
        (nanos / 1_000_000, (nanos - real_now) / 1_000_000)
    }

    /// The control value a new clock starts at: the fixed epoch when one is
    /// given, else the real time `real_now` (nanoseconds since the epoch).
    pub fn start_nanos(spec: &ClockSpec, real_now: i64) -> (n: i64)
        requires
            spec.start_epoch_secs matches Some(s) ==> i64::MIN <= (s as i64) * 1_000_000_000 <= i64::MAX,
        ensures
            n == match spec.start_epoch_secs {
                Some(s) => (s as i64) * 1_000_000_000,
                None => real_now as int,
            },
    {
        match spec.start_epoch_secs {
            Some(s) => (s as i64) * 1_000_000_000,
            None => real_now,
        }
    }

    /// The container wiring of a subject's clock, with the shim and control
    /// files in directory `dir`: the shim preloaded, the control file path
    /// passed, and `dir` bind-mounted read-only at `/dstest-clock`.
    pub fn prep_for(subject_name: &str, dir: &str) -> (p: ClockPrep)
        ensures
            p.env@.len() == 2,
            p.env@[0]@ == "LD_PRELOAD=/dstest-clock/dstest_clock.so"@,
            p.env@[1]@ == "DSTEST_CLOCK_CTL=/dstest-clock/"@ + subject_name@ + ".ctl"@,
            p.bind@ == dir@ + ":/dstest-clock:ro"@,
            p.ctl_path@ == path_join(dir@, subject_name@ + ".ctl"@),
    {
        let mut env: Vec<String> = Vec::new();
        env.push(String::from_str("LD_PRELOAD=/dstest-clock/dstest_clock.so"));
        env.push(join3("DSTEST_CLOCK_CTL=/dstest-clock/", subject_name, ".ctl"));
        let file = join2(subject_name, ".ctl");
        ClockPrep { env, bind: join2(dir, ":/dstest-clock:ro"), ctl_path: join_path(dir, file.as_str()) }
    }
}

} // verus!

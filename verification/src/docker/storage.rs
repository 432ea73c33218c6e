//! Fault-injectable storage for Docker subjects: a loop-backed filesystem
//! on a device-mapper `flakey` device, bind-mounted into the container.
//!
//! This module keeps the per-container disk bookkeeping, names the devices
//! and files, writes the device-mapper tables that switch a disk between
//! pass-through, constant-error and dropped-write modes, and draws the
//! seeded offsets that `corrupt` flips. The host commands (`losetup`,
//! `dmsetup`, `mkfs.ext4`, `mount`) and file operations are run by the
//! application.
use vstd::prelude::*;

use rand::rngs::StdRng;

use crate::components::StorageOpts;
use crate::docker::clock::{container_id, container_id_of};
use crate::keyed::Keyed;
use crate::rng::{below_u64, seeded, seeded_stream, u64_draw};
use crate::subject::Subject;
use crate::text::{decimal, parse_u64, parse_u64_spec, join2, join3, join_path, path_join, seq_join, string_of, u64_text};

verus! {

/// Parsed from the `storage` table of a subject's setup.
pub struct StorageSpec {
    pub size_mb: u64,
    pub mount: String,
}

impl Clone for StorageSpec {
    fn clone(&self) -> (s: Self)
        ensures
            s == *self,
    {
        StorageSpec { size_mb: self.size_mb, mount: self.mount.clone() }
    }
}

impl From<StorageSpec> for StorageOpts {
    fn from(s: StorageSpec) -> (o: StorageOpts) {
        StorageOpts { size_mb: s.size_mb, mount: s.mount }
    }
}

impl vstd::std_specs::convert::FromSpecImpl<StorageSpec> for StorageOpts {
    open spec fn obeys_from_spec() -> bool {
        true
    }

    open spec fn from_spec(s: StorageSpec) -> StorageOpts {
        StorageOpts { size_mb: s.size_mb, mount: s.mount }
    }
}

/// Host-side state of one subject's virtual disk.
pub struct StorageState {
    pub backing_file: String,
    pub loop_dev: String,
    pub dm_name: String,
    pub host_mount: String,
    /// Size of the device in 512-byte sectors.
    pub sectors: u64,
}

impl Clone for StorageState {
    fn clone(&self) -> (s: Self)
        ensures
            s == *self,
    {
        StorageState {
            backing_file: self.backing_file.clone(),
            loop_dev: self.loop_dev.clone(),
            dm_name: self.dm_name.clone(),
            host_mount: self.host_mount.clone(),
            sectors: self.sectors,
        }
    }
}

/// Names of the device and files of a disk about to be created.
pub struct StoragePlan {
    pub dm_name: String,
    pub backing_file: String,
    pub host_mount: String,
}

/// What hosting needs from a prepared disk: the bind mount for Docker and
/// the device-mapper name to register the container under after start.
pub struct StoragePrep {
    /// `host_path:container_path` bind string.
    pub bind: String,
    pub dm_name: String,
}

/// A snapshot about to be taken: the disk, the snapshot's id and the file
/// the backing store is copied to.
pub struct SnapshotPlan {
    pub state: StorageState,
    pub snap_id: String,
    pub snap_path: String,
}

/// The message of `attach`: disks are configured when a subject is set up.
pub const ATTACH_AT_SETUP: &'static str = "storage must be configured at setup time via setup({ storage = { flaky = true, mount = \"/data\", size_mb = 512 } })";

/// The message of `slow`, which device-mapper `flakey` cannot do.
pub const SLOW_NOT_SUPPORTED: &'static str = "slow is not supported on dm-flakey (use deprive:disk for coarse I/O throttling)";

/// The multiplier mixed into the seed of each `corrupt` call.
pub const CORRUPT_MIX: u64 = 0x9E37_79B9_7F4A_7C15;

pub open spec fn is_ascii_alnum(c: char) -> bool {
    ('a' as u32 <= c as u32 <= 'z' as u32) || ('A' as u32 <= c as u32 <= 'Z' as u32) || ('0' as u32
        <= c as u32 <= '9' as u32)
}

/// Characters a device-mapper name keeps; every other becomes `-`.
pub open spec fn dm_char(c: char) -> char {
    if is_ascii_alnum(c) || c == '-' {
        c
    } else {
        '-'
    }
}

/// The device-mapper name of a subject: `dstest-` and the subject's name
/// with every character other than an ASCII letter, digit or `-` replaced
/// by `-`.
pub open spec fn dm_name_of(subject_name: Seq<char>) -> Seq<char> {
    "dstest-"@ + subject_name.map_values(|c: char| dm_char(c))
}

/// Always-up `flakey` table: I/O passes through unimpaired.
pub open spec fn pass_through_text(sectors: u64, loop_dev: Seq<char>) -> Seq<char> {
    "0 "@ + decimal(sectors as nat) + " flakey "@ + loop_dev + " 0 999999 0"@
}

/// Always-down `flakey` table with feature arguments.
pub open spec fn down_text(sectors: u64, loop_dev: Seq<char>, features: Seq<Seq<char>>) -> Seq<char> {
    let base = "0 "@ + decimal(sectors as nat) + " flakey "@ + loop_dev + " 0 0 1"@;
    if features.len() == 0 {
        base
    } else {
        base + " "@ + decimal(features.len()) + " "@ + seq_join(features, " "@)
    }
}

/// `error` table: every I/O fails.
pub open spec fn error_text(sectors: u64) -> Seq<char> {
    "0 "@ + decimal(sectors as nat) + " error"@
}

/// `p` up to and including its last `/`; empty when it has none.
pub open spec fn dir_prefix(p: Seq<char>) -> Seq<char>
    decreases p.len(),
{
    if p.len() == 0 {
        Seq::empty()
    } else if p.last() == '/' {
        p
    } else {
        dir_prefix(p.drop_last())
    }
}

pub open spec fn no_disk_message(subject_id: Seq<char>) -> Seq<char> {
    "subject "@ + subject_id
        + " has no virtual disk (set storage = { flaky = true, ... } in setup)"@
}

/// The `n` offsets below `bound` that successive draws from a generator in
/// state `g` give, in order.
pub open spec fn offsets_from(g: StdRng, bound: u64, n: nat) -> Seq<u64>
    decreases n,
{
    if n == 0 {
        Seq::empty()
    } else {
        let d = u64_draw(g, bound);
        seq![d.0] + offsets_from(d.1, bound, (n - 1) as nat)
    }
}

/// The seed of the `counter`-th `corrupt` draw of a disk: the experiment
/// seed times [`CORRUPT_MIX`], plus the counter, plus the length of the
/// device name, all wrapping.
pub open spec fn corrupt_seed_of(seed: u64, counter: u64, name_len: u64) -> u64 {
    seed.wrapping_mul(CORRUPT_MIX).wrapping_add(counter).wrapping_add(name_len)
}

fn sanitize(s: &str) -> (r: String)
    ensures
        r@ == s@.map_values(|c: char| dm_char(c)),
{
    let v = crate::text::chars_of(s);
    let mut out: Vec<char> = Vec::new();
    let mut i: usize = 0;
    while i < v.len()
        invariant
            i <= v.len(),
            v@ == s@,
            out@ == s@.subrange(0, i as int).map_values(|c: char| dm_char(c)),
        decreases v.len() - i,
    {
        let c = v[i];
        let u = c as u32;
        let keep = (97 <= u && u <= 122) || (65 <= u && u <= 90) || (48 <= u && u <= 57) || c == '-';
        out.push(if keep { c } else { '-' });
        i += 1;
        assert(out@ =~= s@.subrange(0, i as int).map_values(|c: char| dm_char(c)));
    }
    assert(s@.subrange(0, v.len() as int) =~= s@);
    string_of(&out)
}

fn join_strs(parts: &[&str], sep: &str) -> (s: String)
    ensures
        s@ == seq_join(parts@.map_values(|p: &str| p@), sep@),
{
    let ghost views = parts@.map_values(|p: &str| p@);
    let mut out = String::new();
    let mut i: usize = 0;
    while i < parts.len()
        invariant
            i <= parts@.len(),
            views == parts@.map_values(|p: &str| p@),
            out@ == seq_join(views.subrange(0, i as int), sep@),
        decreases parts.len() - i,
    {
        assert(views.subrange(0, i + 1).drop_last() =~= views.subrange(0, i as int));
        if i == 0 {
            out.append(parts[i]);
            assert(out@ =~= seq_join(views.subrange(0, 1), sep@));
        } else {
            out.append(sep);
            out.append(parts[i]);
        }
        i += 1;
    }
    assert(views.subrange(0, parts@.len() as int) =~= views);
    out
}

fn dir_prefix_of(p: &str) -> (r: String)
    ensures
        r@ == dir_prefix(p@),
{
    let v = crate::text::chars_of(p);
    let mut n: usize = v.len();
    assert(p@.subrange(0, n as int) =~= p@);
    while n > 0 && v[n - 1] != '/'
        invariant
            n <= v.len(),
            v@ == p@,
            dir_prefix(p@) == dir_prefix(p@.subrange(0, n as int)),
        decreases n,
    {
        assert(p@.subrange(0, n as int).drop_last() =~= p@.subrange(0, n - 1));
        n -= 1;
    }
    let mut out: Vec<char> = Vec::new();
    let mut i: usize = 0;
    while i < n
        invariant
            n <= v.len(),
            i <= n,
            v@ == p@,
            out@ == p@.subrange(0, i as int),
        decreases n - i,
    {
        out.push(v[i]);
        i += 1;
        assert(out@ =~= p@.subrange(0, i as int));
    }
    string_of(&out)
}

/// The disks of the Docker substrate, keyed first by device-mapper name
/// (between preparation and container start) and then by container id;
/// the experiment seed; and the counter of seeded draws.
pub struct DockerStorage {
    storages: Keyed<StorageState>,
    seed: Option<u64>,
    counter: u64,
}

impl DockerStorage {
    /// The disks by key.
    pub closed spec fn spec_storages(&self) -> Map<Seq<char>, StorageState> {
        self.storages.spec_map()
    }

    /// The experiment seed, once one is set.
    pub closed spec fn spec_seed(&self) -> Option<u64> {
        self.seed
    }

    /// How many seeded draws (corruptions and snapshots) have been made.
    pub closed spec fn spec_counter(&self) -> u64 {
        self.counter
    }

    pub closed spec fn wf(&self) -> bool {
        self.storages.wf()
    }

    pub fn new() -> (s: DockerStorage)
        ensures
            s.wf(),
            s.spec_storages() == Map::<Seq<char>, StorageState>::empty(),
            s.spec_seed() is None,
            s.spec_counter() == 0,
    {
        DockerStorage { storages: Keyed::new(), seed: None, counter: 0 }
    }

    /// The device-mapper name of a subject (see [`dm_name_of`]).
    pub fn dm_name_for(subject_name: &str) -> (r: String)
        ensures
            r@ == dm_name_of(subject_name@),
    {
        let s = sanitize(subject_name);
        join2("dstest-", s.as_str())
    }

    /// The names of a new disk for `subject_name` in directory `dir`:
    /// the device name, `<name>.img` for the backing file and `<name>.mnt`
    /// for the host mount point. The options are checked first.
    pub fn plan(subject_name: &str, spec: &StorageSpec, dir: &str) -> (r: Result<
        StoragePlan,
        String,
    >)
        ensures
            match r {
                Ok(p) => StorageOpts::spec_validate(spec.size_mb, spec.mount@) is Ok
                    && p.dm_name@ == dm_name_of(subject_name@)
                    && p.backing_file@ == path_join(dir@, dm_name_of(subject_name@) + ".img"@)
                    && p.host_mount@ == path_join(dir@, dm_name_of(subject_name@) + ".mnt"@),
                Err(e) => StorageOpts::spec_validate(spec.size_mb, spec.mount@) == Err::<(), Seq<char>>(e@),
            },
    {
        let opts = StorageOpts::from(spec.clone());
        match opts.validate() {
            Err(e) => Err(e),
            Ok(()) => {
                let dm_name = Self::dm_name_for(subject_name);
                let img = join2(dm_name.as_str(), ".img");
                let mnt = join2(dm_name.as_str(), ".mnt");
                let backing_file = join_path(dir, img.as_str());
                let host_mount = join_path(dir, mnt.as_str());
                Ok(StoragePlan { dm_name, backing_file, host_mount })
            },
        }
    }

    /// Record a disk whose device was created and mounted, keyed by its
    /// device name until the container is registered; returns what the
    /// container needs: the host mount bound at `mount`.
    pub fn record_prepared(&mut self, plan: StoragePlan, loop_dev: String, sectors: u64, mount: &str) -> (p:
        StoragePrep)
        requires
            old(self).wf(),
        ensures
            final(self).wf(),
            final(self).spec_storages() == old(self).spec_storages().insert(
                plan.dm_name@,
                StorageState {
                    backing_file: plan.backing_file,
                    loop_dev,
                    dm_name: plan.dm_name,
                    host_mount: plan.host_mount,
                    sectors,
                },
            ),
            final(self).spec_seed() == old(self).spec_seed(),
            final(self).spec_counter() == old(self).spec_counter(),
            p.bind@ == plan.host_mount@ + ":"@ + mount@,
            p.dm_name@ == plan.dm_name@,
    {
        let bind = join3(plan.host_mount.as_str(), ":", mount);
        let key = plan.dm_name.clone();
        let dm_name = plan.dm_name.clone();
        let state = StorageState {
            backing_file: plan.backing_file,
            loop_dev,
            dm_name: plan.dm_name,
            host_mount: plan.host_mount,
            sectors,
        };
        self.storages.insert(key, state);
        StoragePrep { bind, dm_name }
    }

    /// Re-key a disk from its device name to its container after start;
    /// nothing changes when no disk is kept under `dm_name`.
    pub fn register(&mut self, container_id: String, dm_name: &str)
        requires
            old(self).wf(),
        ensures
            final(self).wf(),
            final(self).spec_storages() == if old(self).spec_storages().contains_key(dm_name@) {
                old(self).spec_storages().remove(dm_name@).insert(
                    container_id@,
                    old(self).spec_storages()[dm_name@],
                )
            } else {
                old(self).spec_storages()
            },
            final(self).spec_seed() == old(self).spec_seed(),
            final(self).spec_counter() == old(self).spec_counter(),
    {
        match self.storages.remove(dm_name) {
            Some(state) => {
                self.storages.insert(container_id, state);
            },
            None => {},
        }
    }

    fn cleanup_key(&mut self, key: &str) -> (r: Option<StorageState>)
        requires
            old(self).wf(),
        ensures
            final(self).wf(),
            final(self).spec_storages() == old(self).spec_storages().remove(key@),
            final(self).spec_seed() == old(self).spec_seed(),
            final(self).spec_counter() == old(self).spec_counter(),
            match r {
                Some(s) => old(self).spec_storages().contains_key(key@) && s == old(self).spec_storages()[key@],
                None => !old(self).spec_storages().contains_key(key@),
            },
    {
        self.storages.remove(key)
    }

    /// Forget a prepared disk whose container never started, returning it
    /// for the caller to tear down.
    pub fn discard(&mut self, dm_name: &str) -> (r: Option<StorageState>)
        requires
            old(self).wf(),
        ensures
            final(self).wf(),
            final(self).spec_storages() == old(self).spec_storages().remove(dm_name@),
            final(self).spec_seed() == old(self).spec_seed(),
            final(self).spec_counter() == old(self).spec_counter(),
            match r {
                Some(s) => old(self).spec_storages().contains_key(dm_name@) && s == old(self).spec_storages()[dm_name@],
                None => !old(self).spec_storages().contains_key(dm_name@),
            },
    {
        self.cleanup_key(dm_name)
    }

    /// Forget the disk of a torn-down container, returning it for the caller
    /// to tear down.
    pub fn unregister(&mut self, container_id: &str) -> (r: Option<StorageState>)
        requires
            old(self).wf(),
        ensures
            final(self).wf(),
            final(self).spec_storages() == old(self).spec_storages().remove(container_id@),
            final(self).spec_seed() == old(self).spec_seed(),
            final(self).spec_counter() == old(self).spec_counter(),
            match r {
                Some(s) => old(self).spec_storages().contains_key(container_id@) && s == old(self).spec_storages()[container_id@],
                None => !old(self).spec_storages().contains_key(container_id@),
            },
    {
        self.cleanup_key(container_id)
    }

    /// The disk of a subject, found by its container id.
    pub fn state_for(&self, subject: &Subject) -> (r: Result<StorageState, String>)
        requires
            self.wf(),
        ensures
            match r {
                Ok(s) => self.spec_storages().contains_key(container_id_of(subject.id@))
                    && s == self.spec_storages()[container_id_of(subject.id@)],
                Err(e) => !self.spec_storages().contains_key(container_id_of(subject.id@))
                    && e@ == no_disk_message(subject.id@),
            },
    {
        let id = container_id(subject);
        match self.storages.get(id) {
            Some(s) => Ok(s.clone()),
            None => Err(join3(
                "subject ",
                subject.id.as_str(),
                " has no virtual disk (set storage = { flaky = true, ... } in setup)",
            )),
        }
    }

    /// Set the experiment seed; only the first seed counts, and it restarts
    /// the draw counter.
    pub fn set_seed(&mut self, seed: u64)
        requires
            old(self).wf(),
        ensures
            final(self).wf(),
            final(self).spec_storages() == old(self).spec_storages(),
            old(self).spec_seed() is None ==> final(self).spec_seed() == Some(seed)
                && final(self).spec_counter() == 0,
            old(self).spec_seed() is Some ==> final(self).spec_seed() == old(self).spec_seed()
                && final(self).spec_counter() == old(self).spec_counter(),
    {
        if self.seed.is_none() {
            self.seed = Some(seed);
            self.counter = 0;
        }
    }

    fn next_counter(&mut self) -> (c: u64)
        ensures
            c == old(self).counter,
            final(self).counter == c.wrapping_add(1),
            final(self).storages == old(self).storages,
            final(self).seed == old(self).seed,
    {
        let c = self.counter;
        self.counter = c.wrapping_add(1);
        c
    }

    /// Begin corrupting a subject's disk: finds the disk, takes the next
    /// draw and returns the disk with the seed of the draw (see
    /// [`corrupt_seed_of`]; an unset experiment seed counts as 0).
    pub fn corrupt_target(&mut self, subject: &Subject) -> (r: Result<(StorageState, u64), String>)
        requires
            old(self).wf(),
        ensures
            final(self).wf(),
            final(self).spec_storages() == old(self).spec_storages(),
            final(self).spec_seed() == old(self).spec_seed(),
            match r {
                Ok((s, mixed)) => old(self).spec_storages().contains_key(container_id_of(subject.id@))
                    && s == old(self).spec_storages()[container_id_of(subject.id@)]
                    && mixed == corrupt_seed_of(
                        match old(self).spec_seed() {
                            Some(x) => x,
                            None => 0,
                        },
                        old(self).spec_counter(),
                        s.dm_name@.len() as u64,
                    )
                    && final(self).spec_counter() == old(self).spec_counter().wrapping_add(1),
                Err(e) => !old(self).spec_storages().contains_key(container_id_of(subject.id@))
                    && e@ == no_disk_message(subject.id@)
                    && final(self).spec_counter() == old(self).spec_counter(),
            },
    {
        let state = match self.state_for(subject) {
            Ok(s) => s,
            Err(e) => return Err(e),
        };
        let seed = match self.seed {
            Some(x) => x,
            None => 0,
        };
        let counter = self.next_counter();
        let len = state.dm_name.unicode_len() as u64;
        let mixed = seed.wrapping_mul(CORRUPT_MIX).wrapping_add(counter).wrapping_add(len);
        Ok((state, mixed))
    }

    /// The `n` byte offsets a corruption flips in a backing file of
    /// `file_size` bytes, drawn from a generator seeded with `mixed`; an
    /// empty file is refused. The offsets are [`offsets_from`] the seeded
    /// generator, so equal seeds give equal offsets.
    pub fn corrupt_offsets(mixed: u64, file_size: u64, n: u64) -> (r: Result<Vec<u64>, String>)
        requires
            n <= usize::MAX,
        ensures
            match r {
                Ok(v) => file_size > 0 && v@.len() == n && (forall|i: int| 0 <= i < n ==> v@[i] < file_size)
                    && v@ == offsets_from(seeded_stream(mixed), file_size, n as nat),
                Err(e) => file_size == 0 && e@ == "backing file is empty"@,
            },
    {
        if file_size == 0 {
            return Err(String::from_str("backing file is empty"));
        }
        let mut rng = seeded(mixed);
        let mut out: Vec<u64> = Vec::new();
        let mut i: u64 = 0;
        while i < n
            invariant
                i <= n,
                file_size > 0,
                out@.len() == i,
                forall|j: int| 0 <= j < i ==> out@[j] < file_size,
                out@ + offsets_from(rng, file_size, (n - i) as nat) == offsets_from(seeded_stream(mixed), file_size, n as nat),
            decreases n - i,
        {
            let ghost before = rng;
            let ghost out0 = out@;
            let off = below_u64(&mut rng, file_size);
            out.push(off);
            i += 1;
            assert(offsets_from(before, file_size, (n - i + 1) as nat) == seq![off] + offsets_from(rng, file_size, (n - i) as nat));
            assert(out@ == out0.push(off));
            assert(out0 + (seq![off] + offsets_from(rng, file_size, (n - i) as nat)) =~= out@ + offsets_from(rng, file_size, (n - i) as nat));
        }
        assert(offsets_from(rng, file_size, 0) =~= Seq::<u64>::empty());
        assert(out@ + Seq::<u64>::empty() =~= out@);
        Ok(out)
    }

    /// Begin a snapshot of a subject's disk: finds the disk, takes the next
    /// draw and names the snapshot `<device>-snap-<draw>`, stored next to
    /// the backing file.
    pub fn snapshot_plan(&mut self, subject: &Subject) -> (r: Result<SnapshotPlan, String>)
        requires
            old(self).wf(),
        ensures
            final(self).wf(),
            final(self).spec_storages() == old(self).spec_storages(),
            final(self).spec_seed() == old(self).spec_seed(),
            match r {
                Ok(p) => old(self).spec_storages().contains_key(container_id_of(subject.id@))
                    && p.state == old(self).spec_storages()[container_id_of(subject.id@)]
                    && p.snap_id@ == p.state.dm_name@ + "-snap-"@ + decimal(old(self).spec_counter() as nat)
                    && p.snap_path@ == dir_prefix(p.state.backing_file@) + p.snap_id@ + ".snap"@
                    && final(self).spec_counter() == old(self).spec_counter().wrapping_add(1),
                Err(e) => !old(self).spec_storages().contains_key(container_id_of(subject.id@))
                    && e@ == no_disk_message(subject.id@)
                    && final(self).spec_counter() == old(self).spec_counter(),
            },
    {
        let state = match self.state_for(subject) {
            Ok(s) => s,
            Err(e) => return Err(e),
        };
        let counter = self.next_counter();
        let num = u64_text(counter);
        let snap_id = join3(state.dm_name.as_str(), "-snap-", num.as_str());
        let snap_path = Self::snap_path(&state, snap_id.as_str());
        Ok(SnapshotPlan { state, snap_id, snap_path })
    }

    /// Always-up `flakey` table (pass-through, no impairments).
    pub fn pass_through_table(sectors: u64, loop_dev: &str) -> (t: String)
        ensures
            t@ == pass_through_text(sectors, loop_dev@),
    {
        let n = u64_text(sectors);
        let a = join3("0 ", n.as_str(), " flakey ");
        join3(a.as_str(), loop_dev, " 0 999999 0")
    }

    /// Always-down `flakey` table with optional feature arguments (such as
    /// `drop_writes`).
    pub fn down_table(sectors: u64, loop_dev: &str, features: &[&str]) -> (t: String)
        ensures
            t@ == down_text(sectors, loop_dev@, features@.map_values(|f: &str| f@)),
    {
        let n = u64_text(sectors);
        let a = join3("0 ", n.as_str(), " flakey ");
        let base = join3(a.as_str(), loop_dev, " 0 0 1");
        if features.len() == 0 {
            base
        } else {
            let count = u64_text(features.len() as u64);
            let joined = join_strs(features, " ");
            let b = join3(base.as_str(), " ", count.as_str());
            join3(b.as_str(), " ", joined.as_str())
        }
    }

    /// `error` table of a device of `sectors` sectors.
    pub fn error_table(sectors: u64) -> (t: String)
        ensures
            t@ == error_text(sectors),
    {
        let n = u64_text(sectors);
        join3("0 ", n.as_str(), " error")
    }

    /// The table for switching error mode on or off.
    pub fn error_mode_table(state: &StorageState, on: bool) -> (t: String)
        ensures
            t@ == if on {
                error_text(state.sectors)
            } else {
                pass_through_text(state.sectors, state.loop_dev@)
            },
    {
        if on {
            Self::error_table(state.sectors)
        } else {
            Self::pass_through_table(state.sectors, state.loop_dev.as_str())
        }
    }

    /// The table for switching dropped writes on (always down, writes
    /// acknowledged and discarded) or off.
    pub fn drop_writes_table(state: &StorageState, on: bool) -> (t: String)
        ensures
            t@ == if on {
                down_text(state.sectors, state.loop_dev@, seq!["drop_writes"@])
            } else {
                pass_through_text(state.sectors, state.loop_dev@)
            },
    {
        if on {
            let features: [&str; 1] = ["drop_writes"];
            let t = Self::down_table(state.sectors, state.loop_dev.as_str(), features.as_slice());
            assert(features@.map_values(|f: &str| f@) =~= seq!["drop_writes"@]);
            t
        } else {
            Self::pass_through_table(state.sectors, state.loop_dev.as_str())
        }
    }

    /// The file of snapshot `snap_id`: `<snap_id>.snap` next to the
    /// backing file.
    pub fn snap_path(state: &StorageState, snap_id: &str) -> (p: String)
        ensures
            p@ == dir_prefix(state.backing_file@) + snap_id@ + ".snap"@,
    {
        let dir = dir_prefix_of(state.backing_file.as_str());
        join3(dir.as_str(), snap_id, ".snap")
    }

    /// The sector count `blockdev` printed (already trimmed), as a number.
    pub fn sector_count(text: &str) -> (r: Result<u64, String>)
        ensures
            match r {
                Ok(n) => parse_u64_spec(text@) == Ok::<nat, Seq<char>>(n as nat),
                Err(e) => parse_u64_spec(text@) matches Err(m) && e@ == "invalid sector count: "@ + m,
            },
    {
        match parse_u64(text) {
            Ok(n) => Ok(n),
            Err(m) => Err(join2("invalid sector count: ", m.as_str())),
        }
    }

    /// The device node of a device-mapper name.
    pub fn dm_path(dm_name: &str) -> (p: String)
        ensures
            p@ == "/dev/mapper/"@ + dm_name@,
    {
        join2("/dev/mapper/", dm_name)
    }
}

/// Successive draws on a disk under one experiment seed get different
/// generator seeds: the seeds of two different counter values differ.
pub proof fn corrupt_seeds_distinct(seed: u64, c1: u64, c2: u64, name_len: u64)
    requires
        c1 != c2,
    ensures
        corrupt_seed_of(seed, c1, name_len) != corrupt_seed_of(seed, c2, name_len),
{
    let base = seed.wrapping_mul(CORRUPT_MIX);
    assert(base.wrapping_add(c1).wrapping_add(name_len) != base.wrapping_add(c2).wrapping_add(name_len)) by (bit_vector)
        requires
            c1 != c2,
    ;
}

/// Corruptions are reproducible: two corruptions under the same
/// experiment seed, at the same draw count, of disks whose device names
/// have the same length, flip the same `n` offsets in files of the same
/// size.
pub proof fn equal_seeds_equal_offsets(
    seed1: u64,
    seed2: u64,
    counter1: u64,
    counter2: u64,
    name_len1: u64,
    name_len2: u64,
    file_size: u64,
    n: nat,
)
    requires
        seed1 == seed2,
        counter1 == counter2,
        name_len1 == name_len2,
    ensures
        offsets_from(seeded_stream(corrupt_seed_of(seed1, counter1, name_len1)), file_size, n)
            == offsets_from(seeded_stream(corrupt_seed_of(seed2, counter2, name_len2)), file_size, n),
        offsets_from(seeded_stream(corrupt_seed_of(seed1, counter1, name_len1)), file_size, n).len() == n,
{
    offsets_len(seeded_stream(corrupt_seed_of(seed1, counter1, name_len1)), file_size, n);
}

/// [`offsets_from`] gives as many offsets as asked for.
proof fn offsets_len(g: StdRng, bound: u64, n: nat)
    ensures
        offsets_from(g, bound, n).len() == n,
    decreases n,
{
    if n > 0 {
        offsets_len(u64_draw(g, bound).1, bound, (n - 1) as nat);
    }
}

/// Snapshots of a disk taken at different draws have different ids.
pub proof fn snapshot_ids_distinct(dm_name: Seq<char>, c1: u64, c2: u64)
    requires
        c1 != c2,
    ensures
        dm_name + "-snap-"@ + decimal(c1 as nat) != dm_name + "-snap-"@ + decimal(c2 as nat),
{
    let p = dm_name + "-snap-"@;
    if p + decimal(c1 as nat) == p + decimal(c2 as nat) {
        assert(decimal(c1 as nat) =~= (p + decimal(c1 as nat)).subrange(p.len() as int, (p + decimal(c1 as nat)).len() as int));
        assert(decimal(c2 as nat) =~= (p + decimal(c2 as nat)).subrange(p.len() as int, (p + decimal(c2 as nat)).len() as int));
        crate::text::decimal_injective(c1 as nat, c2 as nat);
    }
}

} // verus!

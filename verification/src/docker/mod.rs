//! The Docker substrate: the bookkeeping and planning behind hosting
//! subjects in containers, their virtual clocks, disks and links.
//!
//! Here are the values a hosted container is described by, the container
//! configuration a subject's setup turns into, the readings of container
//! states, the resource limits a deprivation fault sets and the limits
//! that clearing it restores, and the reading of the host files that locate
//! the root block device. The Docker API calls are made by the application.
use vstd::prelude::*;

pub mod clock;
pub mod network;
pub mod storage;

use crate::components::StorageOpts;
use crate::docker::clock::ClockSpec;
use crate::docker::storage::StorageSpec;
use crate::fault::Tier;
use crate::keyed::Keyed;
use crate::subject::SubjectStatus;
use crate::text::{
    decimal, join2, join3, lines, lines_of, parse_i64, parse_i64_spec, parse_u64, parse_u64_spec,
    starts_with, str_eq, strip_prefix, strip_suffix, trim, trim_of, u64_text, words, words_of,
};

verus! {

/// The substrate's name.
pub const SUBSTRATE_NAME: &'static str = "docker";

/// The label marking containers this harness created.
pub const MANAGED_LABEL: &'static str = "dstest.managed";

/// The extra host entry of proxied subjects, so they can dial listeners on
/// the host.
pub const HOST_GATEWAY: &'static str = "host.docker.internal:host-gateway";

/// The I/O scheduling weight a disk deprivation sets.
pub const DEPRIVE_BLKIO_WEIGHT: u16 = 50;

/// The read and write bandwidth cap (bytes per second) of a disk
/// deprivation, when a host block device is found.
pub const DEPRIVE_DISK_BPS: i64 = 1048576;

/// The CPU period and quota (microseconds) of a CPU deprivation: a fifth
/// of one core.
pub const DEPRIVE_CPU_PERIOD: i64 = 100000;

pub const DEPRIVE_CPU_QUOTA: i64 = 20000;

/// The floor of a memory deprivation, and the limit of an unlimited
/// container: 64 MiB.
pub const DEPRIVE_MEMORY_FLOOR: i64 = 67108864;

/// The CPU period restored when the original one is unknown.
pub const DEFAULT_CPU_PERIOD: i64 = 100000;

/// State of a container as the harness reports it.
#[derive(Clone, Copy, Debug, PartialEq, Eq, Structural)]
pub enum DockerState {
    Running,
    Paused,
    Exited,
    Dead,
}

impl DockerState {
    pub open spec fn spec_name(self) -> Seq<char> {
        match self {
            DockerState::Running => "running"@,
            DockerState::Paused => "paused"@,
            DockerState::Exited => "exited"@,
            DockerState::Dead => "dead"@,
        }
    }

    /// The display text of a state: `running`, `paused`, `exited` or `dead`.
    pub fn to_string(&self) -> (s: String)
        ensures
            s@ == self.spec_name(),
    {
        match self {
            DockerState::Running => String::from_str("running"),
            DockerState::Paused => String::from_str("paused"),
            DockerState::Exited => String::from_str("exited"),
            DockerState::Dead => String::from_str("dead"),
        }
    }
}

/// The status the Docker engine reports for a container.
#[derive(Clone, Copy, Debug, PartialEq, Eq, Structural)]
pub enum ContainerStatus {
    Empty,
    Created,
    Running,
    Paused,
    Restarting,
    Removing,
    Exited,
    Dead,
}

/// The harness state of a container status: running, paused and exited as
/// they are, everything else (and no status) dead.
pub open spec fn docker_state_of(status: Option<ContainerStatus>) -> DockerState {
    match status {
        Some(ContainerStatus::Running) => DockerState::Running,
        Some(ContainerStatus::Paused) => DockerState::Paused,
        Some(ContainerStatus::Exited) => DockerState::Exited,
        _ => DockerState::Dead,
    }
}

/// The liveness of a container status: running is running; paused,
/// created, restarting and removing are pending; everything else is
/// terminated.
pub open spec fn subject_status_of(status: Option<ContainerStatus>) -> SubjectStatus {
    match status {
        Some(ContainerStatus::Running) => SubjectStatus::Running,
        Some(ContainerStatus::Paused) => SubjectStatus::Pending,
        Some(ContainerStatus::Created) => SubjectStatus::Pending,
        Some(ContainerStatus::Restarting) => SubjectStatus::Pending,
        Some(ContainerStatus::Removing) => SubjectStatus::Pending,
        _ => SubjectStatus::Terminated,
    }
}

/// The harness state of a container (see [`docker_state_of`]).
pub fn docker_state(status: Option<ContainerStatus>) -> (s: DockerState)
    ensures
        s == docker_state_of(status),
{
    match status {
        Some(ContainerStatus::Running) => DockerState::Running,
        Some(ContainerStatus::Paused) => DockerState::Paused,
        Some(ContainerStatus::Exited) => DockerState::Exited,
        _ => DockerState::Dead,
    }
}

/// The liveness of a container (see [`subject_status_of`]).
pub fn subject_status(status: Option<ContainerStatus>) -> (s: SubjectStatus)
    ensures
        s == subject_status_of(status),
{
    match status {
        Some(ContainerStatus::Running) => SubjectStatus::Running,
        Some(ContainerStatus::Paused) => SubjectStatus::Pending,
        Some(ContainerStatus::Created) => SubjectStatus::Pending,
        Some(ContainerStatus::Restarting) => SubjectStatus::Pending,
        Some(ContainerStatus::Removing) => SubjectStatus::Pending,
        _ => SubjectStatus::Terminated,
    }
}

/// Whether clearing faults restarts the container: only an exited (killed)
/// one is restarted.
pub fn needs_restart(status: Option<ContainerStatus>) -> (b: bool)
    ensures
        b == (status == Some(ContainerStatus::Exited)),
{
    match status {
        Some(ContainerStatus::Exited) => true,
        _ => false,
    }
}

/// A container's liveness: running is running; a paused, created,
/// restarting or removing container is pending; an exited (killed) or dead
/// container, and one without a status, has terminated. A container that
/// clearing faults restarts (an exited one) has terminated, and the
/// harness reports a running subject exactly when it reports a running
/// container; its container state is running, paused or exited as the
/// status says, and dead otherwise.
pub proof fn status_liveness(status: Option<ContainerStatus>)
    ensures
        subject_status_of(status) == SubjectStatus::Running <==> status == Some(ContainerStatus::Running),
        subject_status_of(status) == SubjectStatus::Pending <==> (status == Some(ContainerStatus::Paused) || status
            == Some(ContainerStatus::Created) || status == Some(ContainerStatus::Restarting) || status == Some(
            ContainerStatus::Removing)),
        subject_status_of(status) == SubjectStatus::Terminated <==> (status is None || status == Some(
            ContainerStatus::Empty) || status == Some(ContainerStatus::Exited) || status == Some(ContainerStatus::Dead)),
        status == Some(ContainerStatus::Exited) ==> subject_status_of(status) == SubjectStatus::Terminated,
        (subject_status_of(status) == SubjectStatus::Running) == (docker_state_of(status) == DockerState::Running),
        (docker_state_of(status) == DockerState::Paused) == (status == Some(ContainerStatus::Paused)),
        (docker_state_of(status) == DockerState::Exited) == (status == Some(ContainerStatus::Exited)),
        (docker_state_of(status) == DockerState::Dead) == !(status == Some(ContainerStatus::Running) || status == Some(
            ContainerStatus::Paused) || status == Some(ContainerStatus::Exited)),
{
}

/// Options for reading a container's logs.
pub struct DockerLogOpts {
    pub stdout: bool,
    pub stderr: bool,
    pub tail: Option<String>,
    pub since: Option<i32>,
    pub timestamps: bool,
}

impl Default for DockerLogOpts {
    /// Both streams, the whole log, no timestamps.
    fn default() -> (o: Self)
        ensures
            o.stdout && o.stderr && o.tail is None && o.since is None && !o.timestamps,
    {
        DockerLogOpts { stdout: true, stderr: true, tail: None, since: None, timestamps: false }
    }
}

/// What a subject's setup table says about its container.
pub struct DockerSubjectData {
    pub image: String,
    pub runtime: Option<String>,
    pub cmd: Option<Vec<String>>,
    pub ports: Option<Vec<u16>>,
    pub volumes: Option<Vec<String>>,
    pub env: Option<Vec<String>>,
    pub clock: Option<ClockSpec>,
    pub network_proxied: bool,
    pub storage: Option<StorageSpec>,
}

/// The environment entry of a variable: `<name>=<value>`.
pub fn env_entry(name: &str, value: &str) -> (e: String)
    ensures
        e@ == name@ + "="@ + value@,
{
    join3(name, "=", value)
}

/// The virtual disk of a setup's `storage` table: when it asks for a flaky
/// disk, a disk of `size_mb` (512 when not given) at `mount`, which must be
/// given and pass the option checks; otherwise no disk.
pub fn storage_spec_from(flaky: bool, size_mb: Option<u64>, mount: Option<String>) -> (r: Result<
    Option<StorageSpec>,
    String,
>)
    ensures
        !flaky ==> r matches Ok(None),
        flaky ==> match r {
            Ok(Some(s)) => mount matches Some(m) && s.mount@ == m@ && s.size_mb == match size_mb {
                Some(n) => n,
                None => 512,
            } && StorageOpts::spec_validate(s.size_mb, s.mount@) is Ok,
            Ok(None) => false,
            Err(e) => match mount {
                None => e@ == "storage requires a `mount` field"@,
                Some(m) => StorageOpts::spec_validate(
                    match size_mb {
                        Some(n) => n,
                        None => 512,
                    },
                    m@,
                ) == Err::<(), Seq<char>>(e@),
            },
        },
{
    if !flaky {
        return Ok(None);
    }
    let size = match size_mb {
        Some(n) => n,
        None => 512,
    };
    let mount = match mount {
        Some(m) => m,
        None => return Err(String::from_str("storage requires a `mount` field")),
    };
    let spec = StorageSpec { size_mb: size, mount };
    let opts = StorageOpts::from(spec.clone());
    match opts.validate() {
        Ok(()) => Ok(Some(spec)),
        Err(e) => Err(e),
    }
}

/// The container port key of a port: `<port>/tcp`.
pub fn port_key(port: u16) -> (k: String)
    ensures
        k@ == decimal(port as nat) + "/tcp"@,
{
    let p = u64_text(port as u64);
    join2(p.as_str(), "/tcp")
}

/// The address of a host port: `localhost:<port>`.
pub fn localhost_addr(port: u16) -> (a: String)
    ensures
        a@ == "localhost:"@ + decimal(port as nat),
{
    let p = u64_text(port as u64);
    join2("localhost:", p.as_str())
}

/// The host port Docker reports for a binding, when it is a port number
/// (as `u16::from_str` reads it).
pub fn parse_host_port(text: &str) -> (r: Option<u16>)
    ensures
        match r {
            Some(p) => parse_u64_spec(text@) == Ok::<nat, Seq<char>>(p as nat),
            None => !(parse_u64_spec(text@) matches Ok(n) && n <= u16::MAX),
        },
{
    match parse_u64(text) {
        Ok(n) => if n <= 65535 {
            Some(n as u16)
        } else {
            None
        },
        Err(_) => None,
    }
}

/// The container configuration a subject's setup turns into.
pub struct ContainerPlan {
    pub image: String,
    pub cmd: Option<Vec<String>>,
    pub runtime: Option<String>,
    /// Container labels; the managed label marks the container as this
    /// harness's.
    pub labels: Vec<(String, String)>,
    /// `<port>/tcp` for each port; each is bound to an ephemeral host port.
    pub exposed_ports: Option<Vec<String>>,
    pub binds: Option<Vec<String>>,
    pub extra_hosts: Option<Vec<String>>,
    pub env: Option<Vec<String>>,
}

pub open spec fn string_views(v: Seq<String>) -> Seq<Seq<char>> {
    v.map_values(|s: String| s@)
}

/// `v` when it is not empty.
pub open spec fn nonempty_or_none(v: Seq<Seq<char>>) -> Option<Seq<Seq<char>>> {
    if v.len() == 0 {
        None
    } else {
        Some(v)
    }
}

pub open spec fn opt_views(v: Option<Vec<String>>) -> Option<Seq<Seq<char>>> {
    match v {
        Some(x) => Some(string_views(x@)),
        None => None,
    }
}

fn clone_strings(v: &Vec<String>) -> (r: Vec<String>)
    ensures
        string_views(r@) == string_views(v@),
{
    let mut r: Vec<String> = Vec::new();
    let mut i: usize = 0;
    while i < v.len()
        invariant
            i <= v@.len(),
            r@.len() == i,
            forall|j: int| 0 <= j < i ==> r@[j]@ == v@[j]@,
        decreases v.len() - i,
    {
        r.push(v[i].clone());
        i += 1;
    }
    assert(string_views(r@) =~= string_views(v@));
    r
}

fn append_strings(dst: &mut Vec<String>, src: &Vec<String>)
    ensures
        string_views(final(dst)@) == string_views(old(dst)@) + string_views(src@),
{
    let ghost start = string_views(dst@);
    let mut i: usize = 0;
    while i < src.len()
        invariant
            i <= src@.len(),
            string_views(dst@) == start + string_views(src@.subrange(0, i as int)),
        decreases src.len() - i,
    {
        let ghost before = string_views(dst@);
        dst.push(src[i].clone());
        assert(string_views(dst@) =~= before.push(src@[i as int]@));
        assert(string_views(src@.subrange(0, i + 1)) =~= string_views(src@.subrange(0, i as int)).push(
            src@[i as int]@,
        ));
        i += 1;
    }
    assert(src@.subrange(0, src@.len() as int) =~= src@);
}

/// The binds of a subject: its volumes, then the clock's bind, then the
/// disk's bind.
pub open spec fn binds_of(volumes: Option<Vec<String>>, clock_bind: Option<String>, storage_bind: Option<String>) -> Seq<Seq<char>> {
    let v = match volumes {
        Some(x) => string_views(x@),
        None => Seq::empty(),
    };
    let c = match clock_bind {
        Some(b) => v.push(b@),
        None => v,
    };
    match storage_bind {
        Some(b) => c.push(b@),
        None => c,
    }
}

/// The environment of a subject: its variables, then the clock's.
pub open spec fn env_of(env: Option<Vec<String>>, clock_env: Seq<String>) -> Seq<Seq<char>> {
    let own = match env {
        Some(x) => string_views(x@),
        None => Seq::<Seq<char>>::empty(),
    };
    own + string_views(clock_env)
}

/// The container of a subject named by its setup, with the clock's
/// environment and bind and the disk's bind when it has them: the managed
/// label; each port exposed as `<port>/tcp`; the binds and environment
/// only when there are any; the host gateway for proxied subjects.
pub fn container_plan(
    data: &DockerSubjectData,
    clock_env: &Vec<String>,
    clock_bind: Option<String>,
    storage_bind: Option<String>,
) -> (p: ContainerPlan)
    ensures
        p.image@ == data.image@,
        opt_views(p.cmd) == opt_views(data.cmd),
        crate::text::opt_text(p.runtime) == crate::text::opt_text(data.runtime),
        p.labels@.len() == 1,
        p.labels@[0].0@ == MANAGED_LABEL@,
        p.labels@[0].1@ == "true"@,
        match data.ports {
            Some(ports) => p.exposed_ports matches Some(e) && e@.len() == ports@.len() && forall|i: int|
                0 <= i < ports@.len() ==> #[trigger] e@[i]@ == decimal(ports@[i] as nat) + "/tcp"@,
            None => p.exposed_ports is None,
        },
        opt_views(p.binds) == nonempty_or_none(binds_of(data.volumes, clock_bind, storage_bind)),
        opt_views(p.env) == nonempty_or_none(env_of(data.env, clock_env@)),
        opt_views(p.extra_hosts) == if data.network_proxied {
            Some(seq![HOST_GATEWAY@])
        } else {
            None::<Seq<Seq<char>>>
        },
{
    let mut env: Vec<String> = match &data.env {
        Some(e) => clone_strings(e),
        None => Vec::new(),
    };
    append_strings(&mut env, clock_env);
    let ghost ev = env_of(data.env, clock_env@);
    assert(string_views(env@) == ev);
    let mut binds: Vec<String> = match &data.volumes {
        Some(v) => clone_strings(v),
        None => Vec::new(),
    };
    match clock_bind {
        Some(b) => {
            binds.push(b);
        },
        None => {},
    }
    match storage_bind {
        Some(b) => {
            binds.push(b);
        },
        None => {},
    }
    assert(string_views(binds@) =~= binds_of(data.volumes, clock_bind, storage_bind));
    let mut labels: Vec<(String, String)> = Vec::new();
    labels.push((String::from_str(MANAGED_LABEL), String::from_str("true")));
    let exposed_ports = match &data.ports {
        Some(ports) => {
            let mut e: Vec<String> = Vec::new();
            let mut i: usize = 0;
            while i < ports.len()
                invariant
                    i <= ports@.len(),
                    e@.len() == i,
                    forall|j: int| 0 <= j < i ==> #[trigger] e@[j]@ == decimal(ports@[j] as nat) + "/tcp"@,
                decreases ports.len() - i,
            {
                e.push(port_key(ports[i]));
                i += 1;
            }
            Some(e)
        },
        None => None,
    };
    let extra_hosts = if data.network_proxied {
        let mut h: Vec<String> = Vec::new();
        h.push(String::from_str(HOST_GATEWAY));
        assert(string_views(h@) =~= seq![HOST_GATEWAY@]);
        Some(h)
    } else {
        None
    };
    let cmd = match &data.cmd {
        Some(c) => Some(clone_strings(c)),
        None => None,
    };
    let runtime = match &data.runtime {
        Some(r) => Some(r.clone()),
        None => None,
    };
    ContainerPlan {
        image: data.image.clone(),
        cmd,
        runtime,
        labels,
        exposed_ports,
        binds: if binds.len() == 0 {
            None
        } else {
            Some(binds)
        },
        extra_hosts,
        env: if env.len() == 0 {
            None
        } else {
            Some(env)
        },
    }
}

/// The refusal to replace a container this harness does not manage: a
/// stale container holding `name` is removed only when its managed label
/// is `true`.
pub fn check_managed(label: Option<&str>, name: &str) -> (r: Result<(), String>)
    ensures
        match r {
            Ok(()) => label matches Some(l) && l@ == "true"@,
            Err(e) => !(label matches Some(l) && l@ == "true"@) && e@ == "container name '"@ + name@
                + "' is in use by a container not managed by dstest"@,
        },
{
    match label {
        Some(l) => if str_eq(l, "true") {
            return Ok(());
        },
        None => {},
    }
    Err(join3("container name '", name, "' is in use by a container not managed by dstest"))
}

/// The exit code of a finished command; an unknown code counts as -1
/// (and a code outside 32 bits is truncated, as a cast does).
pub fn exit_code_of(code: Option<i64>) -> (c: i32)
    ensures
        c == match code {
            Some(x) => x as i32,
            None => -1i32,
        },
{
    match code {
        Some(x) => x as i32,
        None => -1,
    }
}

/// The memory limit a memory deprivation sets: half the current limit but
/// at least 64 MiB, or 64 MiB for an unlimited container.
pub open spec fn deprived_memory_of(current: i64) -> i64 {
    if current > 0 {
        if current / 2 >= DEPRIVE_MEMORY_FLOOR {
            (current / 2) as i64
        } else {
            DEPRIVE_MEMORY_FLOOR
        }
    } else {
        DEPRIVE_MEMORY_FLOOR
    }
}

/// The memory limit of a memory deprivation (see [`deprived_memory_of`]).
pub fn deprived_memory(current: i64) -> (m: i64)
    ensures
        m == deprived_memory_of(current),
        m >= DEPRIVE_MEMORY_FLOOR,
{
    if current > 0 {
        let half = current / 2;
        if half >= DEPRIVE_MEMORY_FLOOR {
            half
        } else {
            DEPRIVE_MEMORY_FLOOR
        }
    } else {
        DEPRIVE_MEMORY_FLOOR
    }
}

/// The limits a deprivation writes to a container; `None` leaves a limit
/// as it is.
pub struct LimitUpdate {
    pub blkio_weight: Option<u16>,
    /// The device and rate of the read and write bandwidth caps.
    pub bandwidth_cap: Option<(String, i64)>,
    pub memory: Option<i64>,
    pub memory_swap: Option<i64>,
    pub cpu_period: Option<i64>,
    pub cpu_quota: Option<i64>,
}

/// What depriving a container of a resource does.
pub enum Deprivation {
    /// Write these limits.
    Limit(LimitUpdate),
    /// Disconnect it from the bridge network.
    Disconnect,
}

/// What depriving a container of `tier` does: disk lowers the I/O weight
/// and, when a host block device was found, caps its bandwidth; network
/// disconnects; memory halves the limit (see [`deprived_memory_of`]) for
/// memory and swap alike; CPU sets the deprived period and quota.
/// `current_memory` is the container's memory limit (0 when unlimited),
/// read for the memory tier only.
pub fn deprivation(tier: Tier, disk_device: Option<String>, current_memory: i64) -> (d: Deprivation)
    ensures
        match tier {
            Tier::Disk => d matches Deprivation::Limit(u) && u.blkio_weight == Some(DEPRIVE_BLKIO_WEIGHT)
                && (match disk_device {
                    Some(dev) => u.bandwidth_cap matches Some((p, r)) && p@ == dev@ && r == DEPRIVE_DISK_BPS,
                    None => u.bandwidth_cap is None,
                })
                && u.memory is None && u.memory_swap is None && u.cpu_period is None && u.cpu_quota is None,
            Tier::Network => d is Disconnect,
            Tier::Memory => d matches Deprivation::Limit(u) && u.memory == Some(deprived_memory_of(current_memory))
                && u.memory_swap == Some(deprived_memory_of(current_memory)) && u.blkio_weight is None
                && u.bandwidth_cap is None && u.cpu_period is None && u.cpu_quota is None,
            Tier::Cpu => d matches Deprivation::Limit(u) && u.cpu_period == Some(DEPRIVE_CPU_PERIOD)
                && u.cpu_quota == Some(DEPRIVE_CPU_QUOTA) && u.blkio_weight is None && u.bandwidth_cap is None
                && u.memory is None && u.memory_swap is None,
        },
{
    match tier {
        Tier::Disk => Deprivation::Limit(LimitUpdate {
            blkio_weight: Some(DEPRIVE_BLKIO_WEIGHT),
            bandwidth_cap: match disk_device {
                Some(dev) => Some((dev, DEPRIVE_DISK_BPS)),
                None => None,
            },
            memory: None,
            memory_swap: None,
            cpu_period: None,
            cpu_quota: None,
        }),
        Tier::Network => Deprivation::Disconnect,
        Tier::Memory => {
            let m = deprived_memory(current_memory);
            Deprivation::Limit(LimitUpdate {
                blkio_weight: None,
                bandwidth_cap: None,
                memory: Some(m),
                memory_swap: Some(m),
                cpu_period: None,
                cpu_quota: None,
            })
        },
        Tier::Cpu => Deprivation::Limit(LimitUpdate {
            blkio_weight: None,
            bandwidth_cap: None,
            memory: None,
            memory_swap: None,
            cpu_period: Some(DEPRIVE_CPU_PERIOD),
            cpu_quota: Some(DEPRIVE_CPU_QUOTA),
        }),
    }
}

/// Resource limits read back right after a container started.
#[derive(Clone, Copy)]
pub struct OriginalLimits {
    pub memory: Option<i64>,
    pub memory_swap: Option<i64>,
    pub cpu_period: Option<i64>,
    pub cpu_quota: Option<i64>,
    pub blkio_weight: Option<u16>,
}

impl Default for OriginalLimits {
    /// Nothing known.
    fn default() -> (o: Self)
        ensures
            o.memory is None && o.memory_swap is None && o.cpu_period is None && o.cpu_quota is None
                && o.blkio_weight is None,
    {
        OriginalLimits { memory: None, memory_swap: None, cpu_period: None, cpu_quota: None, blkio_weight: None }
    }
}

/// The limits written back when faults are cleared.
pub struct RestoredLimits {
    pub memory: i64,
    pub memory_swap: i64,
    pub cpu_period: i64,
    pub cpu_quota: i64,
    pub blkio_weight: u16,
}

/// A positive limit, if there is one.
pub open spec fn positive_i64(x: Option<i64>) -> Option<i64> {
    match x {
        Some(v) => if v > 0 {
            Some(v)
        } else {
            None
        },
        None => None,
    }
}

pub open spec fn sat_mul(a: i64, b: i64) -> i64 {
    if a * b > i64::MAX {
        i64::MAX
    } else if a * b < i64::MIN {
        i64::MIN
    } else {
        (a * b) as i64
    }
}

/// The limits that clearing faults writes back. The Docker engine treats
/// 0 as "no change", so a limit that was originally unlimited (absent or
/// not positive) is approximated: memory by the host's total (the largest
/// limit when that is unknown), swap by twice the memory, the CPU period by
/// 100000, the quota by the period times the host's cores, the I/O weight
/// by the cgroup default.
pub open spec fn restored_of(orig: OriginalLimits, host_memory: Option<i64>, cores: i64, default_weight: u16) -> RestoredLimits {
    let memory = match positive_i64(orig.memory) {
        Some(m) => m,
        None => match host_memory {
            Some(h) => h,
            None => i64::MAX,
        },
    };
    let period = match positive_i64(orig.cpu_period) {
        Some(p) => p,
        None => DEFAULT_CPU_PERIOD,
    };
    RestoredLimits {
        memory,
        memory_swap: match positive_i64(orig.memory_swap) {
            Some(s) => s,
            None => sat_mul(memory, 2),
        },
        cpu_period: period,
        cpu_quota: match positive_i64(orig.cpu_quota) {
            Some(q) => q,
            None => sat_mul(period, cores),
        },
        blkio_weight: match orig.blkio_weight {
            Some(w) => if w > 0 {
                w
            } else {
                default_weight
            },
            None => default_weight,
        },
    }
}

fn saturating_mul(a: i64, b: i64) -> (r: i64)
    ensures
        r == sat_mul(a, b),
{
    match a.checked_mul(b) {
        Some(r) => r,
        None => {
            if (a < 0) == (b < 0) {
                assert(a * b > 0) by (nonlinear_arith)
                    requires (a < 0) == (b < 0), a != 0, b != 0;
                i64::MAX
            } else {
                assert(a * b < 0) by (nonlinear_arith)
                    requires (a < 0) != (b < 0), a != 0, b != 0;
                i64::MIN
            }
        },
    }
}

/// The limits that clearing faults writes back (see [`restored_of`]).
pub fn restored_limits(orig: OriginalLimits, host_memory: Option<i64>, cores: i64, default_weight: u16) -> (r: RestoredLimits)
    ensures
        r == restored_of(orig, host_memory, cores, default_weight),
{
    let memory = match orig.memory {
        Some(m) if m > 0 => m,
        _ => match host_memory {
            Some(h) => h,
            None => i64::MAX,
        },
    };
    let memory_swap = match orig.memory_swap {
        Some(s) if s > 0 => s,
        _ => saturating_mul(memory, 2),
    };
    let cpu_period = match orig.cpu_period {
        Some(p) if p > 0 => p,
        _ => DEFAULT_CPU_PERIOD,
    };
    let cpu_quota = match orig.cpu_quota {
        Some(q) if q > 0 => q,
        _ => saturating_mul(cpu_period, cores),
    };
    let blkio_weight = match orig.blkio_weight {
        Some(w) if w > 0 => w,
        _ => default_weight,
    };
    RestoredLimits { memory, memory_swap, cpu_period, cpu_quota, blkio_weight }
}

/// The cgroup-default I/O weight: 100 on cgroup v2, 500 on cgroup v1.
pub fn default_blkio_weight(cgroup_v2: bool) -> (w: u16)
    ensures
        w == if cgroup_v2 {
            100u16
        } else {
            500u16
        },
{
    if cgroup_v2 {
        100
    } else {
        500
    }
}

/// The limits each container started with, by container id.
pub struct LimitsBook {
    limits: Keyed<OriginalLimits>,
}

impl LimitsBook {
    pub closed spec fn spec_limits(&self) -> Map<Seq<char>, OriginalLimits> {
        self.limits.spec_map()
    }

    pub closed spec fn wf(&self) -> bool {
        self.limits.wf()
    }

    pub fn new() -> (b: LimitsBook)
        ensures
            b.wf(),
            b.spec_limits() == Map::<Seq<char>, OriginalLimits>::empty(),
    {
        LimitsBook { limits: Keyed::new() }
    }

    /// Remember the limits a container started with.
    pub fn record(&mut self, container_id: String, limits: OriginalLimits)
        requires
            old(self).wf(),
        ensures
            final(self).wf(),
            final(self).spec_limits() == old(self).spec_limits().insert(container_id@, limits),
    {
        self.limits.insert(container_id, limits);
    }

    /// Forget a torn-down container.
    pub fn forget(&mut self, container_id: &str)
        requires
            old(self).wf(),
        ensures
            final(self).wf(),
            final(self).spec_limits() == old(self).spec_limits().remove(container_id@),
    {
        let _ = self.limits.remove(container_id);
    }

    /// The limits a container started with; nothing known for an unknown
    /// container.
    pub fn original(&self, container_id: &str) -> (o: OriginalLimits)
        requires
            self.wf(),
        ensures
            if self.spec_limits().contains_key(container_id@) {
                o == self.spec_limits()[container_id@]
            } else {
                o == OriginalLimits {
                    memory: None,
                    memory_swap: None,
                    cpu_period: None,
                    cpu_quota: None,
                    blkio_weight: None,
                }
            },
    {
        match self.limits.get(container_id) {
            Some(o) => *o,
            None => OriginalLimits::default(),
        }
    }
}

/// The index of the first occurrence of `x` in `s`.
pub open spec fn first_index(s: Seq<Seq<char>>, x: Seq<char>) -> Option<int>
    decreases s.len(),
{
    if s.len() == 0 {
        None
    } else if s[0] == x {
        Some(0)
    } else {
        match first_index(s.drop_first(), x) {
            Some(i) => Some(i + 1),
            None => None,
        }
    }
}

/// The source of the root mount in a `mountinfo` listing: on the first
/// line whose fifth field is `/`, the field two past the `-` separator
/// (none when the separator or that field is missing).
pub open spec fn mount_source_of(lines: Seq<Seq<char>>) -> Option<Seq<char>>
    decreases lines.len(),
{
    if lines.len() == 0 {
        None
    } else {
        let f = words_of(lines[0]);
        if f.len() > 4 && f[4] == "/"@ {
            match first_index(f, "-"@) {
                Some(d) => if d + 2 < f.len() {
                    Some(f[d + 2])
                } else {
                    None
                },
                None => None,
            }
        } else {
            mount_source_of(lines.drop_first())
        }
    }
}

fn position_of(fields: &Vec<String>, x: &str) -> (r: Option<usize>)
    ensures
        match r {
            Some(i) => first_index(fields@.map_values(|s: String| s@), x@) == Some(i as int),
            None => first_index(fields@.map_values(|s: String| s@), x@) is None,
        },
{
    let ghost f = fields@.map_values(|s: String| s@);
    let mut i: usize = 0;
    assert(f.subrange(0, f.len() as int) =~= f);
    while i < fields.len()
        invariant
            i <= fields@.len(),
            f == fields@.map_values(|s: String| s@),
            first_index(f, x@) == match first_index(f.subrange(i as int, f.len() as int), x@) {
                Some(j) => Some(j + i),
                None => None::<int>,
            },
        decreases fields.len() - i,
    {
        let ghost rest = f.subrange(i as int, f.len() as int);
        assert(rest.drop_first() =~= f.subrange(i + 1, f.len() as int));
        assert(rest[0] == fields@[i as int]@);
        if str_eq(fields[i].as_str(), x) {
            return Some(i);
        }
        i += 1;
    }
    assert(f.subrange(i as int, f.len() as int) =~= Seq::<Seq<char>>::empty());
    None
}

/// The source of the root mount in a `mountinfo` listing (see
/// [`mount_source_of`]).
pub fn mount_source(mountinfo: &str) -> (r: Option<String>)
    ensures
        crate::text::opt_text(r) == mount_source_of(lines_of(mountinfo@)),
{
    let ls = lines(mountinfo);
    let ghost l = lines_of(mountinfo@);
    let mut i: usize = 0;
    assert(l.subrange(0, l.len() as int) =~= l);
    while i < ls.len()
        invariant
            i <= ls@.len(),
            ls@.map_values(|s: String| s@) == l,
            ls@.len() == l.len(),
            l == lines_of(mountinfo@),
            mount_source_of(l) == mount_source_of(l.subrange(i as int, l.len() as int)),
        decreases ls.len() - i,
    {
        let ghost rest = l.subrange(i as int, l.len() as int);
        assert(rest.drop_first() =~= l.subrange(i + 1, l.len() as int));
        assert(rest[0] == ls@[i as int]@);
        let fields = words(ls[i].as_str());
        let ghost f = words_of(rest[0]);
        assert(fields@.map_values(|s: String| s@) == f);
        assert(fields@.len() == f.len());
        if fields.len() > 4 && str_eq(fields[4].as_str(), "/") {
            assert(fields@[4]@ == f[4]);
            assert(rest.len() > 0);
            match position_of(&fields, "-") {
                Some(d) => {
                    if d < fields.len() - 2 {
                        assert(fields@[d + 2]@ == f[d + 2]);
                        return Some(fields[d + 2].clone());
                    } else {
                        return None;
                    }
                },
                None => return None,
            }
        }
        proof {
            if f.len() > 4 {
                assert(fields@[4]@ == f[4]);
            }
        }
        i += 1;
    }
    None
}

/// Whether a `major:minor` pair is the first field of some line of an
/// `io.stat` listing (so a bandwidth limit can be set on it).
pub open spec fn in_io_stat_of(stat: Seq<char>, majmin: Seq<char>) -> bool {
    exists|i: int|
        0 <= i < lines_of(stat).len() && words_of(#[trigger] lines_of(stat)[i]).len() > 0
            && words_of(lines_of(stat)[i])[0] == majmin
}

/// Whether a `major:minor` pair is listed in `io.stat` (see
/// [`in_io_stat_of`]).
pub fn in_io_stat(stat: &str, majmin: &str) -> (b: bool)
    ensures
        b == in_io_stat_of(stat@, majmin@),
{
    let ls = lines(stat);
    let ghost l = lines_of(stat@);
    let mut i: usize = 0;
    while i < ls.len()
        invariant
            i <= ls@.len(),
            ls@.map_values(|s: String| s@) == l,
            ls@.len() == l.len(),
            l == lines_of(stat@),
            forall|j: int|
                0 <= j < i ==> !(words_of(#[trigger] l[j]).len() > 0 && words_of(l[j])[0] == majmin@),
        decreases ls.len() - i,
    {
        assert(l[i as int] == ls@[i as int]@);
        let fields = words(ls[i].as_str());
        assert(fields@.map_values(|s: String| s@).len() == words_of(l[i as int]).len());
        if fields.len() > 0 && str_eq(fields[0].as_str(), majmin) {
            assert(fields@[0]@ == words_of(l[i as int])[0]);
            assert(words_of(lines_of(stat@)[i as int]).len() > 0);
            return true;
        }
        proof {
            if fields@.len() > 0 {
                assert(fields@[0]@ == words_of(l[i as int])[0]);
            }
        }
        i += 1;
    }
    false
}

/// The total memory in a `meminfo` listing, in kB: on the first line that
/// starts with `MemTotal:`, the rest trimmed, without its ` kB` unit,
/// trimmed again and read as a number (none when any step fails).
pub open spec fn mem_total_kb_of(lines: Seq<Seq<char>>) -> Option<int>
    decreases lines.len(),
{
    if lines.len() == 0 {
        None
    } else if "MemTotal:"@.is_prefix_of(lines[0]) {
        let rest = trim_of(lines[0].subrange("MemTotal:"@.len() as int, lines[0].len() as int));
        if " kB"@.is_suffix_of(rest) {
            match parse_i64_spec(trim_of(rest.subrange(0, rest.len() - 3))) {
                Ok(n) => Some(n),
                Err(_) => None,
            }
        } else {
            None
        }
    } else {
        mem_total_kb_of(lines.drop_first())
    }
}

/// The total memory in a `meminfo` listing, in kB (see
/// [`mem_total_kb_of`]).
pub fn mem_total_kb(meminfo: &str) -> (r: Option<i64>)
    ensures
        match r {
            Some(n) => mem_total_kb_of(lines_of(meminfo@)) == Some(n as int),
            None => mem_total_kb_of(lines_of(meminfo@)) is None,
        },
{
    let ls = lines(meminfo);
    let ghost l = lines_of(meminfo@);
    let mut i: usize = 0;
    assert(l.subrange(0, l.len() as int) =~= l);
    proof {
        reveal_strlit("MemTotal:");
        reveal_strlit(" kB");
    }
    while i < ls.len()
        invariant
            i <= ls@.len(),
            ls@.map_values(|s: String| s@) == l,
            ls@.len() == l.len(),
            l == lines_of(meminfo@),
            mem_total_kb_of(l) == mem_total_kb_of(l.subrange(i as int, l.len() as int)),
        decreases ls.len() - i,
    {
        let ghost rest = l.subrange(i as int, l.len() as int);
        assert(rest.drop_first() =~= l.subrange(i + 1, l.len() as int));
        assert(rest[0] == ls@[i as int]@);
        proof {
            reveal_strlit("MemTotal:");
            reveal_strlit(" kB");
        }
        match strip_prefix(ls[i].as_str(), "MemTotal:") {
            Some(after) => {
                assert(after@ =~= rest[0].subrange("MemTotal:"@.len() as int, rest[0].len() as int));
                let t = trim(after);
                match strip_suffix(t, " kB") {
                    Some(num) => {
                        assert(num@ =~= t@.subrange(0, t@.len() - 3));
                        let n = trim(num);
                        return match parse_i64(n) {
                            Ok(v) => Some(v),
                            Err(_) => None,
                        };
                    },
                    None => return None,
                }
            },
            None => {},
        }
        i += 1;
    }
    None
}

/// Whether a `/dev` entry may be a disk: its name starts with `nvme`,
/// `sd` or `vd`.
pub fn is_disk_name(name: &str) -> (b: bool)
    ensures
        b == ("nvme"@.is_prefix_of(name@) || "sd"@.is_prefix_of(name@) || "vd"@.is_prefix_of(name@)),
{
    starts_with(name, "nvme") || starts_with(name, "sd") || starts_with(name, "vd")
}

pub open spec fn disk_name(name: Seq<char>) -> bool {
    "nvme"@.is_prefix_of(name) || "sd"@.is_prefix_of(name) || "vd"@.is_prefix_of(name)
}

/// The first entry named like a disk that is a block device and is (or is
/// not) a partition.
pub open spec fn first_disk(entries: Seq<(Seq<char>, Option<bool>)>, partition: bool) -> Option<Seq<char>>
    decreases entries.len(),
{
    if entries.len() == 0 {
        None
    } else if disk_name(entries[0].0) && entries[0].1 == Some(partition) {
        Some(entries[0].0)
    } else {
        first_disk(entries.drop_first(), partition)
    }
}

/// The fallback block device among the `/dev` entries, in listing order,
/// each with whether it is a block device with a sysfs entry and, if so,
/// whether it is a partition: `/dev/` and the first whole disk, else the
/// first partition, among the entries named like disks.
pub open spec fn fallback_device_of(entries: Seq<(Seq<char>, Option<bool>)>) -> Option<Seq<char>> {
    match first_disk(entries, false) {
        Some(n) => Some("/dev/"@ + n),
        None => match first_disk(entries, true) {
            Some(n) => Some("/dev/"@ + n),
            None => None,
        },
    }
}

/// The fallback block device (see [`fallback_device_of`]).
pub fn fallback_device(entries: &Vec<(String, Option<bool>)>) -> (r: Option<String>)
    ensures
        crate::text::opt_text(r) == fallback_device_of(entries@.map_values(|e: (String, Option<bool>)| (e.0@, e.1))),
{
    let ghost es = entries@.map_values(|e: (String, Option<bool>)| (e.0@, e.1));
    let mut whole: Option<String> = None;
    let mut part: Option<String> = None;
    let mut i: usize = 0;
    assert(es.subrange(0, es.len() as int) =~= es);
    while i < entries.len()
        invariant
            i <= entries@.len(),
            es == entries@.map_values(|e: (String, Option<bool>)| (e.0@, e.1)),
            first_disk(es, false) == match whole {
                Some(w) => Some(w@.subrange(5, w@.len() as int)),
                None => first_disk(es.subrange(i as int, es.len() as int), false),
            },
            first_disk(es, true) == match part {
                Some(w) => Some(w@.subrange(5, w@.len() as int)),
                None => first_disk(es.subrange(i as int, es.len() as int), true),
            },
            whole matches Some(w) ==> "/dev/"@.is_prefix_of(w@),
            part matches Some(w) ==> "/dev/"@.is_prefix_of(w@),
        decreases entries.len() - i,
    {
        let ghost rest = es.subrange(i as int, es.len() as int);
        assert(rest.drop_first() =~= es.subrange(i + 1, es.len() as int));
        assert(rest[0] == (entries@[i as int].0@, entries@[i as int].1));
        let name = entries[i].0.as_str();
        proof {
            reveal_strlit("/dev/");
        }
        if is_disk_name(name) {
            match entries[i].1 {
                Some(is_part) => {
                    let dev = join2("/dev/", name);
                    assert(dev@.subrange(5, dev@.len() as int) =~= name@);
                    if is_part {
                        if part.is_none() {
                            part = Some(dev);
                        }
                    } else {
                        if whole.is_none() {
                            whole = Some(dev);
                        }
                    }
                },
                None => {},
            }
        }
        i += 1;
    }
    assert(es.subrange(i as int, es.len() as int) =~= Seq::<(Seq<char>, Option<bool>)>::empty());
    proof {
        reveal_strlit("/dev/");
    }
    match whole {
        Some(w) => {
            assert(w@ =~= "/dev/"@ + w@.subrange(5, w@.len() as int));
            Some(w)
        },
        None => {
            match &part {
                Some(w) => {
                    assert(w@ =~= "/dev/"@ + w@.subrange(5, w@.len() as int));
                },
                None => {},
            }
            part
        },
    }
}

/// Clearing faults writes back exactly the limits a container started
/// with when each of them was set (positive).
pub proof fn restore_keeps_set_limits(orig: OriginalLimits, host_memory: Option<i64>, cores: i64, default_weight: u16)
    requires
        orig.memory matches Some(m) && m > 0,
        orig.memory_swap matches Some(s) && s > 0,
        orig.cpu_period matches Some(p) && p > 0,
        orig.cpu_quota matches Some(q) && q > 0,
        orig.blkio_weight matches Some(w) && w > 0,
    ensures
        Some(restored_of(orig, host_memory, cores, default_weight).memory) == orig.memory,
        Some(restored_of(orig, host_memory, cores, default_weight).memory_swap) == orig.memory_swap,
        Some(restored_of(orig, host_memory, cores, default_weight).cpu_period) == orig.cpu_period,
        Some(restored_of(orig, host_memory, cores, default_weight).cpu_quota) == orig.cpu_quota,
        Some(restored_of(orig, host_memory, cores, default_weight).blkio_weight) == orig.blkio_weight,
{
}

/// A memory deprivation never raises a container's limit above what it
/// was, once that limit is at least twice the floor, and never sets less
/// than the floor.
pub proof fn deprivation_lowers_memory(current: i64)
    ensures
        deprived_memory_of(current) >= DEPRIVE_MEMORY_FLOOR,
        current >= 2 * DEPRIVE_MEMORY_FLOOR ==> deprived_memory_of(current) <= current,
{
}

} // verus!

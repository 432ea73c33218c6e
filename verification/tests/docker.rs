use dstest::docker::{deprivation, Deprivation};
use dstest::fault::Tier;
use dstest::docker::clock::{decode_nanos, encode_nanos, DockerClock};
use dstest::docker::storage::StorageSpec;
use dstest::docker::{
    check_managed, container_plan, default_blkio_weight, deprived_memory, docker_state,
    env_entry, exit_code_of, fallback_device, in_io_stat, is_disk_name, localhost_addr,
    mem_total_kb, mount_source, needs_restart, parse_host_port, port_key, restored_limits,
    storage_spec_from, subject_status, ContainerStatus, DockerLogOpts, DockerState,
    DockerSubjectData, LimitsBook, OriginalLimits,
};
use dstest::subject::{Subject, SubjectStatus};

fn data() -> DockerSubjectData {
    DockerSubjectData {
        image: "alpine:3.20".to_string(),
        runtime: Some("dtrun".to_string()),
        cmd: Some(vec!["sleep".to_string(), "300".to_string()]),
        ports: Some(vec![8080, 9090]),
        volumes: Some(vec!["/srv:/srv".to_string()]),
        env: Some(vec!["A=1".to_string()]),
        clock: None,
        network_proxied: true,
        storage: None,
    }
}

#[test]
fn test_write_read_nanos() {
    let bytes = encode_nanos(1_600_000_000_000_000_000);
    assert_eq!(bytes, 1_600_000_000_000_000_000i64.to_le_bytes());
    assert_eq!(decode_nanos(bytes), 1_600_000_000_000_000_000);
    assert_eq!(decode_nanos(encode_nanos(-5)), -5);
}

#[test]
fn docker_states_and_statuses() {
    assert_eq!(docker_state(Some(ContainerStatus::Running)), DockerState::Running);
    assert_eq!(docker_state(Some(ContainerStatus::Paused)), DockerState::Paused);
    assert_eq!(docker_state(Some(ContainerStatus::Exited)), DockerState::Exited);
    assert_eq!(docker_state(Some(ContainerStatus::Created)), DockerState::Dead);
    assert_eq!(docker_state(None), DockerState::Dead);
    assert_eq!(DockerState::Exited.to_string(), "exited");
    assert_eq!(subject_status(Some(ContainerStatus::Running)), SubjectStatus::Running);
    assert_eq!(subject_status(Some(ContainerStatus::Restarting)), SubjectStatus::Pending);
    assert_eq!(subject_status(Some(ContainerStatus::Dead)), SubjectStatus::Terminated);
    assert_eq!(subject_status(None), SubjectStatus::Terminated);
    assert!(needs_restart(Some(ContainerStatus::Exited)));
    assert!(!needs_restart(Some(ContainerStatus::Paused)));
}

#[test]
fn log_options_default() {
    let o = DockerLogOpts::default();
    assert!(o.stdout && o.stderr && !o.timestamps);
    assert!(o.tail.is_none() && o.since.is_none());
}

#[test]
fn container_plan_from_setup() {
    let plan = container_plan(
        &data(),
        &vec!["LD_PRELOAD=/dstest-clock/dstest_clock.so".to_string()],
        Some("/c:/dstest-clock:ro".to_string()),
        Some("/m:/data".to_string()),
    );
    assert_eq!(plan.image, "alpine:3.20");
    assert_eq!(plan.runtime.as_deref(), Some("dtrun"));
    assert_eq!(plan.labels, vec![("dstest.managed".to_string(), "true".to_string())]);
    assert_eq!(plan.exposed_ports.unwrap(), vec!["8080/tcp", "9090/tcp"]);
    assert_eq!(plan.binds.unwrap(), vec!["/srv:/srv", "/c:/dstest-clock:ro", "/m:/data"]);
    assert_eq!(plan.env.unwrap(), vec!["A=1", "LD_PRELOAD=/dstest-clock/dstest_clock.so"]);
    assert_eq!(plan.extra_hosts.unwrap(), vec!["host.docker.internal:host-gateway"]);
    let mut bare = data();
    bare.volumes = None;
    bare.env = None;
    bare.ports = None;
    bare.network_proxied = false;
    let plan = container_plan(&bare, &vec![], None, None);
    assert!(plan.binds.is_none() && plan.env.is_none());
    assert!(plan.exposed_ports.is_none() && plan.extra_hosts.is_none());
}

#[test]
fn storage_from_setup_table() {
    assert!(storage_spec_from(false, Some(1), None).unwrap().is_none());
    let s: StorageSpec = storage_spec_from(true, None, Some("/data".to_string())).unwrap().unwrap();
    assert_eq!((s.size_mb, s.mount.as_str()), (512, "/data"));
    assert_eq!(
        storage_spec_from(true, Some(5), None).err().unwrap(),
        "storage requires a `mount` field"
    );
    assert_eq!(
        storage_spec_from(true, Some(0), Some("/d".to_string())).err().unwrap(),
        "storage: size_mb must be > 0"
    );
}

#[test]
fn small_formatting_rules() {
    assert_eq!(env_entry("KEY", "v=1"), "KEY=v=1");
    assert_eq!(port_key(5432), "5432/tcp");
    assert_eq!(localhost_addr(49153), "localhost:49153");
    assert_eq!(parse_host_port("49153"), Some(49153));
    assert_eq!(parse_host_port("70000"), None);
    assert_eq!(parse_host_port(""), None);
    assert_eq!(exit_code_of(Some(3)), 3);
    assert_eq!(exit_code_of(None), -1);
    assert_eq!(exit_code_of(Some(1 << 32)), 0);
}

#[test]
fn managed_check() {
    assert!(check_managed(Some("true"), "web").is_ok());
    assert_eq!(
        check_managed(Some("yes"), "web").unwrap_err(),
        "container name 'web' is in use by a container not managed by dstest"
    );
    assert!(check_managed(None, "web").is_err());
}

#[test]
fn memory_deprivation_halves_with_a_floor() {
    let mib = 1024 * 1024;
    assert_eq!(deprived_memory(1024 * mib), 512 * mib);
    assert_eq!(deprived_memory(100 * mib), 64 * mib);
    assert_eq!(deprived_memory(0), 64 * mib);
    assert_eq!(deprived_memory(-1), 64 * mib);
}

#[test]
fn restored_limits_approximate_unlimited() {
    let orig = OriginalLimits {
        memory: Some(0),
        memory_swap: None,
        cpu_period: None,
        cpu_quota: Some(-1),
        blkio_weight: Some(0),
    };
    let r = restored_limits(orig, Some(8 << 30), 4, default_blkio_weight(true));
    assert_eq!(r.memory, 8 << 30);
    assert_eq!(r.memory_swap, 16 << 30);
    assert_eq!(r.cpu_period, 100_000);
    assert_eq!(r.cpu_quota, 400_000);
    assert_eq!(r.blkio_weight, 100);
    let r = restored_limits(OriginalLimits::default(), None, 2, default_blkio_weight(false));
    assert_eq!(r.memory, i64::MAX);
    assert_eq!(r.memory_swap, i64::MAX);
    assert_eq!(r.blkio_weight, 500);
    let set = OriginalLimits {
        memory: Some(10),
        memory_swap: Some(20),
        cpu_period: Some(30),
        cpu_quota: Some(40),
        blkio_weight: Some(50),
    };
    let r = restored_limits(set, None, 1, 100);
    assert_eq!((r.memory, r.memory_swap, r.cpu_period, r.cpu_quota, r.blkio_weight), (10, 20, 30, 40, 50));
}

#[test]
fn limits_book_remembers_and_forgets() {
    let mut book = LimitsBook::new();
    let l = OriginalLimits { memory: Some(5), ..OriginalLimits::default() };
    book.record("c1".to_string(), l);
    assert_eq!(book.original("c1").memory, Some(5));
    assert_eq!(book.original("c2").memory, None);
    book.forget("c1");
    assert_eq!(book.original("c1").memory, None);
}

#[test]
fn root_mount_source_from_mountinfo() {
    let info = "22 1 8:2 / / rw,relatime shared:1 - ext4 /dev/sda2 rw\n\
                23 22 0:5 / /dev rw - devtmpfs udev rw\n";
    assert_eq!(mount_source(info).as_deref(), Some("/dev/sda2"));
    let info = "23 22 0:5 / /dev rw - devtmpfs udev rw\n22 1 8:2 / / rw\t- btrfs  /dev/nvme0n1p2 rw";
    assert_eq!(mount_source(info).as_deref(), Some("/dev/nvme0n1p2"));
    assert_eq!(mount_source("22 1 8:2 / / rw no-separator here\n"), None);
    assert_eq!(mount_source("22 1 8:2 / / rw -"), None);
    assert_eq!(mount_source(""), None);
}

#[test]
fn io_stat_lookup() {
    let stat = "8:0 rbytes=1 wbytes=2\r\n259:0 rbytes=3\n";
    assert!(in_io_stat(stat, "8:0"));
    assert!(in_io_stat(stat, "259:0"));
    assert!(!in_io_stat(stat, "8:1"));
    assert!(!in_io_stat("", "8:0"));
}

#[test]
fn meminfo_total() {
    let info = "MemFree:  100 kB\nMemTotal:       16318412 kB\nSwapTotal: 1 kB\n";
    assert_eq!(mem_total_kb(info), Some(16318412));
    assert_eq!(mem_total_kb("MemTotal: 12 MB\n"), None);
    assert_eq!(mem_total_kb("MemTotal: x kB\n"), None);
    assert_eq!(mem_total_kb("Other: 1 kB"), None);
}

#[test]
fn fallback_block_device_prefers_whole_disks() {
    let entries = vec![
        ("tty0".to_string(), Some(false)),
        ("sda1".to_string(), Some(true)),
        ("nvme0".to_string(), None),
        ("sdb".to_string(), Some(false)),
        ("vda".to_string(), Some(false)),
    ];
    assert_eq!(fallback_device(&entries).as_deref(), Some("/dev/sdb"));
    let parts = vec![("sda1".to_string(), Some(true)), ("sda2".to_string(), Some(true))];
    assert_eq!(fallback_device(&parts).as_deref(), Some("/dev/sda1"));
    assert_eq!(fallback_device(&vec![]), None);
    assert!(is_disk_name("nvme0n1") && is_disk_name("vdb") && !is_disk_name("loop0"));
}

#[test]
fn clock_bookkeeping() {
    let mut clock = DockerClock::new();
    let subject = Subject::new("docker/abc".to_string());
    assert_eq!(
        clock.ctl_for(&subject).unwrap_err(),
        "subject docker/abc has no virtual clock (set clock = { virtual = true } in setup)"
    );
    clock.register("abc".to_string(), "/c/web.ctl".to_string());
    assert_eq!(clock.ctl_for(&subject).unwrap(), "/c/web.ctl");
    assert_eq!(clock.unregister("abc").as_deref(), Some("/c/web.ctl"));
    assert!(clock.unregister("abc").is_none());
    let prep = DockerClock::prep_for("web", "/cache/clock");
    assert_eq!(prep.env, vec!["LD_PRELOAD=/dstest-clock/dstest_clock.so", "DSTEST_CLOCK_CTL=/dstest-clock/web.ctl"]);
    assert_eq!(prep.bind, "/cache/clock:/dstest-clock:ro");
    assert_eq!(prep.ctl_path, "/cache/clock/web.ctl");
}

#[test]
fn clock_arithmetic() {
    assert_eq!(DockerClock::now_millis(1_500_000), 1);
    assert_eq!(DockerClock::now_millis(-1_500_000), -1);
    assert_eq!(DockerClock::offset_nanos(1_000, 2), 2_001_000);
    assert_eq!(DockerClock::advanced_nanos(5_000_000, -3), 2_000_000);
    assert_eq!(DockerClock::state_millis(9_000_000, 4_000_000), (9, 5));
}

#[test]
fn deprivation_by_tier() {
    match deprivation(Tier::Disk, Some("/dev/sda".to_string()), 0) {
        Deprivation::Limit(u) => {
            assert_eq!(u.blkio_weight, Some(50));
            assert_eq!(u.bandwidth_cap, Some(("/dev/sda".to_string(), 1048576)));
            assert_eq!((u.memory, u.cpu_period), (None, None));
        }
        Deprivation::Disconnect => panic!("disk limits"),
    }
    match deprivation(Tier::Disk, None, 0) {
        Deprivation::Limit(u) => assert_eq!((u.blkio_weight, u.bandwidth_cap), (Some(50), None)),
        Deprivation::Disconnect => panic!("disk limits"),
    }
    assert!(matches!(deprivation(Tier::Network, None, 0), Deprivation::Disconnect));
    match deprivation(Tier::Memory, None, 512 * 1024 * 1024) {
        Deprivation::Limit(u) => {
            assert_eq!(u.memory, Some(256 * 1024 * 1024));
            assert_eq!(u.memory_swap, Some(256 * 1024 * 1024));
            assert_eq!(u.blkio_weight, None);
        }
        Deprivation::Disconnect => panic!("memory limits"),
    }
    match deprivation(Tier::Memory, None, 0) {
        Deprivation::Limit(u) => assert_eq!(u.memory, Some(64 * 1024 * 1024)),
        Deprivation::Disconnect => panic!("memory limits"),
    }
    match deprivation(Tier::Cpu, None, 0) {
        Deprivation::Limit(u) => assert_eq!((u.cpu_period, u.cpu_quota, u.memory), (Some(100000), Some(20000), None)),
        Deprivation::Disconnect => panic!("cpu limits"),
    }
}

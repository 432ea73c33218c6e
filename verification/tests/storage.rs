use dstest::components::StorageOpts;
use dstest::docker::storage::{DockerStorage, StoragePlan, StorageSpec, StorageState};
use dstest::subject::Subject;

fn prepared(storage: &mut DockerStorage, name: &str) -> String {
    let spec = StorageSpec { size_mb: 64, mount: "/data".to_string() };
    let plan = DockerStorage::plan(name, &spec, "/cache/dstest/storage").unwrap();
    let prep = storage.record_prepared(plan, "/dev/loop7".to_string(), 131072, "/data");
    prep.dm_name
}

#[test]
fn test_pass_through_table() {
    let t = DockerStorage::pass_through_table(2048, "/dev/loop0");
    assert_eq!(t, "0 2048 flakey /dev/loop0 0 999999 0");
}

#[test]
fn test_down_table_drop_writes() {
    let t = DockerStorage::down_table(2048, "/dev/loop0", &["drop_writes"]);
    assert_eq!(t, "0 2048 flakey /dev/loop0 0 0 1 1 drop_writes");
}

#[test]
fn down_table_without_and_with_several_features() {
    assert_eq!(DockerStorage::down_table(8, "/dev/loop1", &[]), "0 8 flakey /dev/loop1 0 0 1");
    assert_eq!(
        DockerStorage::down_table(8, "/dev/loop1", &["drop_writes", "error_writes"]),
        "0 8 flakey /dev/loop1 0 0 1 2 drop_writes error_writes"
    );
}

#[test]
fn error_and_mode_tables() {
    assert_eq!(DockerStorage::error_table(4096), "0 4096 error");
    let state = StorageState {
        backing_file: "/c/dstest-a.img".to_string(),
        loop_dev: "/dev/loop3".to_string(),
        dm_name: "dstest-a".to_string(),
        host_mount: "/c/dstest-a.mnt".to_string(),
        sectors: 100,
    };
    assert_eq!(DockerStorage::error_mode_table(&state, true), "0 100 error");
    assert_eq!(DockerStorage::error_mode_table(&state, false), "0 100 flakey /dev/loop3 0 999999 0");
    assert_eq!(
        DockerStorage::drop_writes_table(&state, true),
        "0 100 flakey /dev/loop3 0 0 1 1 drop_writes"
    );
    assert_eq!(DockerStorage::drop_writes_table(&state, false), "0 100 flakey /dev/loop3 0 999999 0");
    assert_eq!(DockerStorage::snap_path(&state, "s1"), "/c/s1.snap");
    assert_eq!(DockerStorage::dm_path("dstest-a"), "/dev/mapper/dstest-a");
}

#[test]
fn test_dm_name_sanitises() {
    assert_eq!(
        DockerStorage::dm_name_for("dstest-config_1-1"),
        "dstest-dstest-config-1-1"
    );
}

#[test]
fn test_storage_spec_validate_via_opts() {
    let bad = StorageOpts {
        size_mb: 0,
        mount: "/data".into(),
    };
    assert!(bad.validate().is_err());
    let bad_mount = StorageOpts {
        size_mb: 64,
        mount: "relative".into(),
    };
    assert!(bad_mount.validate().is_err());
    let ok = StorageOpts {
        size_mb: 64,
        mount: "/data".into(),
    };
    assert!(ok.validate().is_ok());
}

#[test]
fn storage_option_errors() {
    let zero = StorageOpts { size_mb: 0, mount: "/data".into() };
    assert_eq!(zero.validate().unwrap_err(), "storage: size_mb must be > 0");
    let rel = StorageOpts { size_mb: 1, mount: "data".into() };
    assert_eq!(rel.validate().unwrap_err(), "storage: mount must be an absolute path");
}

#[test]
fn plan_names_files_next_to_each_other() {
    let spec = StorageSpec { size_mb: 512, mount: "/var/lib/db".to_string() };
    let plan: StoragePlan = DockerStorage::plan("svc.1", &spec, "/tmp/cache").unwrap();
    assert_eq!(plan.dm_name, "dstest-svc-1");
    assert_eq!(plan.backing_file, "/tmp/cache/dstest-svc-1.img");
    assert_eq!(plan.host_mount, "/tmp/cache/dstest-svc-1.mnt");
    let bad = StorageSpec { size_mb: 0, mount: "/x".to_string() };
    assert_eq!(
        DockerStorage::plan("svc", &bad, "/tmp").err().unwrap(),
        "storage: size_mb must be > 0"
    );
}

#[test]
fn prepared_disk_is_found_after_register_and_gone_after_unregister() {
    let mut storage = DockerStorage::new();
    let dm = prepared(&mut storage, "db");
    let subject = Subject::new("docker/c0ffee".to_string());
    assert_eq!(
        storage.state_for(&subject).err().unwrap(),
        "subject docker/c0ffee has no virtual disk (set storage = { flaky = true, ... } in setup)"
    );
    storage.register("c0ffee".to_string(), &dm);
    let state = storage.state_for(&subject).unwrap();
    assert_eq!(state.dm_name, "dstest-db");
    assert_eq!(state.loop_dev, "/dev/loop7");
    assert_eq!(state.sectors, 131072);
    assert!(storage.discard(&dm).is_none());
    let removed = storage.unregister("c0ffee").unwrap();
    assert_eq!(removed.backing_file, "/cache/dstest/storage/dstest-db.img");
    assert!(storage.state_for(&subject).is_err());
}

#[test]
fn record_prepared_gives_the_bind() {
    let mut storage = DockerStorage::new();
    let spec = StorageSpec { size_mb: 64, mount: "/data".to_string() };
    let plan = DockerStorage::plan("web", &spec, "/c").unwrap();
    let prep = storage.record_prepared(plan, "/dev/loop1".to_string(), 10, "/data");
    assert_eq!(prep.bind, "/c/dstest-web.mnt:/data");
    assert_eq!(prep.dm_name, "dstest-web");
    let gone = storage.discard("dstest-web").unwrap();
    assert_eq!(gone.host_mount, "/c/dstest-web.mnt");
}

#[test]
fn corrupt_seeds_mix_seed_counter_and_name() {
    let mut storage = DockerStorage::new();
    let dm = prepared(&mut storage, "db");
    storage.register("abc".to_string(), &dm);
    storage.set_seed(7);
    storage.set_seed(99);
    let subject = Subject::new("abc".to_string());
    let (_, first) = storage.corrupt_target(&subject).unwrap();
    let (_, second) = storage.corrupt_target(&subject).unwrap();
    let base = 7u64.wrapping_mul(0x9E37_79B9_7F4A_7C15);
    assert_eq!(first, base.wrapping_add(0).wrapping_add(9));
    assert_eq!(second, base.wrapping_add(1).wrapping_add(9));
    assert_ne!(first, second);
    let snap = storage.snapshot_plan(&subject).unwrap();
    assert_eq!(snap.snap_id, "dstest-db-snap-2");
    assert_eq!(snap.snap_path, "/cache/dstest/storage/dstest-db-snap-2.snap");
}

#[test]
fn corrupt_offsets_are_in_range_and_seeded() {
    let a = DockerStorage::corrupt_offsets(12345, 1000, 50).unwrap();
    let b = DockerStorage::corrupt_offsets(12345, 1000, 50).unwrap();
    assert_eq!(a.len(), 50);
    assert!(a.iter().all(|o| *o < 1000));
    assert_eq!(a, b);
    assert_eq!(
        DockerStorage::corrupt_offsets(1, 0, 3).unwrap_err(),
        "backing file is empty"
    );
    assert!(DockerStorage::corrupt_offsets(1, 10, 0).unwrap().is_empty());
}

#[test]
fn sector_count_reads_blockdev_output() {
    assert_eq!(DockerStorage::sector_count("131072"), Ok(131072));
    assert_eq!(DockerStorage::sector_count("+5"), Ok(5));
    assert_eq!(
        DockerStorage::sector_count("12a").unwrap_err(),
        "invalid sector count: invalid digit found in string"
    );
    assert_eq!(
        DockerStorage::sector_count("").unwrap_err(),
        "invalid sector count: cannot parse integer from empty string"
    );
    assert_eq!(
        DockerStorage::sector_count("18446744073709551616").unwrap_err(),
        "invalid sector count: number too large to fit in target type"
    );
}

#[test]
fn equal_seeds_flip_equal_offsets() {
    let a = DockerStorage::corrupt_offsets(7, 4096, 16).unwrap();
    let b = DockerStorage::corrupt_offsets(7, 4096, 16).unwrap();
    let c = DockerStorage::corrupt_offsets(8, 4096, 16).unwrap();
    assert_eq!(a, b);
    assert_ne!(a, c);
    // A longer draw from the same seed starts with the shorter one.
    let longer = DockerStorage::corrupt_offsets(7, 4096, 20).unwrap();
    assert_eq!(&longer[..16], &a[..]);
}

use douglas::docker::VersionedImageName;
use douglas::names::Name;
use douglas::paths::{is_already_rotated, DouglasFolders};
use douglas::rotate_seedling_logs::{
    mounts_to_sweep, oversized_files, supports_rotation, Entry, EntryKind, Sweep, MAX_LOG_BYTES,
    MAX_ROTATED_FILES,
};
use douglas::seedling::{
    AccessMode, HealthCheck, Id, Mount, MountType, NamedMount, Origin, Routing, Seedling,
    SeedlingDefinition, Version,
};

fn name(value: &str) -> Name {
    Name::parse(value).expect("valid name")
}

fn folders() -> DouglasFolders {
    DouglasFolders {
        logs: "/var/log/douglas".to_string(),
        transients: "/run/douglas".to_string(),
        configs: "/etc/douglas".to_string(),
        seedlings_root: "/var/lib/douglas".to_string(),
        identity: "/var/lib/douglas-identity".to_string(),
    }
}

fn mount(kind: MountType, remote_path: &str, access_mode: AccessMode, rotate_logs: bool) -> Mount {
    Mount {
        kind,
        remote_path: remote_path.to_string(),
        access_mode,
        contents: Vec::new(),
        rotate_logs,
    }
}

fn seedling_with_mounts(mounts: Vec<NamedMount>) -> Seedling {
    Seedling {
        id: Id { value: 1 },
        name: name("openbao"),
        version: Version(1),
        definition: SeedlingDefinition {
            image: VersionedImageName::specific("openbao", "1"),
            mounts,
            routing: Routing::Unrouted,
            health_check: HealthCheck {
                command: "true".to_string(),
                wait_time_in_seconds: 1,
            },
            secrets: None,
            origin: Origin::Core,
            published_ports: Vec::new(),
            command: None,
            added_capabilities: Vec::new(),
        },
    }
}

fn file_entry(file: &str, dir: &str, size: u64) -> Entry {
    Entry {
        path: format!("{dir}/{file}"),
        kind: EntryKind::File,
        size,
    }
}

#[test]
fn test_supports_rotation_should_allow_a_persisted_mount() {
    let mount = mount(
        MountType::Persisted,
        "/var/log/douglas",
        AccessMode::Writable,
        true,
    );

    assert!(supports_rotation(&mount));
}

#[test]
fn test_supports_rotation_should_allow_an_in_memory_mount() {
    let mount = mount(
        MountType::InMemory,
        "/var/log/douglas",
        AccessMode::Writable,
        true,
    );

    assert!(supports_rotation(&mount));
}

#[test]
fn test_supports_rotation_should_refuse_a_persisted_shared_mount() {
    let mount = mount(
        MountType::PersistedShared(vec![name("other-seedling")]),
        "/var/log/douglas",
        AccessMode::Writable,
        true,
    );

    assert!(!supports_rotation(&mount));
}

#[test]
fn test_is_already_rotated_should_match_a_numeric_extension() {
    assert!(is_already_rotated("audit.log.1"));
    assert!(is_already_rotated("audit.log.42"));
    assert!(!is_already_rotated("audit.log"));
    assert!(!is_already_rotated("audit.log.bak"));
}

#[test]
fn test_rotate_oversized_files_should_rotate_a_file_over_the_limit() {
    let entries = vec![file_entry(
        "audit.log",
        "/mounts/openbao/log",
        MAX_LOG_BYTES + 1,
    )];

    let files = oversized_files(&entries);

    assert_eq!(files.len(), 1);
    assert_eq!(files[0].path, "/mounts/openbao/log/audit.log");
    assert_eq!(MAX_ROTATED_FILES, 5);
}

#[test]
fn test_rotate_oversized_files_should_leave_a_file_under_the_limit_alone() {
    let entries = vec![file_entry("audit.log", "/mounts/openbao/log", 5)];

    assert!(oversized_files(&entries).is_empty());
}

#[test]
fn test_rotate_oversized_files_should_not_re_rotate_an_already_rotated_file() {
    let entries = vec![file_entry(
        "audit.log.1",
        "/mounts/openbao/log",
        MAX_LOG_BYTES + 1,
    )];

    assert!(oversized_files(&entries).is_empty());
}

#[test]
fn test_rotate_oversized_files_should_do_nothing_for_a_missing_directory() {
    assert!(oversized_files(&Vec::new()).is_empty());
}

#[test]
fn test_execute_should_rotate_a_mount_that_opted_in() {
    let seedling = seedling_with_mounts(vec![NamedMount {
        name: name("log"),
        mount: mount(
            MountType::Persisted,
            "/var/log/douglas",
            AccessMode::Writable,
            true,
        ),
    }]);

    let sweeps = mounts_to_sweep(&folders(), &seedling);

    assert_eq!(
        sweeps,
        vec![Sweep::Search {
            folder: "/var/lib/douglas/mounts/openbao/log".to_string()
        }]
    );
}

#[test]
fn test_execute_should_skip_a_mount_that_did_not_opt_in() {
    let seedling = seedling_with_mounts(vec![NamedMount {
        name: name("config"),
        mount: mount(
            MountType::Persisted,
            "/etc/openbao",
            AccessMode::ReadOnly,
            false,
        ),
    }]);

    assert!(mounts_to_sweep(&folders(), &seedling).is_empty());
}

#[test]
fn test_execute_should_skip_a_persisted_shared_mount_even_if_opted_in() {
    let seedling = seedling_with_mounts(vec![NamedMount {
        name: name("log"),
        mount: mount(
            MountType::PersistedShared(vec![name("other")]),
            "/var/log/douglas",
            AccessMode::Writable,
            true,
        ),
    }]);

    let sweeps = mounts_to_sweep(&folders(), &seedling);

    assert!(matches!(sweeps[..], [Sweep::Unsupported { .. }]));
}

#[test]
fn test_a_log_of_exactly_the_limit_is_rotated_and_folders_never_are() {
    let entries = vec![
        file_entry("a.log", "/logs", MAX_LOG_BYTES),
        file_entry("b.log", "/logs", MAX_LOG_BYTES - 1),
        Entry {
            path: "/logs/c".to_string(),
            kind: EntryKind::Folder,
            size: MAX_LOG_BYTES,
        },
    ];

    let files = oversized_files(&entries);

    assert_eq!(files, vec![&entries[0]]);
    assert_eq!(MAX_LOG_BYTES, 10 * 1024 * 1024);
}

#[test]
fn test_only_numeric_extensions_count_as_rotated() {
    assert!(!is_already_rotated(".1"));
    assert!(!is_already_rotated("audit."));
    assert!(!is_already_rotated("1"));
    assert!(is_already_rotated("/logs.d/audit.7"));
    assert!(!is_already_rotated("/logs.1/audit"));
    assert!(!is_already_rotated(".."));
}

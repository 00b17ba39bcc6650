use douglas::application_definition::{
    definition_files, definition_path, deserialize, deserialize_environment, file_names, load,
    qualified_path, serialize, serialize_environment, split_image_name, validate,
    ApplicationDefinition, ApplicationDefinitionRepositryError, FolderEntry, ImageName,
    ImageNameError, MountDefinition, MountFile, SafeForm, ShareAccess, ShareDefinition,
};
use douglas::docker::EnvironmentVariable;
use douglas::rotate_seedling_logs::EntryKind;

fn image(namespace: &str, name: &str, version: &str) -> ImageName {
    ImageName {
        namespace: namespace.to_string(),
        name: name.to_string(),
        version: version.to_string(),
    }
}

fn variable(name: &str, value: &str) -> EnvironmentVariable {
    EnvironmentVariable::new(name, value)
}

fn mount(shared_with: &[&str], files: &[&str]) -> MountDefinition {
    MountDefinition {
        name: "data".to_string(),
        container_path: "/data".to_string(),
        shared_with: shared_with
            .iter()
            .map(|name| ShareDefinition {
                application_display_name: name.to_string(),
                access: ShareAccess::Readonly,
            })
            .collect(),
        files: files
            .iter()
            .map(|name| MountFile {
                relative_mount_path: "conf".to_string(),
                name: name.to_string(),
                contents: "x".to_string(),
            })
            .collect(),
    }
}

fn definition() -> ApplicationDefinition {
    ApplicationDefinition {
        display_name: "Grafana".to_string(),
        image_name: image("grafana", "grafana", "12.1"),
        dependencies: Vec::new(),
        environment_variables: Vec::new(),
        mounts: Vec::new(),
        health_check: None,
    }
}

/// What is wrong with a declaration beside which only one other exists.
fn problem(definition: ApplicationDefinition) -> Option<ApplicationDefinitionRepositryError> {
    validate(
        &definition,
        &vec!["Postgres".to_string()],
        &vec![safe_form("app.ini", "app.ini"), safe_form("../passwd", "__passwd")],
    )
    .err()
}

fn safe_form(name: &str, safe: &str) -> SafeForm {
    SafeForm {
        name: name.to_string(),
        safe: safe.to_string(),
    }
}

/// Reads the name of an image where every version will do.
fn read(text: &str) -> Result<ImageName, ImageNameError> {
    let version = split_image_name(text).map(|parts| parts.version);
    deserialize(text, version.map_err(|error| error.describe()))
}

#[test]
fn test_image_names_round_trip() {
    let name = image("grafana", "grafana", "12.1");

    assert_eq!(serialize(&name), "grafana/grafana:12.1");
    assert_eq!(read(&serialize(&name)), Ok(name));
}

#[test]
fn test_the_namespace_of_an_image_may_be_left_out() {
    assert_eq!(read("redis:8"), Ok(image("", "redis", "8")));
    assert_eq!(read(" a / b :c:d"), Ok(image("a", "b", "c:d")));
    assert_eq!(read("a/b/c:1"), Ok(image("a", "b/c", "1")));
}

#[test]
fn test_image_names_need_a_name_and_a_version() {
    let without_version = read("grafana/grafana").expect_err("there is no version");
    let without_name = read("grafana/ :1").expect_err("there is no name");

    assert_eq!(
        without_version,
        ImageNameError::Malformed {
            text: "grafana/grafana".to_string()
        }
    );
    assert_eq!(
        without_version.describe(),
        "expected namespace/image:version, got: grafana/grafana"
    );
    assert_eq!(without_name, ImageNameError::BlankName);
    assert_eq!(without_name.describe(), "Image name cannot be blank");
}

#[test]
fn test_image_names_need_a_version_that_can_be_read() {
    let refused = || Err("not a version: 'twelve'".to_string());

    let error = deserialize("grafana/grafana:twelve", refused()).expect_err("no version");
    assert_eq!(
        error,
        ImageNameError::InvalidVersion {
            reason: "not a version: 'twelve'".to_string()
        }
    );
    assert_eq!(error.describe(), "not a version: 'twelve'");
    assert_eq!(
        deserialize("grafana", refused()),
        Err(ImageNameError::Malformed {
            text: "grafana".to_string()
        })
    );
    assert_eq!(
        deserialize("grafana/:twelve", refused()),
        Err(ImageNameError::BlankName)
    );
    assert_eq!(
        deserialize("a/b: 1.0 ", Ok("1".to_string())),
        Ok(image("a", "b", "1"))
    );
    assert_eq!(split_image_name("a/b: 1.0 "), Ok(image("a", "b", " 1.0 ")));
}

#[test]
fn test_variables_are_written_in_the_order_of_their_names() {
    let written = |names: &[&str]| -> Vec<String> {
        let variables = names.iter().map(|name| variable(name, "1")).collect();
        let entries = serialize_environment(&variables).expect("all have names");
        entries.into_iter().map(|entry| entry.name).collect()
    };

    assert_eq!(written(&["b", "a"]), vec!["a", "b"]);
    assert_eq!(written(&[]), Vec::<String>::new());
    let names = [
        " z", "AB", "A", "a", "\u{ffff}", "Z", "\u{10000}", "AA", "ab", "_", "0", "\u{e9}", "z ", "A",
    ];
    let sorted: std::collections::BTreeSet<String> =
        names.iter().map(|name| name.trim().to_string()).collect();
    assert_eq!(written(&names), sorted.into_iter().collect::<Vec<String>>());
}

#[test]
fn test_the_last_of_several_variables_with_one_name_is_written() {
    let variables = vec![
        variable("PATH", "/bin"),
        variable(" HOME ", "/root"),
        variable("PATH", "/usr/bin"),
    ];

    assert_eq!(
        serialize_environment(&variables),
        Some(vec![
            variable("HOME", "/root"),
            variable("PATH", "/usr/bin")
        ])
    );
    assert_eq!(serialize_environment(&vec![variable("  ", "x")]), None);
}

#[test]
fn test_names_of_variables_are_trimmed_when_they_are_read() {
    assert_eq!(
        deserialize_environment(&vec![variable("\u{2003}HOME\t", " /root ")]),
        Some(vec![variable("HOME", " /root ")])
    );
    assert_eq!(
        deserialize_environment(&vec![variable("A", "1"), variable("\n", "2")]),
        None
    );
}

#[test]
fn test_a_declaration_in_order_is_accepted() {
    assert_eq!(problem(definition()), None);
    assert_eq!(
        problem(ApplicationDefinition {
            dependencies: vec!["Postgres".to_string()],
            environment_variables: vec![variable("A", "b=c")],
            mounts: vec![mount(&["Postgres"], &["app.ini"])],
            ..definition()
        }),
        None
    );
}

#[test]
fn test_a_declaration_needs_a_name() {
    let error = problem(ApplicationDefinition {
        display_name: String::new(),
        dependencies: vec!["Nothing".to_string()],
        ..definition()
    });

    assert_eq!(
        error,
        Some(ApplicationDefinitionRepositryError::NameCannotBeEmpty)
    );
}

#[test]
fn test_what_a_declaration_refers_to_must_exist() {
    assert_eq!(
        problem(ApplicationDefinition {
            dependencies: vec!["Postgres".to_string(), "Redis".to_string()],
            ..definition()
        }),
        Some(ApplicationDefinitionRepositryError::UnknownDependency(
            "Redis".to_string()
        ))
    );
    assert_eq!(
        problem(ApplicationDefinition {
            mounts: vec![mount(&["Redis"], &[" "])],
            ..definition()
        }),
        Some(
            ApplicationDefinitionRepositryError::UnknownDependencyInShare {
                mount_name: "data".to_string(),
                dependency: "Redis".to_string()
            }
        )
    );
}

#[test]
fn test_names_of_variables_hold_no_equals_sign() {
    assert_eq!(
        problem(ApplicationDefinition {
            environment_variables: vec![variable(" ", "x")],
            ..definition()
        }),
        Some(ApplicationDefinitionRepositryError::EnvironmentVariableNameCannotBeEmpty)
    );
    assert_eq!(
        problem(ApplicationDefinition {
            environment_variables: vec![variable(" A=B ", "x")],
            ..definition()
        }),
        Some(
            ApplicationDefinitionRepositryError::InvalidEnvironmentVariableName(
                "A=B".to_string()
            )
        )
    );
}

#[test]
fn test_files_need_safe_names() {
    assert_eq!(
        problem(ApplicationDefinition {
            mounts: vec![mount(&[], &["app.ini", " "])],
            ..definition()
        }),
        Some(ApplicationDefinitionRepositryError::FileNameCannotBeEmpty {
            mount_name: "data".to_string()
        })
    );
    assert_eq!(
        problem(ApplicationDefinition {
            mounts: vec![mount(&[], &[" ../passwd"])],
            ..definition()
        }),
        Some(ApplicationDefinitionRepositryError::UnsafeFileName {
            mount_name: "data".to_string(),
            file_name: "../passwd".to_string()
        })
    );
    assert_eq!(
        problem(ApplicationDefinition {
            mounts: vec![mount(&[], &["unheard-of"])],
            ..definition()
        }),
        Some(ApplicationDefinitionRepositryError::UnsafeFileName {
            mount_name: "data".to_string(),
            file_name: "unheard-of".to_string()
        })
    );
    assert_eq!(
        file_names(&ApplicationDefinition {
            mounts: vec![mount(&[], &[" a"]), mount(&[], &["b ", "c"])],
            ..definition()
        }),
        vec!["a", "b", "c"]
    );
}

#[test]
fn test_declarations_are_found_in_their_folder() {
    let entry = |name: &str, kind: EntryKind| FolderEntry {
        name: name.to_string(),
        kind,
    };
    let entries = vec![
        entry("grafana.toml", EntryKind::File),
        entry("notes.txt", EntryKind::File),
        entry("old.toml", EntryKind::Folder),
        entry("redis.toml", EntryKind::File),
    ];

    assert_eq!(
        definition_files("/etc/douglas/apps", &entries),
        vec![
            "/etc/douglas/apps/grafana.toml",
            "/etc/douglas/apps/redis.toml"
        ]
    );
    assert_eq!(
        definition_path("/etc/douglas/apps", "grafana"),
        "/etc/douglas/apps/grafana.toml"
    );
    assert_eq!(qualified_path("/etc", "x"), "/etc/x");
}

#[test]
fn test_a_declaration_that_is_not_there_cannot_be_loaded() {
    assert_eq!(load("Grafana", true), Ok(()));
    let error = load("Grafana", false).expect_err("there is no declaration");
    assert_eq!(error.describe(), "No definition for 'Grafana'");
}

#[test]
fn test_errors_of_declarations_are_put_into_words() {
    let text = || "x".to_string();
    for (error, words) in [
        (
            ApplicationDefinitionRepositryError::FileSystemError(text()),
            "File system error: x",
        ),
        (
            ApplicationDefinitionRepositryError::Deserialization(text()),
            "Deserialization error: x",
        ),
        (
            ApplicationDefinitionRepositryError::Serialization(text()),
            "Serialization error: x",
        ),
        (
            ApplicationDefinitionRepositryError::UnknownDependency(text()),
            "Unknown dependency",
        ),
        (
            ApplicationDefinitionRepositryError::InvalidEnvironmentVariableName(text()),
            "Invalid environment variable name: 'x'",
        ),
        (
            ApplicationDefinitionRepositryError::UnknownDependencyInShare {
                mount_name: text(),
                dependency: "y".to_string(),
            },
            "Unknown dependency in share: mount: 'x', dependency: 'y'",
        ),
        (
            ApplicationDefinitionRepositryError::UnsafeFileName {
                mount_name: text(),
                file_name: text(),
            },
            "Unsafe file name",
        ),
    ] {
        assert_eq!(error.describe(), words);
    }
}

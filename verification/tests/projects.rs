use requim::projects::{Project, ProjectData, ProjectDataError};

const MINIMAL_TOML: &str = "projects = []
";

const POPULATED_TOML: &str = "[[projects]]
name = \"Test Project 1\"

[[projects]]
name = \"Test Project 2\"
";

const INVALID_PROJECT_NAMES_TOML: &str = "[[projects]]
name = \"Test Project\"

[[projects]]
name = \"test project\"
";

#[test]
fn deserialize_minmal_config() {
    let config = ProjectData::from_toml(MINIMAL_TOML).expect("Deserialization failure");

    assert_eq!(config, ProjectData { projects: vec![] });
}

#[test]
fn serialize_minimal_config() {
    let minimal_config = ProjectData { projects: vec![] };
    let document = minimal_config.as_toml().expect("Serialization failure");

    assert_eq!(document, MINIMAL_TOML);
}

#[test]
fn deserialize_populated_config() {
    let config = ProjectData::from_toml(POPULATED_TOML).expect("Deserialization failure");

    assert_eq!(
        config.projects,
        vec![
            Project {
                name: "Test Project 1".to_string()
            },
            Project {
                name: "Test Project 2".to_string()
            },
        ]
    )
}

#[test]
fn serialize_populated_config() {
    let config = ProjectData {
        projects: vec![
            Project {
                name: "Test Project 1".to_string(),
            },
            Project {
                name: "Test Project 2".to_string(),
            },
        ],
    };
    let document = config.as_toml().expect("Serialization failure");

    assert_eq!(document, POPULATED_TOML);
}

#[test]
fn deserialize_invalid_project_names_fails() {
    let err = ProjectData::from_toml(INVALID_PROJECT_NAMES_TOML).expect_err("Did not fail");

    assert_eq!(
        err,
        ProjectDataError::ProjectNameConflict("Test Project".to_string())
    )
}

#[test]
fn add_project() {
    let project_data = ProjectData { projects: vec![] };

    assert_eq!(
        project_data.add("Test Project"),
        Ok(ProjectData {
            projects: vec![Project {
                name: "Test Project".to_string()
            }]
        })
    )
}

#[test]
fn add_project_with_existing_name_fails() {
    let project_data = ProjectData {
        projects: vec![Project {
            name: "Test Project".to_string(),
        }],
    };

    assert_eq!(
        project_data.add("test project"),
        Err(ProjectDataError::ProjectNameConflict(
            "Test Project".to_string()
        )),
    )
}

#[test]
fn deserialize_absent_projects_entry_yields_empty_store() {
    let config = ProjectData::from_toml("").expect("Deserialization failure");

    assert_eq!(config, ProjectData { projects: vec![] });
}

#[test]
fn deserialize_blank_document_yields_empty_store() {
    let config = ProjectData::from_toml(" \t\r\n\n").expect("Deserialization failure");

    assert_eq!(config, ProjectData { projects: vec![] });
}

#[test]
fn deserialization_error_carries_diagnostic() {
    let err = ProjectData::from_toml("projects = [oops]").expect_err("Did not fail");

    assert_eq!(
        err,
        ProjectDataError::DeserializationError("malformed project document".to_string())
    );
}

#[test]
fn deserialize_garbage_fails() {
    let err = ProjectData::from_toml("no such document").expect_err("Did not fail");

    assert!(matches!(err, ProjectDataError::DeserializationError(_)));
}

#[test]
fn deserialize_truncated_record_fails() {
    let err = ProjectData::from_toml("[[projects]]\nname = \"unterminated").expect_err("Did not fail");

    assert!(matches!(err, ProjectDataError::DeserializationError(_)));
}

#[test]
fn add_project_conflict_reports_stored_casing() {
    let project_data = ProjectData {
        projects: vec![Project {
            name: "TEST PROJECT".to_string(),
        }],
    };

    assert_eq!(
        project_data.add("test project"),
        Err(ProjectDataError::ProjectNameConflict(
            "TEST PROJECT".to_string()
        )),
    )
}

#[test]
fn add_project_appends_in_order() {
    let project_data = ProjectData {
        projects: vec![Project {
            name: "Test Project 1".to_string(),
        }],
    };

    let grown = project_data.add("Test Project 2").expect("Addition failure");

    assert_eq!(
        grown.projects,
        vec![
            Project {
                name: "Test Project 1".to_string()
            },
            Project {
                name: "Test Project 2".to_string()
            },
        ]
    );
    assert_eq!(
        project_data.projects,
        vec![Project {
            name: "Test Project 1".to_string()
        }]
    );
}

#[test]
fn missing_document_yields_empty_store() {
    let store = ProjectData::read(None).expect("Read failure");

    assert_eq!(store, ProjectData { projects: vec![] });
}

#[test]
fn present_document_is_loaded() {
    let store = ProjectData::read(Some(POPULATED_TOML)).expect("Read failure");

    assert_eq!(store.projects.len(), 2);
    assert_eq!(store.projects[0].name, "Test Project 1");
    assert_eq!(store.projects[1].name, "Test Project 2");
}

#[test]
fn round_trip_restores_store() {
    let config = ProjectData {
        projects: vec![
            Project {
                name: "Test Project 1".to_string(),
            },
            Project {
                name: "Test Project 2".to_string(),
            },
        ],
    };
    let document = config.as_toml().expect("Serialization failure");
    let reread = ProjectData::from_toml(&document).expect("Deserialization failure");

    assert_eq!(reread, config);
}

#[test]
fn round_trip_restores_escaped_names() {
    let config = ProjectData {
        projects: vec![Project {
            name: "quote \" and backslash \\ inside".to_string(),
        }],
    };
    let document = config.as_toml().expect("Serialization failure");
    let reread = ProjectData::from_toml(&document).expect("Deserialization failure");

    assert_eq!(reread, config);
}

#[test]
fn serialize_twice_yields_identical_text() {
    let config = ProjectData {
        projects: vec![Project {
            name: "Test Project".to_string(),
        }],
    };
    let first = config.as_toml().expect("Serialization failure");
    let second = config.as_toml().expect("Serialization failure");

    assert_eq!(first, second);
}

#[test]
fn conflict_message_holds_stored_name() {
    let err = ProjectDataError::ProjectNameConflict("Test Project".to_string());

    assert_eq!(
        err.message(),
        "a project named \"Test Project\" already exists"
    );
}

#[test]
fn io_error_message_holds_cause() {
    let err = ProjectDataError::IOError("permission denied".to_string());

    assert_eq!(
        err.message(),
        "failed to read project data (permission denied)"
    );
}

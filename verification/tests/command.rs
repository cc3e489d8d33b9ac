use requim::command::{render_project_list, run, NewArgs, Subcommand};
use requim::projects::{Project, ProjectData};

#[test]
fn run_new_reports_unimplemented_creation() {
    let message = run(Subcommand::New(NewArgs {
        name: "Test Project".to_string(),
    }));

    assert_eq!(message, "Not implemented: create project \"Test Project\"");
}

#[test]
fn empty_store_lists_as_no_projects() {
    let store = ProjectData { projects: vec![] };

    assert_eq!(render_project_list(&store), "No projects\n");
}

#[test]
fn populated_store_lists_names_in_order() {
    let store = ProjectData {
        projects: vec![
            Project {
                name: "Test Project 1".to_string(),
            },
            Project {
                name: "Test Project 2".to_string(),
            },
        ],
    };

    assert_eq!(
        render_project_list(&store),
        "Projects:\n- Test Project 1\n- Test Project 2\n"
    );
}

use omakure::domain::{Field, Schema};
use omakure::envcfg::{load_environment_config, EnvironmentConfig};
use omakure::ports::{WorkspaceEntry, WorkspaceEntryKind};
use omakure::search::SearchStatus;
use omakure::session::{Screen, Session};

fn cleanup_schema() -> Schema {
    Schema {
        name: "cleanup".to_string(),
        description: None,
        tags: None,
        fields: vec![Field {
            name: "force".to_string(),
            prompt: None,
            kind: "bool".to_string(),
            order: 1,
            required: Some(false),
            default: None,
            choices: None,
            arg: None,
        }],
        outputs: None,
        queue: None,
    }
}

fn fresh(entries: Vec<WorkspaceEntry>) -> Session {
    Session::new("/ws".to_string(), entries, Vec::new(), SearchStatus::Idle)
}

#[test]
fn submitting_force_yes_yields_flag_and_value() {
    let mut s = fresh(Vec::new());
    s.apply_schema_loaded("/ws/cleanup.sh".to_string(), Ok(cleanup_schema()));
    assert_eq!(s.screen, Screen::FieldInput);
    s.append_field_char('y');
    s.append_field_char('e');
    s.append_field_char('s');
    s.submit_form();
    let (script, args) = s.run_request.clone().unwrap();
    assert_eq!(script, "/ws/cleanup.sh");
    assert_eq!(args, vec!["--force".to_string(), "true".to_string()]);
}

#[test]
fn submitting_force_empty_yields_no_args() {
    let mut s = fresh(Vec::new());
    s.apply_schema_loaded("/ws/cleanup.sh".to_string(), Ok(cleanup_schema()));
    s.submit_form();
    let (_, args) = s.run_request.clone().unwrap();
    assert_eq!(args, Vec::<String>::new());
}

#[test]
fn zero_field_schema_runs_immediately() {
    let mut s = fresh(Vec::new());
    let mut schema = cleanup_schema();
    schema.fields.clear();
    s.apply_schema_loaded("/ws/cleanup.sh".to_string(), Ok(schema));
    let (script, args) = s.run_request.clone().unwrap();
    assert_eq!(script, "/ws/cleanup.sh");
    assert!(args.is_empty());
}

#[test]
fn validation_failure_keeps_form_and_focuses_field() {
    let mut s = fresh(Vec::new());
    let mut schema = cleanup_schema();
    schema.fields[0].required = Some(true);
    s.apply_schema_loaded("/ws/cleanup.sh".to_string(), Ok(schema));
    s.submit_form();
    assert!(s.run_request.is_none());
    assert_eq!(s.field_index, 0);
    assert_eq!(s.error, Some("force: Value required".to_string()));
    assert_eq!(s.screen, Screen::FieldInput);
}

#[test]
fn schema_error_shows_error_screen() {
    let mut s = fresh(Vec::new());
    s.apply_schema_loaded("/ws/x.sh".to_string(), Err("Schema block not found".to_string()));
    assert_eq!(s.screen, Screen::ErrorScreen);
    assert_eq!(s.error, Some("Schema block not found".to_string()));
}

#[test]
fn selection_clamps_and_wraps() {
    let entries = vec![
        WorkspaceEntry { path: "/ws/a".to_string(), kind: WorkspaceEntryKind::Directory },
        WorkspaceEntry { path: "/ws/b.sh".to_string(), kind: WorkspaceEntryKind::Script },
    ];
    let mut s = fresh(entries);
    s.move_selection(5);
    assert_eq!(s.selection, 1);
    s.move_selection(-9);
    assert_eq!(s.selection, 0);
}

#[test]
fn status_poll_reports_transitions_only() {
    let mut s = fresh(Vec::new());
    assert!(!s.on_status_poll(SearchStatus::Idle));
    assert!(s.on_status_poll(SearchStatus::Indexing));
    assert!(!s.on_status_poll(SearchStatus::Indexing));
    assert!(s.on_status_poll(SearchStatus::Ready { script_count: 7 }));
}

#[test]
fn navigate_up_stops_at_root() {
    let mut s = fresh(Vec::new());
    s.set_current_dir("/ws/tools".to_string());
    assert!(s.navigate_up("/ws"));
    assert_eq!(s.current_dir, "/ws");
    assert!(!s.navigate_up("/ws"));
}

#[test]
fn field_inputs_seed_from_environment_defaults() {
    let cfg: EnvironmentConfig = load_environment_config(
        "/ws/.omaken/envs",
        &Some("dev\n".to_string()),
        &Some("export FORCE=yes\nTARGET='host'\n".to_string()),
    )
    .unwrap();
    let mut s = fresh(Vec::new());
    s.env = Some(cfg);
    let mut schema = cleanup_schema();
    schema.fields.push(Field {
        name: "TARGET".to_string(),
        prompt: None,
        kind: "string".to_string(),
        order: 2,
        required: None,
        default: None,
        choices: None,
        arg: None,
    });
    s.apply_schema_loaded("/ws/cleanup.sh".to_string(), Ok(schema));
    assert_eq!(s.field_inputs, vec!["yes".to_string(), "host".to_string()]);
}

use omakure::catalog::{entry_name, list_entries, should_skip_dir, RawEntry};
use omakure::envcfg::{list_env_files, load_env_preview, load_environment_config};
use omakure::ports::WorkspaceEntryKind;
use omakure::runtime::{command_for_script, powershell_program, python_program, script_kind, ScriptKind};
use omakure::workspace::{default_config, Workspace};

#[test]
fn skip_rules_cover_bookkeeping_folders() {
    assert!(should_skip_dir("/ws/.git"));
    assert!(should_skip_dir("/ws/.history"));
    assert!(should_skip_dir("/ws/.omaken/envs"));
    assert!(!should_skip_dir("/ws/envs"));
    assert!(!should_skip_dir("/ws/tools"));
}

#[test]
fn entries_classify_and_sort_dirs_before_scripts() {
    let raw = vec![
        RawEntry { path: "/ws/zeta.sh".to_string(), is_dir: false, is_file: true },
        RawEntry { path: "/ws/.git".to_string(), is_dir: true, is_file: false },
        RawEntry { path: "/ws/Beta".to_string(), is_dir: true, is_file: false },
        RawEntry { path: "/ws/alpha.py".to_string(), is_dir: false, is_file: true },
        RawEntry { path: "/ws/readme.txt".to_string(), is_dir: false, is_file: true },
        RawEntry { path: "/ws/apps".to_string(), is_dir: true, is_file: false },
    ];
    let entries = list_entries(raw);
    let view: Vec<(String, WorkspaceEntryKind)> =
        entries.iter().map(|e| (e.path.clone(), e.kind)).collect();
    assert_eq!(
        view,
        vec![
            ("/ws/apps".to_string(), WorkspaceEntryKind::Directory),
            ("/ws/Beta".to_string(), WorkspaceEntryKind::Directory),
            ("/ws/alpha.py".to_string(), WorkspaceEntryKind::Script),
            ("/ws/zeta.sh".to_string(), WorkspaceEntryKind::Script),
        ]
    );
}

#[test]
fn script_kinds_follow_extensions() {
    assert_eq!(script_kind("a.sh"), Some(ScriptKind::Bash));
    assert_eq!(script_kind("a.BASH"), Some(ScriptKind::Bash));
    assert_eq!(script_kind("a.ps1"), Some(ScriptKind::PowerShell));
    assert_eq!(script_kind("dir/a.py"), Some(ScriptKind::Python));
    assert_eq!(script_kind("a.txt"), None);
    assert_eq!(script_kind(".hidden"), None);
    assert_eq!(script_kind("noext"), None);
    assert_eq!(entry_name("/ws/Beta.SH"), "beta.sh");
}

#[test]
fn command_lines_choose_the_interpreter() {
    let (prog, args) = command_for_script("x.sh", false).unwrap();
    assert_eq!(prog, "bash");
    assert_eq!(args, vec!["x.sh".to_string()]);
    let (prog, args) = command_for_script("x.ps1", true).unwrap();
    assert_eq!(prog, "powershell");
    assert_eq!(args, vec!["-NoProfile".to_string(), "-File".to_string(), "x.ps1".to_string()]);
    let (prog, _) = command_for_script("x.py", false).unwrap();
    assert_eq!(prog, "python3");
    assert!(command_for_script("x.txt", false).is_err());
    assert_eq!(powershell_program(false), "pwsh");
    assert_eq!(python_program(true), "python");
}

#[test]
fn workspace_layout_paths() {
    let w = Workspace::new("/ws".to_string());
    assert_eq!(w.root(), "/ws");
    assert_eq!(w.omaken_dir(), "/ws/.omaken");
    assert_eq!(w.history_dir(), "/ws/.history");
    assert_eq!(w.config_path(), "/ws/omakure.toml");
    assert_eq!(w.search_db_path(), "/ws/.history/search-index.sqlite");
    assert_eq!(w.envs_dir(), "/ws/.omaken/envs");
    assert!(default_config().contains("[workspace]"));
}

#[test]
fn env_defaults_parse_comments_quotes_and_case() {
    let contents = "# comment\n; also comment\nexport API_KEY=\"SECRET-REDACTED\"\nTarget = 'host1'\nEMPTY=\nplain=value\n";
    let cfg = load_environment_config("/e", &Some("dev".to_string()), &Some(contents.to_string())).unwrap();
    assert_eq!(cfg.active, Some("dev".to_string()));
    assert_eq!(cfg.default_for("api_key"), Some("SECRET-REDACTED".to_string()));
    assert_eq!(cfg.default_for("target"), Some("host1".to_string()));
    assert_eq!(cfg.default_for("empty"), None);
    assert_eq!(cfg.default_for("plain"), Some("value".to_string()));
    assert_eq!(cfg.default_for("missing"), None);
}

#[test]
fn missing_active_file_is_an_error() {
    let err = load_environment_config("/e", &Some("dev\n".to_string()), &None).unwrap_err();
    assert_eq!(err, "Active environment not found: /e/dev");
    let cfg = load_environment_config("/e", &None, &None).unwrap();
    assert!(cfg.active.is_none());
    assert!(cfg.defaults.is_empty());
}

#[test]
fn preview_masks_sensitive_values_and_keeps_case() {
    let rows = load_env_preview("Password=hunter2\nUser=bob\nAPI_TOKEN=\nnote='fine'\n");
    assert_eq!(
        rows,
        vec![
            ("Password".to_string(), "***".to_string()),
            ("User".to_string(), "bob".to_string()),
            ("API_TOKEN".to_string(), "".to_string()),
            ("note".to_string(), "fine".to_string()),
        ]
    );
}

#[test]
fn env_files_list_skips_pointer_and_sorts() {
    let entries = vec![
        ("prod".to_string(), true),
        ("active".to_string(), true),
        ("dev".to_string(), true),
        ("subdir".to_string(), false),
    ];
    let files = list_env_files(&entries);
    let names: Vec<String> = files.iter().map(|f| f.name.clone()).collect();
    assert_eq!(names, vec!["dev".to_string(), "prod".to_string()]);
}

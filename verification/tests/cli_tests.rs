use omakure::clicmd::parse_args;
use omakure::commands::{
    normalize_path, normalize_version_tag, parse_completion_args, parse_config_args,
    parse_doctor_args, parse_list_args, parse_uninstall_args, parse_update_args, release_asset,
};
use omakure::initcmd::{
    build_bash_template, ensure_script_path, normalize_script_id, parse_init_args,
};
use omakure::omaken::{infer_name_from_url, parse_install_args};
use omakure::runcmd::{parse_run_args, wants_help};

fn sv(items: &[&str]) -> Vec<String> {
    items.iter().map(|s| s.to_string()).collect()
}

#[test]
fn init_args_take_positional_or_flag() {
    let o = parse_init_args(&sv(&["tools/x.sh"]), "/ws".to_string()).unwrap();
    assert_eq!(o.name, "tools/x.sh");
    assert_eq!(o.scripts_dir, "/ws");
    let o = parse_init_args(&sv(&["--name", "y"]), "/ws".to_string()).unwrap();
    assert_eq!(o.name, "y");
    assert!(parse_init_args(&sv(&[]), "/ws".to_string()).is_err());
    assert!(parse_init_args(&sv(&["a", "b"]), "/ws".to_string()).is_err());
    let o = parse_args(&sv(&["z"]), "/ws".to_string()).unwrap();
    assert_eq!(o.name, "z");
}

#[test]
fn script_paths_gain_default_extension_and_stay_inside() {
    assert_eq!(ensure_script_path("tools/x").unwrap(), "tools/x.bash");
    assert_eq!(ensure_script_path("x.py").unwrap(), "x.py");
    assert!(ensure_script_path("/abs").is_err());
    assert!(ensure_script_path("../up").is_err());
    assert!(ensure_script_path("x.txt").is_err());
}

#[test]
fn script_ids_normalize() {
    assert_eq!(normalize_script_id("tools/Clean Up.sh"), "clean_up");
    assert_eq!(normalize_script_id("a/b/__X__9.py"), "x_9");
}

#[test]
fn bash_template_embeds_the_identifier() {
    let t = build_bash_template("cleanup");
    assert!(t.contains("\"Name\": \"cleanup\""));
    assert!(t.contains("OMAKURE_SCHEMA_START"));
    assert!(t.contains("TODO: implement cleanup"));
}

#[test]
fn simple_parsers_accept_nothing_else() {
    assert!(parse_config_args(&sv(&[]), "/ws".to_string()).is_ok());
    assert!(parse_config_args(&sv(&["x"]), "/ws".to_string()).is_err());
    assert!(parse_doctor_args(&sv(&[]), "/ws".to_string()).is_ok());
    assert!(parse_doctor_args(&sv(&["x"]), "/ws".to_string()).is_err());
    assert!(parse_list_args(&sv(&[]), "/ws".to_string()).is_ok());
    assert!(parse_list_args(&sv(&["x"]), "/ws".to_string()).is_err());
    let c = parse_completion_args(&sv(&["zsh"])).unwrap();
    assert_eq!(c.shell, "zsh");
    assert!(parse_completion_args(&sv(&[])).is_err());
    assert!(parse_completion_args(&sv(&["a", "b"])).is_err());
}

#[test]
fn uninstall_takes_only_the_scripts_flag() {
    let o = parse_uninstall_args(&sv(&["--scripts"]), "/ws".to_string()).unwrap();
    assert!(o.remove_scripts);
    let o = parse_uninstall_args(&sv(&[]), "/ws".to_string()).unwrap();
    assert!(!o.remove_scripts);
    assert!(parse_uninstall_args(&sv(&["-x"]), "/ws".to_string()).is_err());
}

#[test]
fn update_args_override_environment() {
    let o = parse_update_args(&sv(&["--repo", "me/mine", "--version", "1.2.3"]), "/ws".to_string(), None, None).unwrap();
    assert_eq!(o.repo, "me/mine");
    assert_eq!(o.version, Some("1.2.3".to_string()));
    let o = parse_update_args(&sv(&[]), "/ws".to_string(), Some("env/repo".to_string()), Some("9".to_string())).unwrap();
    assert_eq!(o.repo, "env/repo");
    assert_eq!(o.version, Some("9".to_string()));
    let o = parse_update_args(&sv(&[]), "/ws".to_string(), None, None).unwrap();
    assert_eq!(o.repo, "This-Is-NPC/omakure");
    assert!(parse_update_args(&sv(&["--what"]), "/ws".to_string(), None, None).is_err());
}

#[test]
fn version_tags_and_assets() {
    assert_eq!(normalize_version_tag("1.0"), "v1.0");
    assert_eq!(normalize_version_tag("v2"), "v2");
    assert_eq!(release_asset("v1.0", "linux", "x86_64"), "omakure-v1.0-linux-x86_64.tar.gz");
    assert_eq!(release_asset("v1.0", "windows", "aarch64"), "omakure-v1.0-windows-aarch64.zip");
}

#[test]
fn windows_paths_normalize_for_comparison() {
    assert_eq!(normalize_path("  \"C:/Tools/Bin\\\\\"  "), "c:\\tools\\bin");
}

#[test]
fn run_args_split_script_and_passthrough() {
    let o = parse_run_args(&sv(&["x.sh", "--", "--force", "--", "y"]), "/ws".to_string()).unwrap();
    assert_eq!(o.script, "x.sh");
    assert_eq!(o.args, sv(&["--force", "--", "y"]));
    assert!(parse_run_args(&sv(&[]), "/ws".to_string()).is_err());
    assert!(wants_help(&sv(&["a", "-h"])));
    assert!(!wants_help(&sv(&["a", "--", "-h"])));
}

#[test]
fn flavor_installs_parse_urls() {
    let o = parse_install_args(&sv(&["https://example.com/me/repo.git", "--name", "tools"]), "/ws".to_string()).unwrap();
    assert_eq!(o.url, "https://example.com/me/repo.git");
    assert_eq!(o.name, Some("tools".to_string()));
    assert!(parse_install_args(&sv(&[]), "/ws".to_string()).is_err());
    assert_eq!(infer_name_from_url("https://example.com/me/repo.git/"), "repo");
    assert_eq!(infer_name_from_url("repo.git.git"), "repo");
    assert_eq!(infer_name_from_url("plain"), "plain");
}

use pve_ssh::bootstrap::{get_default_path, plan_bootstrap, render_default_config};
use pve_ssh::parse::parse_config;

#[test]
fn default_document_exact_text() {
    let expected = "\
# pve-ssh config

[cli]
# preferred_editor = \"nvim\"
default_user = \"alice\"

[[vms]]
name = \"example\"
ip = \"192.168.1.100\"
user = \"alice\"
";
    assert_eq!(render_default_config("alice"), expected);
}

#[test]
fn default_document_round_trips() {
    let text = render_default_config("alice");
    let config = parse_config(&text).unwrap();
    let cli = config.cli.expect("default document has a [cli] table");
    assert!(cli.preferred_editor.is_none());
    assert_eq!(cli.default_user.as_deref(), Some("alice"));
    assert_eq!(config.vms.len(), 1);
    assert_eq!(config.vms[0].name, "example");
    assert_eq!(config.vms[0].ip, "192.168.1.100");
    assert_eq!(config.vms[0].user, "alice");
}

#[test]
fn bootstrap_writes_once_then_never_again() {
    // fresh path: the first ensure-exists writes the default document
    let first = plan_bootstrap(false);
    let written = first.expect("an absent file gets a default document");
    assert!(parse_config(&written).is_ok());
    // the file now exists: the second ensure-exists writes nothing,
    // so the target keeps the first call's content
    assert!(plan_bootstrap(true).is_none());
}

#[test]
fn default_path_prefers_xdg_config_home() {
    let path = get_default_path(Some("/xdg".to_string()), Some("/home/u".to_string()));
    assert_eq!(path, "/xdg/pve-ssh/config.toml");
}

#[test]
fn default_path_falls_back_to_home() {
    let path = get_default_path(None, Some("/home/u".to_string()));
    assert_eq!(path, "/home/u/.config/pve-ssh/config.toml");
}

#[test]
fn default_path_last_resort_is_current_directory() {
    assert_eq!(get_default_path(None, None), "./.config/pve-ssh/config.toml");
}

use pve_ssh::config::{AppConfig, Vm};
use pve_ssh::dispatch::{
    dispatch, find_host, host_labels, list_lines, resolve_selection, ssh_target, Command, Step,
};

fn vm(name: &str, ip: &str, user: &str) -> Vm {
    Vm { name: name.to_string(), ip: ip.to_string(), user: user.to_string() }
}

fn two_hosts() -> AppConfig {
    AppConfig { cli: None, vms: vec![vm("a", "10.0.0.1", "root"), vm("b", "10.0.0.2", "admin")] }
}

fn empty_config() -> AppConfig {
    AppConfig { cli: None, vms: Vec::new() }
}

#[test]
fn list_lines_format_and_order() {
    let lines = list_lines(&two_hosts());
    assert_eq!(lines, vec!["a => root@10.0.0.1", "b => admin@10.0.0.2"]);
}

#[test]
fn labels_format_and_order() {
    let labels = host_labels(&two_hosts());
    assert_eq!(labels, vec!["a (root@10.0.0.1)", "b (admin@10.0.0.2)"]);
}

#[test]
fn empty_inventory_lists_nothing() {
    assert!(list_lines(&empty_config()).is_empty());
    assert!(host_labels(&empty_config()).is_empty());
}

#[test]
fn ssh_target_format() {
    assert_eq!(ssh_target(&vm("a", "10.0.0.1", "root")), "root@10.0.0.1");
}

#[test]
fn find_host_exact_match() {
    let config = two_hosts();
    assert_eq!(find_host(&config, "a"), Some(0));
    assert_eq!(find_host(&config, "b"), Some(1));
    assert_eq!(find_host(&config, "c"), None);
    // case-sensitive, exact
    assert_eq!(find_host(&config, "A"), None);
    assert_eq!(find_host(&config, "a "), None);
}

#[test]
fn find_host_first_match_wins_on_duplicates() {
    let config = AppConfig {
        cli: None,
        vms: vec![vm("a", "10.0.0.1", "root"), vm("a", "10.0.0.9", "other")],
    };
    assert_eq!(find_host(&config, "a"), Some(0));
}

#[test]
fn dispatch_list_prints_hosts() {
    match dispatch(&two_hosts(), Command::List) {
        Step::PrintLines { lines } => {
            assert_eq!(lines, vec!["a => root@10.0.0.1", "b => admin@10.0.0.2"])
        },
        _ => panic!("list mode must print lines"),
    }
}

#[test]
fn dispatch_connect_launches_first_match() {
    match dispatch(&two_hosts(), Command::Connect { name: "a".to_string() }) {
        Step::Launch { target } => assert_eq!(target, "root@10.0.0.1"),
        _ => panic!("a known name must launch"),
    }
}

#[test]
fn dispatch_connect_unknown_name_spawns_nothing() {
    match dispatch(&two_hosts(), Command::Connect { name: "c".to_string() }) {
        Step::NotFound { name } => assert_eq!(name, "c"),
        _ => panic!("an unknown name must report not-found, never launch"),
    }
}

#[test]
fn dispatch_interactive_offers_menu() {
    match dispatch(&two_hosts(), Command::Interactive) {
        Step::Menu { labels } => {
            assert_eq!(labels, vec!["a (root@10.0.0.1)", "b (admin@10.0.0.2)"])
        },
        _ => panic!("interactive mode must offer a menu"),
    }
}

#[test]
fn dispatch_interactive_empty_inventory_offers_empty_menu() {
    match dispatch(&empty_config(), Command::Interactive) {
        Step::Menu { labels } => assert!(labels.is_empty()),
        _ => panic!("interactive mode must offer a menu"),
    }
}

#[test]
fn resolve_selection_launches_chosen_host() {
    let config = two_hosts();
    assert_eq!(resolve_selection(&config, Some(1)).as_deref(), Some("admin@10.0.0.2"));
}

#[test]
fn resolve_selection_cancellation_is_clean() {
    assert!(resolve_selection(&two_hosts(), None).is_none());
    assert!(resolve_selection(&empty_config(), None).is_none());
}

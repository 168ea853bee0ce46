use pve_ssh::parse::{parse_config, ParseErrorKind};

#[test]
fn parses_full_config() {
    let text = "\
[cli]
preferred_editor = \"nvim\"
default_user = \"root\"

[[vms]]
name = \"web\"
ip = \"10.0.0.1\"
user = \"deploy\"

[[vms]]
name = \"db\"
ip = \"10.0.0.2\"
user = \"admin\"
";
    let config = parse_config(text).unwrap();
    let cli = config.cli.expect("cli table present");
    assert_eq!(cli.preferred_editor.as_deref(), Some("nvim"));
    assert_eq!(cli.default_user.as_deref(), Some("root"));
    assert_eq!(config.vms.len(), 2);
    assert_eq!(config.vms[0].name, "web");
    assert_eq!(config.vms[0].ip, "10.0.0.1");
    assert_eq!(config.vms[0].user, "deploy");
    assert_eq!(config.vms[1].name, "db");
    assert_eq!(config.vms[1].ip, "10.0.0.2");
    assert_eq!(config.vms[1].user, "admin");
}

#[test]
fn parses_empty_text() {
    let config = parse_config("").unwrap();
    assert!(config.cli.is_none());
    assert_eq!(config.vms.len(), 0);
}

#[test]
fn absent_vms_table_yields_empty_inventory() {
    let config = parse_config("[cli]\ndefault_user = \"me\"\n").unwrap();
    assert_eq!(config.vms.len(), 0);
    assert_eq!(config.cli.unwrap().default_user.as_deref(), Some("me"));
}

#[test]
fn host_order_follows_file_order() {
    let mut text = String::new();
    for i in 0..5 {
        text.push_str(&format!(
            "[[vms]]\nname = \"vm{i}\"\nip = \"10.0.0.{i}\"\nuser = \"u{i}\"\n"
        ));
    }
    let config = parse_config(&text).unwrap();
    assert_eq!(config.vms.len(), 5);
    for i in 0..5 {
        assert_eq!(config.vms[i].name, format!("vm{i}"));
        assert_eq!(config.vms[i].ip, format!("10.0.0.{i}"));
    }
}

#[test]
fn missing_user_is_error() {
    let text = "[[vms]]\nname = \"web\"\nip = \"10.0.0.1\"\n";
    let err = parse_config(text).unwrap_err();
    assert_eq!(err.kind, ParseErrorKind::MissingUser);
    // the error names the line of the [[vms]] header that opened the entry
    assert_eq!(err.line, 1);
}

#[test]
fn missing_name_is_error() {
    let text = "\n[[vms]]\nip = \"10.0.0.1\"\nuser = \"root\"\n";
    let err = parse_config(text).unwrap_err();
    assert_eq!(err.kind, ParseErrorKind::MissingName);
    assert_eq!(err.line, 2);
}

#[test]
fn missing_ip_is_error() {
    let text = "[[vms]]\nname = \"web\"\nuser = \"root\"\n";
    let err = parse_config(text).unwrap_err();
    assert_eq!(err.kind, ParseErrorKind::MissingIp);
    assert_eq!(err.line, 1);
}

#[test]
fn incomplete_entry_before_next_header_is_error() {
    let text = "[[vms]]\nname = \"web\"\nip = \"10.0.0.1\"\n[[vms]]\nname = \"db\"\nip = \"10.0.0.2\"\nuser = \"admin\"\n";
    let err = parse_config(text).unwrap_err();
    assert_eq!(err.kind, ParseErrorKind::MissingUser);
    assert_eq!(err.line, 1);
}

#[test]
fn bad_line_reports_its_number() {
    let text = "[cli]\ndefault_user = \"me\"\nwhat is this\n";
    let err = parse_config(text).unwrap_err();
    assert_eq!(err.kind, ParseErrorKind::Syntax);
    assert_eq!(err.line, 3);
}

#[test]
fn unterminated_string_is_error() {
    let err = parse_config("[[vms]]\nname = \"web\n").unwrap_err();
    assert_eq!(err.kind, ParseErrorKind::Syntax);
    assert_eq!(err.line, 2);
}

#[test]
fn unquoted_value_is_error() {
    let err = parse_config("[cli]\ndefault_user = me\n").unwrap_err();
    assert_eq!(err.kind, ParseErrorKind::Syntax);
    assert_eq!(err.line, 2);
}

#[test]
fn unknown_tables_and_keys_are_ignored() {
    let text = "\
[general]
theme = \"dark\"

[cli]
default_user = \"me\"
shell = \"zsh\"

[[vms]]
name = \"web\"
ip = \"10.0.0.1\"
user = \"root\"
extra = \"ignored\"
";
    let config = parse_config(text).unwrap();
    let cli = config.cli.unwrap();
    assert_eq!(cli.default_user.as_deref(), Some("me"));
    assert!(cli.preferred_editor.is_none());
    assert_eq!(config.vms.len(), 1);
    assert_eq!(config.vms[0].name, "web");
}

#[test]
fn escapes_are_decoded() {
    let text = "[[vms]]\nname = \"a\\\"b\"\nip = \"c\\\\d\"\nuser = \"e\\tf\"\n";
    let config = parse_config(text).unwrap();
    assert_eq!(config.vms[0].name, "a\"b");
    assert_eq!(config.vms[0].ip, "c\\d");
    assert_eq!(config.vms[0].user, "e\tf");
}

#[test]
fn unknown_escape_is_error() {
    let err = parse_config("[cli]\ndefault_user = \"a\\qb\"\n").unwrap_err();
    assert_eq!(err.kind, ParseErrorKind::Syntax);
    assert_eq!(err.line, 2);
}

#[test]
fn comments_blanks_and_trailing_comments_are_skipped() {
    let text = "\
# heading comment

[cli]   # section comment
default_user = \"me\"  # key comment
";
    let config = parse_config(text).unwrap();
    assert_eq!(config.cli.unwrap().default_user.as_deref(), Some("me"));
}

#[test]
fn crlf_line_endings_are_accepted() {
    let text = "[[vms]]\r\nname = \"web\"\r\nip = \"10.0.0.1\"\r\nuser = \"root\"\r\n";
    let config = parse_config(text).unwrap();
    assert_eq!(config.vms.len(), 1);
    assert_eq!(config.vms[0].user, "root");
}

#[test]
fn empty_cli_table_is_present_but_empty() {
    let config = parse_config("[cli]\n").unwrap();
    let cli = config.cli.unwrap();
    assert!(cli.preferred_editor.is_none());
    assert!(cli.default_user.is_none());
}

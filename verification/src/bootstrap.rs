//! Config location and bootstrap: where the config file lives, and the
//! default document written when none exists. The file system work
//! itself (existence check, directory creation, the one write) happens
//! at the process edge; here stand the decisions and the exact text,
//! so that what gets written is pinned down and provably parses back.

use vstd::prelude::*;
use crate::config::{SpecAppConfig, SpecCliSettings, SpecVm};
use crate::parse::{
    classify, find_nl, join_lines, lemma_scan_plain_string, lemma_split_join, no_nl, run_lines,
    scan_key, scan_string, skip_ws, spec_parse, split_lines, init_state, SpecErr, SpecPartial,
    SpecShape,
};

verus! {

// ---------------------------------------------------------------------
// Config locator
// ---------------------------------------------------------------------

/// The default config path, resolved from the environment with no
/// failure mode: an XDG-style config base if set, else the home
/// directory's `.config`, else the current directory as last resort.
/// The callers read the two environment values; this function is the
/// whole resolution rule.
pub fn get_default_path(xdg: Option<String>, home: Option<String>) -> (r: String)
    ensures
        xdg matches Some(x) ==> r@ == x@ + "/pve-ssh/config.toml"@,
        xdg is None ==> (home matches Some(h) ==> r@ == h@ + "/.config/pve-ssh/config.toml"@),
        xdg is None && home is None ==> r@ == "./.config/pve-ssh/config.toml"@,
{
    match xdg {
        Some(x) => {
            let mut s = x;
            s.append("/pve-ssh/config.toml");
            s
        },
        None => match home {
            Some(h) => {
                let mut s = h;
                s.append("/.config/pve-ssh/config.toml");
                s
            },
            None => String::from_str("./.config/pve-ssh/config.toml"),
        },
    }
}

// ---------------------------------------------------------------------
// The default document
// ---------------------------------------------------------------------

/// The lines of the default config document with `user` as the
/// suggested login name: a `[cli]` table naming that user, and one
/// example host entry.
pub open spec fn default_config_lines(user: Seq<char>) -> Seq<Seq<char>> {
    seq![
        "# pve-ssh config"@,
        Seq::<char>::empty(),
        "[cli]"@,
        "# preferred_editor = \"nvim\""@,
        "default_user = \""@ + user + "\""@,
        Seq::<char>::empty(),
        "[[vms]]"@,
        "name = \"example\""@,
        "ip = \"192.168.1.100\""@,
        "user = \""@ + user + "\""@,
    ]
}

/// The default config document: its lines joined, one newline after
/// each.
pub open spec fn spec_default_config(user: Seq<char>) -> Seq<char> {
    join_lines(default_config_lines(user))
}

/// Renders the default config document for the given login name.
#[verifier::rlimit(100)]
pub fn render_default_config(username: &str) -> (r: String)
    ensures
        r@ == spec_default_config(username@),
{
    let mut s = String::from_str("# pve-ssh config");
    s.append("\n");
    s.append("\n");
    s.append("[cli]");
    s.append("\n");
    s.append("# preferred_editor = \"nvim\"");
    s.append("\n");
    s.append("default_user = \"");
    s.append(username);
    s.append("\"");
    s.append("\n");
    s.append("\n");
    s.append("[[vms]]");
    s.append("\n");
    s.append("name = \"example\"");
    s.append("\n");
    s.append("ip = \"192.168.1.100\"");
    s.append("\n");
    s.append("user = \"");
    s.append(username);
    s.append("\"");
    s.append("\n");
    proof {
        reveal_strlit("\n");
        assert(s@ =~= spec_default_config(username@)) by {
            reveal_with_fuel(join_lines, 12);
        }
    }
    s
}

/// Relies on `whoami::username`: the current OS user's login name,
/// where the platform reports one — an environment-dependent value of
/// which nothing further is assumed.
#[verifier::external_body]
fn os_username() -> Option<String> {
    whoami::username().ok()
}

/// The bootstrap decision: what (if anything) must be written to make
/// the config file exist. With the file already present nothing is
/// written — the operation is a no-op; with it absent, the default
/// document under the current OS user's name (or `user`, where the
/// platform reports none) is the one write.
pub fn plan_bootstrap(file_exists: bool) -> (r: Option<String>)
    ensures
        r is Some <==> !file_exists,
        r matches Some(t) ==> exists|u: Seq<char>| t@ == spec_default_config(u),
{
    if file_exists {
        None
    } else {
        let name = match os_username() {
            Some(n) => n,
            None => String::from_str("user"),
        };
        let text = render_default_config(name.as_str());
        proof {
            assert(text@ == spec_default_config(name@));
        }
        Some(text)
    }
}

// ---------------------------------------------------------------------
// The default document parses back (round trip)
// ---------------------------------------------------------------------

/// A login name that fits on one line of a basic string unchanged: no
/// newline, no quote, no backslash. Real usernames satisfy this.
pub open spec fn benign_name(u: Seq<char>) -> bool {
    forall|k: int| 0 <= k < u.len() ==> u[k] != '\n' && u[k] != '"' && u[k] != '\\'
}

/// What the default document parses to: the `[cli]` table naming the
/// user, and the documented example host in slot 0.
pub open spec fn default_parsed_config(u: Seq<char>) -> SpecAppConfig {
    SpecAppConfig {
        cli: Some(SpecCliSettings { preferred_editor: None, default_user: Some(u) }),
        vms: seq![SpecVm { name: "example"@, ip: "192.168.1.100"@, user: u }],
    }
}

proof fn lemma_find_nl_none(s: Seq<char>, i: int, k: int)
    requires
        0 <= i <= k < s.len(),
        find_nl(s, i) == s.len(),
    ensures
        s[k] != '\n',
    decreases k - i,
{
    assert(s[i] != '\n');
    if i < k {
        lemma_find_nl_none(s, i + 1, k);
    }
}

proof fn lemma_no_nl_when_find_full(s: Seq<char>)
    requires
        find_nl(s, 0) == s.len(),
    ensures
        no_nl(s),
{
    assert forall|k: int| 0 <= k < s.len() implies s[k] != '\n' by {
        lemma_find_nl_none(s, 0, k);
    }
}

proof fn lemma_no_nl_concat(a: Seq<char>, b: Seq<char>)
    requires
        no_nl(a),
        no_nl(b),
    ensures
        no_nl(a + b),
{
    assert forall|k: int| 0 <= k < (a + b).len() implies (a + b)[k] != '\n' by {
        if k < a.len() {
            assert((a + b)[k] == a[k]);
        } else {
            assert((a + b)[k] == b[k - a.len()]);
        }
    }
}

proof fn lemma_classify_empty()
    ensures
        classify(Seq::<char>::empty()) == SpecShape::Skip,
{
}

proof fn lemma_classify_comment(s: Seq<char>)
    requires
        s.len() > 0,
        s[0] == '#',
    ensures
        classify(s) == SpecShape::Skip,
{
    assert(skip_ws(s, 0) == 0);
}

proof fn lemma_classify_cli()
    ensures
        classify("[cli]"@) == (SpecShape::Table { name: "cli"@ }),
{
    reveal_strlit("[cli]");
    reveal_strlit("cli");
    reveal_with_fuel(scan_key, 6);
    let s = "[cli]"@;
    assert(skip_ws(s, 0) == 0);
    assert(scan_key(s, 1) == 4);
    assert(s.subrange(1, 4) =~= "cli"@);
    assert(skip_ws(s, 4) == 4);
    assert(skip_ws(s, 5) == 5);
    assert(classify(s) == (SpecShape::Table { name: s.subrange(1, 4) }));
}

proof fn lemma_classify_vms_header()
    ensures
        classify("[[vms]]"@) == (SpecShape::ArrayTable { name: "vms"@ }),
{
    reveal_strlit("[[vms]]");
    reveal_strlit("vms");
    reveal_with_fuel(scan_key, 6);
    let s = "[[vms]]"@;
    assert(skip_ws(s, 0) == 0);
    assert(skip_ws(s, 2) == 2);
    assert(scan_key(s, 2) == 5);
    assert(s.subrange(2, 5) =~= "vms"@);
    assert(skip_ws(s, 5) == 5);
    assert(skip_ws(s, 7) == 7);
    assert(classify(s) == (SpecShape::ArrayTable { name: s.subrange(2, 5) }));
}

#[verifier::rlimit(100)]
proof fn lemma_classify_kv_name()
    ensures
        classify("name = \"example\""@) == (SpecShape::KeyVal {
            key: "name"@,
            value: "example"@,
        }),
{
    reveal_strlit("name = \"example\"");
    reveal_strlit("name");
    reveal_strlit("example");
    reveal_with_fuel(scan_key, 7);
    reveal_with_fuel(skip_ws, 4);
    reveal_with_fuel(scan_string, 11);
    let s = "name = \"example\""@;
    assert(skip_ws(s, 0) == 0);
    assert(scan_key(s, 0) == 4);
    assert(s.subrange(0, 4) =~= "name"@);
    assert(skip_ws(s, 4) == 5);
    assert(s[5] == '=');
    assert(skip_ws(s, 6) == 7);
    assert(s[7] == '"');
    let p = scan_string(s, 8);
    assert(p is Some);
    let q = p->0;
    assert(q.1 == 16);
    assert(q.0 =~= "example"@);
    assert(skip_ws(s, 16) == 16);
    assert(classify(s) == (SpecShape::KeyVal { key: s.subrange(0, 4), value: q.0 }));
}

#[verifier::rlimit(100)]
proof fn lemma_classify_kv_ip()
    ensures
        classify("ip = \"192.168.1.100\""@) == (SpecShape::KeyVal {
            key: "ip"@,
            value: "192.168.1.100"@,
        }),
{
    reveal_strlit("ip = \"192.168.1.100\"");
    reveal_strlit("ip");
    reveal_strlit("192.168.1.100");
    reveal_with_fuel(scan_key, 5);
    reveal_with_fuel(skip_ws, 4);
    reveal_with_fuel(scan_string, 17);
    let s = "ip = \"192.168.1.100\""@;
    assert(skip_ws(s, 0) == 0);
    assert(scan_key(s, 0) == 2);
    assert(s.subrange(0, 2) =~= "ip"@);
    assert(skip_ws(s, 2) == 3);
    assert(s[3] == '=');
    assert(skip_ws(s, 4) == 5);
    assert(s[5] == '"');
    let p = scan_string(s, 6);
    assert(p is Some);
    let q = p->0;
    assert(q.1 == 20);
    assert(q.0 =~= "192.168.1.100"@);
    assert(skip_ws(s, 20) == 20);
    assert(classify(s) == (SpecShape::KeyVal { key: s.subrange(0, 2), value: q.0 }));
}

#[verifier::rlimit(100)]
proof fn lemma_classify_kv_default_user(u: Seq<char>)
    requires
        benign_name(u),
    ensures
        classify("default_user = \""@ + u + "\""@) == (SpecShape::KeyVal {
            key: "default_user"@,
            value: u,
        }),
{
    reveal_strlit("default_user = \"");
    reveal_strlit("default_user");
    reveal_strlit("\"");
    reveal_with_fuel(scan_key, 15);
    reveal_with_fuel(skip_ws, 4);
    let s = "default_user = \""@ + u + "\""@;
    let m = 16 + u.len() as int;
    assert(s.len() == m + 1);
    assert(skip_ws(s, 0) == 0);
    assert(scan_key(s, 0) == 12);
    assert(s.subrange(0, 12) =~= "default_user"@);
    assert(skip_ws(s, 12) == 13);
    assert(s[13] == '=');
    assert(skip_ws(s, 14) == 15);
    assert(s[15] == '"');
    assert(s[m] == '"');
    assert forall|k: int| 16 <= k < m implies s[k] != '"' && s[k] != '\\' by {
        assert(s[k] == u[k - 16]);
    }
    lemma_scan_plain_string(s, 16, m);
    assert(s.subrange(16, m) =~= u);
    assert(skip_ws(s, m + 1) == m + 1);
    assert(classify(s) == (SpecShape::KeyVal { key: s.subrange(0, 12), value: s.subrange(16, m) }));
}

#[verifier::rlimit(100)]
proof fn lemma_classify_kv_user(u: Seq<char>)
    requires
        benign_name(u),
    ensures
        classify("user = \""@ + u + "\""@) == (SpecShape::KeyVal { key: "user"@, value: u }),
{
    reveal_strlit("user = \"");
    reveal_strlit("user");
    reveal_strlit("\"");
    reveal_with_fuel(scan_key, 7);
    reveal_with_fuel(skip_ws, 4);
    let s = "user = \""@ + u + "\""@;
    let m = 8 + u.len() as int;
    assert(s.len() == m + 1);
    assert(skip_ws(s, 0) == 0);
    assert(scan_key(s, 0) == 4);
    assert(s.subrange(0, 4) =~= "user"@);
    assert(skip_ws(s, 4) == 5);
    assert(s[5] == '=');
    assert(skip_ws(s, 6) == 7);
    assert(s[7] == '"');
    assert(s[m] == '"');
    assert forall|k: int| 8 <= k < m implies s[k] != '"' && s[k] != '\\' by {
        assert(s[k] == u[k - 8]);
    }
    lemma_scan_plain_string(s, 8, m);
    assert(s.subrange(8, m) =~= u);
    assert(skip_ws(s, m + 1) == m + 1);
    assert(classify(s) == (SpecShape::KeyVal { key: s.subrange(0, 4), value: s.subrange(8, m) }));
}

/// Law: the document the bootstrapper writes parses back without
/// error, and yields the documented default: the `[cli]` table naming
/// the user, and the example host in slot 0. (A login name holding a
/// quote, backslash or newline would break out of its quoted string,
/// so those are excluded.)
#[verifier::rlimit(100)]
pub proof fn lemma_default_config_round_trips(u: Seq<char>)
    requires
        benign_name(u),
    ensures
        spec_parse(spec_default_config(u)) == Ok::<SpecAppConfig, SpecErr>(
            default_parsed_config(u),
        ),
{
    let ls = default_config_lines(u);
    reveal_strlit("# pve-ssh config");
    reveal_strlit("[cli]");
    reveal_strlit("# preferred_editor = \"nvim\"");
    reveal_strlit("default_user = \"");
    reveal_strlit("[[vms]]");
    reveal_strlit("name = \"example\"");
    reveal_strlit("ip = \"192.168.1.100\"");
    reveal_strlit("user = \"");
    reveal_strlit("\"");
    reveal_strlit("preferred_editor");
    reveal_strlit("default_user");
    reveal_strlit("cli");
    reveal_strlit("vms");
    reveal_strlit("name");
    reveal_strlit("ip");
    reveal_strlit("user");
    reveal_strlit("example");
    reveal_strlit("192.168.1.100");
    // every line is a single line: no newline occurs in any of them
    reveal_with_fuel(find_nl, 30);
    assert(find_nl("# pve-ssh config"@, 0) == 16);
    lemma_no_nl_when_find_full("# pve-ssh config"@);
    assert(no_nl(Seq::<char>::empty()));
    assert(find_nl("[cli]"@, 0) == 5);
    lemma_no_nl_when_find_full("[cli]"@);
    assert(find_nl("# preferred_editor = \"nvim\""@, 0) == 27);
    lemma_no_nl_when_find_full("# preferred_editor = \"nvim\""@);
    assert(find_nl("default_user = \""@, 0) == 16);
    lemma_no_nl_when_find_full("default_user = \""@);
    assert(find_nl("[[vms]]"@, 0) == 7);
    lemma_no_nl_when_find_full("[[vms]]"@);
    assert(find_nl("name = \"example\""@, 0) == 16);
    lemma_no_nl_when_find_full("name = \"example\""@);
    assert(find_nl("ip = \"192.168.1.100\""@, 0) == 20);
    lemma_no_nl_when_find_full("ip = \"192.168.1.100\""@);
    assert(find_nl("user = \""@, 0) == 8);
    lemma_no_nl_when_find_full("user = \""@);
    assert(find_nl("\""@, 0) == 1);
    lemma_no_nl_when_find_full("\""@);
    assert(no_nl(u));
    lemma_no_nl_concat("default_user = \""@, u);
    lemma_no_nl_concat("default_user = \""@ + u, "\""@);
    lemma_no_nl_concat("user = \""@, u);
    lemma_no_nl_concat("user = \""@ + u, "\""@);
    assert(forall|i: int| 0 <= i < ls.len() ==> no_nl(#[trigger] ls[i]));
    // the split of the joined text is the lines plus one empty line
    lemma_split_join(ls);
    let all = ls + seq![Seq::<char>::empty()];
    assert(split_lines(spec_default_config(u)) == all);
    // classify every line
    lemma_classify_comment("# pve-ssh config"@);
    lemma_classify_empty();
    lemma_classify_cli();
    lemma_classify_comment("# preferred_editor = \"nvim\""@);
    lemma_classify_kv_default_user(u);
    lemma_classify_vms_header();
    lemma_classify_kv_name();
    lemma_classify_kv_ip();
    lemma_classify_kv_user(u);
    // run the fold over the eleven lines
    reveal_with_fuel(run_lines, 13);
    assert(all[0] == "# pve-ssh config"@);
    assert(all[1] == Seq::<char>::empty());
    assert(all[2] == "[cli]"@);
    assert(all[3] == "# preferred_editor = \"nvim\""@);
    assert(all[4] == "default_user = \""@ + u + "\""@);
    assert(all[5] == Seq::<char>::empty());
    assert(all[6] == "[[vms]]"@);
    assert(all[7] == "name = \"example\""@);
    assert(all[8] == "ip = \"192.168.1.100\""@);
    assert(all[9] == "user = \""@ + u + "\""@);
    assert(all[10] == Seq::<char>::empty());
    assert("default_user"@[0] == 'd' && "preferred_editor"@[0] == 'p');
    assert("default_user"@ != "preferred_editor"@);
    assert("ip"@[0] == 'i' && "name"@[0] == 'n' && "user"@[0] == 'u');
    assert("ip"@ != "name"@);
    assert("user"@ != "name"@);
    assert("user"@ != "ip"@);
    let r = run_lines(init_state(), all, 1);
    assert(r is Ok);
    let st = r->Ok_0;
    assert(st.cli_present);
    assert(st.preferred_editor is None);
    assert(st.default_user == Some(u));
    assert(st.vms == Seq::<SpecVm>::empty());
    assert(st.cur == Some(
        SpecPartial { name: Some("example"@), ip: Some("192.168.1.100"@), user: Some(u), line: 7 },
    ));
    assert(Seq::<SpecVm>::empty().push(
        SpecVm { name: "example"@, ip: "192.168.1.100"@, user: u },
    ) =~= seq![SpecVm { name: "example"@, ip: "192.168.1.100"@, user: u }]);
    assert(spec_parse(spec_default_config(u)) == Ok::<SpecAppConfig, SpecErr>(
        default_parsed_config(u),
    ));
}

// ---------------------------------------------------------------------
// Laws
// ---------------------------------------------------------------------

/// What "ensure the config file exists" does to the file's content
/// (`None` meaning no file): an absent file becomes the default
/// document, a present file is left exactly as it is.
pub open spec fn spec_ensure_exists(file: Option<Seq<char>>, default: Seq<char>) -> Option<
    Seq<char>,
> {
    match file {
        None => Some(default),
        Some(c) => Some(c),
    }
}

/// Law: bootstrapping is idempotent. Running ensure-exists a second
/// time over the file the first run left behind changes nothing: one
/// file is written, once, and the second run's target keeps its
/// content.
pub proof fn lemma_bootstrap_idempotent(file: Option<Seq<char>>, default: Seq<char>)
    ensures
        spec_ensure_exists(spec_ensure_exists(file, default), default) == spec_ensure_exists(
            file,
            default,
        ),
{
}

} // verus!

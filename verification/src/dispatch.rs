//! Command dispatch: one transition per invocation. List mode renders
//! one line per host in file order; connect-by-name scans for the first
//! exact match; interactive mode renders selectable labels and resolves
//! the user's choice. No mode mutates the configuration.

use vstd::prelude::*;
use crate::config::{AppConfig, SpecVm, Vm};
use crate::parse::str_eq;

verus! {

// ---------------------------------------------------------------------
// What each mode shows or runs, at the spec level
// ---------------------------------------------------------------------

/// The line list mode prints for one host: `<name> => <user>@<address>`.
pub open spec fn spec_list_line(v: SpecVm) -> Seq<char> {
    v.name + " => "@ + v.user + "@"@ + v.ip
}

/// The label interactive mode offers for one host:
/// `<name> (<user>@<address>)`.
pub open spec fn spec_label(v: SpecVm) -> Seq<char> {
    v.name + " ("@ + v.user + "@"@ + v.ip + ")"@
}

/// The single argument handed to the SSH client: `<user>@<address>`.
pub open spec fn spec_target(v: SpecVm) -> Seq<char> {
    v.user + "@"@ + v.ip
}

/// All lines list mode prints, in file order.
pub open spec fn spec_list_lines(vms: Seq<SpecVm>) -> Seq<Seq<char>> {
    vms.map_values(|v: SpecVm| spec_list_line(v))
}

/// All labels interactive mode offers, in file order.
pub open spec fn spec_labels(vms: Seq<SpecVm>) -> Seq<Seq<char>> {
    vms.map_values(|v: SpecVm| spec_label(v))
}

// ---------------------------------------------------------------------
// String rendering
// ---------------------------------------------------------------------

/// Renders the argument for the SSH client.
pub fn ssh_target(vm: &Vm) -> (r: String)
    ensures
        r@ == spec_target(vm@),
{
    let mut s = String::new();
    s.append(vm.user.as_str());
    s.append("@");
    s.append(vm.ip.as_str());
    proof {
        assert(s@ =~= spec_target(vm@));
    }
    s
}

/// Renders one line of list mode's output.
pub fn list_line(vm: &Vm) -> (r: String)
    ensures
        r@ == spec_list_line(vm@),
{
    let mut s = String::new();
    s.append(vm.name.as_str());
    s.append(" => ");
    s.append(vm.user.as_str());
    s.append("@");
    s.append(vm.ip.as_str());
    proof {
        assert(s@ =~= spec_list_line(vm@));
    }
    s
}

/// Renders one selectable label of interactive mode.
pub fn host_label(vm: &Vm) -> (r: String)
    ensures
        r@ == spec_label(vm@),
{
    let mut s = String::new();
    s.append(vm.name.as_str());
    s.append(" (");
    s.append(vm.user.as_str());
    s.append("@");
    s.append(vm.ip.as_str());
    s.append(")");
    proof {
        assert(s@ =~= spec_label(vm@));
    }
    s
}

/// List mode's output: one line per host, in file order.
pub fn list_lines(config: &AppConfig) -> (r: Vec<String>)
    ensures
        r@.map_values(|s: String| s@) == spec_list_lines(config@.vms),
        r@.len() == config@.vms.len(),
{
    let n = config.vms.len();
    let mut out: Vec<String> = Vec::new();
    let mut k: usize = 0;
    while k < n
        invariant
            k <= n,
            n == config.vms@.len(),
            out@.len() == k,
            forall|i: int| 0 <= i < k ==> out@[i]@ == spec_list_line(config@.vms[i]),
        decreases n - k,
    {
        out.push(list_line(&config.vms[k]));
        k = k + 1;
    }
    proof {
        assert(out@.map_values(|s: String| s@) =~= spec_list_lines(config@.vms));
    }
    out
}

/// Interactive mode's menu: one label per host, in file order.
pub fn host_labels(config: &AppConfig) -> (r: Vec<String>)
    ensures
        r@.map_values(|s: String| s@) == spec_labels(config@.vms),
        r@.len() == config@.vms.len(),
{
    let n = config.vms.len();
    let mut out: Vec<String> = Vec::new();
    let mut k: usize = 0;
    while k < n
        invariant
            k <= n,
            n == config.vms@.len(),
            out@.len() == k,
            forall|i: int| 0 <= i < k ==> out@[i]@ == spec_label(config@.vms[i]),
        decreases n - k,
    {
        out.push(host_label(&config.vms[k]));
        k = k + 1;
    }
    proof {
        assert(out@.map_values(|s: String| s@) =~= spec_labels(config@.vms));
    }
    out
}

// ---------------------------------------------------------------------
// Connect-by-name lookup
// ---------------------------------------------------------------------

/// Linear, case-sensitive, exact-match scan in file order: the index of
/// the first host with the given name, or `None`. With duplicate names
/// the first match wins.
pub fn find_host(config: &AppConfig, name: &str) -> (r: Option<usize>)
    ensures
        match r {
            Some(i) => i < config@.vms.len() && config@.vms[i as int].name == name@ && forall|
                k: int,
            | 0 <= k < i ==> config@.vms[k].name != name@,
            None => forall|k: int| 0 <= k < config@.vms.len() ==> config@.vms[k].name != name@,
        },
{
    let n = config.vms.len();
    let mut k: usize = 0;
    while k < n
        invariant
            k <= n,
            n == config.vms@.len(),
            forall|i: int| 0 <= i < k ==> config@.vms[i].name != name@,
        decreases n - k,
    {
        if str_eq(config.vms[k].name.as_str(), name) {
            return Some(k);
        }
        k = k + 1;
    }
    None
}

// ---------------------------------------------------------------------
// The dispatcher
// ---------------------------------------------------------------------

/// The mode the user asked for.
pub enum Command {
    /// Print all hosts.
    List,
    /// Connect directly to the named host.
    Connect { name: String },
    /// Present the menu (the default, when no subcommand is given).
    Interactive,
}

/// What the process must do next. Only `Launch` ever leads to an SSH
/// process; in particular a failed name lookup never does.
pub enum Step {
    /// Print these lines, one per host, and exit.
    PrintLines { lines: Vec<String> },
    /// Spawn the SSH client with this `user@address` argument.
    Launch { target: String },
    /// Report that no host has this name, and exit cleanly.
    NotFound { name: String },
    /// Offer these labels for selection, first entry pre-selected.
    Menu { labels: Vec<String> },
}

/// Which host, if any, a name selects: the first with that name.
pub open spec fn spec_found(vms: Seq<SpecVm>, name: Seq<char>, i: int) -> bool {
    0 <= i < vms.len() && vms[i].name == name && forall|k: int| 0 <= k < i ==> vms[k].name != name
}

/// The one transition of an invocation: what each mode does, given the
/// parsed configuration.
pub fn dispatch(config: &AppConfig, cmd: Command) -> (r: Step)
    ensures
        cmd matches Command::List ==> (r matches Step::PrintLines { lines } && lines@.map_values(
            |s: String| s@,
        ) == spec_list_lines(config@.vms)),
        cmd matches Command::Interactive ==> (r matches Step::Menu { labels }
            && labels@.map_values(|s: String| s@) == spec_labels(config@.vms)),
        cmd matches Command::Connect { name } ==> (match r {
            Step::Launch { target } => exists|i: int|
                spec_found(config@.vms, name@, i) && target@ == spec_target(config@.vms[i]),
            Step::NotFound { name: missing } => missing@ == name@ && forall|k: int|
                0 <= k < config@.vms.len() ==> config@.vms[k].name != name@,
            _ => false,
        }),
{
    match cmd {
        Command::List => Step::PrintLines { lines: list_lines(config) },
        Command::Interactive => Step::Menu { labels: host_labels(config) },
        Command::Connect { name } => match find_host(config, name.as_str()) {
            Some(i) => {
                let target = ssh_target(&config.vms[i]);
                proof {
                    assert(spec_found(config@.vms, name@, i as int) && target@ == spec_target(
                        config@.vms[i as int],
                    ));
                }
                Step::Launch { target }
            },
            None => Step::NotFound { name },
        },
    }
}

/// Resolves interactive mode's outcome: the chosen host's target, or a
/// clean cancellation when the user backed out (or had nothing to pick).
pub fn resolve_selection(config: &AppConfig, selection: Option<usize>) -> (r: Option<String>)
    requires
        selection matches Some(i) ==> i < config@.vms.len(),
    ensures
        match selection {
            Some(i) => r matches Some(target) && target@ == spec_target(config@.vms[i as int]),
            None => r is None,
        },
{
    match selection {
        Some(i) => Some(ssh_target(&config.vms[i])),
        None => None,
    }
}

// ---------------------------------------------------------------------
// Laws
// ---------------------------------------------------------------------

/// Law: list mode's output has exactly one line per host, and the line
/// at each position renders the host at the same position — output
/// order equals file order.
pub proof fn lemma_list_preserves_order(vms: Seq<SpecVm>)
    ensures
        spec_list_lines(vms).len() == vms.len(),
        forall|i: int| 0 <= i < vms.len() ==> spec_list_lines(vms)[i] == spec_list_line(vms[i]),
{
}

/// Law: an empty inventory makes list mode print nothing and leaves the
/// interactive menu empty.
pub proof fn lemma_empty_inventory(vms: Seq<SpecVm>)
    requires
        vms.len() == 0,
    ensures
        spec_list_lines(vms) == Seq::<Seq<char>>::empty(),
        spec_labels(vms) == Seq::<Seq<char>>::empty(),
{
    assert(spec_list_lines(vms) =~= Seq::<Seq<char>>::empty());
    assert(spec_labels(vms) =~= Seq::<Seq<char>>::empty());
}

} // verus!

//! What the help shows.
use crate::entity::keyed::value_of;
use crate::entity::supfile::commands::CommandView;
use crate::entity::supfile::networks::{HostView, NetworkView, Networks};
use crate::entity::supfile::targets::{TargetView, Targets, TargetsView};
use crate::entity::supfile::{Supfile, SupfileView};
use crate::entity::InitState;
use crate::text::trim;
use vstd::prelude::*;
use vstd::string::*;

verus! {

/// Which parts of the help are shown.
#[derive(Debug, Clone, Copy, PartialEq, Eq, Structural)]
pub struct HelpDisplayer {
    pub show_networks: bool,
    pub show_targets: bool,
    pub show_cmd: bool,
    pub show_make_mode: bool,
    pub color: bool,
}

impl HelpDisplayer {
    /// A help that shows no part yet. It mentions the makefile mode where
    /// the invocation is in it, and takes its colour setting from the
    /// command line.
    pub fn new(init: &InitState) -> (r: HelpDisplayer)
        ensures
            r == (HelpDisplayer {
                show_networks: false,
                show_targets: false,
                show_cmd: false,
                show_make_mode: init.make_mode,
                color: init.flags.disablecolor,
            }),
    {
        HelpDisplayer {
            show_networks: false,
            show_cmd: false,
            show_targets: false,
            show_make_mode: init.make_mode,
            color: init.flags.disablecolor,
        }
    }
}

/// The line that says whether the script checker is installed.
pub open spec fn shellcheck_line(installed: bool) -> Seq<char> {
    if installed {
        "✓ shellcheck"@
    } else {
        "✖️ shellcheck"@
    }
}

/// One line for each host: its address.
pub open spec fn host_lines(hosts: Seq<HostView>) -> Seq<Seq<char>> {
    Seq::new(hosts.len(), |k: int| "  - "@ + hosts[k].host)
}

/// The lines of the networks from position `i` on: the name of each
/// network, then its hosts.
pub open spec fn network_lines(nets: Seq<(Seq<char>, NetworkView)>, i: int) -> Seq<Seq<char>>
    decreases nets.len() - i,
{
    if i < 0 || i >= nets.len() {
        Seq::empty()
    } else {
        seq!["- "@ + nets[i].0] + host_lines(nets[i].1.hosts) + network_lines(nets, i + 1)
    }
}

/// One line for each command: its name and its description, trimmed.
pub open spec fn command_lines(commands: Seq<(Seq<char>, CommandView)>) -> Seq<Seq<char>> {
    Seq::new(commands.len(), |k: int| "- "@ + commands[k].0 + ": "@ + trim(commands[k].1.desc))
}

/// One line for each step: its command and its network.
pub open spec fn step_lines(steps: Seq<TargetView>) -> Seq<Seq<char>> {
    Seq::new(steps.len(), |k: int| "- "@ + steps[k].command + " -> "@ + steps[k].affixed_network)
}

/// The lines of the targets named from position `i` on: the steps of each.
pub open spec fn target_lines(targets: TargetsView, i: int) -> Seq<Seq<char>>
    decreases targets.names.len() - i,
{
    if i < 0 || i >= targets.names.len() {
        Seq::empty()
    } else {
        (match value_of(targets.targets, targets.names[i]) {
            Some(steps) => step_lines(steps),
            None => Seq::empty(),
        }) + target_lines(targets, i + 1)
    }
}

/// The networks under their heading.
pub open spec fn network_usage_lines(supfile: SupfileView) -> Seq<Seq<char>> {
    seq!["Networks:"@] + network_lines(supfile.networks.nets, 0)
}

/// The commands under their heading.
pub open spec fn cmd_usage_lines(supfile: SupfileView) -> Seq<Seq<char>> {
    seq!["Commands:"@] + command_lines(supfile.commands)
}

/// The targets under their heading.
pub open spec fn target_usage_lines(supfile: SupfileView) -> Seq<Seq<char>> {
    seq!["Targets:"@] + target_lines(supfile.targets, 0)
}

/// The lines of the help: the note on the makefile mode, the state of the
/// script checker, and the parts that are to be shown.
pub open spec fn help_lines(help: HelpDisplayer, supfile: SupfileView, installed: bool) -> Seq<
    Seq<char>,
> {
    (if help.show_make_mode {
        seq!["No networks defined, makefile mode available"@]
    } else {
        Seq::empty()
    }) + seq![shellcheck_line(installed)] + (if help.show_networks {
        network_usage_lines(supfile)
    } else {
        Seq::empty()
    }) + (if help.show_cmd {
        cmd_usage_lines(supfile)
    } else {
        Seq::empty()
    }) + (if help.show_targets {
        target_usage_lines(supfile)
    } else {
        Seq::empty()
    })
}

fn join2(a: &str, b: &str) -> (r: String)
    ensures
        r@ == a@ + b@,
{
    let mut r = String::from_str(a);
    r.append(b);
    r
}

fn network_usage(conf: &Supfile) -> (r: Vec<String>)
    ensures
        r.deep_view() == network_usage_lines(conf@),
{
    let ghost nets = conf@.networks.nets;
    let mut out: Vec<String> = Vec::new();
    out.push(String::from_str("Networks:"));
    assert(out.deep_view() =~= seq!["Networks:"@]);
    let n: usize = conf.networks.nets.len();
    let mut i: usize = 0;
    assert(out.deep_view() + network_lines(nets, 0) =~= network_usage_lines(conf@));
    while i < n
        invariant
            i <= n,
            n == nets.len(),
            nets == conf@.networks.nets,
            out.deep_view() + network_lines(nets, i as int) == network_usage_lines(conf@),
        decreases n - i,
    {
        let ghost before = out.deep_view();
        let name = conf.networks.nets.name_at(i);
        let network = conf.networks.nets.value_at(i);
        out.push(join2("- ", name.as_str()));
        let ghost head = before.push("- "@ + nets[i as int].0);
        assert(out.deep_view() =~= head);
        let ghost wanted = host_lines(nets[i as int].1.hosts);
        let mut k: usize = 0;
        while k < network.hosts.len()
            invariant
                k <= network.hosts.len(),
                network@ == nets[i as int].1,
                wanted == host_lines(nets[i as int].1.hosts),
                out.deep_view() =~= head + wanted.take(k as int),
            decreases network.hosts.len() - k,
        {
            let ghost sofar = out.deep_view();
            assert(network@.hosts[k as int] == network.hosts@[k as int]@);
            out.push(join2("  - ", network.hosts[k].host.as_str()));
            assert(out.deep_view() =~= sofar.push(wanted[k as int]));
            k += 1;
        }
        assert(wanted.take(wanted.len() as int) =~= wanted);
        assert(before + (seq!["- "@ + nets[i as int].0] + wanted + network_lines(nets, i + 1))
            =~= (head + wanted) + network_lines(nets, i + 1));
        i += 1;
    }
    assert(out.deep_view() + Seq::<Seq<char>>::empty() =~= out.deep_view());
    out
}

fn cmd_usage(conf: &Supfile) -> (r: Vec<String>)
    ensures
        r.deep_view() == cmd_usage_lines(conf@),
{
    let ghost commands = conf@.commands;
    let ghost wanted = command_lines(commands);
    let mut out: Vec<String> = Vec::new();
    out.push(String::from_str("Commands:"));
    let n: usize = conf.commands.len();
    let mut i: usize = 0;
    assert(out.deep_view() =~= seq!["Commands:"@] + wanted.take(0));
    while i < n
        invariant
            i <= n,
            n == commands.len(),
            commands == conf@.commands,
            wanted == command_lines(commands),
            out.deep_view() =~= seq!["Commands:"@] + wanted.take(i as int),
        decreases n - i,
    {
        let ghost sofar = out.deep_view();
        let name = conf.commands.name_at(i);
        let command = conf.commands.value_at(i);
        let mut line = join2("- ", name.as_str());
        line.append(": ");
        let desc = command.to_string();
        line.append(desc.as_str());
        out.push(line);
        assert(out.deep_view() =~= sofar.push(wanted[i as int]));
        i += 1;
    }
    assert(wanted.take(wanted.len() as int) =~= wanted);
    out
}

fn target_usage(conf: &Supfile) -> (r: Vec<String>)
    ensures
        r.deep_view() == target_usage_lines(conf@),
{
    let ghost targets = conf@.targets;
    let mut out: Vec<String> = Vec::new();
    out.push(String::from_str("Targets:"));
    assert(out.deep_view() =~= seq!["Targets:"@]);
    let n: usize = conf.targets.names.len();
    let mut i: usize = 0;
    assert(out.deep_view() + target_lines(targets, 0) =~= target_usage_lines(conf@));
    while i < n
        invariant
            i <= n,
            n == targets.names.len(),
            targets == conf@.targets,
            out.deep_view() + target_lines(targets, i as int) == target_usage_lines(conf@),
        decreases n - i,
    {
        let ghost before = out.deep_view();
        assert(targets.names[i as int] == conf.targets.names@[i as int]@);
        let ghost wanted = match value_of(targets.targets, targets.names[i as int]) {
            Some(steps) => step_lines(steps),
            None => Seq::empty(),
        };
        match conf.targets.targets.get(conf.targets.names[i].as_str()) {
            Some(steps) => {
                let mut k: usize = 0;
                while k < steps.len()
                    invariant
                        k <= steps.len(),
                        wanted == step_lines(steps.deep_view()),
                        out.deep_view() =~= before + wanted.take(k as int),
                    decreases steps.len() - k,
                {
                    let ghost sofar = out.deep_view();
                    assert(steps.deep_view()[k as int] == steps@[k as int]@);
                    let mut line = join2("- ", steps[k].command.as_str());
                    line.append(" -> ");
                    line.append(steps[k].affixed_network.as_str());
                    out.push(line);
                    assert(out.deep_view() =~= sofar.push(wanted[k as int]));
                    k += 1;
                }
                assert(wanted.take(wanted.len() as int) =~= wanted);
            },
            None => {
                assert(before + wanted =~= before);
            },
        }
        assert(before + (wanted + target_lines(targets, i + 1)) =~= (before + wanted)
            + target_lines(targets, i + 1));
        i += 1;
    }
    assert(out.deep_view() + Seq::<Seq<char>>::empty() =~= out.deep_view());
    out
}

impl HelpDisplayer {
    /// The lines of the help, `shellcheck_installed` saying whether the
    /// script checker is at hand.
    pub fn show(&self, state: &InitState, shellcheck_installed: bool) -> (r: Vec<String>)
        ensures
            r.deep_view() == help_lines(*self, state@.supfile, shellcheck_installed),
    {
        let conf = &state.supfile;
        let mut out: Vec<String> = Vec::new();
        if self.show_make_mode {
            out.push(String::from_str("No networks defined, makefile mode available"));
        }
        let ghost first = out.deep_view();
        assert(first =~= if self.show_make_mode {
            seq!["No networks defined, makefile mode available"@]
        } else {
            Seq::<Seq<char>>::empty()
        });
        if shellcheck_installed {
            out.push(String::from_str("✓ shellcheck"));
        } else {
            out.push(String::from_str("✖️ shellcheck"));
        }
        let ghost second = out.deep_view();
        assert(second =~= first + seq![shellcheck_line(shellcheck_installed)]);
        if self.show_networks {
            let mut part = network_usage(conf);
            out.append(&mut part);
        }
        let ghost third = out.deep_view();
        assert(third =~= second + if self.show_networks {
            network_usage_lines(conf@)
        } else {
            Seq::<Seq<char>>::empty()
        });
        if self.show_cmd {
            let mut part = cmd_usage(conf);
            out.append(&mut part);
        }
        let ghost fourth = out.deep_view();
        assert(fourth =~= third + if self.show_cmd {
            cmd_usage_lines(conf@)
        } else {
            Seq::<Seq<char>>::empty()
        });
        if self.show_targets {
            let mut part = target_usage(conf);
            out.append(&mut part);
        }
        assert(out.deep_view() =~= fourth + if self.show_targets {
            target_usage_lines(conf@)
        } else {
            Seq::<Seq<char>>::empty()
        });
        out
    }

    /// Sets the help to show networks, commands and targets, and gives
    /// its lines.
    pub fn show_all(&mut self, state: &InitState, shellcheck_installed: bool) -> (r: Vec<String>)
        ensures
            *final(self) == (HelpDisplayer {
                show_networks: true,
                show_cmd: true,
                show_targets: true,
                ..*old(self)
            }),
            r.deep_view() == help_lines(*final(self), state@.supfile, shellcheck_installed),
    {
        self.show_networks = true;
        self.show_cmd = true;
        self.show_targets = true;
        self.show(state, shellcheck_installed)
    }
}

} // verus!

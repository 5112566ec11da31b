//! The resolution pipeline and the assembly of playbooks.
pub mod env_parser;
pub mod inventory_tools;
pub mod modes_of_operation;
pub mod network_host_utils;
pub mod program_init;
pub mod ssh_config_parser;

use crate::entity::env::{EnvList, Pair};
use crate::entity::keyed::{has_key, put, put_all, value_of, NameMap};
use crate::entity::supfile::commands::{Command, CommandView};
use crate::entity::supfile::networks::{
    bare_network, Host, HostView, Network, NetworkView, Networks, NetworksView,
};
use crate::entity::supfile::targets::{Target, TargetView};
use crate::entity::supfile::{Supfile, SupfileView};
use crate::entity::{InitState, InitStateView};
use crate::gateways::clock::{clock_text, timestamp, ClockReading};
use crate::text::text_eq;
use vstd::prelude::*;
use vstd::string::*;

verus! {

/// Why no playbook was planned.
#[derive(Debug, PartialEq, Eq)]
pub enum PlanError {
    /// No positional argument was given.
    NoArguments,
    /// The manifest declares no network of that name.
    UnknownNetwork { name: String },
    /// The manifest declares no command of that name.
    UnknownCommand { name: String },
    /// The manifest declares no target of that name.
    UnknownTarget { name: String },
    /// The process environment names no user.
    NoUser,
    /// The clock read a time that cannot be written as a date.
    NoTime,
}

/// A failed planning as plain values.
pub enum PlanFailure {
    NoArguments,
    UnknownNetwork { name: Seq<char> },
    UnknownCommand { name: Seq<char> },
    UnknownTarget { name: Seq<char> },
    NoUser,
    NoTime,
}

impl View for PlanError {
    type V = PlanFailure;

    open spec fn view(&self) -> PlanFailure {
        match *self {
            PlanError::NoArguments => PlanFailure::NoArguments,
            PlanError::UnknownNetwork { name } => PlanFailure::UnknownNetwork { name: name@ },
            PlanError::UnknownCommand { name } => PlanFailure::UnknownCommand { name: name@ },
            PlanError::UnknownTarget { name } => PlanFailure::UnknownTarget { name: name@ },
            PlanError::NoUser => PlanFailure::NoUser,
            PlanError::NoTime => PlanFailure::NoTime,
        }
    }
}

impl PlanError {
    /// The status with which the process ends on this error: 2 where no
    /// argument was given, 1 otherwise.
    pub fn exit_code(&self) -> (r: i32)
        ensures
            r == if self@ is NoArguments {
                2i32
            } else {
                1i32
            },
    {
        match self {
            PlanError::NoArguments => 2,
            _ => 1,
        }
    }
}

/// What the process environment holds of the variables that name the user.
#[derive(Debug, PartialEq, Eq)]
pub struct ProcessEnv {
    pub sup_user: Option<String>,
    pub user: Option<String>,
}

/// The user in whose name the plan is made: `SUP_USER` where it is set,
/// else `USER`.
pub open spec fn acting_user(sup_user: Option<Seq<char>>, user: Option<Seq<char>>) -> Option<
    Seq<char>,
> {
    if sup_user is Some {
        sup_user
    } else {
        user
    }
}

impl ProcessEnv {
    /// The user in whose name the plan is made.
    pub fn acting_user(&self) -> (r: Option<&String>)
        ensures
            r.deep_view() == acting_user(self.sup_user.deep_view(), self.user.deep_view()),
    {
        match &self.sup_user {
            Some(u) => Some(u),
            None => match &self.user {
                Some(u) => Some(u),
                None => None,
            },
        }
    }
}

/// Whether `name` is among `names`.
pub fn contains_name(names: &Vec<String>, name: &str) -> (r: bool)
    ensures
        r == names.deep_view().contains(name@),
{
    let mut i: usize = 0;
    while i < names.len()
        invariant
            i <= names.len(),
            forall|j: int| 0 <= j < i ==> names.deep_view()[j] != name@,
        decreases names.len() - i,
    {
        assert(names.deep_view()[i as int] == names@[i as int]@);
        if text_eq(names[i].as_str(), name) {
            return true;
        }
        i += 1;
    }
    false
}

/// The network called `name`, as far as the manifest declares it: its
/// name is listed and a network is stored under it.
pub open spec fn declared_network(networks: NetworksView, name: Seq<char>) -> Option<
    NetworkView,
> {
    if networks.names.contains(name) {
        value_of(networks.nets, name)
    } else {
        None
    }
}

/// Succeeds exactly where the manifest lists a network called
/// `network_name`.
pub fn ensure_network_exists(network_name: &str, conf: &InitState) -> (r: Result<(), PlanError>)
    ensures
        match r {
            Ok(_) => conf@.supfile.networks.names.contains(network_name@),
            Err(e) => !conf@.supfile.networks.names.contains(network_name@) && e@ == (
            PlanFailure::UnknownNetwork { name: network_name@ }),
        },
{
    if contains_name(&conf.supfile.networks.names, network_name) {
        Ok(())
    } else {
        Err(PlanError::UnknownNetwork { name: String::from_str(network_name) })
    }
}

/// A copy of the network that the manifest declares under `name`.
pub fn find_network(networks: &Networks, name: &str) -> (r: Result<Network, PlanError>)
    ensures
        match r {
            Ok(n) => declared_network(networks@, name@) == Some(n@),
            Err(e) => declared_network(networks@, name@) is None && e@ == (
            PlanFailure::UnknownNetwork { name: name@ }),
        },
{
    if !contains_name(&networks.names, name) {
        return Err(PlanError::UnknownNetwork { name: String::from_str(name) });
    }
    match networks.get(name) {
        Some(n) => Ok(n.clone()),
        None => Err(PlanError::UnknownNetwork { name: String::from_str(name) }),
    }
}

/// Overrides the variables of the network with those given on the command
/// line. A variable that the network already has takes the new value and
/// keeps its place; the others follow in the order in which they were given.
pub fn override_env_from_args(env_from_args: &EnvList, network: &mut Network)
    ensures
        final(network)@ == (NetworkView {
            env: put_all(old(network)@.env, env_from_args@, 0),
            ..old(network)@
        }),
{
    network.env.merge(env_from_args);
}

/// `env` with the variables that every network gets: `SUP_NETWORK`,
/// `SUP_TIME` and `SUP_USER`, each overriding a variable of that name.
pub open spec fn with_defaults(
    env: Seq<Pair>,
    name: Seq<char>,
    time: Seq<char>,
    user: Seq<char>,
) -> Seq<Pair> {
    put(put(put(env, "SUP_NETWORK"@, name), "SUP_TIME"@, time), "SUP_USER"@, user)
}

/// The network with the variables that every network gets.
pub open spec fn network_with_defaults(network: NetworkView, time: Seq<char>, user: Seq<char>) -> NetworkView {
    NetworkView { env: with_defaults(network.env, network.name, time, user), ..network }
}

/// The network with the variables that every network gets, where a user
/// and a time are known.
pub open spec fn defaults_given(
    network: NetworkView,
    user: Option<Seq<char>>,
    time: Option<Seq<char>>,
) -> Result<NetworkView, PlanFailure> {
    match user {
        None => Err(PlanFailure::NoUser),
        Some(u) => match time {
            None => Err(PlanFailure::NoTime),
            Some(t) => Ok(network_with_defaults(network, t, u)),
        },
    }
}

/// Gives the network the variables that every network gets, `time` being
/// the time of the resolution and `user` the acting user: `SUP_NETWORK`
/// holds the network's name.
pub fn default_envs_at(network: &mut Network, time: &str, user: &str)
    ensures
        final(network)@ == network_with_defaults(old(network)@, time@, user@),
{
    network.env.set(String::from_str("SUP_NETWORK"), network.name.clone());
    network.env.set(String::from_str("SUP_TIME"), String::from_str(time));
    network.env.set(String::from_str("SUP_USER"), String::from_str(user));
}

/// Gives the network the variables that every network gets, with the time
/// that the clock read as `SUP_TIME`.
///
/// Fails, and leaves the network as it was, where the process environment
/// names no user, or else the time cannot be written as a date.
pub fn add_ssup_default_envs(
    network: &mut Network,
    process_env: &ProcessEnv,
    clock: &ClockReading,
) -> (r: Result<(), PlanError>)
    ensures
        match defaults_given(
            old(network)@,
            acting_user(process_env.sup_user.deep_view(), process_env.user.deep_view()),
            clock_text(*clock),
        ) {
            Ok(n) => r is Ok && final(network)@ == n,
            Err(e) => r is Err && r->Err_0@ == e && final(network)@ == old(network)@,
        },
{
    let user = match process_env.acting_user() {
        Some(user) => user,
        None => {
            return Err(PlanError::NoUser);
        },
    };
    let time = match timestamp(clock) {
        Some(time) => time,
        None => {
            return Err(PlanError::NoTime);
        },
    };
    default_envs_at(network, time.as_str(), user.as_str());
    Ok(())
}

/// The network that stands for the machine itself.
pub open spec fn localhost_network() -> NetworkView {
    bare_network(
        "localhost"@,
        seq![
            HostView {
                host: "localhost"@,
                user: None,
                pass: None,
                tube: None,
                env: None,
                sudo: false,
            },
        ],
    )
}

/// The networks with one called `localhost`: those that have none get the
/// network that stands for the machine itself.
pub open spec fn with_localhost(networks: NetworksView) -> NetworksView {
    if has_key(networks.nets, "localhost"@) {
        networks
    } else {
        NetworksView {
            names: networks.names.push("localhost"@),
            nets: put(networks.nets, "localhost"@, localhost_network()),
        }
    }
}

/// Makes sure that the manifest has a network called `localhost`.
pub fn ensure_localhost(init_state: &mut InitState)
    ensures
        final(init_state)@ == (InitStateView {
            supfile: SupfileView {
                networks: with_localhost(old(init_state)@.supfile.networks),
                ..old(init_state)@.supfile
            },
            ..old(init_state)@
        }),
{
    if init_state.supfile.networks.get("localhost").is_some() {
        return ;
    }
    let mut hosts: Vec<Host> = Vec::new();
    hosts.push(Host::new(String::from_str("localhost")));
    let mut network = Network::default();
    network.hosts = hosts;
    network.name = String::from_str("localhost");
    assert(network@.hosts =~= localhost_network().hosts);
    init_state.supfile.networks.add_network(String::from_str("localhost"), network);
}

/// The ways in which a playbook is put together.
#[derive(Debug, Clone, Copy, PartialEq, Eq, Structural)]
pub enum Mode {
    Normal,
    Makefile,
    SpecialTarget,
}

/// A playbook together with the mode in which it was planned and the
/// arguments that named nothing: for each of them the caller shows the help.
#[derive(Debug, PartialEq, Eq)]
pub struct Assembly {
    pub playbook: crate::entity::playbook::PlayBook,
    pub unknown: Vec<String>,
    pub mode: Mode,
}

/// An assembly as plain values.
pub struct AssemblyView {
    pub playbook: crate::entity::playbook::PlayBookView,
    pub unknown: Seq<Seq<char>>,
    pub mode: Mode,
}

impl View for Assembly {
    type V = AssemblyView;

    open spec fn view(&self) -> AssemblyView {
        AssemblyView {
            playbook: self.playbook@,
            unknown: self.unknown.deep_view(),
            mode: self.mode,
        }
    }
}

/// What a list of arguments stands for: the commands to run, in order,
/// and the arguments that named nothing.
pub struct Gathered {
    pub commands: Seq<CommandView>,
    pub unknown: Seq<Seq<char>>,
}

/// The commands that the steps of a target name, from step `i` on, in the
/// order of the steps. The network of a step plays no part. The first step
/// whose command the manifest does not declare ends the reading.
pub open spec fn step_commands(
    commands: Seq<(Seq<char>, CommandView)>,
    steps: Seq<TargetView>,
    i: int,
) -> Result<Seq<CommandView>, PlanFailure>
    decreases steps.len() - i,
{
    if i < 0 || i >= steps.len() {
        Ok(Seq::empty())
    } else {
        match value_of(commands, steps[i].command) {
            None => Err(PlanFailure::UnknownCommand { name: steps[i].command }),
            Some(c) => match step_commands(commands, steps, i + 1) {
                Ok(rest) => Ok(seq![c] + rest),
                Err(e) => Err(e),
            },
        }
    }
}

/// The commands that one argument stands for, or `None` where it names
/// nothing. With `both` unset a command wins over a target of the same
/// name; with `both` set the command comes first and the target's
/// commands follow.
pub open spec fn argument_commands(
    commands: Seq<(Seq<char>, CommandView)>,
    targets: Seq<(Seq<char>, Seq<TargetView>)>,
    both: bool,
    arg: Seq<char>,
) -> Result<Option<Seq<CommandView>>, PlanFailure> {
    match (value_of(commands, arg), value_of(targets, arg)) {
        (Some(c), None) => Ok(Some(seq![c])),
        (Some(c), Some(steps)) => if both {
            match step_commands(commands, steps, 0) {
                Ok(cs) => Ok(Some(seq![c] + cs)),
                Err(e) => Err(e),
            }
        } else {
            Ok(Some(seq![c]))
        },
        (None, Some(steps)) => match step_commands(commands, steps, 0) {
            Ok(cs) => Ok(Some(cs)),
            Err(e) => Err(e),
        },
        (None, None) => Ok(None),
    }
}

/// What the arguments from position `i` on stand for. An argument that
/// names nothing is recorded and the reading goes on; the first target
/// step whose command the manifest does not declare ends it.
pub open spec fn gathered(
    commands: Seq<(Seq<char>, CommandView)>,
    targets: Seq<(Seq<char>, Seq<TargetView>)>,
    both: bool,
    args: Seq<Seq<char>>,
    i: int,
) -> Result<Gathered, PlanFailure>
    decreases args.len() - i,
{
    if i < 0 || i >= args.len() {
        Ok(Gathered { commands: Seq::empty(), unknown: Seq::empty() })
    } else {
        match argument_commands(commands, targets, both, args[i]) {
            Err(e) => Err(e),
            Ok(found) => match gathered(commands, targets, both, args, i + 1) {
                Err(e) => Err(e),
                Ok(rest) => match found {
                    Some(cs) => Ok(
                        Gathered { commands: cs + rest.commands, unknown: rest.unknown },
                    ),
                    None => Ok(
                        Gathered {
                            commands: rest.commands,
                            unknown: seq![args[i]] + rest.unknown,
                        },
                    ),
                },
            },
        }
    }
}

/// `found`, then what `rest` gives.
pub open spec fn commands_then(
    found: Seq<CommandView>,
    rest: Result<Seq<CommandView>, PlanFailure>,
) -> Result<Seq<CommandView>, PlanFailure> {
    match rest {
        Ok(more) => Ok(found + more),
        Err(e) => Err(e),
    }
}

/// `found`, then what `rest` gives.
pub open spec fn gathered_then(found: Gathered, rest: Result<Gathered, PlanFailure>) -> Result<
    Gathered,
    PlanFailure,
> {
    match rest {
        Ok(more) => Ok(
            Gathered {
                commands: found.commands + more.commands,
                unknown: found.unknown + more.unknown,
            },
        ),
        Err(e) => Err(e),
    }
}

/// Copies of the commands that the steps of a target name, in the order
/// of the steps.
///
/// Fails on the first step whose command the manifest does not declare.
pub fn expand_steps(commands: &NameMap<Command>, steps: &Vec<Target>) -> (r: Result<
    Vec<Command>,
    PlanError,
>)
    ensures
        match r {
            Ok(cs) => step_commands(commands.deep_view(), steps.deep_view(), 0) == Ok::<
                Seq<CommandView>,
                PlanFailure,
            >(cs.deep_view()),
            Err(e) => step_commands(commands.deep_view(), steps.deep_view(), 0) == Err::<
                Seq<CommandView>,
                PlanFailure,
            >(e@),
        },
{
    let ghost table = commands.deep_view();
    let ghost all = steps.deep_view();
    let mut out: Vec<Command> = Vec::new();
    let mut i: usize = 0;
    proof {
        assert(out.deep_view() =~= Seq::<CommandView>::empty());
        match step_commands(table, all, 0) {
            Ok(more) => {
                assert(out.deep_view() + more =~= more);
            },
            Err(_) => {},
        }
    }
    while i < steps.len()
        invariant
            i <= steps.len(),
            table == commands.deep_view(),
            all == steps.deep_view(),
            commands_then(out.deep_view(), step_commands(table, all, i as int)) == step_commands(
                table,
                all,
                0,
            ),
        decreases steps.len() - i,
    {
        let ghost before = out.deep_view();
        assert(all[i as int] == steps@[i as int]@);
        match commands.get(steps[i].command.as_str()) {
            Some(c) => {
                out.push(c.clone());
                proof {
                    let cv = out@.last()@;
                    assert(out.deep_view() =~= before.push(cv));
                    match step_commands(table, all, i + 1) {
                        Ok(rest) => {
                            assert(before + (seq![cv] + rest) =~= before.push(cv) + rest);
                        },
                        Err(_) => {},
                    }
                }
            },
            None => {
                return Err(PlanError::UnknownCommand { name: steps[i].command.clone() });
            },
        }
        i += 1;
    }
    assert(out.deep_view() + Seq::<CommandView>::empty() =~= out.deep_view());
    Ok(out)
}

/// Copies of the commands that one argument stands for, or `None` where
/// it names nothing.
pub fn resolve_argument(supfile: &Supfile, both: bool, arg: &str) -> (r: Result<
    Option<Vec<Command>>,
    PlanError,
>)
    ensures
        match r {
            Ok(found) => argument_commands(supfile@.commands, supfile@.targets.targets, both, arg@) == Ok::<
                Option<Seq<CommandView>>,
                PlanFailure,
            >(found.deep_view()),
            Err(e) => argument_commands(supfile@.commands, supfile@.targets.targets, both, arg@) == Err::<
                Option<Seq<CommandView>>,
                PlanFailure,
            >(e@),
        },
{
    let own = supfile.get_command(arg);
    let steps = supfile.targets.targets.get(arg);
    match (own, steps) {
        (Some(c), None) => {
            let mut out: Vec<Command> = Vec::new();
            out.push(c.clone());
            assert(out.deep_view() =~= seq![c@]);
            Ok(Some(out))
        },
        (Some(c), Some(steps)) => {
            let mut out: Vec<Command> = Vec::new();
            out.push(c.clone());
            assert(out.deep_view() =~= seq![c@]);
            if both {
                match expand_steps(&supfile.commands, steps) {
                    Ok(mut cs) => {
                        let ghost tail = cs.deep_view();
                        out.append(&mut cs);
                        assert(out.deep_view() =~= seq![c@] + tail);
                        Ok(Some(out))
                    },
                    Err(e) => Err(e),
                }
            } else {
                Ok(Some(out))
            }
        },
        (None, Some(steps)) => match expand_steps(&supfile.commands, steps) {
            Ok(cs) => Ok(Some(cs)),
            Err(e) => Err(e),
        },
        (None, None) => Ok(None),
    }
}

/// What the arguments from position `from` on stand for: copies of the
/// commands to run, and the arguments that named nothing.
///
/// Fails on the first target step whose command the manifest does not
/// declare.
pub fn gather_commands(supfile: &Supfile, both: bool, args: &Vec<String>, from: usize) -> (r: Result<
    (Vec<Command>, Vec<String>),
    PlanError,
>)
    ensures
        match r {
            Ok(g) => gathered(
                supfile@.commands,
                supfile@.targets.targets,
                both,
                args.deep_view(),
                from as int,
            ) == Ok::<
                Gathered,
                PlanFailure,
            >(Gathered { commands: g.0.deep_view(), unknown: g.1.deep_view() }),
            Err(e) => gathered(
                supfile@.commands,
                supfile@.targets.targets,
                both,
                args.deep_view(),
                from as int,
            ) == Err::<
                Gathered,
                PlanFailure,
            >(e@),
        },
{
    let ghost all = args.deep_view();
    let ghost sup = supfile@;
    let mut commands: Vec<Command> = Vec::new();
    let mut unknown: Vec<String> = Vec::new();
    let mut i: usize = from;
    proof {
        assert(commands.deep_view() =~= Seq::<CommandView>::empty());
        assert(unknown.deep_view() =~= Seq::<Seq<char>>::empty());
        match gathered(sup.commands, sup.targets.targets, both, all, from as int) {
            Ok(more) => {
                assert(commands.deep_view() + more.commands =~= more.commands);
                assert(unknown.deep_view() + more.unknown =~= more.unknown);
            },
            Err(_) => {},
        }
    }
    while i < args.len()
        invariant
            from <= i,
            all == args.deep_view(),
            sup == supfile@,
            gathered_then(
                Gathered { commands: commands.deep_view(), unknown: unknown.deep_view() },
                gathered(sup.commands, sup.targets.targets, both, all, i as int),
            ) == gathered(sup.commands, sup.targets.targets, both, all, from as int),
        decreases args.len() - i,
    {
        let ghost cs0 = commands.deep_view();
        let ghost un0 = unknown.deep_view();
        assert(all[i as int] == args@[i as int]@);
        match resolve_argument(supfile, both, args[i].as_str()) {
            Ok(Some(mut cs)) => {
                let ghost found = cs.deep_view();
                commands.append(&mut cs);
                proof {
                    assert(commands.deep_view() =~= cs0 + found);
                    match gathered(sup.commands, sup.targets.targets, both, all, i + 1) {
                        Ok(rest) => {
                            assert(cs0 + (found + rest.commands) =~= (cs0 + found)
                                + rest.commands);
                        },
                        Err(_) => {},
                    }
                }
            },
            Ok(None) => {
                unknown.push(args[i].clone());
                proof {
                    assert(unknown.deep_view() =~= un0.push(all[i as int]));
                    match gathered(sup.commands, sup.targets.targets, both, all, i + 1) {
                        Ok(rest) => {
                            assert(un0 + (seq![all[i as int]] + rest.unknown) =~= un0.push(
                                all[i as int],
                            ) + rest.unknown);
                        },
                        Err(_) => {},
                    }
                }
            },
            Err(e) => {
                return Err(e);
            },
        }
        i += 1;
    }
    proof {
        assert(commands.deep_view() + Seq::<CommandView>::empty() =~= commands.deep_view());
        assert(unknown.deep_view() + Seq::<Seq<char>>::empty() =~= unknown.deep_view());
    }
    Ok((commands, unknown))
}

/// Behind a removed argument, the arguments stand for what they stood for
/// one position further on.
pub proof fn lemma_gathered_behind(
    commands: Seq<(Seq<char>, CommandView)>,
    targets: Seq<(Seq<char>, Seq<TargetView>)>,
    both: bool,
    args: Seq<Seq<char>>,
    k: int,
    j: int,
)
    requires
        0 <= k < args.len(),
        k <= j,
    ensures
        gathered(commands, targets, both, args.remove(k), j) == gathered(
            commands,
            targets,
            both,
            args,
            j + 1,
        ),
    decreases args.len() - j,
{
    if j < args.len() - 1 {
        assert(args.remove(k)[j] == args[j + 1]);
        lemma_gathered_behind(commands, targets, both, args, k, j + 1);
    }
}

/// An argument that names neither a command nor a target does not end
/// the reading and adds no command: with it the arguments stand for the
/// same commands, or fail in the same way, as without it, and it is
/// recorded among the arguments that named nothing.
pub proof fn lemma_unknown_argument(
    commands: Seq<(Seq<char>, CommandView)>,
    targets: Seq<(Seq<char>, Seq<TargetView>)>,
    both: bool,
    args: Seq<Seq<char>>,
    k: int,
    i: int,
)
    requires
        0 <= i <= k < args.len(),
        value_of(commands, args[k]) is None,
        value_of(targets, args[k]) is None,
    ensures
        match gathered(commands, targets, both, args.remove(k), i) {
            Err(e) => gathered(commands, targets, both, args, i) == Err::<Gathered, PlanFailure>(e),
            Ok(g) => gathered(commands, targets, both, args, i) is Ok && gathered(
                commands,
                targets,
                both,
                args,
                i,
            )->Ok_0.commands == g.commands && gathered(
                commands,
                targets,
                both,
                args,
                i,
            )->Ok_0.unknown.len() == g.unknown.len() + 1 && gathered(
                commands,
                targets,
                both,
                args,
                i,
            )->Ok_0.unknown.contains(args[k]),
        },
    decreases k - i,
{
    if i == k {
        lemma_gathered_behind(commands, targets, both, args, k, k);
        match gathered(commands, targets, both, args, k + 1) {
            Ok(rest) => {
                let unknown = seq![args[k]] + rest.unknown;
                assert(unknown[0] == args[k]);
            },
            Err(_) => {},
        }
    } else {
        assert(args.remove(k)[i] == args[i]);
        lemma_unknown_argument(commands, targets, both, args, k, i + 1);
        match argument_commands(commands, targets, both, args[i]) {
            Ok(found) => {
                match gathered(commands, targets, both, args, i + 1) {
                    Ok(rest) => {
                        let j = choose|j: int|
                            0 <= j < rest.unknown.len() && rest.unknown[j] == args[k];
                        match found {
                            Some(_) => {},
                            None => {
                                let unknown = seq![args[i]] + rest.unknown;
                                assert(unknown[j + 1] == args[k]);
                            },
                        }
                    },
                    Err(_) => {},
                }
            },
            Err(_) => {},
        }
    }
}

} // verus!

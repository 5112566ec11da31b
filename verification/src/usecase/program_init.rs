//! The choice of the mode, and the flags that narrow or adjust the hosts
//! of a network.
use crate::entity::help_displayer::HelpDisplayer;
use crate::entity::keyed::has_key;
use crate::entity::supfile::networks::{Host, HostView, Network, NetworkView};
use crate::entity::supfile::targets::TargetView;
use crate::entity::supfile::SupfileView;
use crate::entity::{InitState, InitStateView};
use crate::gateways::clock::{clock_text, timestamp, ClockReading};
use crate::gateways::patterns::{pattern_is_valid, pattern_matches, HostPattern};
use crate::text::{decimal, push_decimal};
use crate::usecase::modes_of_operation::makefile_mode::{help_after, makefile_mode, makefile_plan};
use crate::usecase::inventory_tools::{inventory_script, resolve_path, resolved_path};
use crate::usecase::modes_of_operation::normal_mode::{
    normal_mode, normal_mode_network, normal_network, normal_plan,
};
use crate::usecase::modes_of_operation::special_target_mode::{special_plan, special_target_mode};
use crate::usecase::ssh_config_parser::{
    config_blocks, parse, SSHHost, SSHHostView, SshConfigError,
};
use crate::usecase::{
    acting_user, contains_name, with_localhost, Assembly, AssemblyView, Mode, PlanError,
    PlanFailure, ProcessEnv,
};
use vstd::prelude::*;
use vstd::string::*;

verus! {

/// Why a host filter gave no hosts.
#[derive(Debug, Clone, Copy, PartialEq, Eq, Structural)]
pub enum FilterError {
    /// The engine does not accept the pattern given with `--only`.
    InvalidOnly,
    /// No host matches the pattern given with `--only`.
    OnlyEmpty,
    /// The engine does not accept the pattern given with `--except`.
    InvalidExcept,
    /// Every host matches the pattern given with `--except`.
    ExceptEmpty,
}

impl FilterError {
    /// The status with which the process ends on this error; each error
    /// has its own.
    pub fn exit_code(&self) -> (r: i32)
        ensures
            r == match *self {
                FilterError::InvalidExcept => 42i32,
                FilterError::ExceptEmpty => 43i32,
                FilterError::InvalidOnly => 44i32,
                FilterError::OnlyEmpty => 45i32,
            },
    {
        match self {
            FilterError::InvalidExcept => 42,
            FilterError::ExceptEmpty => 43,
            FilterError::InvalidOnly => 44,
            FilterError::OnlyEmpty => 45,
        }
    }
}

/// The answer for the host at position `i`; a host without an answer
/// counts as one that does not match.
pub open spec fn answer_at(answers: Seq<bool>, i: int) -> bool {
    if 0 <= i < answers.len() {
        answers[i]
    } else {
        false
    }
}

/// The hosts from position `i` on that stay, in order, `answers` saying
/// of each host whether it matches: with `keep` set those that match, with
/// `keep` unset the others.
pub open spec fn selected(hosts: Seq<HostView>, answers: Seq<bool>, keep: bool, i: int) -> Seq<
    HostView,
>
    decreases hosts.len() - i,
{
    if i < 0 || i >= hosts.len() {
        Seq::empty()
    } else if answer_at(answers, i) == keep {
        seq![hosts[i]] + selected(hosts, answers, keep, i + 1)
    } else {
        selected(hosts, answers, keep, i + 1)
    }
}

/// Of each host, whether its address matches the pattern.
pub open spec fn match_answers(hosts: Seq<HostView>, pattern: Seq<char>) -> Seq<bool> {
    Seq::new(hosts.len(), |k: int| pattern_matches(pattern, hosts[k].host))
}

/// The hosts that stay under a pattern, in order: with `keep` set those
/// whose address matches it, with `keep` unset the others.
pub open spec fn kept(hosts: Seq<HostView>, pattern: Seq<char>, keep: bool) -> Seq<HostView> {
    selected(hosts, match_answers(hosts, pattern), keep, 0)
}

/// The hosts that `--only` leaves: those whose address matches.
pub open spec fn only_filtered(hosts: Seq<HostView>, pattern: Seq<char>) -> Result<
    Seq<HostView>,
    FilterError,
> {
    if !pattern_is_valid(pattern) {
        Err(FilterError::InvalidOnly)
    } else if kept(hosts, pattern, true).len() == 0 {
        Err(FilterError::OnlyEmpty)
    } else {
        Ok(kept(hosts, pattern, true))
    }
}

/// The hosts that `--except` leaves: those whose address does not match.
pub open spec fn except_filtered(hosts: Seq<HostView>, pattern: Seq<char>) -> Result<
    Seq<HostView>,
    FilterError,
> {
    if !pattern_is_valid(pattern) {
        Err(FilterError::InvalidExcept)
    } else if kept(hosts, pattern, false).len() == 0 {
        Err(FilterError::ExceptEmpty)
    } else {
        Ok(kept(hosts, pattern, false))
    }
}

/// Copies of the hosts that stay, in order, `answers` saying of each host
/// whether it matches. A host without an answer counts as one that does
/// not match.
pub fn select_hosts(hosts: &Vec<Host>, answers: &Vec<bool>, keep: bool) -> (r: Vec<Host>)
    ensures
        r.deep_view() == selected(hosts.deep_view(), answers@, keep, 0),
{
    let ghost all = hosts.deep_view();
    let mut out: Vec<Host> = Vec::new();
    let mut i: usize = 0;
    assert(out.deep_view() =~= Seq::<HostView>::empty());
    assert(out.deep_view() + selected(all, answers@, keep, 0) =~= selected(all, answers@, keep, 0));
    while i < hosts.len()
        invariant
            i <= hosts.len(),
            all == hosts.deep_view(),
            out.deep_view() + selected(all, answers@, keep, i as int) == selected(
                all,
                answers@,
                keep,
                0,
            ),
        decreases hosts.len() - i,
    {
        let ghost before = out.deep_view();
        assert(all[i as int] == hosts@[i as int]@);
        let answer: bool = if i < answers.len() {
            answers[i]
        } else {
            false
        };
        if answer == keep {
            out.push(hosts[i].clone());
            assert(out.deep_view() =~= before.push(all[i as int]));
            assert(before + (seq![all[i as int]] + selected(all, answers@, keep, i + 1))
                =~= before.push(all[i as int]) + selected(all, answers@, keep, i + 1));
        }
        i += 1;
    }
    assert(out.deep_view() + Seq::<HostView>::empty() =~= out.deep_view());
    out
}

/// Of each host, whether its address matches the pattern.
pub fn host_answers(hosts: &Vec<Host>, expr: &HostPattern) -> (r: Vec<bool>)
    ensures
        r@ == match_answers(hosts.deep_view(), expr@),
{
    let mut out: Vec<bool> = Vec::new();
    let mut i: usize = 0;
    while i < hosts.len()
        invariant
            i <= hosts.len(),
            out@.len() == i,
            forall|k: int|
                0 <= k < i ==> out@[k] == pattern_matches(expr@, hosts.deep_view()[k].host),
        decreases hosts.len() - i,
    {
        assert(hosts.deep_view()[i as int] == hosts@[i as int]@);
        out.push(expr.is_match(hosts[i].host.as_str()));
        i += 1;
    }
    assert(out@ =~= match_answers(hosts.deep_view(), expr@));
    out
}

/// Copies of the hosts that stay under a compiled pattern, in order.
pub fn matching_hosts(hosts: &Vec<Host>, expr: &HostPattern, keep: bool) -> (r: Vec<Host>)
    ensures
        r.deep_view() == kept(hosts.deep_view(), expr@, keep),
{
    let answers = host_answers(hosts, expr);
    select_hosts(hosts, &answers, keep)
}

/// Keeps the hosts whose address matches the pattern given with `--only`.
///
/// Fails, and leaves the network as it was, where the engine does not
/// accept the pattern and where no host matches it.
pub fn process_only_flags(selected_network: &mut Network, init_data: &InitState) -> (r: Result<
    (),
    FilterError,
>)
    ensures
        match only_filtered(old(selected_network)@.hosts, init_data@.flags.onlyhosts) {
            Ok(hosts) => r is Ok && final(selected_network)@ == (NetworkView {
                hosts,
                ..old(selected_network)@
            }),
            Err(e) => r == Err::<(), FilterError>(e) && final(selected_network)@ == old(
                selected_network,
            )@,
        },
{
    let expr = match HostPattern::new(init_data.flags.onlyhosts.as_str()) {
        Some(pattern) => pattern,
        None => {
            return Err(FilterError::InvalidOnly);
        },
    };
    let filtered_hosts = matching_hosts(&selected_network.hosts, &expr, true);
    if filtered_hosts.len() == 0 {
        return Err(FilterError::OnlyEmpty);
    }
    selected_network.hosts = filtered_hosts;
    Ok(())
}

/// Drops the hosts whose address matches the pattern given with
/// `--except`.
///
/// Fails, and leaves the network as it was, where the engine does not
/// accept the pattern and where every host matches it.
pub fn process_exclude_flags(selected_network: &mut Network, init_data: &InitState) -> (r: Result<
    (),
    FilterError,
>)
    ensures
        match except_filtered(old(selected_network)@.hosts, init_data@.flags.excepthosts) {
            Ok(hosts) => r is Ok && final(selected_network)@ == (NetworkView {
                hosts,
                ..old(selected_network)@
            }),
            Err(e) => r == Err::<(), FilterError>(e) && final(selected_network)@ == old(
                selected_network,
            )@,
        },
{
    let expr = match HostPattern::new(init_data.flags.excepthosts.as_str()) {
        Some(pattern) => pattern,
        None => {
            return Err(FilterError::InvalidExcept);
        },
    };
    let filtered_hosts = matching_hosts(&selected_network.hosts, &expr, false);
    if filtered_hosts.len() == 0 {
        return Err(FilterError::ExceptEmpty);
    }
    selected_network.hosts = filtered_hosts;
    Ok(())
}

/// Why the SSH client configuration could not be laid over a network.
#[derive(Debug, Clone, Copy, PartialEq, Eq, Structural)]
pub enum ConfigOverlayError {
    /// A line of the configuration cannot be read.
    Malformed { error: SshConfigError },
    /// The block for a host of the network names no identity file.
    MissingIdentityFile,
    /// The block for a host of the network names no user.
    MissingUser,
}

/// The block that counts for an address among the first `n` blocks: the
/// last one that lists the address among its patterns, letter for letter.
pub open spec fn block_for(blocks: Seq<SSHHostView>, host: Seq<char>, n: int) -> Option<SSHHostView>
    decreases n,
{
    if n <= 0 || n > blocks.len() {
        None
    } else if blocks[n - 1].host.contains(host) {
        Some(blocks[n - 1])
    } else {
        block_for(blocks, host, n - 1)
    }
}

/// The address with the port behind it, where the port is not 22.
pub open spec fn address_with_port(host: Seq<char>, port: u16) -> Seq<char> {
    if port == 22 {
        host
    } else {
        host + ":"@ + decimal(port as nat)
    }
}

/// What a network has after the configuration was laid over it: its
/// hosts, its user and its identity file; and whether a block counted for
/// one of the hosts, so that user and identity file are the block's.
pub struct Overlaid {
    pub hosts: Seq<HostView>,
    pub user: Seq<char>,
    pub id_file: Seq<char>,
    pub matched: bool,
}

/// A network after the flags were applied, and whether its identity file
/// was taken from the SSH client configuration.
pub struct Adjusted {
    pub network: NetworkView,
    pub identity_taken: bool,
}

/// The hosts from position `i` on with the configuration laid over them,
/// `user` and `id_file` being what the network has so far. A host for
/// which a block counts gets the block's port behind its address, and the
/// network takes user and identity file from the block. The first such
/// block without identity file, or else without user, ends the work.
pub open spec fn overlaid(
    blocks: Seq<SSHHostView>,
    hosts: Seq<HostView>,
    i: int,
    user: Seq<char>,
    id_file: Seq<char>,
) -> Result<Overlaid, ConfigOverlayError>
    decreases hosts.len() - i,
{
    if i < 0 || i >= hosts.len() {
        Ok(Overlaid { hosts: Seq::empty(), user, id_file, matched: false })
    } else {
        match block_for(blocks, hosts[i].host, blocks.len() as int) {
            None => match overlaid(blocks, hosts, i + 1, user, id_file) {
                Ok(rest) => Ok(Overlaid { hosts: seq![hosts[i]] + rest.hosts, ..rest }),
                Err(e) => Err(e),
            },
            Some(block) => match (block.identity_file, block.user) {
                (None, _) => Err(ConfigOverlayError::MissingIdentityFile),
                (Some(_), None) => Err(ConfigOverlayError::MissingUser),
                (Some(file), Some(name)) => match overlaid(blocks, hosts, i + 1, name, file) {
                    Ok(rest) => Ok(
                        Overlaid {
                            hosts: seq![
                                HostView {
                                    host: address_with_port(hosts[i].host, block.port),
                                    ..hosts[i]
                                },
                            ] + rest.hosts,
                            matched: true,
                            ..rest
                        },
                    ),
                    Err(e) => Err(e),
                },
            },
        }
    }
}

/// `found`, then what `rest` gives; `matched` says whether a block
/// counted for one of the hosts found.
pub open spec fn overlaid_then(
    found: Seq<HostView>,
    matched: bool,
    rest: Result<Overlaid, ConfigOverlayError>,
) -> Result<Overlaid, ConfigOverlayError> {
    match rest {
        Ok(more) => Ok(
            Overlaid { hosts: found + more.hosts, matched: matched || more.matched, ..more },
        ),
        Err(e) => Err(e),
    }
}

/// The network with the configuration laid over it.
pub open spec fn network_overlaid(network: NetworkView, blocks: Seq<SSHHostView>) -> Result<
    Adjusted,
    ConfigOverlayError,
> {
    match overlaid(blocks, network.hosts, 0, network.user, network.id_file) {
        Ok(o) => Ok(
            Adjusted {
                network: NetworkView {
                    hosts: o.hosts,
                    user: o.user,
                    id_file: o.id_file,
                    ..network
                },
                identity_taken: o.matched,
            },
        ),
        Err(e) => Err(e),
    }
}

/// The block that counts for an address: the last one that lists it.
pub fn find_block<'a>(blocks: &'a Vec<SSHHost>, host: &str) -> (r: Option<&'a SSHHost>)
    ensures
        r.deep_view() == block_for(blocks.deep_view(), host@, blocks.deep_view().len() as int),
{
    let mut n: usize = blocks.len();
    while n > 0
        invariant
            n <= blocks.len(),
            block_for(blocks.deep_view(), host@, n as int) == block_for(
                blocks.deep_view(),
                host@,
                blocks.deep_view().len() as int,
            ),
        decreases n,
    {
        assert(blocks.deep_view()[n - 1] == blocks@[n - 1]@);
        if contains_name(&blocks[n - 1].host, host) {
            return Some(&blocks[n - 1]);
        }
        n -= 1;
    }
    None
}

/// Lays the SSH client configuration over the network: for every host
/// whose address a block lists, the network takes user and identity file
/// from the block, and the host gets the block's port behind its address
/// where the port is not 22. The identity file is taken as the block
/// gives it; the result says whether one was taken.
///
/// Fails, and leaves the network as it was, on the first host whose block
/// names no identity file, or else no user.
pub fn process_sshconfig_flag(selected_network: &mut Network, hosts_from_config: &Vec<SSHHost>) -> (r:
    Result<bool, ConfigOverlayError>)
    ensures
        match network_overlaid(old(selected_network)@, hosts_from_config.deep_view()) {
            Ok(a) => r == Ok::<bool, ConfigOverlayError>(a.identity_taken)
                && final(selected_network)@ == a.network,
            Err(e) => r == Err::<bool, ConfigOverlayError>(e) && final(selected_network)@ == old(
                selected_network,
            )@,
        },
{
    let ghost blocks = hosts_from_config.deep_view();
    let ghost all = selected_network@.hosts;
    let ghost user0 = selected_network@.user;
    let ghost file0 = selected_network@.id_file;
    let mut hosts: Vec<Host> = Vec::new();
    let mut user: String = selected_network.user.clone();
    let mut id_file: String = selected_network.id_file.clone();
    let mut matched: bool = false;
    let mut i: usize = 0;
    proof {
        assert(hosts.deep_view() =~= Seq::<HostView>::empty());
        match overlaid(blocks, all, 0, user0, file0) {
            Ok(more) => {
                assert(hosts.deep_view() + more.hosts =~= more.hosts);
            },
            Err(_) => {},
        }
    }
    while i < selected_network.hosts.len()
        invariant
            i <= selected_network.hosts.len(),
            blocks == hosts_from_config.deep_view(),
            all == selected_network@.hosts,
            *selected_network == *old(selected_network),
            user0 == old(selected_network)@.user,
            file0 == old(selected_network)@.id_file,
            overlaid_then(
                hosts.deep_view(),
                matched,
                overlaid(blocks, all, i as int, user@, id_file@),
            ) == overlaid(blocks, all, 0, user0, file0),
        decreases selected_network.hosts.len() - i,
    {
        let ghost before = hosts.deep_view();
        assert(all[i as int] == selected_network.hosts@[i as int]@);
        let mut host = selected_network.hosts[i].clone();
        match find_block(hosts_from_config, host.host.as_str()) {
            None => {},
            Some(block) => {
                let file = match &block.identity_file {
                    Some(f) => f.clone(),
                    None => {
                        return Err(ConfigOverlayError::MissingIdentityFile);
                    },
                };
                let name = match &block.user {
                    Some(u) => u.clone(),
                    None => {
                        return Err(ConfigOverlayError::MissingUser);
                    },
                };
                user = name;
                id_file = file;
                matched = true;
                if block.port != 22 {
                    host.host.append(":");
                    push_decimal(&mut host.host, block.port);
                }
            },
        }
        hosts.push(host);
        proof {
            assert(hosts.deep_view() =~= before.push(host@));
            match overlaid(blocks, all, i + 1, user@, id_file@) {
                Ok(rest) => {
                    assert(before + (seq![host@] + rest.hosts) =~= before.push(host@) + rest.hosts);
                },
                Err(_) => {},
            }
        }
        i += 1;
    }
    proof {
        assert(hosts.deep_view() + Seq::<HostView>::empty() =~= hosts.deep_view());
    }
    selected_network.hosts = hosts;
    selected_network.user = user;
    selected_network.id_file = id_file;
    Ok(matched)
}

/// What went wrong while the flags were applied to a network.
#[derive(Debug, Clone, Copy, PartialEq, Eq, Structural)]
pub enum FlagError {
    Filter { filter: FilterError },
    Overlay { overlay: ConfigOverlayError },
}

/// The network after the `--only` stage: a stage whose flag is empty does
/// nothing.
pub open spec fn after_only(network: NetworkView, pattern: Seq<char>) -> Result<
    NetworkView,
    FlagError,
> {
    if pattern.len() == 0 {
        Ok(network)
    } else {
        match only_filtered(network.hosts, pattern) {
            Ok(hosts) => Ok(NetworkView { hosts, ..network }),
            Err(filter) => Err(FlagError::Filter { filter }),
        }
    }
}

/// The network after the `--except` stage.
pub open spec fn after_except(network: NetworkView, pattern: Seq<char>) -> Result<
    NetworkView,
    FlagError,
> {
    if pattern.len() == 0 {
        Ok(network)
    } else {
        match except_filtered(network.hosts, pattern) {
            Ok(hosts) => Ok(NetworkView { hosts, ..network }),
            Err(filter) => Err(FlagError::Filter { filter }),
        }
    }
}

/// The network after the `--sshconfig` stage, `config` being the text of
/// the file that the flag names.
pub open spec fn after_sshconfig(network: NetworkView, flag: Seq<char>, config: Seq<char>) -> Result<
    Adjusted,
    FlagError,
> {
    if flag.len() == 0 {
        Ok(Adjusted { network, identity_taken: false })
    } else {
        match config_blocks(config) {
            Err(at) => Err(
                FlagError::Overlay {
                    overlay: ConfigOverlayError::Malformed {
                        error: SshConfigError { fault: at.0, line: at.1 as usize },
                    },
                },
            ),
            Ok(blocks) => match network_overlaid(network, blocks) {
                Ok(n) => Ok(n),
                Err(overlay) => Err(FlagError::Overlay { overlay }),
            },
        }
    }
}

/// The network after the three stages, in their fixed order: `--only`,
/// then `--except`, then `--sshconfig`.
pub open spec fn flags_applied(network: NetworkView, init: InitStateView, config: Seq<char>) -> Result<
    Adjusted,
    FlagError,
> {
    match after_only(network, init.flags.onlyhosts) {
        Err(e) => Err(e),
        Ok(first) => match after_except(first, init.flags.excepthosts) {
            Err(e) => Err(e),
            Ok(second) => after_sshconfig(second, init.flags.sshconfig, config),
        },
    }
}

/// Applies the flags that narrow or adjust the hosts of a network, in
/// their fixed order: `--only`, `--except`, `--sshconfig`. A flag that is
/// empty does nothing. `sshconfig` is the text of the file that
/// `--sshconfig` names; it is not looked at where that flag is empty. The
/// result says whether the identity file of the network was taken from
/// that text.
///
/// Fails on the first stage that fails, and leaves the network as it was.
pub fn check_additional_flags(
    selected_network: &mut Network,
    init_data: &InitState,
    sshconfig: &str,
) -> (r: Result<bool, FlagError>)
    ensures
        match flags_applied(old(selected_network)@, init_data@, sshconfig@) {
            Ok(a) => r == Ok::<bool, FlagError>(a.identity_taken) && final(selected_network)@
                == a.network,
            Err(e) => r == Err::<bool, FlagError>(e) && final(selected_network)@ == old(
                selected_network,
            )@,
        },
{
    let mut network = selected_network.clone();
    let mut identity_taken: bool = false;
    if init_data.flags.onlyhosts.as_str().unicode_len() > 0 {
        match process_only_flags(&mut network, init_data) {
            Ok(_) => {},
            Err(filter) => {
                return Err(FlagError::Filter { filter });
            },
        }
    }
    if init_data.flags.excepthosts.as_str().unicode_len() > 0 {
        match process_exclude_flags(&mut network, init_data) {
            Ok(_) => {},
            Err(filter) => {
                return Err(FlagError::Filter { filter });
            },
        }
    }
    if init_data.flags.sshconfig.as_str().unicode_len() > 0 {
        let blocks = match parse(sshconfig) {
            Ok(b) => b,
            Err(error) => {
                return Err(
                    FlagError::Overlay { overlay: ConfigOverlayError::Malformed { error } },
                );
            },
        };
        match process_sshconfig_flag(&mut network, &blocks) {
            Ok(taken) => {
                identity_taken = taken;
            },
            Err(overlay) => {
                return Err(FlagError::Overlay { overlay });
            },
        }
    }
    *selected_network = network;
    Ok(identity_taken)
}

/// Every argument names a target.
pub open spec fn all_targets(targets: Seq<(Seq<char>, Seq<TargetView>)>, args: Seq<Seq<char>>) -> bool {
    forall|i: int| 0 <= i < args.len() ==> has_key(targets, #[trigger] args[i])
}

/// The mode of an invocation: the makefile mode where the manifest
/// declares no network; else the special target mode where every argument
/// names a target; else the normal mode.
pub open spec fn mode_of(init: InitStateView) -> Mode {
    if init.supfile.networks.names.len() == 0 {
        Mode::Makefile
    } else if all_targets(init.supfile.targets.targets, init.args) {
        Mode::SpecialTarget
    } else {
        Mode::Normal
    }
}

/// Whether every argument names a target.
pub fn all_args_are_targets(init_data: &InitState) -> (r: bool)
    ensures
        r == all_targets(init_data@.supfile.targets.targets, init_data@.args),
{
    let mut i: usize = 0;
    while i < init_data.args.len()
        invariant
            i <= init_data.args.len(),
            forall|j: int|
                0 <= j < i ==> has_key(
                    init_data@.supfile.targets.targets,
                    #[trigger] init_data@.args[j],
                ),
        decreases init_data.args.len() - i,
    {
        assert(init_data@.args[i as int] == init_data.args@[i as int]@);
        if !init_data.supfile.targets.has(init_data.args[i].as_str()) {
            return false;
        }
        i += 1;
    }
    true
}

/// The mode of the invocation.
pub fn select_mode(init_data: &InitState) -> (r: Mode)
    ensures
        r == mode_of(init_data@),
{
    if init_data.supfile.networks.is_empty() {
        Mode::Makefile
    } else if all_args_are_targets(init_data) {
        Mode::SpecialTarget
    } else {
        Mode::Normal
    }
}

/// What the planner is told of the world around it: what the process
/// environment says of the user, what the clock read, and the hosts that
/// the inventory script of the chosen network gave.
#[derive(Debug, PartialEq, Eq)]
pub struct Surroundings {
    pub process_env: ProcessEnv,
    pub clock: ClockReading,
    pub inventory: Vec<Host>,
}

/// The playbook of an invocation in its mode, `time` being the text of
/// the time that the clock read. The normal mode and the special target
/// mode want a time; the makefile mode reads none.
pub open spec fn plan(
    init: InitStateView,
    inventory: Seq<HostView>,
    time: Option<Seq<char>>,
    user: Option<Seq<char>>,
) -> Result<AssemblyView, PlanFailure> {
    if init.args.len() == 0 {
        Err(PlanFailure::NoArguments)
    } else if mode_of(init) == Mode::Makefile {
        makefile_plan(init)
    } else {
        match time {
            None => Err(PlanFailure::NoTime),
            Some(t) => if mode_of(init) == Mode::SpecialTarget {
                match special_plan(init, t, user) {
                    Ok(playbook) => Ok(
                        AssemblyView {
                            playbook,
                            unknown: Seq::empty(),
                            mode: Mode::SpecialTarget,
                        },
                    ),
                    Err(e) => Err(e),
                }
            } else {
                normal_plan(init, inventory, t, user)
            },
        }
    }
}

/// A result of planning as plain values.
pub open spec fn assembly_view(r: Result<Assembly, PlanError>) -> Result<AssemblyView, PlanFailure> {
    match r {
        Ok(a) => Ok(a@),
        Err(e) => Err(e@),
    }
}

/// The invocation once it is planned: in the makefile mode the manifest
/// has a network called `localhost`.
pub open spec fn state_after(init: InitStateView) -> InitStateView {
    if init.args.len() > 0 && mode_of(init) == Mode::Makefile {
        InitStateView {
            supfile: SupfileView {
                networks: with_localhost(init.supfile.networks),
                ..init.supfile
            },
            ..init
        }
    } else {
        init
    }
}

/// The help once the invocation is planned: only the makefile mode
/// changes it.
pub open spec fn help_planned(
    help: HelpDisplayer,
    init: InitStateView,
    result: Result<AssemblyView, PlanFailure>,
) -> HelpDisplayer {
    match result {
        Ok(a) => if mode_of(init) == Mode::Makefile {
            help_after(help, a.unknown)
        } else {
            help
        },
        Err(_) => help,
    }
}

/// Plans the invocation in its mode, with the time that the clock read
/// as the time of the resolution.
///
/// Fails where no argument is given; where the mode wants a time and the
/// clock's reading cannot be written as a date; and where the mode's
/// planning fails.
pub fn parse_initial_args(
    init_data: &mut InitState,
    help_menu: &mut HelpDisplayer,
    surroundings: Surroundings,
) -> (r: Result<Assembly, PlanError>)
    ensures
        assembly_view(r) == plan(
            old(init_data)@,
            surroundings.inventory.deep_view(),
            clock_text(surroundings.clock),
            acting_user(
                surroundings.process_env.sup_user.deep_view(),
                surroundings.process_env.user.deep_view(),
            ),
        ),
        final(init_data)@ == state_after(old(init_data)@),
        *final(help_menu) == help_planned(*old(help_menu), old(init_data)@, assembly_view(r)),
{
    if init_data.args.len() == 0 {
        return Err(PlanError::NoArguments);
    }
    let mode = select_mode(init_data);
    match mode {
        Mode::Makefile => {
            return makefile_mode(init_data, help_menu);
        },
        _ => {},
    }
    let time = match timestamp(&surroundings.clock) {
        Some(time) => time,
        None => {
            return Err(PlanError::NoTime);
        },
    };
    match mode {
        Mode::SpecialTarget => {
            match special_target_mode(init_data, time.as_str(), &surroundings.process_env) {
                Ok(playbook) => {
                    let unknown: Vec<String> = Vec::new();
                    assert(unknown.deep_view() =~= Seq::<Seq<char>>::empty());
                    Ok(Assembly { playbook, unknown, mode: Mode::SpecialTarget })
                },
                Err(e) => Err(e),
            }
        },
        _ => normal_mode(
            init_data,
            surroundings.inventory,
            time.as_str(),
            &surroundings.process_env,
        ),
    }
}

/// The network of a play once the flags were applied in the play's mode:
/// the special target mode applies none of them.
pub open spec fn flags_applied_in(
    mode: Mode,
    network: NetworkView,
    init: InitStateView,
    config: Seq<char>,
) -> Result<Adjusted, FlagError> {
    if mode == Mode::SpecialTarget {
        Ok(Adjusted { network, identity_taken: false })
    } else {
        flags_applied(network, init, config)
    }
}

/// Applies the flags to the network of a play that was planned in
/// `mode`. The normal mode and the makefile mode apply them as
/// `check_additional_flags` does; the special target mode leaves the
/// network as it is.
pub fn check_flags_in_mode(
    mode: Mode,
    selected_network: &mut Network,
    init_data: &InitState,
    sshconfig: &str,
) -> (r: Result<bool, FlagError>)
    ensures
        match flags_applied_in(mode, old(selected_network)@, init_data@, sshconfig@) {
            Ok(a) => r == Ok::<bool, FlagError>(a.identity_taken) && final(selected_network)@
                == a.network,
            Err(e) => r == Err::<bool, FlagError>(e) && final(selected_network)@ == old(
                selected_network,
            )@,
        },
{
    match mode {
        Mode::SpecialTarget => Ok(false),
        _ => check_additional_flags(selected_network, init_data, sshconfig),
    }
}

/// The file whose text the flags of a play in `mode` are applied with:
/// the one that `--sshconfig` names, resolved against the current and the
/// home directory. The special target mode reads none.
pub open spec fn wanted_sshconfig(
    mode: Mode,
    init: InitStateView,
    curr_dir: Seq<char>,
    home_dir: Seq<char>,
) -> Option<Seq<char>> {
    if mode != Mode::SpecialTarget && init.flags.sshconfig.len() > 0 {
        Some(resolved_path(init.flags.sshconfig, curr_dir, home_dir))
    } else {
        None
    }
}

/// The path of the SSH client configuration to read for a play that was
/// planned in `mode`, if one is to be read.
pub fn sshconfig_path(mode: Mode, init_data: &InitState, curr_dir: &str, home_dir: &str) -> (r:
    Option<String>)
    ensures
        r.deep_view() == wanted_sshconfig(mode, init_data@, curr_dir@, home_dir@),
{
    match mode {
        Mode::SpecialTarget => None,
        _ => if init_data.flags.sshconfig.as_str().unicode_len() > 0 {
            Some(resolve_path(init_data.flags.sshconfig.as_str(), curr_dir, home_dir))
        } else {
            None
        },
    }
}

/// The network whose inventory script runs before the planning: in the
/// normal mode the network that the first argument names, with the
/// variables of the command line, where it declares a script.
pub open spec fn inventory_network(init: InitStateView) -> Option<NetworkView> {
    if init.args.len() > 0 && mode_of(init) == Mode::Normal {
        match normal_network(init) {
            Ok(n) => if n.inventory.len() > 0 {
                Some(n)
            } else {
                None
            },
            Err(_) => None,
        }
    } else {
        None
    }
}

/// The network whose inventory script is to be run before the planning,
/// if there is one: the script is its `inventory`, and its variables go
/// into the script's environment.
pub fn inventory_request(init_data: &InitState) -> (r: Option<Network>)
    ensures
        r.deep_view() == inventory_network(init_data@),
{
    if init_data.args.len() == 0 {
        return None;
    }
    match select_mode(init_data) {
        Mode::Normal => match normal_mode_network(init_data) {
            Ok(n) => if inventory_script(&n).is_some() {
                Some(n)
            } else {
                None
            },
            Err(_) => None,
        },
        _ => None,
    }
}

} // verus!

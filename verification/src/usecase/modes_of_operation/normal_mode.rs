//! Planning for one network named on the command line.
use crate::entity::keyed::put_all;
use crate::entity::playbook::{Play, PlayBook, PlayBookView, PlayView};
use crate::entity::supfile::networks::{Host, HostView, Network, NetworkView};
use crate::entity::{assigned, InitState, InitStateView};
use crate::usecase::{
    acting_user, declared_network, default_envs_at, find_network, gather_commands, gathered,
    network_with_defaults, override_env_from_args, Assembly, AssemblyView, Mode, PlanError,
    PlanFailure, ProcessEnv,
};
use vstd::prelude::*;
use vstd::string::*;

verus! {

/// The network that the first argument names, with the variables given on
/// the command line overriding its own.
pub open spec fn normal_network(init: InitStateView) -> Result<NetworkView, PlanFailure> {
    if init.args.len() == 0 {
        Err(PlanFailure::NoArguments)
    } else {
        match declared_network(init.supfile.networks, init.args[0]) {
            None => Err(PlanFailure::UnknownNetwork { name: init.args[0] }),
            Some(n) => Ok(
                NetworkView {
                    env: put_all(n.env, assigned(Seq::empty(), init.flags.env, 0), 0),
                    ..n
                },
            ),
        }
    }
}

/// The playbook of the normal mode: one play on the network that the
/// first argument names. The hosts of the inventory follow the network's
/// own; the variables given on the command line override the network's,
/// and the variables that every network gets override both. Every further
/// argument stands for a command or, where no command has that name, for
/// the commands of a target.
pub open spec fn normal_plan(
    init: InitStateView,
    inventory: Seq<HostView>,
    time: Seq<char>,
    user: Option<Seq<char>>,
) -> Result<AssemblyView, PlanFailure> {
    match normal_network(init) {
        Err(e) => Err(e),
        Ok(n) => match user {
            None => Err(PlanFailure::NoUser),
            Some(u) => match gathered(
                init.supfile.commands,
                init.supfile.targets.targets,
                false,
                init.args,
                1,
            ) {
                Err(e) => Err(e),
                Ok(g) => Ok(
                    AssemblyView {
                        playbook: PlayBookView {
                            plays: seq![
                                PlayView {
                                    network: network_with_defaults(
                                        NetworkView { hosts: n.hosts + inventory, ..n },
                                        time,
                                        u,
                                    ),
                                    commands: g.commands,
                                },
                            ],
                            is_makefile: false,
                        },
                        unknown: g.unknown,
                        mode: Mode::Normal,
                    },
                ),
            },
        },
    }
}

/// A copy of the network that the first argument names, with the
/// variables given on the command line overriding its own: the network in
/// whose environment the inventory script runs.
///
/// Fails where no argument is given or the manifest does not declare the
/// network.
pub fn normal_mode_network(init_data: &InitState) -> (r: Result<Network, PlanError>)
    ensures
        match r {
            Ok(n) => normal_network(init_data@) == Ok::<NetworkView, PlanFailure>(n@),
            Err(e) => normal_network(init_data@) == Err::<NetworkView, PlanFailure>(e@),
        },
{
    if init_data.args.len() == 0 {
        return Err(PlanError::NoArguments);
    }
    assert(init_data@.args[0] == init_data.args@[0]@);
    let mut network = match find_network(&init_data.supfile.networks, init_data.args[0].as_str()) {
        Ok(n) => n,
        Err(e) => {
            return Err(e);
        },
    };
    let env_from_args = init_data.flags.parse_env();
    override_env_from_args(&env_from_args, &mut network);
    Ok(network)
}

/// Plans in the normal mode, `inventory` being the hosts that the
/// inventory script gave, `time` the time of the resolution and
/// `process_env` what the environment says of the user.
///
/// Fails where no argument is given, where the manifest does not declare
/// the network, where no user is known, and on the first target step
/// whose command the manifest does not declare, in this order.
pub fn normal_mode(
    init_data: &InitState,
    inventory: Vec<Host>,
    time: &str,
    process_env: &ProcessEnv,
) -> (r: Result<Assembly, PlanError>)
    ensures
        match r {
            Ok(a) => normal_plan(
                init_data@,
                inventory.deep_view(),
                time@,
                acting_user(process_env.sup_user.deep_view(), process_env.user.deep_view()),
            ) == Ok::<AssemblyView, PlanFailure>(a@),
            Err(e) => normal_plan(
                init_data@,
                inventory.deep_view(),
                time@,
                acting_user(process_env.sup_user.deep_view(), process_env.user.deep_view()),
            ) == Err::<AssemblyView, PlanFailure>(e@),
        },
{
    let mut network = match normal_mode_network(init_data) {
        Ok(n) => n,
        Err(e) => {
            return Err(e);
        },
    };
    let ghost own = network@.hosts;
    let mut found = inventory;
    network.hosts.append(&mut found);
    assert(network@.hosts =~= own + inventory.deep_view());
    let user = match process_env.acting_user() {
        Some(u) => u,
        None => {
            return Err(PlanError::NoUser);
        },
    };
    default_envs_at(&mut network, time, user.as_str());
    let gathering = match gather_commands(&init_data.supfile, false, &init_data.args, 1) {
        Ok(g) => g,
        Err(e) => {
            return Err(e);
        },
    };
    let play = Play { network, commands: gathering.0 };
    let mut playbook = PlayBook::new();
    playbook.add_play(play);
    assert(playbook@.plays =~= seq![play@]);
    Ok(Assembly { playbook, unknown: gathering.1, mode: Mode::Normal })
}

} // verus!

//! Planning for a manifest without networks: everything runs on the
//! machine itself.
use crate::entity::help_displayer::HelpDisplayer;
use crate::entity::keyed::{lemma_put_value_of, value_of};
use crate::entity::playbook::{Play, PlayBook, PlayBookView, PlayView};
use crate::entity::supfile::networks::{Network, NetworkView, NetworksView};
use crate::entity::supfile::SupfileView;
use crate::entity::{InitState, InitStateView};
use crate::usecase::{
    ensure_localhost, gather_commands, gathered, lemma_unknown_argument, localhost_network,
    with_localhost, Assembly, AssemblyView, Mode, PlanError, PlanFailure,
};
use vstd::prelude::*;
use vstd::string::*;

verus! {

/// The network on which the makefile mode runs: the one called
/// `localhost`, or the network that stands for the machine itself where
/// the manifest has none of that name.
pub open spec fn local_network(networks: NetworksView) -> NetworkView {
    match value_of(networks.nets, "localhost"@) {
        Some(n) => n,
        None => localhost_network(),
    }
}

/// The playbook of the makefile mode: one play on the local network.
/// Every argument stands for the command of that name, followed by the
/// commands of the target of that name.
pub open spec fn makefile_plan(init: InitStateView) -> Result<AssemblyView, PlanFailure> {
    match gathered(init.supfile.commands, init.supfile.targets.targets, true, init.args, 0) {
        Err(e) => Err(e),
        Ok(g) => Ok(
            AssemblyView {
                playbook: PlayBookView {
                    plays: seq![
                        PlayView {
                            network: local_network(init.supfile.networks),
                            commands: g.commands,
                        },
                    ],
                    is_makefile: true,
                },
                unknown: g.unknown,
                mode: Mode::Makefile,
            },
        ),
    }
}

/// The help once the arguments in `unknown` named nothing: it shows the
/// commands and the networks if there is such an argument.
pub open spec fn help_after(help: HelpDisplayer, unknown: Seq<Seq<char>>) -> HelpDisplayer {
    if unknown.len() > 0 {
        HelpDisplayer { show_cmd: true, show_networks: true, ..help }
    } else {
        help
    }
}

/// In the makefile mode an argument that names neither a command nor a
/// target does not end the planning: the playbook is the one planned
/// without it, a failure is the one met without it, and the argument is
/// among those for which the help is shown.
pub proof fn lemma_makefile_passes_over_unknown(init: InitStateView, k: int)
    requires
        0 <= k < init.args.len(),
        value_of(init.supfile.commands, init.args[k]) is None,
        value_of(init.supfile.targets.targets, init.args[k]) is None,
    ensures
        match makefile_plan(InitStateView { args: init.args.remove(k), ..init }) {
            Err(e) => makefile_plan(init) == Err::<AssemblyView, PlanFailure>(e),
            Ok(a) => makefile_plan(init) is Ok && makefile_plan(init)->Ok_0.playbook == a.playbook
                && makefile_plan(init)->Ok_0.unknown.len() == a.unknown.len() + 1
                && makefile_plan(init)->Ok_0.unknown.contains(init.args[k]),
        },
{
    lemma_unknown_argument(
        init.supfile.commands,
        init.supfile.targets.targets,
        true,
        init.args,
        k,
        0,
    );
}

/// Plans in the makefile mode. The manifest gets a network called
/// `localhost` if it has none. An argument that names nothing does not end
/// the planning: it is recorded, and the help is set to show commands and
/// networks.
///
/// Fails on the first target step whose command the manifest does not
/// declare; the help is then left as it was.
pub fn makefile_mode(init_data: &mut InitState, help_menu: &mut HelpDisplayer) -> (r: Result<
    Assembly,
    PlanError,
>)
    ensures
        final(init_data)@ == (InitStateView {
            supfile: SupfileView {
                networks: with_localhost(old(init_data)@.supfile.networks),
                ..old(init_data)@.supfile
            },
            ..old(init_data)@
        }),
        match r {
            Ok(a) => makefile_plan(old(init_data)@) == Ok::<AssemblyView, PlanFailure>(a@)
                && *final(help_menu) == help_after(*old(help_menu), a@.unknown),
            Err(e) => makefile_plan(old(init_data)@) == Err::<AssemblyView, PlanFailure>(e@)
                && *final(help_menu) == *old(help_menu),
        },
{
    proof {
        lemma_put_value_of(
            old(init_data)@.supfile.networks.nets,
            "localhost"@,
            localhost_network(),
            "localhost"@,
        );
    }
    ensure_localhost(init_data);
    let network: Network = match init_data.supfile.networks.get("localhost") {
        Some(n) => n.clone(),
        None => Network::default(),
    };
    assert(network@ == local_network(old(init_data)@.supfile.networks));
    let gathering = match gather_commands(&init_data.supfile, true, &init_data.args, 0) {
        Ok(g) => g,
        Err(e) => {
            return Err(e);
        },
    };
    if gathering.1.len() > 0 {
        help_menu.show_cmd = true;
        help_menu.show_networks = true;
    }
    let play = Play { network, commands: gathering.0 };
    let mut playbook = PlayBook::new();
    playbook.mark_as_makefile_mode();
    playbook.add_play(play);
    assert(playbook@.plays =~= seq![play@]);
    Ok(Assembly { playbook, unknown: gathering.1, mode: Mode::Makefile })
}

} // verus!

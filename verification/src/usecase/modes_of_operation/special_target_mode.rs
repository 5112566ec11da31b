//! Planning where every argument names a target: each step of each
//! target becomes a play of its own.
use crate::entity::keyed::value_of;
use crate::entity::playbook::{Play, PlayBook, PlayBookView, PlayView};
use crate::entity::supfile::commands::Command;
use crate::entity::supfile::targets::{Target, TargetView};
use crate::entity::supfile::SupfileView;
use crate::entity::{InitState, InitStateView};
use crate::usecase::{
    acting_user, declared_network, default_envs_at, find_network, network_with_defaults,
    PlanError, PlanFailure, ProcessEnv,
};
use vstd::prelude::*;
use vstd::string::*;

verus! {

/// The play of one step: the step's command alone, on the step's network
/// with the variables that every network gets.
pub open spec fn step_play(
    supfile: SupfileView,
    step: TargetView,
    time: Seq<char>,
    user: Option<Seq<char>>,
) -> Result<PlayView, PlanFailure> {
    match declared_network(supfile.networks, step.affixed_network) {
        None => Err(PlanFailure::UnknownNetwork { name: step.affixed_network }),
        Some(n) => match user {
            None => Err(PlanFailure::NoUser),
            Some(u) => match value_of(supfile.commands, step.command) {
                None => Err(PlanFailure::UnknownCommand { name: step.command }),
                Some(c) => Ok(
                    PlayView { network: network_with_defaults(n, time, u), commands: seq![c] },
                ),
            },
        },
    }
}

/// The plays of the steps from position `i` on, one per step, in order.
pub open spec fn step_plays(
    supfile: SupfileView,
    steps: Seq<TargetView>,
    i: int,
    time: Seq<char>,
    user: Option<Seq<char>>,
) -> Result<Seq<PlayView>, PlanFailure>
    decreases steps.len() - i,
{
    if i < 0 || i >= steps.len() {
        Ok(Seq::empty())
    } else {
        match step_play(supfile, steps[i], time, user) {
            Err(e) => Err(e),
            Ok(p) => match step_plays(supfile, steps, i + 1, time, user) {
                Ok(rest) => Ok(seq![p] + rest),
                Err(e) => Err(e),
            },
        }
    }
}

/// The plays of the targets that the arguments from position `i` on name,
/// in order.
pub open spec fn target_plays(
    supfile: SupfileView,
    args: Seq<Seq<char>>,
    i: int,
    time: Seq<char>,
    user: Option<Seq<char>>,
) -> Result<Seq<PlayView>, PlanFailure>
    decreases args.len() - i,
{
    if i < 0 || i >= args.len() {
        Ok(Seq::empty())
    } else {
        match value_of(supfile.targets.targets, args[i]) {
            None => Err(PlanFailure::UnknownTarget { name: args[i] }),
            Some(steps) => match step_plays(supfile, steps, 0, time, user) {
                Err(e) => Err(e),
                Ok(plays) => match target_plays(supfile, args, i + 1, time, user) {
                    Ok(rest) => Ok(plays + rest),
                    Err(e) => Err(e),
                },
            },
        }
    }
}

/// The playbook of the special target mode: one play for each step of
/// each target named, in the order of the arguments and of the steps.
pub open spec fn special_plan(init: InitStateView, time: Seq<char>, user: Option<Seq<char>>) -> Result<
    PlayBookView,
    PlanFailure,
> {
    match target_plays(init.supfile, init.args, 0, time, user) {
        Ok(plays) => Ok(PlayBookView { plays, is_makefile: false }),
        Err(e) => Err(e),
    }
}

/// `found`, then what `rest` gives.
pub open spec fn plays_then(found: Seq<PlayView>, rest: Result<Seq<PlayView>, PlanFailure>) -> Result<
    Seq<PlayView>,
    PlanFailure,
> {
    match rest {
        Ok(more) => Ok(found + more),
        Err(e) => Err(e),
    }
}

/// The steps of a target give as many plays as there are steps, and each
/// play has exactly one command: that of its step.
pub proof fn lemma_step_plays(
    supfile: SupfileView,
    steps: Seq<TargetView>,
    i: int,
    time: Seq<char>,
    user: Option<Seq<char>>,
)
    requires
        0 <= i <= steps.len(),
        step_plays(supfile, steps, i, time, user) is Ok,
    ensures
        step_plays(supfile, steps, i, time, user)->Ok_0.len() == steps.len() - i,
        forall|k: int|
            0 <= k < steps.len() - i ==> (#[trigger] step_plays(
                supfile,
                steps,
                i,
                time,
                user,
            )->Ok_0[k]).commands.len() == 1,
    decreases steps.len() - i,
{
    if i < steps.len() {
        lemma_step_plays(supfile, steps, i + 1, time, user);
    }
}

/// A target named alone gives one play for each of its steps, each with
/// exactly one command.
pub proof fn lemma_one_play_per_step(
    init: InitStateView,
    steps: Seq<TargetView>,
    time: Seq<char>,
    user: Option<Seq<char>>,
)
    requires
        init.args.len() == 1,
        value_of(init.supfile.targets.targets, init.args[0]) == Some(steps),
        special_plan(init, time, user) is Ok,
    ensures
        special_plan(init, time, user)->Ok_0.plays.len() == steps.len(),
        forall|k: int|
            0 <= k < steps.len() ==> (#[trigger] special_plan(
                init,
                time,
                user,
            )->Ok_0.plays[k]).commands.len() == 1,
{
    assert(target_plays(init.supfile, init.args, 1, time, user) == Ok::<
        Seq<PlayView>,
        PlanFailure,
    >(Seq::empty()));
    lemma_step_plays(init.supfile, steps, 0, time, user);
    let plays = step_plays(init.supfile, steps, 0, time, user)->Ok_0;
    assert(plays + Seq::<PlayView>::empty() =~= plays);
}

fn plays_of_steps(
    init_state: &InitState,
    steps: &Vec<Target>,
    time: &str,
    process_env: &ProcessEnv,
    out: &mut Vec<Play>,
) -> (r: Result<(), PlanError>)
    ensures
        match step_plays(
            init_state@.supfile,
            steps.deep_view(),
            0,
            time@,
            acting_user(process_env.sup_user.deep_view(), process_env.user.deep_view()),
        ) {
            Ok(plays) => r is Ok && final(out).deep_view() == old(out).deep_view() + plays,
            Err(e) => r is Err && r->Err_0@ == e,
        },
{
    let ghost sup = init_state@.supfile;
    let ghost all = steps.deep_view();
    let ghost user = acting_user(process_env.sup_user.deep_view(), process_env.user.deep_view());
    let ghost start = out.deep_view();
    let mut i: usize = 0;
    proof {
        match step_plays(sup, all, 0, time@, user) {
            Ok(more) => {
                assert(Seq::<PlayView>::empty() + more =~= more);
            },
            Err(_) => {},
        }
    }
    let ghost mut done: Seq<PlayView> = Seq::empty();
    assert(out.deep_view() =~= start + done);
    while i < steps.len()
        invariant
            i <= steps.len(),
            sup == init_state@.supfile,
            all == steps.deep_view(),
            user == acting_user(process_env.sup_user.deep_view(), process_env.user.deep_view()),
            out.deep_view() == start + done,
            plays_then(done, step_plays(sup, all, i as int, time@, user)) == step_plays(
                sup,
                all,
                0,
                time@,
                user,
            ),
        decreases steps.len() - i,
    {
        assert(all[i as int] == steps@[i as int]@);
        let mut network = match find_network(
            &init_state.supfile.networks,
            steps[i].affixed_network.as_str(),
        ) {
            Ok(n) => n,
            Err(e) => {
                return Err(e);
            },
        };
        let acting = match process_env.acting_user() {
            Some(u) => u,
            None => {
                return Err(PlanError::NoUser);
            },
        };
        default_envs_at(&mut network, time, acting.as_str());
        let command: Command = match init_state.supfile.get_command(steps[i].command.as_str()) {
            Some(c) => c.clone(),
            None => {
                return Err(PlanError::UnknownCommand { name: steps[i].command.clone() });
            },
        };
        let mut play = Play::new();
        play.add_command(command);
        play.add_net(network);
        assert(play@.commands =~= seq![command@]);
        let ghost before = out.deep_view();
        out.push(play);
        proof {
            assert(out.deep_view() =~= before.push(play@));
            match step_plays(sup, all, i + 1, time@, user) {
                Ok(rest) => {
                    assert(done + (seq![play@] + rest) =~= done.push(play@) + rest);
                },
                Err(_) => {},
            }
            done = done.push(play@);
            assert(out.deep_view() =~= start + done);
        }
        i += 1;
    }
    proof {
        assert(done + Seq::<PlayView>::empty() =~= done);
    }
    Ok(())
}

/// Plans in the special target mode, `time` being the time of the
/// resolution and `process_env` what the environment says of the user.
///
/// Fails on the first argument that names no target, and on the first
/// step whose network the manifest does not declare, for which no user is
/// known, or whose command the manifest does not declare, in this order.
pub fn special_target_mode(init_state: &InitState, time: &str, process_env: &ProcessEnv) -> (r: Result<
    PlayBook,
    PlanError,
>)
    ensures
        match r {
            Ok(p) => special_plan(
                init_state@,
                time@,
                acting_user(process_env.sup_user.deep_view(), process_env.user.deep_view()),
            ) == Ok::<PlayBookView, PlanFailure>(p@),
            Err(e) => special_plan(
                init_state@,
                time@,
                acting_user(process_env.sup_user.deep_view(), process_env.user.deep_view()),
            ) == Err::<PlayBookView, PlanFailure>(e@),
        },
{
    let ghost sup = init_state@.supfile;
    let ghost all = init_state@.args;
    let ghost user = acting_user(process_env.sup_user.deep_view(), process_env.user.deep_view());
    let mut plays: Vec<Play> = Vec::new();
    let mut i: usize = 0;
    proof {
        assert(plays.deep_view() =~= Seq::<PlayView>::empty());
        match target_plays(sup, all, 0, time@, user) {
            Ok(more) => {
                assert(plays.deep_view() + more =~= more);
            },
            Err(_) => {},
        }
    }
    while i < init_state.args.len()
        invariant
            i <= init_state.args.len(),
            sup == init_state@.supfile,
            all == init_state@.args,
            user == acting_user(process_env.sup_user.deep_view(), process_env.user.deep_view()),
            plays_then(plays.deep_view(), target_plays(sup, all, i as int, time@, user))
                == target_plays(sup, all, 0, time@, user),
        decreases init_state.args.len() - i,
    {
        assert(all[i as int] == init_state.args@[i as int]@);
        let ghost before = plays.deep_view();
        match init_state.supfile.targets.targets.get(init_state.args[i].as_str()) {
            None => {
                return Err(PlanError::UnknownTarget { name: init_state.args[i].clone() });
            },
            Some(steps) => {
                match plays_of_steps(init_state, steps, time, process_env, &mut plays) {
                    Ok(_) => {
                        proof {
                            let found = step_plays(sup, steps.deep_view(), 0, time@, user)->Ok_0;
                            match target_plays(sup, all, i + 1, time@, user) {
                                Ok(rest) => {
                                    assert(before + (found + rest) =~= (before + found) + rest);
                                },
                                Err(_) => {},
                            }
                        }
                    },
                    Err(e) => {
                        return Err(e);
                    },
                }
            },
        }
        i += 1;
    }
    proof {
        assert(plays.deep_view() + Seq::<PlayView>::empty() =~= plays.deep_view());
    }
    Ok(PlayBook { plays, is_makefile: false })
}

} // verus!

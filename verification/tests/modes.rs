use ssup::entity::env::EnvList;
use ssup::entity::help_displayer::HelpDisplayer;
use ssup::entity::keyed::NameMap;
use ssup::entity::playbook::{Play, PlayBook};
use ssup::entity::supfile::commands::{Command, CommandOptionalMode};
use ssup::entity::supfile::networks::{Host, Network, Networks};
use ssup::entity::supfile::targets::{Target, Targets};
use ssup::entity::supfile::Supfile;
use ssup::entity::{CommandLineArgs, InitState};
use ssup::gateways::clock::{timestamp, ClockReading};
use ssup::usecase::modes_of_operation::makefile_mode::makefile_mode;
use ssup::usecase::modes_of_operation::normal_mode::{normal_mode, normal_mode_network};
use ssup::usecase::modes_of_operation::special_target_mode::special_target_mode;
use ssup::usecase::program_init::{
    all_args_are_targets, parse_initial_args, select_mode, Surroundings,
};
use ssup::usecase::{
    Mode, add_ssup_default_envs, contains_name, default_envs_at, ensure_localhost,
    ensure_network_exists, expand_steps, find_network, gather_commands, override_env_from_args,
    resolve_argument, PlanError, ProcessEnv,
};

fn command(name: &str) -> Command {
    let mut c = Command::from_optional(&CommandOptionalMode {
        desc: None,
        run: Some(format!("echo {}", name)),
        upload: None,
        fetch: None,
        env: None,
        local: None,
        script: None,
        stdin: None,
        name: None,
    });
    c.name = name.to_string();
    c
}

fn step(command: &str, network: &str) -> Target {
    Target { command: command.to_string(), affixed_network: network.to_string() }
}

fn net(name: &str, hosts: &[&str], env: &[(&str, &str)]) -> Network {
    let mut n = Network::default();
    n.name = name.to_string();
    n.hosts = hosts.iter().map(|h| Host::new(h.to_string())).collect();
    for (k, v) in env {
        n.env.set(k.to_string(), v.to_string());
    }
    n
}

fn state(networks: &[Network], args: &[&str], env: &[&str]) -> InitState {
    let mut commands = NameMap::new();
    for name in ["build", "test", "deploy", "all"] {
        commands.insert(name.to_string(), command(name));
    }
    let mut targets = Targets::new();
    targets.add_target("all".to_string(), vec![step("test", "staging"), step("deploy", "prod")]);
    targets.add_target("rollout".to_string(), vec![step("build", "staging"), step("deploy", "prod")]);
    targets.add_target("broken".to_string(), vec![step("build", "prod"), step("nope", "prod")]);
    targets.add_target("astray".to_string(), vec![step("build", "moon")]);
    targets.add_target("idle".to_string(), Vec::new());
    let mut nets = Networks { names: Vec::new(), nets: NameMap::new() };
    for n in networks {
        nets.add_network(n.name.clone(), n.clone());
    }
    InitState {
        args: args.iter().map(|a| a.to_string()).collect(),
        flags: CommandLineArgs {
            file: String::new(),
            env: env.iter().map(|e| e.to_string()).collect(),
            debug: false,
            sshconfig: String::new(),
            disablecolor: false,
            disableprefix: false,
            excepthosts: String::new(),
            onlyhosts: String::new(),
            extra_args: Vec::new(),
        },
        supfile: Supfile {
            desc: String::new(),
            version: "0.5".to_string(),
            networks: nets,
            env: EnvList::new(),
            commands,
            targets,
        },
        make_mode: false,
    }
}

fn two_networks() -> Vec<Network> {
    vec![
        net("staging", &["10.0.0.1"], &[("STAGE", "staging")]),
        net("prod", &["10.1.0.1", "10.1.0.2"], &[("A", "1"), ("SUP_USER", "nobody")]),
    ]
}

fn at(seconds: u64, nanoseconds: u32) -> ClockReading {
    ClockReading { before_epoch: false, seconds, nanoseconds }
}

fn user(name: &str) -> ProcessEnv {
    ProcessEnv { sup_user: None, user: Some(name.to_string()) }
}

fn names(commands: &[Command]) -> Vec<&str> {
    commands.iter().map(|c| c.name.as_str()).collect()
}

fn help() -> HelpDisplayer {
    HelpDisplayer {
        show_networks: false,
        show_targets: false,
        show_cmd: false,
        show_make_mode: false,
        color: false,
    }
}

#[test]
fn normal_mode_builds_one_play_on_the_named_network() {
    let st = state(&two_networks(), &["prod", "build", "rollout", "nope", "test"], &["A=2", "B=3"]);
    let inventory = vec![Host::new("10.1.0.9".to_string()), Host::new("10.1.0.1".to_string())];
    let a = normal_mode(&st, inventory, "2024-05-01T10:00:00+00:00", &user("alice")).unwrap();
    assert!(!a.playbook.is_makefile);
    assert_eq!(a.playbook.plays.len(), 1);
    let play = &a.playbook.plays[0];
    assert_eq!(names(&play.commands), vec!["build", "build", "deploy", "test"]);
    assert_eq!(a.unknown, vec!["nope"]);
    assert_eq!(play.network.name, "prod");
    assert_eq!(
        play.network.hosts.iter().map(|h| h.host.as_str()).collect::<Vec<_>>(),
        vec!["10.1.0.1", "10.1.0.2", "10.1.0.9", "10.1.0.1"]
    );
    assert_eq!(
        play.network.env.to_string_vec(),
        vec![
            "A=2",
            "SUP_USER=alice",
            "B=3",
            "SUP_NETWORK=prod",
            "SUP_TIME=2024-05-01T10:00:00+00:00"
        ]
    );
}

#[test]
fn normal_mode_prefers_the_command_to_the_target() {
    let st = state(&two_networks(), &["prod", "all"], &[]);
    let a = normal_mode(&st, Vec::new(), "t", &user("u")).unwrap();
    assert_eq!(names(&a.playbook.plays[0].commands), vec!["all"]);
    assert!(a.unknown.is_empty());
}

#[test]
fn normal_mode_with_the_network_alone() {
    let st = state(&two_networks(), &["staging"], &[]);
    let a = normal_mode(&st, Vec::new(), "t", &user("u")).unwrap();
    assert_eq!(a.playbook.plays.len(), 1);
    assert!(a.playbook.plays[0].commands.is_empty());
    assert!(a.unknown.is_empty());
}

#[test]
fn normal_mode_failures() {
    let st = state(&two_networks(), &["moon", "build"], &[]);
    let e = normal_mode(&st, Vec::new(), "t", &user("u")).unwrap_err();
    assert_eq!(e, PlanError::UnknownNetwork { name: "moon".to_string() });
    assert_eq!(e.exit_code(), 1);

    let st = state(&two_networks(), &[], &[]);
    let e = normal_mode(&st, Vec::new(), "t", &user("u")).unwrap_err();
    assert_eq!(e, PlanError::NoArguments);
    assert_eq!(e.exit_code(), 2);

    let st = state(&two_networks(), &["prod", "broken"], &[]);
    let nobody = ProcessEnv { sup_user: None, user: None };
    let e = normal_mode(&st, Vec::new(), "t", &nobody).unwrap_err();
    assert_eq!(e, PlanError::NoUser);
    assert_eq!(e.exit_code(), 1);

    let e = normal_mode(&st, Vec::new(), "t", &user("u")).unwrap_err();
    assert_eq!(e, PlanError::UnknownCommand { name: "nope".to_string() });
    assert_eq!(e.exit_code(), 1);
}

#[test]
fn normal_mode_network_merges_the_flags() {
    let st = state(&two_networks(), &["prod"], &["SUP_USER=flag", "Z=26", "A=0"]);
    let n = normal_mode_network(&st).unwrap();
    assert_eq!(n.env.to_string_vec(), vec!["A=0", "SUP_USER=flag", "Z=26"]);
    assert_eq!(n.hosts.len(), 2);
    let st = state(&two_networks(), &["nowhere"], &[]);
    assert_eq!(
        normal_mode_network(&st),
        Err(PlanError::UnknownNetwork { name: "nowhere".to_string() })
    );
    assert_eq!(normal_mode_network(&state(&[], &[], &[])), Err(PlanError::NoArguments));
}

#[test]
fn makefile_mode_passes_over_unknown_arguments() {
    let mut st = state(&[], &["build", "ghost", "test", "phantom", "deploy"], &[]);
    let mut h = help();
    let a = makefile_mode(&mut st, &mut h).unwrap();
    assert!(a.playbook.is_makefile);
    assert_eq!(a.playbook.plays.len(), 1);
    assert_eq!(names(&a.playbook.plays[0].commands), vec!["build", "test", "deploy"]);
    assert_eq!(a.unknown, vec!["ghost", "phantom"]);
    assert!(h.show_cmd);
    assert!(h.show_networks);
    assert!(!h.show_targets);

    let mut without = state(&[], &["build", "test", "deploy"], &[]);
    let mut quiet = help();
    let b = makefile_mode(&mut without, &mut quiet).unwrap();
    assert_eq!(b.playbook, a.playbook);
    assert!(b.unknown.is_empty());
    assert_eq!(quiet, help());
}

#[test]
fn makefile_mode_runs_on_localhost() {
    let mut st = state(&[], &["build"], &[]);
    let a = makefile_mode(&mut st, &mut help()).unwrap();
    let network = &a.playbook.plays[0].network;
    assert_eq!(network.name, "localhost");
    assert_eq!(network.hosts, vec![Host::new("localhost".to_string())]);
    assert!(network.env.is_empty());
    assert_eq!(st.supfile.networks.names, vec!["localhost"]);
    assert_eq!(st.supfile.networks.get("localhost"), Some(network));
}

#[test]
fn makefile_mode_keeps_a_declared_localhost() {
    let own = net("localhost", &["127.0.0.1"], &[("LOCAL", "yes")]);
    let mut st = state(&[own.clone()], &["build"], &[]);
    let a = makefile_mode(&mut st, &mut help()).unwrap();
    assert_eq!(a.playbook.plays[0].network, own);
    assert_eq!(st.supfile.networks.names, vec!["localhost"]);
}

#[test]
fn makefile_mode_takes_command_and_target_of_one_name() {
    let mut st = state(&[], &["all", "rollout", "idle"], &[]);
    let a = makefile_mode(&mut st, &mut help()).unwrap();
    assert_eq!(
        names(&a.playbook.plays[0].commands),
        vec!["all", "test", "deploy", "build", "deploy"]
    );
    assert!(a.unknown.is_empty());
}

#[test]
fn makefile_mode_fails_on_an_undeclared_command() {
    let mut st = state(&[], &["ghost", "broken", "build"], &[]);
    let mut h = help();
    assert_eq!(
        makefile_mode(&mut st, &mut h),
        Err(PlanError::UnknownCommand { name: "nope".to_string() })
    );
    assert_eq!(h, help());
    assert_eq!(st.supfile.networks.names, vec!["localhost"]);
}

#[test]
fn makefile_mode_without_arguments() {
    let mut st = state(&[], &[], &[]);
    let a = makefile_mode(&mut st, &mut help()).unwrap();
    assert_eq!(a.playbook.plays.len(), 1);
    assert!(a.playbook.plays[0].commands.is_empty());
}

#[test]
fn special_target_mode_gives_one_play_per_step() {
    let st = state(&two_networks(), &["rollout"], &[]);
    let pb = special_target_mode(&st, "now", &user("bob")).unwrap();
    assert!(!pb.is_makefile);
    assert_eq!(pb.plays.len(), 2);
    assert_eq!(names(&pb.plays[0].commands), vec!["build"]);
    assert_eq!(pb.plays[0].network.name, "staging");
    assert_eq!(
        pb.plays[0].network.env.to_string_vec(),
        vec!["STAGE=staging", "SUP_NETWORK=staging", "SUP_TIME=now", "SUP_USER=bob"]
    );
    assert_eq!(names(&pb.plays[1].commands), vec!["deploy"]);
    assert_eq!(pb.plays[1].network.name, "prod");
    assert_eq!(
        pb.plays[1].network.env.to_string_vec(),
        vec!["A=1", "SUP_USER=bob", "SUP_NETWORK=prod", "SUP_TIME=now"]
    );
    assert_eq!(pb.plays[1].network.hosts.len(), 2);
}

#[test]
fn special_target_mode_takes_the_targets_in_order() {
    let st = state(&two_networks(), &["rollout", "idle", "rollout"], &[]);
    let pb = special_target_mode(&st, "now", &user("bob")).unwrap();
    assert_eq!(pb.plays.len(), 4);
    for play in pb.get_plays() {
        assert_eq!(play.commands.len(), 1);
    }
    assert_eq!(
        pb.plays.iter().map(|p| p.network.name.as_str()).collect::<Vec<_>>(),
        vec!["staging", "prod", "staging", "prod"]
    );
    let none = special_target_mode(&state(&two_networks(), &[], &[]), "now", &user("b")).unwrap();
    assert!(none.plays.is_empty());
}

#[test]
fn special_target_mode_failures() {
    let nets = two_networks();
    let run = |args: &[&str], env: &ProcessEnv| special_target_mode(&state(&nets, args, &[]), "t", env);
    assert_eq!(
        run(&["rollout", "build"], &user("u")),
        Err(PlanError::UnknownTarget { name: "build".to_string() })
    );
    assert_eq!(
        run(&["astray"], &user("u")),
        Err(PlanError::UnknownNetwork { name: "moon".to_string() })
    );
    assert_eq!(
        run(&["broken"], &user("u")),
        Err(PlanError::UnknownCommand { name: "nope".to_string() })
    );
    let nobody = ProcessEnv { sup_user: None, user: None };
    assert_eq!(run(&["rollout"], &nobody), Err(PlanError::NoUser));
    assert_eq!(
        run(&["astray"], &nobody),
        Err(PlanError::UnknownNetwork { name: "moon".to_string() })
    );
}

#[test]
fn the_mode_follows_the_decision_table() {
    assert_eq!(select_mode(&state(&[], &["build"], &[])), Mode::Makefile);
    assert_eq!(select_mode(&state(&[], &["rollout"], &[])), Mode::Makefile);
    assert_eq!(select_mode(&state(&two_networks(), &["rollout", "all"], &[])), Mode::SpecialTarget);
    assert_eq!(select_mode(&state(&two_networks(), &["rollout", "build"], &[])), Mode::Normal);
    assert_eq!(select_mode(&state(&two_networks(), &["prod", "build"], &[])), Mode::Normal);
    assert!(all_args_are_targets(&state(&two_networks(), &["idle", "broken"], &[])));
    assert!(!all_args_are_targets(&state(&two_networks(), &["idle", "prod"], &[])));
    assert!(all_args_are_targets(&state(&two_networks(), &[], &[])));
}

#[test]
fn planning_dispatches_on_the_mode() {
    let around = || Surroundings {
        process_env: user("carol"),
        clock: at(1714557600, 250_000_000),
        inventory: Vec::new(),
    };

    let mut st = state(&two_networks(), &["prod", "build"], &[]);
    let mut h = help();
    let a = parse_initial_args(&mut st, &mut h, around()).unwrap();
    assert_eq!(a.mode, Mode::Normal);
    assert_eq!(a.playbook.plays.len(), 1);
    assert_eq!(names(&a.playbook.plays[0].commands), vec!["build"]);
    let env = &a.playbook.plays[0].network.env;
    assert_eq!(env.get("SUP_NETWORK"), Some("prod"));
    assert_eq!(env.get("SUP_USER"), Some("carol"));
    assert_eq!(env.get("SUP_TIME"), Some("2024-05-01T10:00:00.250+00:00"));
    assert_eq!(h, help());

    let mut st = state(&two_networks(), &["rollout"], &[]);
    let a = parse_initial_args(&mut st, &mut h, around()).unwrap();
    assert_eq!(a.mode, Mode::SpecialTarget);
    assert_eq!(a.playbook.plays.len(), 2);
    assert!(a.unknown.is_empty());

    let mut st = state(&[], &["build", "ghost"], &[]);
    let a = parse_initial_args(&mut st, &mut h, around()).unwrap();
    assert_eq!(a.mode, Mode::Makefile);
    assert!(a.playbook.is_makefile);
    assert_eq!(a.unknown, vec!["ghost"]);
    assert!(h.show_cmd && h.show_networks);
    assert_eq!(st.supfile.networks.names, vec!["localhost"]);

    let mut st = state(&two_networks(), &[], &[]);
    let e = parse_initial_args(&mut st, &mut help(), around()).unwrap_err();
    assert_eq!(e, PlanError::NoArguments);
    assert_eq!(e.exit_code(), 2);
    let mut st = state(&[], &[], &[]);
    assert_eq!(parse_initial_args(&mut st, &mut help(), around()), Err(PlanError::NoArguments));
    assert!(st.supfile.networks.is_empty());
}

#[test]
fn sup_user_wins_over_user() {
    let both = ProcessEnv { sup_user: Some("deployer".to_string()), user: Some("me".to_string()) };
    assert_eq!(both.acting_user().map(|s| s.as_str()), Some("deployer"));
    assert_eq!(user("me").acting_user().map(|s| s.as_str()), Some("me"));
    let only = ProcessEnv { sup_user: Some("d".to_string()), user: None };
    assert_eq!(only.acting_user().map(|s| s.as_str()), Some("d"));
    assert_eq!(ProcessEnv { sup_user: None, user: None }.acting_user(), None);
}

#[test]
fn default_variables_override_those_of_the_network() {
    let mut n = net("prod", &[], &[("SUP_TIME", "old"), ("X", "1"), ("SUP_NETWORK", "other")]);
    default_envs_at(&mut n, "new", "me");
    assert_eq!(
        n.env.to_string_vec(),
        vec!["SUP_TIME=new", "X=1", "SUP_NETWORK=prod", "SUP_USER=me"]
    );
    let mut local = net("localhost", &[], &[]);
    default_envs_at(&mut local, "t", "me");
    assert_eq!(local.env.get("SUP_NETWORK"), Some("localhost"));

    let mut n = net("prod", &[], &[("X", "1")]);
    assert_eq!(add_ssup_default_envs(&mut n, &user("me"), &at(0, 0)), Ok(()));
    assert_eq!(
        n.env.to_string_vec(),
        vec!["X=1", "SUP_NETWORK=prod", "SUP_TIME=1970-01-01T00:00:00+00:00", "SUP_USER=me"]
    );
    let mut n = net("prod", &[], &[("X", "1")]);
    let nobody = ProcessEnv { sup_user: None, user: None };
    assert_eq!(add_ssup_default_envs(&mut n, &nobody, &at(0, 0)), Err(PlanError::NoUser));
    assert_eq!(add_ssup_default_envs(&mut n, &nobody, &at(u64::MAX, 0)), Err(PlanError::NoUser));
    let e = add_ssup_default_envs(&mut n, &user("me"), &at(u64::MAX, 0)).unwrap_err();
    assert_eq!(e, PlanError::NoTime);
    assert_eq!(e.exit_code(), 1);
    assert_eq!(n.env.keys(), vec!["X"]);
}

#[test]
fn networks_are_found_by_listed_name() {
    let st = state(&two_networks(), &[], &[]);
    assert_eq!(ensure_network_exists("prod", &st), Ok(()));
    assert_eq!(
        ensure_network_exists("Prod", &st),
        Err(PlanError::UnknownNetwork { name: "Prod".to_string() })
    );
    assert_eq!(find_network(&st.supfile.networks, "staging").unwrap().hosts.len(), 1);
    assert_eq!(
        find_network(&st.supfile.networks, ""),
        Err(PlanError::UnknownNetwork { name: String::new() })
    );
    assert!(contains_name(&st.supfile.networks.names, "staging"));
    assert!(!contains_name(&st.supfile.networks.names, "stagin"));
}

#[test]
fn overrides_keep_the_place_of_a_known_variable() {
    let mut n = net("prod", &[], &[("A", "1"), ("B", "2")]);
    let mut given = EnvList::new();
    given.set("C".to_string(), "3".to_string());
    given.set("A".to_string(), "one".to_string());
    override_env_from_args(&given, &mut n);
    assert_eq!(n.env.to_string_vec(), vec!["A=one", "B=2", "C=3"]);
}

#[test]
fn localhost_is_added_once() {
    let mut st = state(&two_networks(), &[], &[]);
    ensure_localhost(&mut st);
    assert_eq!(st.supfile.networks.names, vec!["staging", "prod", "localhost"]);
    ensure_localhost(&mut st);
    assert_eq!(st.supfile.networks.names, vec!["staging", "prod", "localhost"]);
    let local = st.supfile.networks.get("localhost").unwrap();
    assert_eq!(local.hosts, vec![Host::new("localhost".to_string())]);
    assert_eq!(local.name, "localhost");
}

#[test]
fn arguments_are_resolved_one_by_one() {
    let st = state(&two_networks(), &[], &[]);
    let sup = &st.supfile;
    assert_eq!(names(&resolve_argument(sup, false, "build").unwrap().unwrap()), vec!["build"]);
    assert_eq!(names(&resolve_argument(sup, false, "all").unwrap().unwrap()), vec!["all"]);
    assert_eq!(
        names(&resolve_argument(sup, true, "all").unwrap().unwrap()),
        vec!["all", "test", "deploy"]
    );
    assert_eq!(
        names(&resolve_argument(sup, false, "rollout").unwrap().unwrap()),
        vec!["build", "deploy"]
    );
    assert_eq!(resolve_argument(sup, false, "idle"), Ok(Some(Vec::new())));
    assert_eq!(resolve_argument(sup, true, "ghost"), Ok(None));
    assert_eq!(
        resolve_argument(sup, true, "broken"),
        Err(PlanError::UnknownCommand { name: "nope".to_string() })
    );
    let steps = vec![step("deploy", "x"), step("build", "y")];
    assert_eq!(names(&expand_steps(&sup.commands, &steps).unwrap()), vec!["deploy", "build"]);
    let args: Vec<String> = ["skip", "test", "ghost"].iter().map(|a| a.to_string()).collect();
    let (commands, unknown) = gather_commands(sup, false, &args, 1).unwrap();
    assert_eq!(names(&commands), vec!["test"]);
    assert_eq!(unknown, vec!["ghost"]);
    assert_eq!(gather_commands(sup, false, &args, 5), Ok((Vec::new(), Vec::new())));
}

#[test]
fn plays_and_playbooks_are_built_step_by_step() {
    let mut play = Play::new();
    assert_eq!(play, Play::default());
    assert!(play.commands.is_empty());
    assert_eq!(play.network, Network::default());
    play.add_command(command("a"));
    play.add_net(net("n", &["h"], &[]));
    play.add_command(command("b"));
    assert_eq!(names(&play.commands), vec!["a", "b"]);
    assert_eq!(play.network.name, "n");

    let mut book = PlayBook::new();
    assert!(book.get_plays().is_empty());
    assert!(!book.is_makefile);
    book.add_play(play.clone());
    book.add_play(Play::new());
    assert_eq!(book.get_plays().len(), 2);
    assert_eq!(book.get_plays()[0], play);
    book.mark_as_makefile_mode();
    assert!(book.is_makefile);
    assert_eq!(book.clone(), book);
}

#[test]
fn the_clock_is_written_as_rfc_3339() {
    let text = |r: ClockReading| timestamp(&r);
    assert_eq!(text(at(0, 0)).as_deref(), Some("1970-01-01T00:00:00+00:00"));
    assert_eq!(text(at(1714557600, 0)).as_deref(), Some("2024-05-01T10:00:00+00:00"));
    assert_eq!(text(at(1714557600, 250_000_000)).as_deref(), Some("2024-05-01T10:00:00.250+00:00"));
    assert_eq!(text(at(1714557600, 1)).as_deref(), Some("2024-05-01T10:00:00.000000001+00:00"));
    let before = |seconds: u64, nanoseconds: u32| ClockReading {
        before_epoch: true,
        seconds,
        nanoseconds,
    };
    assert_eq!(text(before(0, 0)).as_deref(), Some("1970-01-01T00:00:00+00:00"));
    assert_eq!(text(before(1, 0)).as_deref(), Some("1969-12-31T23:59:59+00:00"));
    assert_eq!(text(before(0, 500_000_000)).as_deref(), Some("1969-12-31T23:59:59.500+00:00"));
    assert_eq!(text(before(86400, 0)).as_deref(), Some("1969-12-31T00:00:00+00:00"));
}

#[test]
fn a_reading_without_a_date_gives_no_time() {
    assert_eq!(timestamp(&at(u64::MAX, 0)), None);
    assert_eq!(timestamp(&at(i64::MAX as u64, 0)), None);
    assert_eq!(timestamp(&at(0, 2_000_000_000)), None);
    let before = ClockReading { before_epoch: true, seconds: 5, nanoseconds: 1_000_000_000 };
    assert_eq!(timestamp(&before), None);
    let far = ClockReading { before_epoch: true, seconds: i64::MAX as u64, nanoseconds: 1 };
    assert_eq!(timestamp(&far), None);
}

#[test]
fn planning_wants_a_time_but_in_the_makefile_mode() {
    let around = || Surroundings {
        process_env: user("carol"),
        clock: at(u64::MAX, 0),
        inventory: Vec::new(),
    };
    let mut st = state(&two_networks(), &["prod", "build"], &[]);
    assert_eq!(parse_initial_args(&mut st, &mut help(), around()), Err(PlanError::NoTime));
    let mut st = state(&two_networks(), &["moon"], &[]);
    assert_eq!(parse_initial_args(&mut st, &mut help(), around()), Err(PlanError::NoTime));
    let mut st = state(&two_networks(), &["rollout"], &[]);
    assert_eq!(parse_initial_args(&mut st, &mut help(), around()), Err(PlanError::NoTime));
    let mut st = state(&two_networks(), &[], &[]);
    assert_eq!(parse_initial_args(&mut st, &mut help(), around()), Err(PlanError::NoArguments));
    let mut st = state(&[], &["build"], &[]);
    let a = parse_initial_args(&mut st, &mut help(), around()).unwrap();
    assert_eq!(a.mode, Mode::Makefile);
    assert!(a.playbook.plays[0].network.env.is_empty());
}

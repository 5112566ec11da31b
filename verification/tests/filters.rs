use ssup::gateways::patterns::HostPattern;
use ssup::entity::keyed::NameMap;
use ssup::entity::supfile::networks::{Host, Network, Networks};
use ssup::entity::supfile::targets::Targets;
use ssup::entity::supfile::Supfile;
use ssup::entity::env::EnvList;
use ssup::entity::{CommandLineArgs, InitState};
use ssup::usecase::inventory_tools::inventory_script;
use ssup::usecase::Mode;
use ssup::usecase::program_init::{
    check_additional_flags, check_flags_in_mode, find_block, host_answers, inventory_request,
    matching_hosts, process_exclude_flags, process_only_flags, process_sshconfig_flag,
    select_hosts, sshconfig_path, ConfigOverlayError, FilterError, FlagError,
};
use ssup::usecase::ssh_config_parser::{
    apply_directive, expect_value, keyword_field, must_parse_ssh_config, parse, read_directive,
    ConfigFault, Directive, Field, SSHHost, SshConfigError,
};

fn state(only: &str, except: &str, sshconfig: &str) -> InitState {
    InitState {
        args: Vec::new(),
        flags: CommandLineArgs {
            file: String::new(),
            env: Vec::new(),
            debug: false,
            sshconfig: sshconfig.to_string(),
            disablecolor: false,
            disableprefix: false,
            excepthosts: except.to_string(),
            onlyhosts: only.to_string(),
            extra_args: Vec::new(),
        },
        supfile: Supfile {
            desc: String::new(),
            version: "0.5".to_string(),
            networks: Networks { names: Vec::new(), nets: NameMap::new() },
            env: EnvList::new(),
            commands: NameMap::new(),
            targets: Targets::new(),
        },
        make_mode: false,
    }
}

fn network(hosts: &[&str]) -> Network {
    let mut n = Network::default();
    n.name = "prod".to_string();
    n.user = "deploy".to_string();
    n.hosts = hosts.iter().map(|h| Host::new(h.to_string())).collect();
    n
}

fn addresses(n: &Network) -> Vec<&str> {
    n.hosts.iter().map(|h| h.host.as_str()).collect()
}

const CONFIG: &str = "Host web1 web2\n    HostName 10.0.0.1\n    User deploy\n    Port 2222\n    IdentityFile /home/u/.ssh/id\n\nHost db\n  User dba\n  IdentityFile /k\n  ProxyCommand ssh -W %h:%p bastion\n  HostKeyAlgorithms ssh-ed25519\n";

#[test]
fn only_keeps_the_matching_hosts() {
    let mut n = network(&["10.0.0.1", "192.168.0.1"]);
    assert_eq!(process_only_flags(&mut n, &state("^10\\.", "", "")), Ok(()));
    assert_eq!(addresses(&n), vec!["10.0.0.1"]);
    assert_eq!(n.name, "prod");
    assert_eq!(n.user, "deploy");
}

#[test]
fn only_that_matches_nothing_fails() {
    let mut n = network(&["10.0.0.1", "192.168.0.1"]);
    let r = process_only_flags(&mut n, &state("^9\\.", "", ""));
    assert_eq!(r, Err(FilterError::OnlyEmpty));
    assert_eq!(r.unwrap_err().exit_code(), 45);
    assert_eq!(addresses(&n), vec!["10.0.0.1", "192.168.0.1"]);
}

#[test]
fn only_with_an_invalid_pattern_fails() {
    let mut n = network(&["10.0.0.1"]);
    let r = process_only_flags(&mut n, &state("(", "", ""));
    assert_eq!(r, Err(FilterError::InvalidOnly));
    assert_eq!(r.unwrap_err().exit_code(), 44);
    assert_eq!(addresses(&n), vec!["10.0.0.1"]);
}

#[test]
fn except_drops_the_matching_hosts() {
    let mut n = network(&["10.0.0.1", "192.168.0.1", "10.0.0.2"]);
    assert_eq!(process_exclude_flags(&mut n, &state("", "^10\\.", "")), Ok(()));
    assert_eq!(addresses(&n), vec!["192.168.0.1"]);
}

#[test]
fn except_that_matches_everything_fails() {
    let mut n = network(&["10.0.0.1", "192.168.0.1"]);
    let r = process_exclude_flags(&mut n, &state("", "\\d", ""));
    assert_eq!(r, Err(FilterError::ExceptEmpty));
    assert_eq!(r.unwrap_err().exit_code(), 43);
    assert_eq!(addresses(&n), vec!["10.0.0.1", "192.168.0.1"]);
}

#[test]
fn except_with_an_invalid_pattern_fails() {
    let mut n = network(&["10.0.0.1"]);
    let r = process_exclude_flags(&mut n, &state("", "[", ""));
    assert_eq!(r, Err(FilterError::InvalidExcept));
    assert_eq!(r.unwrap_err().exit_code(), 42);
}

#[test]
fn filters_on_no_hosts_fail_as_empty() {
    let mut n = network(&[]);
    assert_eq!(process_only_flags(&mut n, &state(".", "", "")), Err(FilterError::OnlyEmpty));
    assert_eq!(process_exclude_flags(&mut n, &state("", "x", "")), Err(FilterError::ExceptEmpty));
}

#[test]
fn each_filter_error_has_its_own_status() {
    let codes = [
        FilterError::InvalidOnly.exit_code(),
        FilterError::OnlyEmpty.exit_code(),
        FilterError::InvalidExcept.exit_code(),
        FilterError::ExceptEmpty.exit_code(),
    ];
    for i in 0..codes.len() {
        for j in 0..i {
            assert_ne!(codes[i], codes[j]);
        }
    }
}

#[test]
fn the_address_alone_is_matched() {
    let mut n = network(&["web"]);
    n.hosts[0].user = Some("root".to_string());
    n.hosts[0].tube = Some("t1".to_string());
    assert_eq!(process_only_flags(&mut n, &state("root|t1", "", "")), Err(FilterError::OnlyEmpty));
    assert_eq!(process_only_flags(&mut n, &state("^web$", "", "")), Ok(()));
    assert_eq!(n.hosts[0].user.as_deref(), Some("root"));
}

#[test]
fn matching_hosts_keeps_the_order() {
    let n = network(&["b1", "a", "b2", "b1"]);
    let re = HostPattern::new("^b").unwrap();
    assert!(re.is_match("b1"));
    assert!(!re.is_match("ab"));
    assert_eq!(host_answers(&n.hosts, &re), vec![true, false, true, true]);
    let kept = matching_hosts(&n.hosts, &re, true);
    assert_eq!(kept.iter().map(|h| h.host.as_str()).collect::<Vec<_>>(), vec!["b1", "b2", "b1"]);
    let dropped = matching_hosts(&n.hosts, &re, false);
    assert_eq!(dropped.iter().map(|h| h.host.as_str()).collect::<Vec<_>>(), vec!["a"]);
}

#[test]
fn flags_are_applied_in_their_order() {
    let mut n = network(&["10.0.0.1", "192.168.0.1", "10.0.0.2", "web1"]);
    let st = state("^(10|web)", "\\.2$", "ssh_config");
    assert_eq!(check_additional_flags(&mut n, &st, CONFIG), Ok(true));
    assert_eq!(addresses(&n), vec!["10.0.0.1", "web1:2222"]);
    assert_eq!(n.user, "deploy");
    assert_eq!(n.id_file, "/home/u/.ssh/id");
}

#[test]
fn empty_flags_do_nothing() {
    let mut n = network(&["10.0.0.1", "web1"]);
    assert_eq!(check_additional_flags(&mut n, &state("", "", ""), "not a config"), Ok(false));
    assert_eq!(n, network(&["10.0.0.1", "web1"]));
}

#[test]
fn the_first_failing_stage_decides() {
    let mut n = network(&["10.0.0.1"]);
    let before = network(&["10.0.0.1"]);
    assert_eq!(
        check_additional_flags(&mut n, &state("^9", "(", "c"), "junk"),
        Err(FlagError::Filter { filter: FilterError::OnlyEmpty })
    );
    assert_eq!(n, before);
    assert_eq!(
        check_additional_flags(&mut n, &state("^1", "(", "c"), "junk"),
        Err(FlagError::Filter { filter: FilterError::InvalidExcept })
    );
    assert_eq!(n, before);
    assert_eq!(
        check_additional_flags(&mut n, &state("^1", "^9", "c"), "junk"),
        Err(FlagError::Overlay {
            overlay: ConfigOverlayError::Malformed {
                error: SshConfigError { fault: ConfigFault::UnknownDirective, line: 0 }
            }
        })
    );
    assert_eq!(n, before);
}

#[test]
fn configuration_is_read_block_by_block() {
    let blocks = parse(CONFIG).unwrap();
    assert_eq!(blocks.len(), 2);
    assert_eq!(blocks[0].host, vec!["web1", "web2"]);
    assert_eq!(blocks[0].host_name.as_deref(), Some("10.0.0.1"));
    assert_eq!(blocks[0].user.as_deref(), Some("deploy"));
    assert_eq!(blocks[0].port, 2222);
    assert_eq!(blocks[0].identity_file.as_deref(), Some("/home/u/.ssh/id"));
    assert_eq!(blocks[0].proxy_command, None);
    assert_eq!(blocks[1].host, vec!["db"]);
    assert_eq!(blocks[1].port, 22);
    assert_eq!(blocks[1].proxy_command.as_deref(), Some("ssh -W %h:%p bastion"));
    assert_eq!(blocks[1].host_key_algorithms.as_deref(), Some("ssh-ed25519"));
    assert_eq!(must_parse_ssh_config(CONFIG), blocks);
}

#[test]
fn empty_configuration_has_no_blocks() {
    assert_eq!(parse(""), Ok(Vec::new()));
    assert_eq!(parse("\n  \n\t\n"), Ok(Vec::new()));
}

#[test]
fn a_later_line_overrides_an_earlier_one() {
    let blocks = parse("Host a\nUser one\nUser two\nPort 1\nPort +80\nHost b\nPort 0022").unwrap();
    assert_eq!(blocks[0].user.as_deref(), Some("two"));
    assert_eq!(blocks[0].port, 80);
    assert_eq!(blocks[1].port, 22);
    assert_eq!(blocks[1].user, None);
}

#[test]
fn configuration_faults_name_their_line() {
    assert_eq!(
        parse("HostName x"),
        Err(SshConfigError { fault: ConfigFault::OutsideBlock, line: 0 })
    );
    assert_eq!(
        parse("\nPort 22"),
        Err(SshConfigError { fault: ConfigFault::OutsideBlock, line: 1 })
    );
    assert_eq!(
        parse("Host a\n  Compression yes"),
        Err(SshConfigError { fault: ConfigFault::UnknownDirective, line: 1 })
    );
    assert_eq!(
        parse("Host a\n\n  User   "),
        Err(SshConfigError { fault: ConfigFault::ExpectedValue, line: 2 })
    );
    assert_eq!(parse("Host"), Err(SshConfigError { fault: ConfigFault::ExpectedValue, line: 0 }));
    assert_eq!(
        parse("host a"),
        Err(SshConfigError { fault: ConfigFault::UnknownDirective, line: 0 })
    );
}

#[test]
fn ports_are_numbers_below_65536() {
    let bad = |text: &str| {
        assert_eq!(
            parse(text),
            Err(SshConfigError { fault: ConfigFault::InvalidPort, line: 1 })
        );
    };
    bad("Host a\nPort 65536");
    bad("Host a\nPort -1");
    bad("Host a\nPort 22a");
    bad("Host a\nPort +");
    bad("Host a\nPort 2 2");
    bad("Host a\nPort 99999999999999999999");
    assert_eq!(parse("Host a\nPort 65535").unwrap()[0].port, 65535);
    assert_eq!(parse("Host a\nPort 0").unwrap()[0].port, 0);
    assert_eq!(parse("Host a\nPort 000000000000000000443").unwrap()[0].port, 443);
}

#[test]
fn directives_one_by_one() {
    assert_eq!(read_directive("   "), Ok(Directive::Blank));
    assert_eq!(
        read_directive(" Host  a   b "),
        Ok(Directive::Host { patterns: vec!["a".to_string(), "b".to_string()] })
    );
    assert_eq!(
        read_directive("IdentityFile ~/.ssh/my key"),
        Ok(Directive::Assign { field: Field::IdentityFile, value: "~/.ssh/my key".to_string() })
    );
    assert_eq!(read_directive("Port 8022"), Ok(Directive::Port { port: 8022 }));
    assert_eq!(read_directive("Port"), Err(ConfigFault::ExpectedValue));
    assert_eq!(read_directive("Hostname x"), Err(ConfigFault::UnknownDirective));
    assert_eq!(keyword_field("User"), Some(Field::User));
    assert_eq!(keyword_field("HostName"), Some(Field::HostName));
    assert_eq!(keyword_field("ProxyCommand"), Some(Field::ProxyCommand));
    assert_eq!(keyword_field("HostKeyAlgorithms"), Some(Field::HostKeyAlgorithms));
    assert_eq!(keyword_field("Host"), None);
    assert_eq!(expect_value(&Vec::new()), Err(ConfigFault::ExpectedValue));
    assert_eq!(expect_value(&vec!['a', ' ', 'b']), Ok("a b".to_string()));

    let mut blocks = Vec::new();
    assert_eq!(
        apply_directive(&mut blocks, Directive::Port { port: 1 }),
        Err(ConfigFault::OutsideBlock)
    );
    assert!(blocks.is_empty());
    assert_eq!(apply_directive(&mut blocks, Directive::Blank), Ok(()));
    assert_eq!(
        apply_directive(&mut blocks, Directive::Host { patterns: vec!["a".to_string()] }),
        Ok(())
    );
    assert_eq!(blocks, vec![SSHHost::new(vec!["a".to_string()])]);
    assert_eq!(blocks[0].port, 22);
}

#[test]
fn the_last_block_that_lists_an_address_counts() {
    let blocks = parse("Host a b\nUser one\nHost b c\nUser two").unwrap();
    assert_eq!(find_block(&blocks, "a").unwrap().user.as_deref(), Some("one"));
    assert_eq!(find_block(&blocks, "b").unwrap().user.as_deref(), Some("two"));
    assert_eq!(find_block(&blocks, "c").unwrap().user.as_deref(), Some("two"));
    assert_eq!(find_block(&blocks, "d"), None);
    assert_eq!(find_block(&blocks, "A"), None);
    assert_eq!(find_block(&blocks, "*"), None);
}

#[test]
fn overlay_sets_user_identity_and_port() {
    let blocks = parse(CONFIG).unwrap();
    let mut n = network(&["web1", "other", "db", "web2"]);
    assert_eq!(process_sshconfig_flag(&mut n, &blocks), Ok(true));
    assert_eq!(addresses(&n), vec!["web1:2222", "other", "db", "web2:2222"]);
    assert_eq!(n.user, "deploy");
    assert_eq!(n.id_file, "/home/u/.ssh/id");

    let mut last_db = network(&["web1", "db"]);
    assert_eq!(process_sshconfig_flag(&mut last_db, &blocks), Ok(true));
    assert_eq!(last_db.user, "dba");
    assert_eq!(last_db.id_file, "/k");
}

#[test]
fn overlay_without_a_match_changes_nothing() {
    let blocks = parse(CONFIG).unwrap();
    let mut n = network(&["10.0.0.1", "web"]);
    n.id_file = "/old".to_string();
    assert_eq!(process_sshconfig_flag(&mut n, &blocks), Ok(false));
    assert_eq!(addresses(&n), vec!["10.0.0.1", "web"]);
    assert_eq!(n.user, "deploy");
    assert_eq!(n.id_file, "/old");
}

#[test]
fn overlay_wants_identity_file_and_user() {
    let blocks = parse("Host a\nUser u\nHost b\nIdentityFile /k\nHost c\nPort 1").unwrap();
    let mut n = network(&["x", "a"]);
    assert_eq!(process_sshconfig_flag(&mut n, &blocks), Err(ConfigOverlayError::MissingIdentityFile));
    assert_eq!(n, network(&["x", "a"]));
    let mut n = network(&["b"]);
    assert_eq!(process_sshconfig_flag(&mut n, &blocks), Err(ConfigOverlayError::MissingUser));
    let mut n = network(&["c"]);
    assert_eq!(process_sshconfig_flag(&mut n, &blocks), Err(ConfigOverlayError::MissingIdentityFile));
}

#[test]
fn ports_are_written_in_decimal() {
    for (port, text) in [(0u16, "h:0"), (7, "h:7"), (10, "h:10"), (2222, "h:2222"), (65535, "h:65535")] {
        let mut block = SSHHost::new(vec!["h".to_string()]);
        block.user = Some("u".to_string());
        block.identity_file = Some("/k".to_string());
        block.port = port;
        let mut n = network(&["h"]);
        assert_eq!(process_sshconfig_flag(&mut n, &vec![block]), Ok(true));
        assert_eq!(addresses(&n), vec![text]);
    }
}

#[test]
fn the_special_target_mode_applies_no_flag() {
    let st = state("^10", "\\.2$", "ssh_config");
    let mut n = network(&["10.0.0.1", "192.168.0.1", "10.0.0.2", "web1"]);
    assert_eq!(check_flags_in_mode(Mode::SpecialTarget, &mut n, &st, "junk"), Ok(false));
    assert_eq!(n, network(&["10.0.0.1", "192.168.0.1", "10.0.0.2", "web1"]));
    assert_eq!(check_flags_in_mode(Mode::Normal, &mut n, &st, CONFIG), Ok(false));
    assert_eq!(addresses(&n), vec!["10.0.0.1"]);
    let mut n = network(&["10.0.0.1", "10.0.0.2"]);
    assert_eq!(check_flags_in_mode(Mode::Makefile, &mut n, &st, CONFIG), Ok(false));
    assert_eq!(addresses(&n), vec!["10.0.0.1"]);
    let none = state("^9", "", "");
    assert_eq!(
        check_flags_in_mode(Mode::Makefile, &mut n, &none, ""),
        Err(FlagError::Filter { filter: FilterError::OnlyEmpty })
    );
    assert_eq!(check_flags_in_mode(Mode::SpecialTarget, &mut n, &none, ""), Ok(false));
}

#[test]
fn an_empty_inventory_script_is_none() {
    let mut n = network(&[]);
    assert_eq!(inventory_script(&n), None);
    n.inventory = "./hosts.sh".to_string();
    assert_eq!(inventory_script(&n).map(|s| s.as_str()), Some("./hosts.sh"));
}

#[test]
fn hosts_are_selected_by_their_answers() {
    let n = network(&["a", "b", "c", "d"]);
    let pick = |answers: Vec<bool>, keep: bool| -> Vec<String> {
        select_hosts(&n.hosts, &answers, keep).into_iter().map(|h| h.host).collect()
    };
    assert_eq!(pick(vec![true, false, true, false], true), vec!["a", "c"]);
    assert_eq!(pick(vec![true, false, true, false], false), vec!["b", "d"]);
    assert_eq!(pick(vec![true, true], true), vec!["a", "b"]);
    assert_eq!(pick(vec![true, true], false), vec!["c", "d"]);
    assert_eq!(pick(Vec::new(), true), Vec::<String>::new());
    assert_eq!(pick(vec![false, false, false, false, true], true), Vec::<String>::new());
}

#[test]
fn patterns_are_compiled_or_refused() {
    assert!(HostPattern::new("(").is_none());
    assert!(HostPattern::new("[").is_none());
    assert!(HostPattern::new("").unwrap().is_match("anything"));
    let p = HostPattern::new("^10\\.0\\.").unwrap();
    assert!(p.is_match("10.0.3.4"));
    assert!(!p.is_match("10.1.3.4"));
    assert!(!p.is_match("110.0.3.4"));
    assert!(!HostPattern::new("a").unwrap().is_match("A"));
}

#[test]
fn the_configuration_is_read_but_in_the_special_target_mode() {
    let st = state("", "", "./ssh/config");
    assert_eq!(
        sshconfig_path(Mode::Normal, &st, "/work", "/home/u"),
        Some("/work/ssh/config".to_string())
    );
    assert_eq!(
        sshconfig_path(Mode::Makefile, &st, "/work", "/home/u"),
        Some("/work/ssh/config".to_string())
    );
    assert_eq!(sshconfig_path(Mode::SpecialTarget, &st, "/work", "/home/u"), None);
    let home = state("", "", "~/.ssh/config");
    assert_eq!(
        sshconfig_path(Mode::Normal, &home, "/work", "/home/u"),
        Some("/home/u/.ssh/config".to_string())
    );
    assert_eq!(sshconfig_path(Mode::Normal, &state("", "", ""), "/work", "/home/u"), None);
}

#[test]
fn the_inventory_runs_for_the_named_network_alone() {
    let mut prod = network(&["10.0.0.1"]);
    prod.inventory = "./hosts.sh".to_string();
    prod.env.set("A".to_string(), "1".to_string());
    let quiet = {
        let mut n = network(&["10.0.0.2"]);
        n.name = "quiet".to_string();
        n
    };
    let with = |args: &[&str], env: &[&str]| {
        let mut st = state("", "", "");
        st.supfile.networks.add_network("prod".to_string(), prod.clone());
        st.supfile.networks.add_network("quiet".to_string(), quiet.clone());
        st.args = args.iter().map(|a| a.to_string()).collect();
        st.flags.env = env.iter().map(|e| e.to_string()).collect();
        st
    };
    let found = inventory_request(&with(&["prod", "build"], &["B=2"])).unwrap();
    assert_eq!(found.inventory, "./hosts.sh");
    assert_eq!(found.env.to_string_vec(), vec!["A=1", "B=2"]);
    assert_eq!(inventory_request(&with(&["quiet", "build"], &[])), None);
    assert_eq!(inventory_request(&with(&["moon"], &[])), None);
    assert_eq!(inventory_request(&with(&[], &[])), None);
    let mut bare = state("", "", "");
    bare.args = vec!["prod".to_string()];
    assert_eq!(inventory_request(&bare), None);
}

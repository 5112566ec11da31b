use ssup::entity::supfile::networks::Host;
use ssup::usecase::inventory_tools::{
    filter_non_printable, hosts_from_listing, is_shell, parse_inventory, pending_password,
    resolve_path, resolve_shell, resolve_shell_password, shell_command, GrammarError,
    InventoryError, ShellOutcome, ShellResolveError,
};

fn ran(stdout: &[u8]) -> ShellOutcome {
    ShellOutcome::Finished { success: true, stdout: stdout.to_vec() }
}

fn not_started() -> ShellOutcome {
    ShellOutcome::NotStarted { reason: "No such file or directory".to_string() }
}

#[test]
fn substitution_is_told_by_its_markers() {
    assert!(is_shell("$(echo hi)"));
    assert!(is_shell("$()"));
    assert!(is_shell("$(a)(b)"));
    assert!(!is_shell("$(echo hi"));
    assert!(!is_shell("echo hi)"));
    assert!(!is_shell(" $(echo hi)"));
    assert!(!is_shell("$(echo hi) "));
    assert!(!is_shell("$("));
    assert!(!is_shell(""));
    assert!(!is_shell("$)"));
}

#[test]
fn resolve_gives_the_trimmed_output() {
    assert_eq!(resolve_shell("$(echo hi)", &ran(b"hi\n")), Ok("hi".to_string()));
    assert_eq!(shell_command("$(echo hi)"), Ok("echo hi".to_string()));
}

#[test]
fn resolve_drops_what_is_not_printable() {
    assert_eq!(
        resolve_shell("$(x)", &ran(b"  s\x00e\xffcr\x1bet \t\r\n")),
        Ok("secret".to_string())
    );
    assert_eq!(resolve_shell("$(x)", &ran(b"a b\nc")), Ok("a b\nc".to_string()));
    assert_eq!(resolve_shell("$(x)", &ran(b"")), Ok(String::new()));
}

#[test]
fn resolve_does_not_ask_for_success() {
    let failed = ShellOutcome::Finished { success: false, stdout: b"partial\n".to_vec() };
    assert_eq!(resolve_shell("$(x)", &failed), Ok("partial".to_string()));
}

#[test]
fn resolve_fails_without_markers() {
    assert_eq!(resolve_shell("echo hi)", &ran(b"hi")), Err(ShellResolveError::MissingPrefix));
    assert_eq!(resolve_shell("$(echo hi", &ran(b"hi")), Err(ShellResolveError::MissingSuffix));
    assert_eq!(resolve_shell("", &ran(b"hi")), Err(ShellResolveError::MissingPrefix));
    assert_eq!(shell_command("plain"), Err(ShellResolveError::MissingPrefix));
    assert_eq!(shell_command("$("), Err(ShellResolveError::MissingSuffix));
}

#[test]
fn resolve_fails_where_the_command_did_not_start() {
    let r = resolve_shell("$(echo hi)", &not_started());
    assert_eq!(
        r,
        Err(ShellResolveError::command_error("echo hi", "No such file or directory"))
    );
    let e = r.unwrap_err();
    assert_eq!(e.to_string(), "Failed to run command: echo hi");
    assert_eq!(ShellResolveError::MissingPrefix.to_string(), "Missing $( prefix");
    assert_eq!(ShellResolveError::MissingSuffix.to_string(), "Missing ) suffix");
}

#[test]
fn filter_keeps_graphic_ascii_and_ascii_whitespace() {
    assert_eq!(filter_non_printable(b"a\x00b\xffc\x0b d\n"), "abc d\n");
    assert_eq!(filter_non_printable(b"~!\x7f \t\x0c\r"), "~! \t\x0c\r");
    assert_eq!(filter_non_printable(b""), "");
    assert_eq!(filter_non_printable("h\u{e9}".as_bytes()), "h");
}

#[test]
fn pending_password_names_the_command() {
    let mut host = Host::new("h".to_string());
    assert_eq!(pending_password(&host), None);
    host.pass = Some("plain".to_string());
    assert_eq!(pending_password(&host), None);
    host.pass = Some("$(pass show h)".to_string());
    assert_eq!(pending_password(&host), Some("pass show h".to_string()));
}

#[test]
fn password_resolution_replaces_the_substitution() {
    let mut host = Host::new("h".to_string());
    host.user = Some("root".to_string());
    host.pass = Some("$(pass show h)".to_string());
    assert_eq!(resolve_shell_password(&mut host, &ran(b"s3cret\n")), Ok(()));
    assert_eq!(host.pass.as_deref(), Some("s3cret"));
    assert_eq!(host.user.as_deref(), Some("root"));
    assert_eq!(host.host, "h");
}

#[test]
fn password_resolution_leaves_plain_passwords() {
    let mut host = Host::new("h".to_string());
    host.pass = Some("plain".to_string());
    assert_eq!(resolve_shell_password(&mut host, &ran(b"other")), Ok(()));
    assert_eq!(host.pass.as_deref(), Some("plain"));
    let mut none = Host::new("h".to_string());
    assert_eq!(resolve_shell_password(&mut none, &not_started()), Ok(()));
    assert_eq!(none.pass, None);
}

#[test]
fn failed_password_resolution_is_an_error() {
    let mut host = Host::new("h".to_string());
    host.pass = Some("$(pass show h)".to_string());
    let r = resolve_shell_password(&mut host, &not_started());
    assert_eq!(
        r,
        Err(ShellResolveError::command_error("pass show h", "No such file or directory"))
    );
    assert_eq!(host.pass.as_deref(), Some("$(pass show h)"));
}

#[test]
fn inventory_lists_hosts_line_by_line() {
    let out = ran(b"10.0.0.1\n\nroot@10.0.0.2 | pw > t\n   \n10.0.0.1\r\n");
    let hosts = parse_inventory(&out).unwrap();
    assert_eq!(hosts.len(), 3);
    assert_eq!(hosts[0], Host::new("10.0.0.1".to_string()));
    assert_eq!(hosts[1].host, "10.0.0.2");
    assert_eq!(hosts[1].user.as_deref(), Some("root"));
    assert_eq!(hosts[1].pass.as_deref(), Some("pw"));
    assert_eq!(hosts[1].tube.as_deref(), Some("t"));
    assert_eq!(hosts[2], Host::new("10.0.0.1".to_string()));
}

#[test]
fn empty_inventory_lists_no_hosts() {
    assert_eq!(parse_inventory(&ran(b"")), Ok(Vec::new()));
    assert_eq!(parse_inventory(&ran(b"\n \n\t\n")), Ok(Vec::new()));
    assert_eq!(hosts_from_listing(""), Ok(Vec::new()));
}

#[test]
fn inventory_fails_with_its_script() {
    let failed = ShellOutcome::Finished { success: false, stdout: b"10.0.0.1\n".to_vec() };
    assert_eq!(parse_inventory(&failed), Err(InventoryError::Failed));
    assert_eq!(
        parse_inventory(&not_started()),
        Err(InventoryError::NotStarted { reason: "No such file or directory".to_string() })
    );
}

#[test]
fn inventory_fails_on_a_line_that_is_no_host_line() {
    assert_eq!(
        parse_inventory(&ran(b"ok\na@b@c\nalso ok\n")),
        Err(InventoryError::Grammar { error: GrammarError::RepeatedAt })
    );
    assert_eq!(hosts_from_listing("x\ny@@z"), Err(GrammarError::RepeatedAt));
}

#[test]
fn inventory_output_is_decoded_with_replacement() {
    let hosts = parse_inventory(&ran(b"ho\xffst\n")).unwrap();
    assert_eq!(hosts.len(), 1);
    assert_eq!(hosts[0].host, "ho\u{fffd}st");
    let hosts = parse_inventory(&ran("h\u{f6}st\n".as_bytes())).unwrap();
    assert_eq!(hosts[0].host, "h\u{f6}st");
}

#[test]
fn test_resolve_path() {
    let home = "/Users/k.pechenenko";
    let cwd = "/Users/k.pechenenko/git/ssup2";

    let path = "~/Documents/test.txt";
    let resolved_path = resolve_path(path, cwd, home);
    assert_eq!(resolved_path, "/Users/k.pechenenko/Documents/test.txt");

    let path = ".";
    let resolved_path = resolve_path(path, cwd, home);
    assert_eq!(resolved_path, "/Users/k.pechenenko/git/ssup2");

    let path = "./Cargo.lock";
    let resolved_path = resolve_path(path, cwd, home);
    assert_eq!(resolved_path, "/Users/k.pechenenko/git/ssup2/Cargo.lock");
}

#[test]
fn other_paths_resolve_to_nothing() {
    assert_eq!(resolve_path("/etc/ssh/config", "/cwd", "/home/u"), "");
    assert_eq!(resolve_path("config", "/cwd", "/home/u"), "");
    assert_eq!(resolve_path("~", "/cwd", "/home/u"), "");
    assert_eq!(resolve_path("", "/cwd", "/home/u"), "");
}

#[test]
fn every_tilde_stands_for_the_home_directory() {
    assert_eq!(resolve_path("~/a~b", "/cwd", "/home/u"), "/home/u/a/home/ub");
    assert_eq!(resolve_path(".ssh/config", "/cwd", "/home/u"), "/cwdssh/config");
}

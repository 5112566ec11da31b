use ssup::entity::env::{EnvList, EnvVar, Resolution};
use ssup::entity::{CommandLineArgs};
use ssup::usecase::env_parser::parse_env;
use ssup::usecase::inventory_tools::ShellOutcome;

fn list_of(pairs: &[(&str, &str)]) -> EnvList {
    let mut list = EnvList::new();
    for (k, v) in pairs {
        list.set(k.to_string(), v.to_string());
    }
    list
}

fn ran(stdout: &str) -> ShellOutcome {
    ShellOutcome::Finished { success: true, stdout: stdout.as_bytes().to_vec() }
}

#[test]
fn test_env_var_display() {
    let ev = EnvVar::new("KEY", "VALUE");
    assert_eq!(ev.to_string(), "KEY=VALUE");
}

#[test]
fn test_env_var_as_export() {
    let ev = EnvVar::new("MY_VAR", "some data");
    assert_eq!(ev.as_export(), r#"export MY_VAR="some data";"#);
}

#[test]
fn test_deserialize_and_order() {
    let yaml_data = r#"
        B_VAR: "2"
        A_VAR: "1"
        C_VAR: "3"
        "#;
    let value: serde_yaml::Value = serde_yaml::from_str(yaml_data).expect("Should deserialize");
    let mut list = EnvList::new();
    for (k, v) in value.as_mapping().expect("Should deserialize") {
        list.set(k.as_str().unwrap().to_string(), v.as_str().unwrap().to_string());
    }

    assert_eq!(list.len(), 3);
    assert_eq!(list.get("A_VAR"), Some("1"));

    let keys = list.keys_owned();
    assert_eq!(keys, vec!["B_VAR".to_string(), "A_VAR".to_string(), "C_VAR".to_string()]);

    let string_vec = list.to_string_vec();
    assert_eq!(
        string_vec,
        vec!["B_VAR=2".to_string(), "A_VAR=1".to_string(), "C_VAR=3".to_string(),]
    );

    let export_str = list.as_export_string();
    assert_eq!(export_str, r#"export B_VAR="2"; export A_VAR="1"; export C_VAR="3";"#);
}

#[test]
fn test_set_and_get() {
    let mut list = EnvList::new();
    assert!(list.is_empty());

    list.set("FIRST".to_string(), "one".to_string());
    list.set("SECOND".to_string(), "two".to_string());

    assert_eq!(list.len(), 2);
    assert_eq!(list.get("FIRST"), Some("one"));
    assert_eq!(list.get("SECOND"), Some("two"));
    assert_eq!(list.get("THIRD"), None);

    list.set("FIRST".to_string(), "uno".to_string());
    assert_eq!(list.get("FIRST"), Some("uno"));
    assert_eq!(list.len(), 2);

    let keys = list.keys_owned();
    assert_eq!(keys, vec!["FIRST".to_string(), "SECOND".to_string()]);
}

#[test]
fn empty_list_exports_nothing() {
    let list = EnvList::new();
    assert_eq!(list.len(), 0);
    assert_eq!(list.as_export_string(), "");
    assert!(list.keys().is_empty());
    assert!(list.to_string_vec().is_empty());
    assert!(list.unresolved().is_empty());
}

#[test]
fn one_variable_exports_without_a_space() {
    let list = list_of(&[("A", "1")]);
    assert_eq!(list.as_export_string(), r#"export A="1";"#);
}

#[test]
fn keys_values_and_variables_keep_the_order() {
    let list = list_of(&[("Z", "26"), ("A", "1"), ("M", "13")]);
    assert_eq!(list.keys(), vec!["Z", "A", "M"]);
    assert_eq!(list.values(), vec!["26", "1", "13"]);
    assert_eq!(
        list.iter(),
        vec![EnvVar::new("Z", "26"), EnvVar::new("A", "1"), EnvVar::new("M", "13")]
    );
    let at = list.entry_at(1);
    assert_eq!((at.0.as_str(), at.1.as_str()), ("A", "1"));
}

#[test]
fn a_copy_holds_the_same_variables() {
    let list = list_of(&[("A", "1"), ("B", "2")]);
    let mut copy = list.clone();
    assert_eq!(copy.iter(), list.iter());
    copy.set("C".to_string(), "3".to_string());
    assert_eq!(list.len(), 2);
    assert_eq!(copy.len(), 3);
}

#[test]
fn merge_overrides_in_place_and_appends_the_rest() {
    let mut list = list_of(&[("A", "1"), ("B", "2"), ("C", "3")]);
    let other = list_of(&[("D", "4"), ("B", "two"), ("E", "5")]);
    list.merge(&other);
    assert_eq!(list.to_string_vec(), vec!["A=1", "B=two", "C=3", "D=4", "E=5"]);
}

#[test]
fn unresolved_lists_the_substitutions() {
    let list = list_of(&[("A", "$(a)"), ("B", "plain"), ("C", "$(c d)"), ("D", "$(open")]);
    assert_eq!(list.unresolved(), vec![EnvVar::new("A", "$(a)"), EnvVar::new("C", "$(c d)")]);
}

#[test]
fn a_resolved_value_goes_last() {
    let mut list = list_of(&[("A", "$(a)"), ("B", "b"), ("C", "c")]);
    list.resolve_entry("A", &ran("x\n"));
    assert_eq!(list.to_string_vec(), vec!["C=c", "B=b", "A=x"]);

    let mut last = list_of(&[("A", "a"), ("B", "$(b)")]);
    last.resolve_entry("B", &ran(" y "));
    assert_eq!(last.to_string_vec(), vec!["A=a", "B=y"]);
}

#[test]
fn a_failed_resolution_keeps_the_literal() {
    let mut list = list_of(&[("A", "$(a)"), ("B", "b")]);
    let failed = ShellOutcome::NotStarted { reason: "no shell".to_string() };
    list.resolve_entry("A", &failed);
    assert_eq!(list.to_string_vec(), vec!["A=$(a)", "B=b"]);
    list.resolve_entry("B", &ran("x"));
    assert_eq!(list.to_string_vec(), vec!["A=$(a)", "B=b"]);
    list.resolve_entry("MISSING", &ran("x"));
    assert_eq!(list.to_string_vec(), vec!["A=$(a)", "B=b"]);
}

#[test]
fn resolve_all_takes_the_outcomes_in_turn() {
    let mut list = list_of(&[("A", "$(a)"), ("B", "$(b)"), ("C", "c")]);
    let outcomes = vec![
        Resolution { key: "A".to_string(), outcome: ran("1\n") },
        Resolution {
            key: "B".to_string(),
            outcome: ShellOutcome::NotStarted { reason: "gone".to_string() },
        },
    ];
    list.resolve_all(&outcomes);
    assert_eq!(list.to_string_vec(), vec!["C=c", "B=$(b)", "A=1"]);
}

#[test]
fn parse_env_reads_a_line_of_assignments() {
    let env = parse_env("A=1 B=2").unwrap();
    assert_eq!(env.to_string_vec(), vec!["A=1", "B=2"]);
    let env = parse_env("A=1 A=2").unwrap();
    assert_eq!(env.to_string_vec(), vec!["A=2"]);
    let env = parse_env("A=1=2 B=").unwrap();
    assert_eq!(env.to_string_vec(), vec!["A=1", "B="]);
}

#[test]
fn parse_env_wants_an_assignment_in_every_element() {
    assert_eq!(parse_env("A"), None);
    assert_eq!(parse_env(""), None);
    assert_eq!(parse_env("A=1  B=2"), None);
    assert_eq!(parse_env("A=1 B"), None);
}

#[test]
fn env_flags_are_read_in_order() {
    let flags = CommandLineArgs {
        file: String::new(),
        env: vec!["A=1".to_string(), "junk".to_string(), "A=2".to_string(), "B=x=y".to_string()],
        debug: false,
        sshconfig: String::new(),
        disablecolor: false,
        disableprefix: false,
        excepthosts: String::new(),
        onlyhosts: String::new(),
        extra_args: Vec::new(),
    };
    assert_eq!(flags.parse_env().to_string_vec(), vec!["A=2", "B=x=y"]);
}

#[test]
fn resolving_one_variable_leaves_the_others() {
    let mut list = list_of(&[("A", "$(a)"), ("B", "b"), ("C", "$(c)"), ("D", "d")]);
    list.resolve_entry("A", &ran("x"));
    assert_eq!(list.get("B"), Some("b"));
    assert_eq!(list.get("C"), Some("$(c)"));
    assert_eq!(list.get("D"), Some("d"));
    assert_eq!(list.get("A"), Some("x"));
    assert_eq!(list.len(), 4);
    let mut keys = list.keys();
    keys.sort();
    assert_eq!(keys, vec!["A", "B", "C", "D"]);
}

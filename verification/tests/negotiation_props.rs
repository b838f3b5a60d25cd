//! Properties of the negotiation engine on concrete inputs: exclusive
//! groups, the trailing agent feature, never-stacked capabilities, purity
//! of argument derivation, and the capability parsers' error cases.

use gitcore::capabilities::{Capabilities, ParseError, Protocol};
use gitcore::fetch::{agent, Command, Feature};

fn caps_v1(input: &str) -> Capabilities {
    Capabilities::from_bytes(&format!("\0{}", input)).expect("valid input capabilities")
}

fn caps_v2(command: &str, input: &str) -> Capabilities {
    Capabilities::from_lines(&format!("version 2\n{}={}", command, input))
        .expect("valid input for V2 capabilities")
}

fn names(features: &[Feature]) -> Vec<&str> {
    features.iter().map(|f| f.name.as_str()).collect()
}

#[test]
fn never_selects_both_members_of_a_group() {
    let caps = caps_v1("multi_ack multi_ack_detailed side-band side-band-64k");
    let selected = Command::Fetch.default_features(Protocol::V1, &caps);
    let selected = names(&selected);
    assert!(!(selected.contains(&"multi_ack") && selected.contains(&"multi_ack_detailed")));
    assert!(!(selected.contains(&"side-band") && selected.contains(&"side-band-64k")));
    assert_eq!(selected, vec!["side-band-64k", "multi_ack_detailed", "agent"]);
}

#[test]
fn agent_is_always_last_and_unique() {
    let empty = caps_v1(" ");
    for version in [Protocol::V1, Protocol::V2] {
        for command in [Command::Fetch, Command::LsRefs] {
            let selected = command.default_features(version, &empty);
            assert_eq!(*selected.last().expect("never empty"), agent());
            let agents = selected.iter().filter(|f| f.name == "agent").count();
            assert_eq!(agents, 1);
        }
    }
}

#[test]
fn never_stacks_include_tag_no_progress_or_symrefs() {
    let caps = caps_v1("include-tag no-progress symref=HEAD:refs/heads/main thin-pack");
    let selected = Command::Fetch.default_features(Protocol::V1, &caps);
    let selected = names(&selected);
    assert_eq!(selected, vec!["thin-pack", "agent"]);
    let caps = caps_v2("fetch", "include-tag no-progress shallow");
    let selected = Command::Fetch.default_features(Protocol::V2, &caps);
    assert_eq!(names(&selected), vec!["shallow", "agent"]);
}

#[test]
fn initial_arguments_depend_on_features_alone() {
    let features = Command::Fetch.default_features(
        Protocol::V2,
        &caps_v2("fetch", "sideband-all packfile-uris"),
    );
    let once = Command::Fetch.initial_arguments(&features);
    let twice = Command::Fetch.initial_arguments(&features);
    assert_eq!(once, twice);
    assert_eq!(
        once,
        vec![
            "thin-pack".to_string(),
            "include-tag".to_string(),
            "ofs-delta".to_string(),
            "sideband-all".to_string(),
            "packfile-uris".to_string()
        ]
    );
}

#[test]
fn v1_advertisement_without_nul_is_rejected() {
    let err = Capabilities::from_bytes("multi_ack side-band").expect_err("no NUL byte");
    assert_eq!(err, ParseError::MissingDelimitingNullByte);
}

#[test]
fn v2_advertisement_without_version_line_is_rejected() {
    let err = Capabilities::from_lines("fetch=shallow").expect_err("no version marker");
    assert_eq!(err, ParseError::MissingVersionLine);
}

#[test]
fn values_are_split_at_the_first_equals_sign() {
    let caps = caps_v1("agent=git/oxide=x thin-pack");
    assert!(caps.contains("agent"));
    assert!(caps.contains("thin-pack"));
    assert!(!caps.contains("git/oxide=x"));
    assert_eq!(caps.value_of("agent"), Some("git/oxide=x".to_string()));
    assert_eq!(caps.value_of("thin-pack"), None);
    assert_eq!(caps.value_of("absent"), None);
}

#[test]
fn fetch_arguments_validate_against_the_fetch_prefixes() {
    let caps = caps_v1("thin-pack");
    Command::Fetch
        .validate_argument_prefixes_or_panic(
            Protocol::V1,
            &caps,
            &vec![
                "want e0f1e2d3c4b5a69788796a5b4c3d2e1f00112233".to_string(),
                "deepen-since 1592437401".to_string(),
                "filter blob:none".to_string(),
            ],
            &vec![],
        )
        .expect("all three carry permitted prefixes");
    let err = Command::Fetch
        .validate_argument_prefixes_or_panic(
            Protocol::V1,
            &caps,
            &vec!["ref-prefix hello/".to_string()],
            &vec![],
        )
        .expect_err("a fetch request takes no ref-prefix argument");
    assert_eq!(err.command, "fetch");
    assert_eq!(err.argument, "ref-prefix hello/");
}

#[test]
fn v2_selection_keeps_server_order_and_drops_unrecognized_tokens() {
    let caps = caps_v2("fetch", "packfile-uris surprise shallow");
    let selected = Command::Fetch.default_features(Protocol::V2, &caps);
    assert_eq!(names(&selected), vec!["packfile-uris", "shallow", "agent"]);
}

#[test]
fn a_fetch_capability_without_value_offers_no_features() {
    let caps = Capabilities::from_lines("version 2\nfetch").expect("valid advertisement");
    assert!(caps.contains("fetch"));
    let selected = Command::Fetch.default_features(Protocol::V2, &caps);
    assert_eq!(names(&selected), vec!["agent"]);
}

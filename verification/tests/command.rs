//! The negotiation engine on both protocol versions: feature selection,
//! initial arguments, and argument validation.

use gitcore::capabilities::{Capabilities, Protocol};
use gitcore::fetch::{agent, Command, Feature};

fn capabilities(input: &str) -> Capabilities {
    Capabilities::from_bytes(&format!("\0{}", input)).expect("valid input capabilities")
}

fn capabilities_v2(command: &str, input: &str) -> Capabilities {
    Capabilities::from_lines(&format!("version 2\n{}={}", command, input))
        .expect("valid input for V2 capabilities")
}

fn feat(name: &str) -> Feature {
    Feature {
        name: name.to_string(),
        value: None,
    }
}

fn github_capabilities() -> &'static str {
    "multi_ack thin-pack side-band ofs-delta shallow deepen-since deepen-not deepen-relative no-progress include-tag allow-tip-sha1-in-want allow-reachable-sha1-in-want no-done symref=HEAD:refs/heads/main filter agent=git/github-gdf51a71f0236"
}

#[test]
fn it_chooses_the_best_multi_ack_and_sideband() {
    assert_eq!(
        Command::Fetch.default_features(
            Protocol::V1,
            &capabilities("multi_ack side-band side-band-64k multi_ack_detailed")
        ),
        vec![feat("side-band-64k"), feat("multi_ack_detailed"), agent()]
    );
}

#[test]
fn it_chooses_all_supported_non_stacking_capabilities_and_leaves_no_progress() {
    assert_eq!(
        Command::Fetch.default_features(Protocol::V1, &capabilities(github_capabilities())),
        vec![
            feat("multi_ack"),
            feat("thin-pack"),
            feat("side-band"),
            feat("ofs-delta"),
            feat("shallow"),
            feat("deepen-since"),
            feat("deepen-not"),
            feat("deepen-relative"),
            feat("allow-tip-sha1-in-want"),
            feat("allow-reachable-sha1-in-want"),
            feat("no-done"),
            feat("filter"),
            agent()
        ],
        "we don't enforce include-tag or no-progress"
    );
}

#[test]
fn ref_prefixes_cannot_be_used() {
    let err = Command::LsRefs
        .validate_argument_prefixes_or_panic(
            Protocol::V1,
            &capabilities("do-not-matter"),
            &vec!["ref-prefix hello/".to_string()],
            &vec![],
        )
        .expect_err("ref prefixes are not permitted under V1");
    assert_eq!(err.command, "ls-refs");
    assert_eq!(err.argument, "ref-prefix hello/");
}

#[test]
fn default_as_there_are_no_features_yet() {
    assert_eq!(
        Command::LsRefs.initial_arguments(&vec![]),
        vec!["symrefs".to_string(), "peel".to_string()]
    );
}

#[test]
fn all_features() {
    assert_eq!(
        Command::Fetch.default_features(
            Protocol::V2,
            &capabilities_v2("fetch", "shallow filter ref-in-want sideband-all packfile-uris")
        ),
        ["shallow", "filter", "ref-in-want", "sideband-all", "packfile-uris"]
            .iter()
            .map(|s| feat(s))
            .chain(Some(agent()))
            .collect::<Vec<_>>()
    )
}

#[test]
fn for_all_features() {
    assert_eq!(
        Command::Fetch.initial_arguments(&Command::Fetch.default_features(
            Protocol::V2,
            &capabilities_v2("fetch", "shallow filter ref-in-want sideband-all packfile-uris")
        )),
        [
            "thin-pack",
            "include-tag",
            "ofs-delta",
            "sideband-all",
            "ref-in-want",
            "packfile-uris"
        ]
        .iter()
        .map(|s| s.to_string())
        .collect::<Vec<_>>()
    )
}

#[test]
fn default_as_there_are_no_features() {
    assert_eq!(
        Command::LsRefs.default_features(
            Protocol::V2,
            &capabilities_v2("something-else", "does not matter as there are none")
        ),
        vec![agent()]
    );
}

#[test]
fn ref_prefixes_always_be_used() {
    Command::LsRefs
        .validate_argument_prefixes_or_panic(
            Protocol::V2,
            &capabilities_v2("something else", "do-not-matter"),
            &vec!["ref-prefix hello/".to_string()],
            &vec![],
        )
        .expect("ref prefixes are always permitted under V2");
}

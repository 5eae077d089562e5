use tokensave::cloud::{
    bump_kind, is_beta, is_newer_minor_version, is_newer_version, parse_version, release_channel, BumpKind, Channel,
};

#[test]
fn versions_are_split_into_numbers_and_tag() {
    assert_eq!(parse_version("2.5.0"), Some((2, 5, 0, None)));
    assert_eq!(parse_version("2.5.0-beta.1"), Some((2, 5, 0, Some("beta.1"))));
    assert_eq!(parse_version("2.5.0-rc-1-x"), Some((2, 5, 0, Some("rc-1-x"))));
    assert_eq!(parse_version("2.5.0-"), Some((2, 5, 0, Some(""))));
    assert_eq!(parse_version("1.2.3.4"), Some((1, 2, 3, None)));
    assert_eq!(parse_version("1.2.3."), Some((1, 2, 3, None)));
    assert_eq!(parse_version("+1.02.003"), Some((1, 2, 3, None)));
    assert_eq!(
        parse_version("18446744073709551615.0.0-\u{3b2}"),
        Some((u64::MAX, 0, 0, Some("\u{3b2}")))
    );
}

#[test]
fn malformed_versions_are_refused() {
    for bad in [
        "", "1", "1.2", "1.2.", "a.b.c", "1.2.x", "1..3", ".1.2", "v1.2.3", " 1.2.3", "1.2.3 ", "-1.2.3", "1.2-3.4",
        "+.1.2", "++1.2.3", "1.2.\u{663}", "18446744073709551616.0.0", "1.99999999999999999999.0",
    ] {
        assert_eq!(parse_version(bad), None, "{bad}");
    }
}

#[test]
fn numbers_decide_first() {
    assert!(is_newer_version("1.2.3", "1.2.4"));
    assert!(is_newer_version("1.2.9", "1.3.0"));
    assert!(is_newer_version("1.9.9", "2.0.0"));
    assert!(is_newer_version("1.9.0", "1.10.0"));
    assert!(is_newer_version("2.5.0-beta.9", "2.5.1-beta.1"));
    assert!(!is_newer_version("2.0.0", "1.9.9"));
    assert!(!is_newer_version("1.2.3", "garbage"));
    assert!(!is_newer_version("garbage", "1.2.3"));
}

#[test]
fn tags_decide_in_dictionary_order() {
    assert!(is_newer_version("2.5.0-beta.1", "2.5.0-beta.2"));
    assert!(is_newer_version("2.5.0-beta", "2.5.0-beta.1"));
    assert!(is_newer_version("2.5.0-", "2.5.0-a"));
    assert!(is_newer_version("2.5.0-alpha", "2.5.0-beta"));
    // As text, `10` stands before `9`.
    assert!(is_newer_version("2.5.0-beta.10", "2.5.0-beta.9"));
    assert!(!is_newer_version("2.5.0-beta.9", "2.5.0-beta.10"));
    assert!(is_newer_version("2.5.0-z", "2.5.0-\u{e9}"));
    assert!(is_newer_version("2.5.0-\u{ffff}", "2.5.0-\u{10000}"));
}

#[test]
fn no_version_is_newer_than_itself() {
    for v in ["1.2.3", "2.5.0-beta.1", "", "x"] {
        assert!(!is_newer_version(v, v));
    }
}

#[test]
fn order_is_asymmetric_transitive_and_total_within_a_channel() {
    for channel in [
        ["0.0.1", "0.1.0", "0.1.1", "1.0.0", "10.0.0"],
        ["1.0.0-a", "1.0.0-b", "1.0.0-b.1", "1.0.1-a", "2.0.0-"],
    ] {
        for (i, a) in channel.iter().enumerate() {
            for (j, b) in channel.iter().enumerate() {
                assert_eq!(is_newer_version(a, b), i < j, "{a} {b}");
            }
        }
    }
}

#[test]
fn channels_never_cross() {
    assert!(!is_newer_version("1.0.0", "2.0.0-beta.1"));
    assert!(!is_newer_version("1.0.0-beta.1", "2.0.0"));
    assert!(!is_newer_minor_version("1.0.0", "2.0.0-beta.1"));
    assert_eq!(bump_kind("1.0.0", "2.0.0-beta.1"), BumpKind::NoBump);
    assert_eq!(bump_kind("1.0.0-beta.1", "2.0.0"), BumpKind::NoBump);
}

#[test]
fn patch_releases_are_not_minor_steps() {
    assert!(!is_newer_minor_version("1.2.3", "1.2.4"));
    assert!(!is_newer_minor_version("2.5.0-beta.1", "2.5.0-beta.2"));
    assert!(!is_newer_minor_version("1.3.0", "1.2.0"));
    assert!(!is_newer_minor_version("1.2.3", "x"));
    assert!(is_newer_minor_version("1.2.3", "1.3.0"));
    assert!(is_newer_minor_version("1.2.3", "2.0.0"));
    assert!(is_newer_minor_version("2.5.0-beta.1", "2.6.0-beta.1"));
}

#[test]
fn bump_kind_examples() {
    assert_eq!(bump_kind("6.4.4", "7.0.0"), BumpKind::Major);
    assert_eq!(bump_kind("6.4.4", "6.5.0"), BumpKind::Minor);
    assert_eq!(bump_kind("6.4.4", "6.4.5"), BumpKind::Patch);
    assert_eq!(bump_kind("6.4.4", "6.4.4"), BumpKind::NoBump);
}

#[test]
fn downgrades_call_for_nothing() {
    assert_eq!(bump_kind("6.4.4", "6.4.3"), BumpKind::NoBump);
    assert_eq!(bump_kind("6.4.4", "6.3.9"), BumpKind::NoBump);
    assert_eq!(bump_kind("6.4.4", "5.9.9"), BumpKind::NoBump);
    assert_eq!(bump_kind("6.4.4", "nonsense"), BumpKind::NoBump);
}

#[test]
fn newer_tags_of_one_base_are_patches() {
    assert_eq!(bump_kind("2.5.0-beta.1", "2.5.0-beta.2"), BumpKind::Patch);
    assert_eq!(bump_kind("2.5.0-beta.2", "2.5.0-beta.1"), BumpKind::NoBump);
}

#[test]
fn unreadable_record_is_refreshed_on_either_channel() {
    assert_eq!(bump_kind("", "7.0.0"), BumpKind::Major);
    assert_eq!(bump_kind("unknown", "0.0.1"), BumpKind::Major);
    assert_eq!(bump_kind("", "7.0.0-beta.1"), BumpKind::Major);
    assert_eq!(bump_kind("unknown", "0.0.1-rc"), BumpKind::Major);
    assert_eq!(bump_kind("", ""), BumpKind::NoBump);
    assert_eq!(bump_kind("unknown", "x-beta"), BumpKind::NoBump);
}

#[test]
fn bump_agrees_with_the_order() {
    let versions = ["0.9.9", "1.0.0", "1.0.1", "1.1.0", "2.0.0-a", "2.0.0-b", "2.1.0-a", "x"];
    for a in &versions[..7] {
        for b in &versions {
            let bump = bump_kind(a, b);
            assert_eq!(bump != BumpKind::NoBump, is_newer_version(a, b), "{a} {b}");
            assert_eq!(
                bump == BumpKind::Minor || bump == BumpKind::Major,
                is_newer_minor_version(a, b),
                "{a} {b}"
            );
        }
    }
}

#[test]
fn a_dash_marks_a_beta() {
    assert!(is_beta("2.5.0-beta.1"));
    assert!(!is_beta("2.5.0"));
    assert!(!is_beta(""));
    assert_eq!(release_channel("2.5.0-beta.1"), Channel::Beta);
    assert_eq!(release_channel("2.5.0"), Channel::Stable);
}

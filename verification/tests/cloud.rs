use std::time::Duration;
use tokensave::cloud::{
    agent_with_timeout, asset_name, current_platform, release_has_current_platform_asset, select_beta, select_stable,
    update_check_enabled_from, upload_is_due, Arch, AgentConfig, GitHubAsset, GitHubRelease, Host, Os, TrustStore,
    VersionCheckError, FAILED_ATTEMPT_COOLDOWN_SECS, UPLOAD_INTERVAL_SECS,
};
use tokensave::user_config::UserConfig;

/// Every machine that the release matrix tells apart.
fn hosts() -> Vec<Host> {
    let mut all = Vec::new();
    for os in [Os::MacOs, Os::Linux, Os::Windows, Os::Other] {
        for arch in [Arch::X86_64, Arch::Aarch64, Arch::Other] {
            all.push(Host { os, arch });
        }
    }
    all
}

/// A client must come out with the limit and the trust anchor asked for, and
/// building it must not panic: a mismatch would otherwise surface only as an
/// unexplained crash on a user's first HTTPS call.
#[test]
fn agent_with_timeout_builds_with_platform_roots() {
    let agent = agent_with_timeout(Duration::from_secs(1));
    assert_eq!(
        agent.configuration(),
        AgentConfig {
            timeout_global: Some(Duration::from_secs(1)),
            root_certs: TrustStore::Platform,
            disable_verification: false,
        }
    );
    let config = agent.as_client().config();
    assert_eq!(config.timeouts().global, Some(Duration::from_secs(1)));
    assert!(matches!(config.tls_config().root_certs(), ureq::tls::RootCerts::PlatformVerifier));
    assert!(!config.tls_config().disable_verification());
}

fn cfg(pending: u64, last_upload_at: i64, last_attempt_at: i64) -> UserConfig {
    UserConfig {
        upload_enabled: true,
        pending_upload: pending,
        last_upload_at,
        last_flush_attempt_at: last_attempt_at,
    }
}

const DAY: i64 = UPLOAD_INTERVAL_SECS;

#[test]
fn upload_is_due_only_once_a_day() {
    let now = 10 * DAY;
    assert!(
        !upload_is_due(&cfg(500, now - 60, 0), now),
        "an upload a minute ago must not trigger another"
    );
    assert!(
        !upload_is_due(&cfg(500, now - (DAY - 1), 0), now),
        "one second short of a day is not due"
    );
    assert!(
        upload_is_due(&cfg(500, now - DAY, now - DAY), now),
        "a full day since the last success is due"
    );
}

#[test]
fn upload_is_due_on_a_machine_that_has_never_uploaded() {
    // `last_upload_at` is 0 until the first success, which must read as due
    // rather than as "uploaded at the epoch, wait a day".
    assert!(upload_is_due(&cfg(500, 0, 0), 10 * DAY));
}

#[test]
fn nothing_to_send_or_opted_out_is_never_due() {
    let now = 10 * DAY;
    assert!(
        !upload_is_due(&cfg(0, 0, 0), now),
        "no pending tokens means no request"
    );
    let mut opted_out = cfg(500, 0, 0);
    opted_out.upload_enabled = false;
    assert!(!upload_is_due(&opted_out, now), "opt-out is honored");
}

#[test]
fn a_failed_attempt_backs_off_briefly_then_retries() {
    let now = 10 * DAY;
    // A failure leaves `last_upload_at` behind `last_flush_attempt_at`, so
    // the daily gate is still open: the cooldown is the only thing stopping a
    // request per command while the network is down.
    let just_failed = cfg(500, now - 5 * DAY, now - 1);
    assert!(!upload_is_due(&just_failed, now));

    let failed_a_while_ago = cfg(500, now - 5 * DAY, now - FAILED_ATTEMPT_COOLDOWN_SECS);
    assert!(
        upload_is_due(&failed_a_while_ago, now),
        "the cooldown must expire, or a single failure would wedge uploads for a day"
    );
}

#[test]
fn update_check_defaults_on_and_honors_off_values() {
    assert!(update_check_enabled_from(None));
    assert!(update_check_enabled_from(Some("on")));
    assert!(update_check_enabled_from(Some("1")));
    assert!(update_check_enabled_from(Some("please")));
    for off in ["off", "OFF", " Off ", "false", "0", "no", "disable", "disabled"] {
        assert!(!update_check_enabled_from(Some(off)), "{off} should disable");
    }
}

fn release(tag: &str, prerelease: bool, asset_names: &[&str]) -> GitHubRelease {
    GitHubRelease {
        tag_name: tag.to_string(),
        prerelease,
        assets: asset_names.iter().map(|n| GitHubAsset { name: (*n).to_string() }).collect(),
    }
}

#[test]
fn skips_release_with_no_assets() {
    // A release that was just created: uploading has not started yet.
    for host in hosts() {
        let r = release("v9.9.9", false, &[]);
        assert!(!release_has_current_platform_asset(&r, host));
    }
}

#[test]
fn skips_release_missing_current_platform_asset() {
    // Other platforms uploaded but ours hasn't yet. Detection should treat this
    // as "no upgrade for me" so the user isn't told about a version they cannot
    // install.
    for host in hosts() {
        let r = release(
            "v9.9.9",
            false,
            &[
                "tokensave-v9.9.9-some-other-platform.tar.gz",
                "tokensave-v9.9.9-yet-another-platform.tar.gz",
            ],
        );
        assert!(!release_has_current_platform_asset(&r, host));
    }
}

#[test]
fn accepts_release_with_matching_asset() {
    for host in hosts() {
        let expected = asset_name("9.9.9", false, host);
        let r = release("v9.9.9", false, &[&expected]);
        assert!(release_has_current_platform_asset(&r, host));
    }
}

#[test]
fn accepts_beta_release_with_matching_beta_asset() {
    for host in hosts() {
        let expected = asset_name("9.9.9-beta.1", true, host);
        let r = release("v9.9.9-beta.1", true, &[&expected]);
        assert!(release_has_current_platform_asset(&r, host));
    }
}

// A missing asset must be distinguishable from an unreachable host.

#[test]
fn stable_selection_reports_missing_asset_not_unreachable() {
    for host in hosts() {
        // A published asset list, minus whichever entry matches the machine.
        let mine = asset_name("7.11.1", false, host);
        let published: Vec<String> = [
            "tokensave-v7.11.1-aarch64-linux.tar.gz",
            "tokensave-v7.11.1-aarch64-macos.tar.gz",
            "tokensave-v7.11.1-x86_64-linux.tar.gz",
        ]
        .iter()
        .map(|n| (*n).to_string())
        .filter(|n| *n != mine)
        .collect();
        let names: Vec<&str> = published.iter().map(String::as_str).collect();
        let r = release("v7.11.1", false, &names);
        let err = select_stable(&r, host).expect_err("no asset for this platform");
        match &err {
            VersionCheckError::NoAssetForPlatform { version, available, .. } => {
                assert_eq!(version, "7.11.1");
                assert_eq!(available.len(), names.len());
            }
            other => panic!("expected NoAssetForPlatform, got {other:?}"),
        }
        let msg = err.message();
        assert!(msg.contains("7.11.1"), "{msg}");
        assert!(msg.contains(current_platform(host)), "{msg}");
        assert!(
            !msg.contains("could not reach"),
            "a missing asset must not be reported as a network fault: {msg}"
        );
    }
}

#[test]
fn stable_selection_returns_version_when_asset_present() {
    for host in hosts() {
        let r = release("v9.9.9", false, &[&asset_name("9.9.9", false, host)]);
        assert_eq!(select_stable(&r, host).unwrap(), "9.9.9");
    }
}

#[test]
fn beta_selection_skips_incomplete_release_for_older_complete_one() {
    for host in hosts() {
        // Newest beta is still uploading; the one before it is installable.
        let releases = vec![
            release("v9.9.9-beta.2", true, &[]),
            release("v9.9.9-beta.1", true, &[&asset_name("9.9.9-beta.1", true, host)]),
        ];
        assert_eq!(select_beta(releases, host).unwrap(), "9.9.9-beta.1");
    }
}

#[test]
fn beta_selection_reports_newest_prerelease_when_none_installable() {
    for host in hosts() {
        let releases = vec![
            release("v9.9.9-beta.2", true, &["tokensave-beta-v9.9.9-beta.2-other.tar.gz"]),
            release("v9.9.8", false, &[&asset_name("9.9.8", false, host)]),
        ];
        match select_beta(releases, host).expect_err("no installable beta") {
            VersionCheckError::NoAssetForPlatform { version, .. } => {
                assert_eq!(version, "9.9.9-beta.2");
            }
            other => panic!("expected NoAssetForPlatform, got {other:?}"),
        }
    }
}

#[test]
fn beta_selection_reports_no_release_when_channel_is_empty() {
    for host in hosts() {
        let releases = vec![release("v9.9.8", false, &[&asset_name("9.9.8", false, host)])];
        assert!(matches!(
            select_beta(releases, host).expect_err("no betas at all"),
            VersionCheckError::NoRelease { channel: "beta" }
        ));
    }
}

#[test]
fn unreachable_keeps_the_network_wording_and_carries_the_cause() {
    let err = VersionCheckError::Unreachable { detail: "http status: 503".to_string() };
    let msg = err.message();
    assert!(msg.contains("could not reach GitHub"), "{msg}");
    assert!(
        msg.contains("503"),
        "the underlying cause is worth surfacing: {msg}"
    );
}

#[test]
fn rejects_stable_named_asset_on_beta_release() {
    // If someone uploads a `tokensave-v...` asset to a prerelease, the filter
    // should still reject: by convention beta releases carry
    // `tokensave-beta-v...` assets.
    for host in hosts() {
        let stable_name = asset_name("9.9.9-beta.1", false, host);
        let r = release("v9.9.9-beta.1", true, &[&stable_name]);
        assert!(!release_has_current_platform_asset(&r, host));
    }
}

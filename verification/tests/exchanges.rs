use std::time::Duration;
use tokensave::cloud::{
    agent_with_timeout, asset_name, country_flags_request, current_platform, detect_install_method,
    fetch_country_flags, fetch_latest_beta_version, fetch_latest_stable_version, fetch_latest_version,
    fetch_latest_version_passive, fetch_worldwide_total, flush_pending, flush_request, no_asset_error,
    passive_release_channel, release_request, select_beta, try_fetch_latest_beta_version,
    try_fetch_latest_stable_version, try_fetch_latest_version, update_check_enabled_from, upgrade_command,
    upload_is_due, worldwide_total_request, Arch, Channel, CountriesResponse, GitHubAsset, GitHubRelease, Host,
    InstallMethod, Method, Os, ReleaseReply, VersionCheckError, WorkerResponse, FAILED_ATTEMPT_COOLDOWN_SECS,
    UPLOAD_INTERVAL_SECS,
};
use tokensave::user_config::UserConfig;

const LINUX: Host = Host { os: Os::Linux, arch: Arch::X86_64 };
const WINDOWS: Host = Host { os: Os::Windows, arch: Arch::Aarch64 };

fn release(tag: &str, prerelease: bool, names: &[&str]) -> GitHubRelease {
    GitHubRelease {
        tag_name: tag.to_string(),
        prerelease,
        assets: names.iter().map(|n| GitHubAsset { name: (*n).to_string() }).collect(),
    }
}

fn stable() -> GitHubRelease {
    release("v1.2.3", false, &["notes.txt", "tokensave-v1.2.3-x86_64-linux.tar.gz"])
}

fn beta() -> GitHubRelease {
    release("v1.3.0-beta.1", true, &["tokensave-beta-v1.3.0-beta.1-x86_64-linux.tar.gz"])
}

#[test]
fn hosts_are_known_by_name() {
    assert_eq!(Host::from_names("linux", "x86_64"), LINUX);
    assert_eq!(Host::from_names("windows", "aarch64"), WINDOWS);
    assert_eq!(Host::from_names("macos", "aarch64"), Host { os: Os::MacOs, arch: Arch::Aarch64 });
    assert_eq!(Host::from_names("freebsd", "riscv64"), Host { os: Os::Other, arch: Arch::Other });
    assert_eq!(Host::from_names("Linux", ""), Host { os: Os::Other, arch: Arch::Other });
}

#[test]
fn platforms_have_the_slugs_of_the_release_matrix() {
    for (os, arch, slug) in [
        ("macos", "aarch64", "aarch64-macos"),
        ("macos", "x86_64", "x86_64-macos"),
        ("linux", "x86_64", "x86_64-linux"),
        ("linux", "aarch64", "aarch64-linux"),
        ("windows", "x86_64", "x86_64-windows"),
        ("windows", "aarch64", "x86_64-windows"),
        ("windows", "arm", "x86_64-windows"),
        ("linux", "riscv64", "unknown"),
        ("macos", "powerpc", "unknown"),
        ("freebsd", "x86_64", "unknown"),
    ] {
        assert_eq!(current_platform(Host::from_names(os, arch)), slug);
    }
}

#[test]
fn assets_are_named_by_channel_version_and_platform() {
    assert_eq!(asset_name("1.2.3", false, LINUX), "tokensave-v1.2.3-x86_64-linux.tar.gz");
    assert_eq!(asset_name("1.2.3-b", true, LINUX), "tokensave-beta-v1.2.3-b-x86_64-linux.tar.gz");
    assert_eq!(asset_name("1.2.3", false, WINDOWS), "tokensave-v1.2.3-x86_64-windows.zip");
    assert_eq!(
        asset_name("1", true, Host { os: Os::Other, arch: Arch::Other }),
        "tokensave-beta-v1-unknown.tar.gz"
    );
    assert_ne!(asset_name("beta-v1", false, LINUX), asset_name("1", true, LINUX));
    assert_ne!(asset_name("1.2.3", false, LINUX), asset_name("1.2.4", false, LINUX));
}

#[test]
fn all_leading_vs_of_a_tag_go() {
    let r = release("vv1.2.3v", false, &["tokensave-v1.2.3v-x86_64-linux.tar.gz"]);
    assert_eq!(try_fetch_latest_stable_version(Ok(r), LINUX), Ok("1.2.3v".to_string()));
}

#[test]
fn missing_asset_is_described() {
    let expected = VersionCheckError::NoAssetForPlatform {
        version: "1.2.3".to_string(),
        platform: "x86_64-windows".to_string(),
        expected: "tokensave-v1.2.3-x86_64-windows.zip".to_string(),
        available: vec!["notes.txt".to_string(), "tokensave-v1.2.3-x86_64-linux.tar.gz".to_string()],
    };
    assert_eq!(no_asset_error(&stable(), WINDOWS), expected);
    assert_eq!(try_fetch_latest_stable_version(Ok(stable()), WINDOWS), Err(expected));
}

#[test]
fn messages_have_their_wording() {
    assert_eq!(
        tokensave::cloud::release::unreachable("timeout".to_string()).message(),
        "could not reach GitHub (timeout)"
    );
    assert_eq!(
        no_asset_error(&stable(), WINDOWS).message(),
        "v1.2.3 has no asset for x86_64-windows (expected tokensave-v1.2.3-x86_64-windows.zip); \
         published assets: notes.txt, tokensave-v1.2.3-x86_64-linux.tar.gz"
    );
    assert_eq!(
        no_asset_error(&release("v1", true, &[]), LINUX).message(),
        "v1 has no asset for x86_64-linux (expected tokensave-beta-v1-x86_64-linux.tar.gz); \
         that release publishes no assets at all"
    );
    assert_eq!(
        VersionCheckError::NoRelease { channel: "beta" }.message(),
        "no beta release has been published"
    );
}

#[test]
fn stable_releases_do_not_affect_the_beta_channel() {
    assert_eq!(select_beta(vec![stable(), beta(), stable()], LINUX), select_beta(vec![beta()], LINUX));
    assert_eq!(select_beta(vec![stable(), beta()], WINDOWS), select_beta(vec![beta()], WINDOWS));
    assert_eq!(select_beta(vec![stable()], LINUX), select_beta(vec![], LINUX));
}

#[test]
fn first_installable_beta_is_announced() {
    let older = release("v1.3.0-beta.0", true, &["tokensave-beta-v1.3.0-beta.0-x86_64-linux.tar.gz"]);
    assert_eq!(select_beta(vec![beta(), older], LINUX), Ok("1.3.0-beta.1".to_string()));
}

#[test]
fn a_fault_is_reported_with_its_cause() {
    let fault = || "connection refused".to_string();
    let unreachable = VersionCheckError::Unreachable { detail: fault() };
    assert_eq!(try_fetch_latest_stable_version(Err(fault()), LINUX), Err(unreachable.clone()));
    assert_eq!(try_fetch_latest_beta_version(Err(fault()), LINUX), Err(unreachable.clone()));
    assert_eq!(
        try_fetch_latest_version(ReleaseReply::Stable(Err(fault())), LINUX),
        Err(unreachable.clone())
    );
    assert_eq!(try_fetch_latest_version(ReleaseReply::Beta(Err(fault())), LINUX), Err(unreachable));
    assert_eq!(fetch_latest_version(ReleaseReply::Stable(Err(fault())), LINUX), None);
}

#[test]
fn replies_yield_versions() {
    assert_eq!(fetch_latest_stable_version(Ok(stable()), LINUX), Some("1.2.3".to_string()));
    assert_eq!(fetch_latest_stable_version(Ok(stable()), WINDOWS), None);
    assert_eq!(fetch_latest_beta_version(Ok(vec![stable(), beta()]), LINUX), Some("1.3.0-beta.1".to_string()));
    assert_eq!(fetch_latest_beta_version(Ok(vec![stable()]), LINUX), None);
    assert_eq!(
        fetch_latest_version(ReleaseReply::Stable(Ok(stable())), LINUX),
        Some("1.2.3".to_string())
    );
    assert_eq!(
        try_fetch_latest_version(ReleaseReply::Beta(Ok(vec![stable()])), LINUX),
        Err(VersionCheckError::NoRelease { channel: "beta" })
    );
}

#[test]
fn silenced_notice_asks_and_announces_nothing() {
    let reply = || Some(ReleaseReply::Stable(Ok(stable())));
    assert_eq!(passive_release_channel(Some("off"), "1.0.0"), None);
    assert_eq!(fetch_latest_version_passive(Some("off"), reply(), LINUX), None);
    assert_eq!(passive_release_channel(None, "1.0.0"), Some(Channel::Stable));
    assert_eq!(passive_release_channel(Some("yes"), "1.0.0-beta.1"), Some(Channel::Beta));
    assert_eq!(fetch_latest_version_passive(None, reply(), LINUX), Some("1.2.3".to_string()));
    assert_eq!(fetch_latest_version_passive(None, None, LINUX), None);
}

#[test]
fn case_and_padding_of_the_switch_do_not_matter() {
    for off in ["\tFaLsE\n", "NO", "\u{3000}Disable\u{a0}", "DISABLED", "\u{2003}0"] {
        assert!(!update_check_enabled_from(Some(off)), "{off}");
    }
    for on in ["", " ", "o ff", "offf", "00", "\u{200b}off", "\u{ff2f}ff", "n", "disable d"] {
        assert!(update_check_enabled_from(Some(on)), "{on}");
    }
}

#[test]
fn release_requests_go_to_the_endpoint_of_their_channel() {
    let asked = release_request(Channel::Stable);
    assert_eq!(asked.url, "https://api.github.com/repos/aovestdipaperino/tokensave/releases/latest");
    assert_eq!(asked.method, Method::Get);
    assert_eq!(asked.user_agent, Some("tokensave"));
    assert_eq!(asked.timeout_ms, 1000);
    let asked = release_request(Channel::Beta);
    assert_eq!(asked.url, "https://api.github.com/repos/aovestdipaperino/tokensave/releases?per_page=10");
    assert_eq!(asked.method, Method::Get);
    assert_eq!(asked.user_agent, Some("tokensave"));
    assert_eq!(asked.timeout_ms, 1000);
}

#[test]
fn counter_requests_are_spelled_out() {
    let flush = flush_request(7).unwrap();
    assert_eq!(flush.url, "https://tokensave-counter.enzinol.workers.dev/increment");
    assert_eq!(flush.method, Method::Post { amount: 7 });
    assert_eq!(flush.user_agent, None);
    assert_eq!(flush.timeout_ms, 2000);
    let total = worldwide_total_request();
    assert_eq!(total.url, "https://tokensave-counter.enzinol.workers.dev/total");
    assert_eq!(total.method, Method::Get);
    assert_eq!(total.timeout_ms, 1000);
    let flags = country_flags_request();
    assert_eq!(flags.url, "https://tokensave-counter.enzinol.workers.dev/countries");
    assert_eq!(flags.method, Method::Get);
    assert_eq!(flags.timeout_ms, 500);
}

#[test]
fn nothing_pending_sends_nothing() {
    assert!(flush_request(0).is_none());
    assert_eq!(flush_pending(0, None), None);
    assert_eq!(flush_pending(0, Some(Ok(WorkerResponse { total: 9 }))), None);
}

#[test]
fn counter_replies_are_best_effort() {
    assert_eq!(flush_pending(7, Some(Ok(WorkerResponse { total: 9 }))), Some(9));
    assert_eq!(flush_pending(7, Some(Err("timeout".to_string()))), None);
    assert_eq!(flush_pending(7, None), None);
    assert_eq!(fetch_worldwide_total(Ok(WorkerResponse { total: 12 })), Some(12));
    assert_eq!(fetch_worldwide_total(Err("timeout".to_string())), None);
    let flags = vec!["\u{1f1ee}\u{1f1f9}".to_string(), "\u{1f1eb}\u{1f1f7}".to_string()];
    assert_eq!(fetch_country_flags(Ok(CountriesResponse { flags: flags.clone() })), flags);
    assert!(fetch_country_flags(Err("timeout".to_string())).is_empty());
}

#[test]
fn due_stays_due_and_a_failure_costs_one_cooldown() {
    let now = 10 * UPLOAD_INTERVAL_SECS;
    let mut config = UserConfig {
        upload_enabled: true,
        pending_upload: 1,
        last_upload_at: now - UPLOAD_INTERVAL_SECS,
        last_flush_attempt_at: 0,
    };
    assert!(upload_is_due(&config, now));
    assert!(upload_is_due(&config, now + 1));
    config.last_flush_attempt_at = now;
    assert!(!upload_is_due(&config, now));
    assert!(!upload_is_due(&config, now + FAILED_ATTEMPT_COOLDOWN_SECS - 1));
    assert!(upload_is_due(&config, now + FAILED_ATTEMPT_COOLDOWN_SECS));
    config.last_upload_at = now;
    assert!(!upload_is_due(&config, now + UPLOAD_INTERVAL_SECS - 1));
    assert!(upload_is_due(&config, now + UPLOAD_INTERVAL_SECS));
}

#[test]
fn a_clock_less_than_a_day_past_the_epoch_is_not_due() {
    let config = UserConfig {
        upload_enabled: true,
        pending_upload: 1,
        last_upload_at: 0,
        last_flush_attempt_at: 0,
    };
    assert!(!upload_is_due(&config, UPLOAD_INTERVAL_SECS - 1));
}

#[test]
fn install_method_is_told_by_the_path() {
    for (path, method) in [
        ("/home/u/.cargo/bin/tokensave", InstallMethod::Cargo),
        ("C:\\Users\\u\\.cargo\\bin\\tokensave.exe", InstallMethod::Cargo),
        ("/opt/homebrew/bin/tokensave", InstallMethod::Brew),
        ("/usr/local/Cellar/tokensave/1/bin/tokensave", InstallMethod::Brew),
        ("C:\\Users\\u\\scoop\\apps\\tokensave.exe", InstallMethod::Scoop),
        ("/c/scoop/apps/tokensave", InstallMethod::Scoop),
        ("/opt/homebrew/.cargo/bin/scoop/x", InstallMethod::Cargo),
        ("/scoop/Cellar/x", InstallMethod::Brew),
        ("/usr/bin/tokensave", InstallMethod::Unknown),
        ("/home/scooper/homebrew", InstallMethod::Unknown),
        ("", InstallMethod::Unknown),
    ] {
        assert_eq!(detect_install_method(Some(path)), method, "{path}");
    }
    assert_eq!(detect_install_method(None), InstallMethod::Unknown);
}

#[test]
fn upgrade_command_is_the_same_for_all() {
    for method in [InstallMethod::Cargo, InstallMethod::Brew, InstallMethod::Scoop, InstallMethod::Unknown] {
        assert_eq!(upgrade_command(&method), "tokensave upgrade");
    }
}

#[test]
fn clients_keep_the_limit_asked_for() {
    for limit in [Duration::ZERO, Duration::from_nanos(1), Duration::from_millis(500), Duration::MAX] {
        let agent = agent_with_timeout(limit);
        assert_eq!(agent.configuration().timeout_global, Some(limit));
        assert_eq!(agent.as_client().config().timeouts().global, Some(limit));
    }
}

//! The worldwide token counter and the check for newer releases.
//!
//! All exchanges are best effort with timeouts: every failure is a value that
//! the functions here take, and none of them blocks the caller.

pub mod agent;
pub mod install;
pub mod release;
pub mod request;
pub mod text;
pub mod update_check;
pub mod upload;
pub mod version;

pub use agent::{AgentConfig, HttpAgent, TrustStore};
pub use install::{detect_install_method, upgrade_command, InstallMethod};
pub use release::{
    asset_name, current_platform, no_asset_error, release_has_current_platform_asset, select_beta, select_stable,
    Arch, GitHubAsset, GitHubRelease, Host, Os, VersionCheckError, VersionResult,
};
pub use request::{agent_with_timeout, Method, Reply, Request};
pub use update_check::{
    fetch_latest_beta_version, fetch_latest_stable_version, fetch_latest_version, fetch_latest_version_passive,
    passive_release_channel, release_channel, release_request, try_fetch_latest_beta_version,
    try_fetch_latest_stable_version, try_fetch_latest_version, update_check_enabled_from, Channel, ReleaseReply,
};
pub use upload::{
    country_flags_request, fetch_country_flags, fetch_worldwide_total, flush_pending, flush_request, upload_is_due,
    worldwide_total_request, CountriesResponse, WorkerResponse, FAILED_ATTEMPT_COOLDOWN_SECS, UPLOAD_INTERVAL_SECS,
};
pub use version::{bump_kind, is_beta, is_newer_minor_version, is_newer_version, parse_version, BumpKind};

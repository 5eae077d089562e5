//! Releases, the assets they publish per platform, and the choice of the
//! version to announce.

use super::text;
use vstd::prelude::*;

verus! {

/// Operating systems that the release matrix tells apart.
#[derive(Debug, Clone, Copy, PartialEq, Eq, Structural)]
pub enum Os {
    MacOs,
    Linux,
    Windows,
    Other,
}

/// Processor architectures that the release matrix tells apart.
#[derive(Debug, Clone, Copy, PartialEq, Eq, Structural)]
pub enum Arch {
    X86_64,
    Aarch64,
    Other,
}

/// The machine that the running binary was built for.
#[derive(Debug, Clone, Copy, PartialEq, Eq, Structural)]
pub struct Host {
    pub os: Os,
    pub arch: Arch,
}

/// The operating system of the given name, as the compiler names its targets.
pub open spec fn os_named(name: Seq<char>) -> Os {
    if name == "macos"@ {
        Os::MacOs
    } else if name == "linux"@ {
        Os::Linux
    } else if name == "windows"@ {
        Os::Windows
    } else {
        Os::Other
    }
}

/// The architecture of the given name, as the compiler names its targets.
pub open spec fn arch_named(name: Seq<char>) -> Arch {
    if name == "x86_64"@ {
        Arch::X86_64
    } else if name == "aarch64"@ {
        Arch::Aarch64
    } else {
        Arch::Other
    }
}

impl Host {
    /// The machine with the given names of operating system and architecture.
    pub fn from_names(os: &str, arch: &str) -> (r: Host)
        ensures
            r == (Host { os: os_named(os@), arch: arch_named(arch@) }),
    {
        let os = if text::same_text(os, "macos") {
            Os::MacOs
        } else if text::same_text(os, "linux") {
            Os::Linux
        } else if text::same_text(os, "windows") {
            Os::Windows
        } else {
            Os::Other
        };
        let arch = if text::same_text(arch, "x86_64") {
            Arch::X86_64
        } else if text::same_text(arch, "aarch64") {
            Arch::Aarch64
        } else {
            Arch::Other
        };
        Host { os, arch }
    }
}

/// The slug of a platform in the release matrix. Windows has one build, for
/// every architecture.
pub open spec fn platform_of(host: Host) -> Seq<char> {
    match (host.os, host.arch) {
        (Os::MacOs, Arch::Aarch64) => "aarch64-macos"@,
        (Os::MacOs, Arch::X86_64) => "x86_64-macos"@,
        (Os::Linux, Arch::X86_64) => "x86_64-linux"@,
        (Os::Linux, Arch::Aarch64) => "aarch64-linux"@,
        (Os::Windows, _) => "x86_64-windows"@,
        _ => "unknown"@,
    }
}

/// The ending of the archives for `host`.
pub open spec fn extension_of(host: Host) -> Seq<char> {
    if host.os == Os::Windows {
        "zip"@
    } else {
        "tar.gz"@
    }
}

/// What the names of the assets of a channel start with.
pub open spec fn asset_prefix(is_beta: bool) -> Seq<char> {
    if is_beta {
        "tokensave-beta"@
    } else {
        "tokensave"@
    }
}

/// The name of the archive that a release of `version` publishes for `host`.
pub open spec fn asset_of(version: Seq<char>, is_beta: bool, host: Host) -> Seq<char> {
    asset_prefix(is_beta) + "-v"@ + version + "-"@ + platform_of(host) + "."@ + extension_of(host)
}

/// Returns the platform slug matching the release matrix.
pub fn current_platform(host: Host) -> (r: &'static str)
    ensures
        r@ == platform_of(host),
{
    match (host.os, host.arch) {
        (Os::MacOs, Arch::Aarch64) => "aarch64-macos",
        (Os::MacOs, Arch::X86_64) => "x86_64-macos",
        (Os::Linux, Arch::X86_64) => "x86_64-linux",
        (Os::Linux, Arch::Aarch64) => "aarch64-linux",
        (Os::Windows, _) => "x86_64-windows",
        _ => "unknown",
    }
}

/// Archive naming convention per platform:
///
/// - Stable: `tokensave-v{version}-{platform}.{ext}`
/// - Beta:   `tokensave-beta-v{version}-{platform}.{ext}`
pub fn asset_name(version: &str, is_beta: bool, host: Host) -> (r: String)
    ensures
        r@ == asset_of(version@, is_beta, host),
{
    let prefix = if is_beta {
        "tokensave-beta"
    } else {
        "tokensave"
    };
    let ext = if host.os == Os::Windows {
        "zip"
    } else {
        "tar.gz"
    };
    let mut name = String::new();
    name.append(prefix);
    name.append("-v");
    name.append(version);
    name.append("-");
    name.append(current_platform(host));
    name.append(".");
    name.append(ext);
    assert(Seq::<char>::empty() + prefix@ =~= prefix@);
    name
}

/// A file that a release publishes.
#[derive(Debug)]
pub struct GitHubAsset {
    pub name: String,
}

/// A release as GitHub reports it, reduced to what the check reads.
#[derive(Debug)]
pub struct GitHubRelease {
    pub tag_name: String,
    pub prerelease: bool,
    pub assets: Vec<GitHubAsset>,
}

/// The contents of a [`GitHubRelease`].
pub struct Release {
    pub tag_name: Seq<char>,
    pub prerelease: bool,
    pub assets: Seq<Seq<char>>,
}

impl Release {
    /// The tag without the `v`s that it starts with.
    pub open spec fn version(self) -> Seq<char> {
        text::without_leading(self.tag_name, 'v')
    }

    /// The asset that `host` needs from this release.
    pub open spec fn expected_asset(self, host: Host) -> Seq<char> {
        asset_of(self.version(), self.prerelease, host)
    }

    /// The release publishes the asset that `host` needs.
    pub open spec fn installable(self, host: Host) -> bool {
        self.assets.contains(self.expected_asset(host))
    }
}

impl View for GitHubRelease {
    type V = Release;

    open spec fn view(&self) -> Release {
        Release {
            tag_name: self.tag_name@,
            prerelease: self.prerelease,
            assets: self.assets@.map_values(|a: GitHubAsset| a.name@),
        }
    }
}

/// The contents of each release of a list.
pub open spec fn releases_of(releases: Seq<GitHubRelease>) -> Seq<Release> {
    releases.map_values(|r: GitHubRelease| r@)
}

/// Why a version check produced no installable version.
///
/// These have different remedies and must not share a message: a release
/// without an asset for the running platform is no unreachable network.
#[derive(Debug, Clone, PartialEq, Eq)]
pub enum VersionCheckError {
    /// The releases API could not be reached, or its answer could not be read.
    Unreachable {
        /// What the HTTP layer reported.
        detail: String,
    },
    /// GitHub answered, but the release has no asset for this platform.
    NoAssetForPlatform {
        /// Version of the release that is missing the asset, without the `v`.
        version: String,
        /// Platform slug the running binary needs.
        platform: String,
        /// Asset name that was looked for and not found.
        expected: String,
        /// Asset names the release does publish.
        available: Vec<String>,
    },
    /// GitHub answered, but the channel has no release at all.
    NoRelease {
        /// Channel that is empty, as the user names it.
        channel: &'static str,
    },
}

/// The contents of a [`VersionCheckError`].
pub enum CheckFailure {
    Unreachable { detail: Seq<char> },
    NoAssetForPlatform {
        version: Seq<char>,
        platform: Seq<char>,
        expected: Seq<char>,
        available: Seq<Seq<char>>,
    },
    NoRelease { channel: Seq<char> },
}

impl View for VersionCheckError {
    type V = CheckFailure;

    open spec fn view(&self) -> CheckFailure {
        match *self {
            VersionCheckError::Unreachable { detail } => CheckFailure::Unreachable { detail: detail@ },
            VersionCheckError::NoAssetForPlatform { version, platform, expected, available } =>
                CheckFailure::NoAssetForPlatform {
                version: version@,
                platform: platform@,
                expected: expected@,
                available: text::texts(available@),
            },
            VersionCheckError::NoRelease { channel } => CheckFailure::NoRelease { channel: channel@ },
        }
    }
}

/// What the user is told about a failed check.
pub open spec fn message_of(failure: CheckFailure) -> Seq<char> {
    match failure {
        CheckFailure::Unreachable { detail } => "could not reach GitHub ("@ + detail + ")"@,
        CheckFailure::NoAssetForPlatform { version, platform, expected, available } => "v"@ + version
            + " has no asset for "@ + platform + " (expected "@ + expected + ")"@ + if available.len() == 0 {
            "; that release publishes no assets at all"@
        } else {
            "; published assets: "@ + text::joined(available, ", "@)
        },
        CheckFailure::NoRelease { channel } => "no "@ + channel + " release has been published"@,
    }
}

impl VersionCheckError {
    /// What the user is told about the failed check.
    pub fn message(&self) -> (r: String)
        ensures
            r@ == message_of(self@),
    {
        let mut out = String::new();
        match self {
            VersionCheckError::Unreachable { detail } => {
                out.append("could not reach GitHub (");
                out.append(detail.as_str());
                out.append(")");
            },
            VersionCheckError::NoAssetForPlatform { version, platform, expected, available } => {
                out.append("v");
                out.append(version.as_str());
                out.append(" has no asset for ");
                out.append(platform.as_str());
                out.append(" (expected ");
                out.append(expected.as_str());
                out.append(")");
                if available.is_empty() {
                    out.append("; that release publishes no assets at all");
                } else {
                    let names = text::join(available, ", ");
                    out.append("; published assets: ");
                    out.append(names.as_str());
                }
            },
            VersionCheckError::NoRelease { channel } => {
                out.append("no ");
                out.append(*channel);
                out.append(" release has been published");
            },
        }
        assert(out@ =~= message_of(self@));
        out
    }
}

/// A version check: the version string, or why there isn't one.
pub type VersionResult = Result<String, VersionCheckError>;

/// The contents of a [`VersionResult`].
pub open spec fn outcome(r: VersionResult) -> Result<Seq<char>, CheckFailure> {
    match r {
        Ok(version) => Ok(version@),
        Err(e) => Err(e@),
    }
}

/// The failure that names `release` as lacking the asset for `host`.
pub open spec fn missing_asset(release: Release, host: Host) -> CheckFailure {
    CheckFailure::NoAssetForPlatform {
        version: release.version(),
        platform: platform_of(host),
        expected: release.expected_asset(host),
        available: release.assets,
    }
}

/// The version that the latest stable release offers to `host`.
pub open spec fn stable_choice(release: Release, host: Host) -> Result<Seq<char>, CheckFailure> {
    if release.installable(host) {
        Ok(release.version())
    } else {
        Err(missing_asset(release, host))
    }
}

/// The first release of the list that satisfies `p`.
pub open spec fn first_such(releases: Seq<Release>, p: spec_fn(Release) -> bool) -> Option<Release>
    decreases releases.len(),
{
    if releases.len() == 0 {
        None
    } else if p(releases[0]) {
        Some(releases[0])
    } else {
        first_such(releases.drop_first(), p)
    }
}

/// Being a prerelease.
pub open spec fn beta() -> spec_fn(Release) -> bool {
    |r: Release| r.prerelease
}

/// Being a prerelease with the asset that `host` needs.
pub open spec fn installable_beta(host: Host) -> spec_fn(Release) -> bool {
    |r: Release| r.prerelease && r.installable(host)
}

/// The version that a list of releases, newest first, offers to `host` on the
/// beta channel: that of the first prerelease with the asset for `host`. If no
/// prerelease has it, the failure names the first prerelease.
pub open spec fn beta_choice(releases: Seq<Release>, host: Host) -> Result<Seq<char>, CheckFailure> {
    match first_such(releases, installable_beta(host)) {
        Some(release) => Ok(release.version()),
        None => match first_such(releases, beta()) {
            Some(release) => Err(missing_asset(release, host)),
            None => Err(CheckFailure::NoRelease { channel: "beta"@ }),
        },
    }
}

/// The first release that satisfies `p` is at `i` if none before `i` does.
proof fn lemma_first_such_at(releases: Seq<Release>, p: spec_fn(Release) -> bool, i: int)
    requires
        0 <= i < releases.len(),
        p(releases[i]),
        forall|j: int| 0 <= j < i ==> !p(#[trigger] releases[j]),
    ensures
        first_such(releases, p) == Some(releases[i]),
    decreases i,
{
    if i > 0 {
        assert(!p(releases[0]));
        let rest = releases.drop_first();
        assert forall|j: int| 0 <= j < i - 1 implies !p(#[trigger] rest[j]) by {
            assert(!p(releases[j + 1]));
        }
        lemma_first_such_at(rest, p, i - 1);
    }
}

/// There is no first release that satisfies `p` if none does.
proof fn lemma_first_such_absent(releases: Seq<Release>, p: spec_fn(Release) -> bool)
    requires
        forall|j: int| 0 <= j < releases.len() ==> !p(#[trigger] releases[j]),
    ensures
        first_such(releases, p) is None,
    decreases releases.len(),
{
    if releases.len() > 0 {
        assert(!p(releases[0]));
        let rest = releases.drop_first();
        assert forall|j: int| 0 <= j < rest.len() implies !p(#[trigger] rest[j]) by {
            assert(!p(releases[j + 1]));
        }
        lemma_first_such_absent(rest, p);
    }
}

/// The first release that satisfies `p` stands in the list behind releases that
/// do not; if there is none, no release of the list satisfies `p`.
proof fn lemma_first_such_holds(releases: Seq<Release>, p: spec_fn(Release) -> bool)
    ensures
        match first_such(releases, p) {
            Some(r) => p(r) && exists|i: int|
                0 <= i < releases.len() && #[trigger] releases[i] == r && forall|j: int|
                    0 <= j < i ==> !p(#[trigger] releases[j]),
            None => forall|j: int| 0 <= j < releases.len() ==> !p(#[trigger] releases[j]),
        },
    decreases releases.len(),
{
    if releases.len() > 0 {
        if p(releases[0]) {
            assert(releases[0] == first_such(releases, p)->0);
        } else {
            let rest = releases.drop_first();
            lemma_first_such_holds(rest, p);
            match first_such(rest, p) {
                Some(r) => {
                    let i = choose|i: int|
                        0 <= i < rest.len() && #[trigger] rest[i] == r && forall|j: int|
                            0 <= j < i ==> !p(#[trigger] rest[j]);
                    assert(releases[i + 1] == r);
                    assert forall|j: int| 0 <= j < i + 1 implies !p(#[trigger] releases[j]) by {
                        if j > 0 {
                            assert(!p(rest[j - 1]));
                        }
                    }
                },
                None => {
                    assert forall|j: int| 0 <= j < releases.len() implies !p(#[trigger] releases[j]) by {
                        if j > 0 {
                            assert(!p(rest[j - 1]));
                        }
                    }
                },
            }
        }
    }
}

/// True when the release lists an asset matching the platform of `host`.
///
/// Filters out releases whose build has not finished uploading the binaries for
/// that platform: the user could not install the version announced.
pub fn release_has_current_platform_asset(release: &GitHubRelease, host: Host) -> (r: bool)
    ensures
        r == release@.installable(host),
{
    let version = text::trim_leading(release.tag_name.as_str(), 'v');
    let expected = asset_name(version, release.prerelease, host);
    let mut i: usize = 0;
    while i < release.assets.len()
        invariant
            i <= release.assets.len(),
            expected@ == release@.expected_asset(host),
            forall|j: int| 0 <= j < i ==> #[trigger] release@.assets[j] != expected@,
        decreases release.assets.len() - i,
    {
        if release.assets[i].name == expected {
            assert(release@.assets[i as int] == expected@);
            return true;
        }
        i += 1;
    }
    false
}

/// Builds the "nothing for your platform" error describing `release`.
pub fn no_asset_error(release: &GitHubRelease, host: Host) -> (r: VersionCheckError)
    ensures
        r@ == missing_asset(release@, host),
{
    let version = text::trim_leading(release.tag_name.as_str(), 'v');
    let mut available: Vec<String> = Vec::new();
    let mut i: usize = 0;
    while i < release.assets.len()
        invariant
            i <= release.assets.len(),
            text::texts(available@) == release@.assets.take(i as int),
        decreases release.assets.len() - i,
    {
        let ghost listed = available@;
        available.push(release.assets[i].name.clone());
        assert(text::texts(available@) =~= text::texts(listed).push(release@.assets[i as int]));
        assert(release@.assets.take(i + 1) =~= release@.assets.take(i as int).push(release@.assets[i as int]));
        i += 1;
    }
    assert(release@.assets.take(release.assets.len() as int) =~= release@.assets);
    VersionCheckError::NoAssetForPlatform {
        expected: asset_name(version, release.prerelease, host),
        platform: current_platform(host).to_owned(),
        available,
        version: version.to_owned(),
    }
}

/// Wraps what a transport or decoding failure reported.
pub fn unreachable(detail: String) -> (r: VersionCheckError)
    ensures
        r@ == (CheckFailure::Unreachable { detail: detail@ }),
{
    VersionCheckError::Unreachable { detail }
}

/// Picks the version out of the latest stable release.
pub fn select_stable(release: &GitHubRelease, host: Host) -> (r: VersionResult)
    ensures
        outcome(r) == stable_choice(release@, host),
{
    if release_has_current_platform_asset(release, host) {
        return Ok(text::trim_leading(release.tag_name.as_str(), 'v').to_owned());
    }
    Err(no_asset_error(release, host))
}

/// Picks the newest prerelease whose asset for `host` is already up.
///
/// GitHub returns the list newest first, so the first match is the latest
/// installable beta. A release whose build is still uploading is skipped and
/// picked up on a later check; if none of them is installable, the newest
/// prerelease is the one worth naming in the error.
pub fn select_beta(releases: Vec<GitHubRelease>, host: Host) -> (r: VersionResult)
    ensures
        outcome(r) == beta_choice(releases_of(releases@), host),
{
    let ghost all = releases_of(releases@);
    let mut newest: Option<usize> = None;
    let mut i: usize = 0;
    while i < releases.len()
        invariant
            i <= releases.len(),
            all == releases_of(releases@),
            forall|j: int| 0 <= j < i ==> !installable_beta(host)(#[trigger] all[j]),
            match newest {
                Some(k) => k < i && beta()(all[k as int]) && forall|j: int|
                    0 <= j < k ==> !beta()(#[trigger] all[j]),
                None => forall|j: int| 0 <= j < i ==> !beta()(#[trigger] all[j]),
            },
        decreases releases.len() - i,
    {
        let release = &releases[i];
        assert(all[i as int] == release@);
        if release.prerelease {
            if release_has_current_platform_asset(release, host) {
                proof {
                    lemma_first_such_at(all, installable_beta(host), i as int);
                }
                return Ok(text::trim_leading(release.tag_name.as_str(), 'v').to_owned());
            }
            if newest.is_none() {
                newest = Some(i);
            }
        }
        i += 1;
    }
    proof {
        lemma_first_such_absent(all, installable_beta(host));
    }
    match newest {
        Some(k) => {
            proof {
                lemma_first_such_at(all, beta(), k as int);
            }
            Err(no_asset_error(&releases[k], host))
        },
        None => {
            proof {
                lemma_first_such_absent(all, beta());
            }
            Err(VersionCheckError::NoRelease { channel: "beta" })
        },
    }
}

/// The latest stable release is announced just where it publishes the asset that
/// the user's machine needs, and then under the version that this asset carries.
pub proof fn law_announced_stable_version_is_installable(release: Release, host: Host)
    ensures
        stable_choice(release, host) is Ok <==> release.assets.contains(
            asset_of(release.version(), release.prerelease, host),
        ),
        stable_choice(release, host) matches Ok(version) ==> release.assets.contains(
            asset_of(version, release.prerelease, host),
        ),
{
}

/// A beta is announced just where some prerelease publishes the beta asset that
/// the user's machine needs, and the one announced is the first such of the list.
pub proof fn law_announced_beta_version_is_the_first_installable(releases: Seq<Release>, host: Host)
    ensures
        beta_choice(releases, host) is Ok <==> exists|i: int|
            0 <= i < releases.len() && (#[trigger] releases[i]).prerelease && releases[i].installable(host),
        beta_choice(releases, host) matches Ok(version) ==> exists|i: int|
            {
                &&& 0 <= i < releases.len()
                &&& (#[trigger] releases[i]).prerelease
                &&& releases[i].version() == version
                &&& releases[i].assets.contains(asset_of(version, true, host))
                &&& forall|j: int|
                    0 <= j < i ==> !((#[trigger] releases[j]).prerelease && releases[j].installable(host))
            },
{
    let p = installable_beta(host);
    lemma_first_such_holds(releases, p);
    match first_such(releases, p) {
        Some(r) => {
            let i = choose|i: int|
                0 <= i < releases.len() && #[trigger] releases[i] == r && forall|j: int|
                    0 <= j < i ==> !p(#[trigger] releases[j]);
            assert forall|j: int| 0 <= j < i implies !((#[trigger] releases[j]).prerelease
                && releases[j].installable(host)) by {
                assert(!p(releases[j]));
            }
            assert(releases[i].prerelease && releases[i].installable(host));
        },
        None => {
            assert forall|i: int| 0 <= i < releases.len() implies !((#[trigger] releases[i]).prerelease
                && releases[i].installable(host)) by {
                assert(!p(releases[i]));
            }
        },
    }
}

/// If the beta channel holds prereleases but none that can be installed, the
/// failure describes the first of them; it reports an empty channel just where
/// the list holds no prerelease.
pub proof fn law_failed_beta_check_names_the_first_prerelease(releases: Seq<Release>, host: Host)
    ensures
        beta_choice(releases, host) matches Err(CheckFailure::NoAssetForPlatform { .. }) ==> exists|i: int|
            {
                &&& 0 <= i < releases.len()
                &&& (#[trigger] releases[i]).prerelease
                &&& beta_choice(releases, host) == Err::<Seq<char>, CheckFailure>(missing_asset(releases[i], host))
                &&& forall|j: int| 0 <= j < i ==> !(#[trigger] releases[j]).prerelease
            },
        beta_choice(releases, host) matches Err(CheckFailure::NoRelease { .. }) <==> forall|i: int|
            0 <= i < releases.len() ==> !(#[trigger] releases[i]).prerelease,
{
    lemma_first_such_holds(releases, installable_beta(host));
    lemma_first_such_holds(releases, beta());
    match first_such(releases, beta()) {
        Some(r) => {
            let i = choose|i: int|
                0 <= i < releases.len() && #[trigger] releases[i] == r && forall|j: int|
                    0 <= j < i ==> !beta()(#[trigger] releases[j]);
            assert forall|j: int| 0 <= j < i implies !(#[trigger] releases[j]).prerelease by {
                assert(!beta()(releases[j]));
            }
            assert(releases[i].prerelease);
        },
        None => {
            assert forall|i: int| 0 <= i < releases.len() implies !(#[trigger] releases[i]).prerelease by {
                assert(!beta()(releases[i]));
            }
        },
    }
}

/// Stable releases that stand in the list have no say on the beta channel.
pub proof fn law_stable_releases_do_not_affect_the_beta_channel(releases: Seq<Release>, host: Host)
    ensures
        beta_choice(releases.filter(beta()), host) == beta_choice(releases, host),
{
    lemma_first_such_of_betas(releases, installable_beta(host));
    lemma_first_such_of_betas(releases, beta());
}

/// Leaving out stable releases does not change which release is the first to
/// satisfy a condition that only prereleases satisfy.
proof fn lemma_first_such_of_betas(releases: Seq<Release>, p: spec_fn(Release) -> bool)
    requires
        forall|r: Release| #[trigger] p(r) ==> r.prerelease,
    ensures
        first_such(releases.filter(beta()), p) == first_such(releases, p),
    decreases releases.len(),
{
    if releases.len() == 0 {
        reveal(Seq::filter);
    } else {
        let head = seq![releases[0]];
        let rest = releases.drop_first();
        lemma_first_such_of_betas(rest, p);
        assert(releases =~= head + rest);
        Seq::filter_distributes_over_add(head, rest, beta());
        assert(head.filter(beta()) =~= if releases[0].prerelease {
            head
        } else {
            Seq::empty()
        }) by {
            reveal_with_fuel(Seq::filter, 2);
            assert(head.drop_last() =~= Seq::<Release>::empty());
        }
        let kept = releases.filter(beta());
        if releases[0].prerelease {
            assert(kept.drop_first() =~= rest.filter(beta()));
        } else {
            assert(kept =~= rest.filter(beta()));
        }
    }
}

/// What GitHub answers, whatever it is, is never reported as an unreachable
/// network.
pub proof fn law_an_answer_is_never_unreachable(release: Release, releases: Seq<Release>, host: Host)
    ensures
        !(stable_choice(release, host) matches Err(CheckFailure::Unreachable { .. })),
        !(beta_choice(releases, host) matches Err(CheckFailure::Unreachable { .. })),
{
}

/// Failures of different kinds have different remedies and never share a message.
pub proof fn law_kinds_of_failure_never_share_a_message(a: CheckFailure, b: CheckFailure)
    requires
        message_of(a) == message_of(b),
    ensures
        a is Unreachable <==> b is Unreachable,
        a is NoAssetForPlatform <==> b is NoAssetForPlatform,
        a is NoRelease <==> b is NoRelease,
{
    lemma_message_starts(a);
    lemma_message_starts(b);
}

/// The first character of a message tells the kind of the failure.
proof fn lemma_message_starts(failure: CheckFailure)
    ensures
        message_of(failure).len() > 0,
        message_of(failure)[0] == match failure {
            CheckFailure::Unreachable { .. } => 'c',
            CheckFailure::NoAssetForPlatform { .. } => 'v',
            CheckFailure::NoRelease { .. } => 'n',
        },
{
    reveal_strlit("could not reach GitHub (");
    reveal_strlit("v");
    reveal_strlit("no ");
}

/// The message about an unreachable network keeps its wording and carries what
/// was reported.
pub proof fn law_unreachable_message_carries_the_cause(detail: Seq<char>)
    ensures
        text::occurs(message_of(CheckFailure::Unreachable { detail }), "could not reach GitHub"@),
        text::occurs(message_of(CheckFailure::Unreachable { detail }), detail),
{
    reveal_strlit("could not reach GitHub (");
    reveal_strlit("could not reach GitHub");
    let message = message_of(CheckFailure::Unreachable { detail });
    let front = "could not reach GitHub ("@;
    let wording = "could not reach GitHub"@;
    let rest = message.skip(wording.len() as int);
    assert(message =~= Seq::empty() + wording + rest);
    text::lemma_occurs_between(Seq::empty(), wording, rest);
    text::lemma_occurs_between(front, detail, ")"@);
}

/// The message about a missing asset names the version, the platform and the
/// asset that was looked for.
pub proof fn law_missing_asset_message_names_what_is_missing(
    version: Seq<char>,
    platform: Seq<char>,
    expected: Seq<char>,
    available: Seq<Seq<char>>,
)
    ensures
        ({
            let message = message_of(CheckFailure::NoAssetForPlatform { version, platform, expected, available });
            &&& text::occurs(message, version)
            &&& text::occurs(message, platform)
            &&& text::occurs(message, expected)
        }),
{
    let message = message_of(CheckFailure::NoAssetForPlatform { version, platform, expected, available });
    let end = if available.len() == 0 {
        "; that release publishes no assets at all"@
    } else {
        "; published assets: "@ + text::joined(available, ", "@)
    };
    let after_expected = ")"@ + end;
    let before_expected = "v"@ + version + " has no asset for "@ + platform + " (expected "@;
    let after_platform = " (expected "@ + expected + after_expected;
    let before_platform = "v"@ + version + " has no asset for "@;
    let after_version = " has no asset for "@ + platform + after_platform;
    assert(message =~= before_expected + expected + after_expected);
    assert(message =~= before_platform + platform + after_platform);
    assert(message =~= "v"@ + version + after_version);
    text::lemma_occurs_between(before_expected, expected, after_expected);
    text::lemma_occurs_between(before_platform, platform, after_platform);
    text::lemma_occurs_between("v"@, version, after_version);
}

/// No asset name serves both channels, whatever the versions and the machines.
pub proof fn law_channels_never_share_an_asset_name(
    stable_version: Seq<char>,
    stable_host: Host,
    beta_version: Seq<char>,
    beta_host: Host,
)
    ensures
        asset_of(stable_version, false, stable_host) != asset_of(beta_version, true, beta_host),
{
    reveal_strlit("tokensave");
    reveal_strlit("tokensave-beta");
    reveal_strlit("-v");
    assert(asset_of(stable_version, false, stable_host)[10] == 'v');
    assert(asset_of(beta_version, true, beta_host)[10] == 'b');
}

/// On one machine and one channel the name of an asset tells its version.
pub proof fn law_asset_name_tells_the_version(a: Seq<char>, b: Seq<char>, is_beta: bool, host: Host)
    requires
        asset_of(a, is_beta, host) == asset_of(b, is_beta, host),
    ensures
        a == b,
{
    let front = asset_prefix(is_beta) + "-v"@;
    let tail = "-"@ + platform_of(host) + "."@ + extension_of(host);
    let n = front.len() as int;
    assert(asset_of(a, is_beta, host) =~= front + a + tail);
    assert(asset_of(b, is_beta, host) =~= front + b + tail);
    assert(a.len() == b.len());
    assert((front + a + tail).subrange(n, n + a.len()) =~= a);
    assert((front + b + tail).subrange(n, n + b.len()) =~= b);
}

/// Each operating system is known by its one name, and every other name is that
/// of another system.
pub proof fn law_systems_are_known_by_one_name(name: Seq<char>)
    ensures
        os_named(name) == Os::MacOs <==> name == "macos"@,
        os_named(name) == Os::Linux <==> name == "linux"@,
        os_named(name) == Os::Windows <==> name == "windows"@,
{
    reveal_strlit("macos");
    reveal_strlit("linux");
    reveal_strlit("windows");
    assert("macos"@[0] != "linux"@[0]);
    assert("macos"@.len() != "windows"@.len());
    assert("linux"@.len() != "windows"@.len());
}

/// Each architecture is known by its one name, and every other name is that of
/// another architecture.
pub proof fn law_architectures_are_known_by_one_name(name: Seq<char>)
    ensures
        arch_named(name) == Arch::X86_64 <==> name == "x86_64"@,
        arch_named(name) == Arch::Aarch64 <==> name == "aarch64"@,
{
    reveal_strlit("x86_64");
    reveal_strlit("aarch64");
    assert("x86_64"@.len() != "aarch64"@.len());
}

/// The machine whose archive a release builds under a slug: two architectures
/// each for macOS and Linux, one archive for Windows, and none for others.
pub proof fn law_platform_slugs(host: Host)
    ensures
        host.os == Os::MacOs && host.arch == Arch::Aarch64 ==> platform_of(host) == "aarch64-macos"@,
        host.os == Os::MacOs && host.arch == Arch::X86_64 ==> platform_of(host) == "x86_64-macos"@,
        host.os == Os::Linux && host.arch == Arch::Aarch64 ==> platform_of(host) == "aarch64-linux"@,
        host.os == Os::Linux && host.arch == Arch::X86_64 ==> platform_of(host) == "x86_64-linux"@,
        host.os == Os::Windows ==> platform_of(host) == "x86_64-windows"@,
        host.os == Os::Other || host.os != Os::Windows && host.arch == Arch::Other ==> platform_of(host)
            == "unknown"@,
{
}

/// The archive of a version is named after its channel, the version and the
/// platform. It is a zip file on Windows and a compressed tar file on every
/// other system.
pub proof fn law_archive_names(version: Seq<char>, is_beta: bool, host: Host)
    ensures
        ({
            let front = if is_beta {
                "tokensave-beta-v"@
            } else {
                "tokensave-v"@
            };
            let name = asset_of(version, is_beta, host);
            &&& host.os == Os::MacOs && host.arch == Arch::Aarch64 ==> name == front + version
                + "-aarch64-macos.tar.gz"@
            &&& host.os == Os::MacOs && host.arch == Arch::X86_64 ==> name == front + version
                + "-x86_64-macos.tar.gz"@
            &&& host.os == Os::Linux && host.arch == Arch::Aarch64 ==> name == front + version
                + "-aarch64-linux.tar.gz"@
            &&& host.os == Os::Linux && host.arch == Arch::X86_64 ==> name == front + version
                + "-x86_64-linux.tar.gz"@
            &&& host.os == Os::Windows ==> name == front + version + "-x86_64-windows.zip"@
            &&& host.os == Os::Other || host.os != Os::Windows && host.arch == Arch::Other ==> name == front
                + version + "-unknown.tar.gz"@
        }),
{
    let front = if is_beta {
        "tokensave-beta-v"@
    } else {
        "tokensave-v"@
    };
    assert(asset_prefix(is_beta) + "-v"@ =~= front) by {
        reveal_strlit("tokensave-beta-v");
        reveal_strlit("tokensave-beta");
        reveal_strlit("tokensave-v");
        reveal_strlit("tokensave");
        reveal_strlit("-v");
    }
    let back = "-"@ + platform_of(host) + "."@ + extension_of(host);
    assert(asset_of(version, is_beta, host) =~= front + version + back);
    reveal_strlit("-");
    reveal_strlit(".");
    reveal_strlit("tar.gz");
    reveal_strlit("zip");
    if host.os == Os::Windows {
        reveal_strlit("x86_64-windows");
        reveal_strlit("-x86_64-windows.zip");
        assert(back =~= "-x86_64-windows.zip"@);
    } else if host.os == Os::MacOs && host.arch == Arch::Aarch64 {
        reveal_strlit("aarch64-macos");
        reveal_strlit("-aarch64-macos.tar.gz");
        assert(back =~= "-aarch64-macos.tar.gz"@);
    } else if host.os == Os::MacOs && host.arch == Arch::X86_64 {
        reveal_strlit("x86_64-macos");
        reveal_strlit("-x86_64-macos.tar.gz");
        assert(back =~= "-x86_64-macos.tar.gz"@);
    } else if host.os == Os::Linux && host.arch == Arch::Aarch64 {
        reveal_strlit("aarch64-linux");
        reveal_strlit("-aarch64-linux.tar.gz");
        assert(back =~= "-aarch64-linux.tar.gz"@);
    } else if host.os == Os::Linux && host.arch == Arch::X86_64 {
        reveal_strlit("x86_64-linux");
        reveal_strlit("-x86_64-linux.tar.gz");
        assert(back =~= "-x86_64-linux.tar.gz"@);
    } else {
        reveal_strlit("unknown");
        reveal_strlit("-unknown.tar.gz");
        assert(back =~= "-unknown.tar.gz"@);
    }
}

/// The contents of a release are its tag, its mark and the names of its assets,
/// each in its place.
pub proof fn law_contents_of_a_release(release: GitHubRelease, releases: Seq<GitHubRelease>)
    ensures
        release@.tag_name == release.tag_name@,
        release@.prerelease == release.prerelease,
        release@.assets.len() == release.assets@.len(),
        forall|i: int| 0 <= i < release.assets@.len() ==> #[trigger] release@.assets[i] == release.assets@[i].name@,
        releases_of(releases).len() == releases.len(),
        forall|i: int| 0 <= i < releases.len() ==> #[trigger] releases_of(releases)[i] == releases[i]@,
{
}

/// The contents of a failure are the texts that it carries.
pub proof fn law_contents_of_a_failure(e: VersionCheckError)
    ensures
        e matches VersionCheckError::Unreachable { detail } ==> e@ == (CheckFailure::Unreachable { detail: detail@ }),
        e matches VersionCheckError::NoAssetForPlatform { version, platform, expected, available } ==> {
            &&& e@ matches CheckFailure::NoAssetForPlatform { version: v, platform: p, expected: x, available: a }
            &&& v == version@
            &&& p == platform@
            &&& x == expected@
            &&& a.len() == available@.len()
            &&& forall|i: int| 0 <= i < a.len() ==> #[trigger] a[i] == available@[i]@
        },
        e matches VersionCheckError::NoRelease { channel } ==> e@ == (CheckFailure::NoRelease { channel: channel@ }),
{
}

/// The contents of a result are those of its version or of its failure.
pub proof fn law_contents_of_a_result(version: String, e: VersionCheckError)
    ensures
        outcome(Ok(version)) == Ok::<Seq<char>, CheckFailure>(version@),
        outcome(Err(e)) == Err::<Seq<char>, CheckFailure>(e@),
{
}

/// The version of a release is its tag without the run of `v` in front.
pub proof fn law_version_is_the_tag_without_its_v(release: Release)
    ensures
        release.version().len() <= release.tag_name.len(),
        release.tag_name.skip(release.tag_name.len() - release.version().len()) == release.version(),
        forall|j: int| 0 <= j < release.tag_name.len() - release.version().len() ==> release.tag_name[j] == 'v',
        release.version().len() > 0 ==> release.version()[0] != 'v',
{
    text::law_only_the_leading_run_is_dropped(release.tag_name, 'v');
}

/// A release can be installed just where the archive that the machine needs is
/// among its assets, at whatever place.
pub proof fn law_installable_wherever_the_archive_stands(release: Release, host: Host)
    ensures
        release.expected_asset(host) == asset_of(release.version(), release.prerelease, host),
        release.installable(host) <==> exists|i: int|
            0 <= i < release.assets.len() && #[trigger] release.assets[i] == asset_of(
                release.version(),
                release.prerelease,
                host,
            ),
{
}

/// The latest stable release yields its version where the archive is among its
/// assets, and else a failure that names the version, the platform, the archive
/// and all the assets.
pub proof fn law_stable_choice_by_the_archive(release: Release, host: Host)
    ensures
        ({
            let archive = asset_of(release.version(), release.prerelease, host);
            &&& release.assets.contains(archive) ==> stable_choice(release, host) == Ok::<Seq<char>, CheckFailure>(
                release.version(),
            )
            &&& !release.assets.contains(archive) ==> stable_choice(release, host) == Err::<
                Seq<char>,
                CheckFailure,
            >(
                CheckFailure::NoAssetForPlatform {
                    version: release.version(),
                    platform: platform_of(host),
                    expected: archive,
                    available: release.assets,
                },
            )
        }),
{
}

/// A prerelease with the archive among its assets, and no such one before it in
/// the list, is the one announced. Without any such one, the failure describes
/// the first prerelease.
pub proof fn law_beta_choice_by_the_archive(releases: Seq<Release>, host: Host, i: int)
    requires
        0 <= i < releases.len(),
        releases[i].prerelease,
    ensures
        releases[i].assets.contains(asset_of(releases[i].version(), true, host)) && (forall|j: int|
            0 <= j < i && (#[trigger] releases[j]).prerelease ==> !releases[j].assets.contains(
                asset_of(releases[j].version(), true, host),
            )) ==> beta_choice(releases, host) == Ok::<Seq<char>, CheckFailure>(releases[i].version()),
        (forall|j: int|
            0 <= j < releases.len() && (#[trigger] releases[j]).prerelease ==> !releases[j].assets.contains(
                asset_of(releases[j].version(), true, host),
            )) && (forall|j: int| 0 <= j < i ==> !(#[trigger] releases[j]).prerelease) ==> beta_choice(releases, host)
            == Err::<Seq<char>, CheckFailure>(
            CheckFailure::NoAssetForPlatform {
                version: releases[i].version(),
                platform: platform_of(host),
                expected: asset_of(releases[i].version(), true, host),
                available: releases[i].assets,
            },
        ),
{
    let p = installable_beta(host);
    if releases[i].assets.contains(asset_of(releases[i].version(), true, host)) && (forall|j: int|
        0 <= j < i && (#[trigger] releases[j]).prerelease ==> !releases[j].assets.contains(
            asset_of(releases[j].version(), true, host),
        )) {
        lemma_first_such_at(releases, p, i);
    }
    if (forall|j: int|
        0 <= j < releases.len() && (#[trigger] releases[j]).prerelease ==> !releases[j].assets.contains(
            asset_of(releases[j].version(), true, host),
        )) && (forall|j: int| 0 <= j < i ==> !(#[trigger] releases[j]).prerelease) {
        lemma_first_such_absent(releases, p);
        lemma_first_such_at(releases, beta(), i);
    }
}

/// A beta is announced just where some prerelease of the list holds the archive
/// that the machine needs. Without any prerelease the channel is reported empty.
pub proof fn law_beta_is_announced_where_an_archive_is_up(releases: Seq<Release>, host: Host)
    ensures
        beta_choice(releases, host) is Ok <==> exists|i: int|
            0 <= i < releases.len() && (#[trigger] releases[i]).prerelease && releases[i].assets.contains(
                asset_of(releases[i].version(), true, host),
            ),
        (forall|i: int| 0 <= i < releases.len() ==> !(#[trigger] releases[i]).prerelease) ==> beta_choice(
            releases,
            host,
        ) == Err::<Seq<char>, CheckFailure>(CheckFailure::NoRelease { channel: "beta"@ }),
{
    law_announced_beta_version_is_the_first_installable(releases, host);
    if exists|i: int|
        0 <= i < releases.len() && (#[trigger] releases[i]).prerelease && releases[i].assets.contains(
            asset_of(releases[i].version(), true, host),
        ) {
        let i = choose|i: int|
            0 <= i < releases.len() && (#[trigger] releases[i]).prerelease && releases[i].assets.contains(
                asset_of(releases[i].version(), true, host),
            );
        assert(releases[i].installable(host));
    }
    if forall|i: int| 0 <= i < releases.len() ==> !(#[trigger] releases[i]).prerelease {
        lemma_first_such_absent(releases, installable_beta(host));
        lemma_first_such_absent(releases, beta());
    }
}

/// Each kind of failure is told in one sentence, with the texts that it carries
/// in their places; a missing asset is told with all the assets there are, or
/// that there are none.
pub proof fn law_wording_of_messages(
    detail: Seq<char>,
    version: Seq<char>,
    platform: Seq<char>,
    expected: Seq<char>,
    available: Seq<Seq<char>>,
)
    ensures
        message_of(CheckFailure::Unreachable { detail }) == "could not reach GitHub ("@ + detail + ")"@,
        message_of(CheckFailure::NoRelease { channel: detail }) == "no "@ + detail + " release has been published"@,
        message_of(CheckFailure::NoAssetForPlatform { version, platform, expected, available }) == "v"@ + version
            + " has no asset for "@ + platform + " (expected "@ + expected + (if available == Seq::<
            Seq<char>,
        >::empty() {
            "); that release publishes no assets at all"@
        } else {
            "); published assets: "@ + text::joined(available, ", "@)
        }),
{
    let message = message_of(CheckFailure::NoAssetForPlatform { version, platform, expected, available });
    let front = "v"@ + version + " has no asset for "@ + platform + " (expected "@ + expected;
    if available.len() == 0 {
        assert(available =~= Seq::<Seq<char>>::empty());
        let end = "); that release publishes no assets at all"@;
        assert(")"@ + "; that release publishes no assets at all"@ =~= end) by {
            reveal_strlit(")");
            reveal_strlit("; that release publishes no assets at all");
            reveal_strlit("); that release publishes no assets at all");
        }
        assert(message =~= front + (")"@ + "; that release publishes no assets at all"@));
    } else {
        let names = text::joined(available, ", "@);
        assert(")"@ + "; published assets: "@ =~= "); published assets: "@) by {
            reveal_strlit(")");
            reveal_strlit("; published assets: ");
            reveal_strlit("); published assets: ");
        }
        assert(message =~= front + ((")"@ + "; published assets: "@) + names));
    }
}

} // verus!

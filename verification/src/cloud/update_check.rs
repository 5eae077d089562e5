//! The check for a newer release: what to ask GitHub, what its replies mean, and
//! the switch that silences the passive notice.

use super::release::{select_beta, select_stable, CheckFailure, GitHubRelease, Host, VersionResult};
use super::request::{Method, Reply, Request, RequestContents};
use super::version::is_beta;
use super::{release, text};
use vstd::prelude::*;

verus! {

/// GitHub API endpoint for the latest stable release.
pub const GITHUB_RELEASES_URL: &'static str =
    "https://api.github.com/repos/aovestdipaperino/tokensave/releases/latest";

/// GitHub API endpoint for listing releases (used to find the latest beta).
pub const GITHUB_RELEASES_LIST_URL: &'static str =
    "https://api.github.com/repos/aovestdipaperino/tokensave/releases?per_page=10";

/// Timeout for requests for releases, in milliseconds.
pub const RELEASES_TIMEOUT_MS: u64 = 1_000;

/// The contents of an optional string.
pub open spec fn text_in(value: Option<&str>) -> Option<Seq<char>> {
    match value {
        Some(s) => Some(s@),
        None => None,
    }
}

/// A value that switches the notice off, in any case and with any white space
/// around it.
pub open spec fn is_falsey(value: Seq<char>) -> bool {
    let word = text::lowered(text::trimmed(value));
    ||| word == "0"@
    ||| word == "false"@
    ||| word == "no"@
    ||| word == "off"@
    ||| word == "disable"@
    ||| word == "disabled"@
}

/// The notice is on unless the setting is there and switches it off.
pub open spec fn notice_on(value: Option<Seq<char>>) -> bool {
    match value {
        Some(v) => !is_falsey(v),
        None => true,
    }
}

/// Whether the passive "update available" notice should run, given the value of
/// `TOKENSAVE_UPDATE_CHECK` if it is set.
///
/// On by default; a falsey value (`off`, `false`, `0`, `no`, `disable`,
/// `disabled`) silences it. Explicit upgrade commands do not consult this.
pub fn update_check_enabled_from(value: Option<&str>) -> (r: bool)
    ensures
        r == notice_on(text_in(value)),
{
    match value {
        Some(v) => {
            let word = text::trim(v);
            !(text::lowers_to(word, "0") || text::lowers_to(word, "false") || text::lowers_to(word, "no")
                || text::lowers_to(word, "off") || text::lowers_to(word, "disable") || text::lowers_to(
                word,
                "disabled",
            ))
        },
        None => true,
    }
}

/// The two lines of releases. Each sees only updates of its own.
#[derive(Debug, Clone, Copy, PartialEq, Eq, Structural)]
pub enum Channel {
    Stable,
    Beta,
}

/// The channel of a running version: beta if its text holds a `-`.
pub open spec fn channel_of(version: Seq<char>) -> Channel {
    if version.contains('-') {
        Channel::Beta
    } else {
        Channel::Stable
    }
}

/// The request for the releases of a channel.
pub open spec fn releases_asked(channel: Channel) -> RequestContents {
    RequestContents {
        method: Method::Get,
        url: match channel {
            Channel::Stable => GITHUB_RELEASES_URL@,
            Channel::Beta => GITHUB_RELEASES_LIST_URL@,
        },
        user_agent: Some("tokensave"@),
        timeout_ms: RELEASES_TIMEOUT_MS,
    }
}

/// The channel that the running version takes its updates from.
pub fn release_channel(version: &str) -> (r: Channel)
    ensures
        r == channel_of(version@),
{
    if is_beta(version) {
        Channel::Beta
    } else {
        Channel::Stable
    }
}

/// The channel that the passive notice asks, or None where the notice is off and
/// the network is not to be touched.
pub fn passive_release_channel(value: Option<&str>, version: &str) -> (r: Option<Channel>)
    ensures
        r == (if notice_on(text_in(value)) {
            Some(channel_of(version@))
        } else {
            None
        }),
{
    if !update_check_enabled_from(value) {
        return None;
    }
    Some(release_channel(version))
}

/// The request for the releases of `channel`: the latest release for stable, the
/// list of releases, newest first, for beta.
pub fn release_request(channel: Channel) -> (r: Request)
    ensures
        r@ == releases_asked(channel),
{
    let url = match channel {
        Channel::Stable => GITHUB_RELEASES_URL,
        Channel::Beta => GITHUB_RELEASES_LIST_URL,
    };
    Request {
        method: Method::Get,
        url: url.to_owned(),
        user_agent: Some("tokensave"),
        timeout_ms: RELEASES_TIMEOUT_MS,
    }
}

/// GitHub's reply to [`release_request`].
#[derive(Debug)]
pub enum ReleaseReply {
    /// The latest release, asked for on the stable channel.
    Stable(Reply<GitHubRelease>),
    /// The list of releases, asked for on the beta channel.
    Beta(Reply<Vec<GitHubRelease>>),
}

impl ReleaseReply {
    /// The channel that was asked.
    pub open spec fn channel(self) -> Channel {
        match self {
            ReleaseReply::Stable(_) => Channel::Stable,
            ReleaseReply::Beta(_) => Channel::Beta,
        }
    }

    /// What was reported in place of an answer, if there was none.
    pub open spec fn fault(self) -> Option<Seq<char>> {
        match self {
            ReleaseReply::Stable(Err(detail)) => Some(detail@),
            ReleaseReply::Beta(Err(detail)) => Some(detail@),
            _ => None,
        }
    }
}

/// The outcome of a check on the stable channel.
pub open spec fn stable_outcome(reply: Reply<GitHubRelease>, host: Host) -> Result<Seq<char>, CheckFailure> {
    match reply {
        Ok(latest) => release::stable_choice(latest@, host),
        Err(detail) => Err(CheckFailure::Unreachable { detail: detail@ }),
    }
}

/// The outcome of a check on the beta channel.
pub open spec fn beta_outcome(reply: Reply<Vec<GitHubRelease>>, host: Host) -> Result<Seq<char>, CheckFailure> {
    match reply {
        Ok(list) => release::beta_choice(release::releases_of(list@), host),
        Err(detail) => Err(CheckFailure::Unreachable { detail: detail@ }),
    }
}

/// The outcome of a check, on the channel that was asked.
pub open spec fn latest_outcome(reply: ReleaseReply, host: Host) -> Result<Seq<char>, CheckFailure> {
    match reply {
        ReleaseReply::Stable(reply) => stable_outcome(reply, host),
        ReleaseReply::Beta(reply) => beta_outcome(reply, host),
    }
}

/// The version of an outcome, with every failure alike.
pub open spec fn version_in(outcome: Result<Seq<char>, CheckFailure>) -> Option<Seq<char>> {
    match outcome {
        Ok(version) => Some(version),
        Err(_) => None,
    }
}

/// The outcome of a passive check: none where the notice is off, or nothing came
/// back.
pub open spec fn passive_outcome(value: Option<Seq<char>>, reply: Option<ReleaseReply>, host: Host) -> Option<
    Seq<char>,
> {
    match reply {
        Some(reply) => if notice_on(value) {
            version_in(latest_outcome(reply, host))
        } else {
            None
        },
        None => None,
    }
}

/// The contents of an optional version string.
pub open spec fn string_in(version: Option<String>) -> Option<Seq<char>> {
    match version {
        Some(v) => Some(v@),
        None => None,
    }
}

fn version_only(result: VersionResult) -> (r: Option<String>)
    ensures
        string_in(r) == version_in(release::outcome(result)),
{
    match result {
        Ok(version) => Some(version),
        Err(_) => None,
    }
}

/// The latest stable release version, or why there is none.
///
/// The failure is `Unreachable` when there was no readable answer, and
/// `NoAssetForPlatform` when GitHub answers but the release carries no asset for
/// this platform.
pub fn try_fetch_latest_stable_version(reply: Reply<GitHubRelease>, host: Host) -> (r: VersionResult)
    ensures
        release::outcome(r) == stable_outcome(reply, host),
{
    match reply {
        Ok(latest) => select_stable(&latest, host),
        Err(detail) => Err(release::unreachable(detail)),
    }
}

/// The latest installable prerelease version, or why there is none.
///
/// Fails as [`try_fetch_latest_stable_version`] does, and with `NoRelease` when
/// the beta channel is empty.
pub fn try_fetch_latest_beta_version(reply: Reply<Vec<GitHubRelease>>, host: Host) -> (r: VersionResult)
    ensures
        release::outcome(r) == beta_outcome(reply, host),
{
    match reply {
        Ok(list) => select_beta(list, host),
        Err(detail) => Err(release::unreachable(detail)),
    }
}

/// The latest version of the channel that was asked, or why there is none.
pub fn try_fetch_latest_version(reply: ReleaseReply, host: Host) -> (r: VersionResult)
    ensures
        release::outcome(r) == latest_outcome(reply, host),
{
    match reply {
        ReleaseReply::Stable(reply) => try_fetch_latest_stable_version(reply, host),
        ReleaseReply::Beta(reply) => try_fetch_latest_beta_version(reply, host),
    }
}

/// The latest stable release version. Returns `None` for every failure alike; use
/// [`try_fetch_latest_stable_version`] where the reason matters.
pub fn fetch_latest_stable_version(reply: Reply<GitHubRelease>, host: Host) -> (r: Option<String>)
    ensures
        string_in(r) == version_in(stable_outcome(reply, host)),
{
    version_only(try_fetch_latest_stable_version(reply, host))
}

/// The latest prerelease version. Returns `None` for every failure alike; use
/// [`try_fetch_latest_beta_version`] where the reason matters.
pub fn fetch_latest_beta_version(reply: Reply<Vec<GitHubRelease>>, host: Host) -> (r: Option<String>)
    ensures
        string_in(r) == version_in(beta_outcome(reply, host)),
{
    version_only(try_fetch_latest_beta_version(reply, host))
}

/// The latest release version of the channel that was asked. Releases whose
/// binary for this platform is not up yet are skipped.
pub fn fetch_latest_version(reply: ReleaseReply, host: Host) -> (r: Option<String>)
    ensures
        string_in(r) == version_in(latest_outcome(reply, host)),
{
    version_only(try_fetch_latest_version(reply, host))
}

/// Passive counterpart of [`fetch_latest_version`] for the notice paths. `reply`
/// answers the request for [`passive_release_channel`]; it is absent where the
/// notice is off and nothing was sent.
pub fn fetch_latest_version_passive(value: Option<&str>, reply: Option<ReleaseReply>, host: Host) -> (r: Option<
    String,
>)
    ensures
        string_in(r) == passive_outcome(text_in(value), reply, host),
{
    if !update_check_enabled_from(value) {
        return None;
    }
    match reply {
        Some(reply) => fetch_latest_version(reply, host),
        None => None,
    }
}

/// A check reports an unreachable network just where there was no answer, and
/// then carries what was reported in its place.
pub proof fn law_unreachable_just_without_an_answer(reply: ReleaseReply, host: Host)
    ensures
        (latest_outcome(reply, host) matches Err(CheckFailure::Unreachable { .. })) <==> reply.fault() is Some,
        reply.fault() is Some ==> latest_outcome(reply, host) == Err::<Seq<char>, CheckFailure>(
            CheckFailure::Unreachable { detail: reply.fault()->0 },
        ),
{
}

/// A beta build is offered prereleases only: what a check announces to it is the
/// version of a prerelease of the list, one that its machine can install.
pub proof fn law_beta_builds_see_only_prereleases(running: Seq<char>, reply: ReleaseReply, host: Host)
    requires
        running.contains('-'),
        reply.channel() == channel_of(running),
    ensures
        latest_outcome(reply, host) matches Ok(version) ==> {
            &&& reply matches ReleaseReply::Beta(Ok(list))
            &&& exists|i: int|
                {
                    &&& 0 <= i < list@.len()
                    &&& (#[trigger] list@[i])@.prerelease
                    &&& list@[i]@.version() == version
                    &&& list@[i]@.installable(host)
                }
        },
{
    if let ReleaseReply::Beta(Ok(list)) = reply {
        let all = release::releases_of(list@);
        release::law_announced_beta_version_is_the_first_installable(all, host);
        if let Ok(version) = latest_outcome(reply, host) {
            let i = choose|i: int|
                {
                    &&& 0 <= i < all.len()
                    &&& (#[trigger] all[i]).prerelease
                    &&& all[i].version() == version
                    &&& all[i].assets.contains(release::asset_of(version, true, host))
                    &&& forall|j: int|
                        0 <= j < i ==> !((#[trigger] all[j]).prerelease && all[j].installable(host))
                };
            assert(list@[i]@ == all[i]);
        }
    }
}

/// What the notice takes as a setting does not depend on the case of ASCII
/// letters, nor on white space around the word.
pub proof fn law_case_and_padding_do_not_matter(value: Seq<char>)
    ensures
        notice_on(Some(text::lowered(value))) == notice_on(Some(value)),
        notice_on(Some(text::trimmed(value))) == notice_on(Some(value)),
{
    text::lemma_trim_of_lowered(value);
    text::lemma_lowered_twice(text::trimmed(value));
    text::lemma_trimmed_twice(value);
}

/// Without the setting the notice is on, and the passive check is the check.
pub proof fn law_notice_is_on_by_default(reply: ReleaseReply, host: Host)
    ensures
        notice_on(None),
        passive_outcome(None, Some(reply), host) == version_in(latest_outcome(reply, host)),
{
}

/// A setting that switches the notice off silences it whatever GitHub would say.
pub proof fn law_silenced_notice_announces_nothing(value: Seq<char>, reply: Option<ReleaseReply>, host: Host)
    requires
        is_falsey(value),
    ensures
        passive_outcome(Some(value), reply, host) is None,
{
}

/// The two channels ask different endpoints, so neither sees the other's answer.
pub proof fn law_channels_ask_different_endpoints()
    ensures
        releases_asked(Channel::Stable).url != releases_asked(Channel::Beta).url,
{
    reveal_strlit("https://api.github.com/repos/aovestdipaperino/tokensave/releases/latest");
    reveal_strlit("https://api.github.com/repos/aovestdipaperino/tokensave/releases?per_page=10");
    assert(GITHUB_RELEASES_URL@.len() < GITHUB_RELEASES_LIST_URL@.len());
}

/// Of a word with white space around it only the word counts: the six off words,
/// in any case, switch the notice off, and no other word does. Mere white space
/// leaves it on.
pub proof fn law_only_the_off_words_switch_off(front: Seq<char>, word: Seq<char>, back: Seq<char>)
    requires
        forall|j: int| 0 <= j < front.len() ==> text::is_white(#[trigger] front[j]),
        forall|j: int| 0 <= j < back.len() ==> text::is_white(#[trigger] back[j]),
        word.len() > 0 ==> !text::is_white(word[0]) && !text::is_white(word[word.len() - 1]),
    ensures
        ({
            let on = notice_on(Some(front + word + back));
            let w = text::lowered(word);
            &&& !on <==> w == "0"@ || w == "no"@ || w == "off"@ || w == "false"@ || w == "disable"@ || w
                == "disabled"@
            &&& word.len() == 0 ==> on
        }),
{
    text::law_trimming_undoes_padding(front, word, back);
    if word.len() == 0 {
        reveal_strlit("0");
        reveal_strlit("no");
        reveal_strlit("off");
        reveal_strlit("false");
        reveal_strlit("disable");
        reveal_strlit("disabled");
        assert(text::lowered(word).len() == 0);
        assert("0"@.len() > 0 && "no"@.len() > 0 && "off"@.len() > 0);
        assert("false"@.len() > 0 && "disable"@.len() > 0 && "disabled"@.len() > 0);
    }
}

/// A version is of the beta channel just where its text holds a dash.
pub proof fn law_a_dash_makes_a_beta(base: Seq<char>, tag: Seq<char>)
    ensures
        channel_of(base + seq!['-'] + tag) == Channel::Beta,
        (forall|j: int| 0 <= j < base.len() ==> base[j] != '-') ==> channel_of(base) == Channel::Stable,
{
    let whole = base + seq!['-'] + tag;
    assert(whole[base.len() as int] == '-');
}

/// Releases are asked for by GET, under the name of the tool and within a second:
/// the latest one on the stable channel, the last ten on the beta channel.
pub proof fn law_release_requests_are_spelled_out(channel: Channel)
    ensures
        releases_asked(channel).method == Method::Get,
        releases_asked(channel).user_agent == Some("tokensave"@),
        releases_asked(channel).timeout_ms == 1_000,
        channel == Channel::Stable ==> releases_asked(channel).url
            == "https://api.github.com/repos/aovestdipaperino/tokensave/releases/latest"@,
        channel == Channel::Beta ==> releases_asked(channel).url
            == "https://api.github.com/repos/aovestdipaperino/tokensave/releases?per_page=10"@,
{
}

/// A stable check succeeds just where GitHub answered with a release of which
/// some asset is the archive for the machine, and yields the version of its tag.
pub proof fn law_stable_check_finds_the_archive(latest: GitHubRelease, fault: String, host: Host)
    ensures
        ({
            let version = text::without_leading(latest.tag_name@, 'v');
            let archive = release::asset_of(version, latest.prerelease, host);
            let up = exists|i: int| 0 <= i < latest.assets@.len() && (#[trigger] latest.assets@[i]).name@ == archive;
            &&& up ==> stable_outcome(Ok(latest), host) == Ok::<Seq<char>, CheckFailure>(version)
            &&& !up ==> (stable_outcome(Ok(latest), host) matches Err(CheckFailure::NoAssetForPlatform {
                version: v,
                platform,
                expected,
                available,
            }) && v == version && platform == release::platform_of(host) && expected == archive && available.len()
                == latest.assets@.len() && forall|i: int|
                0 <= i < available.len() ==> #[trigger] available[i] == latest.assets@[i].name@)
        }),
        stable_outcome(Err(fault), host) == Err::<Seq<char>, CheckFailure>(
            CheckFailure::Unreachable { detail: fault@ },
        ),
{
    let version = text::without_leading(latest.tag_name@, 'v');
    let archive = release::asset_of(version, latest.prerelease, host);
    if exists|i: int| 0 <= i < latest.assets@.len() && (#[trigger] latest.assets@[i]).name@ == archive {
        let i = choose|i: int| 0 <= i < latest.assets@.len() && (#[trigger] latest.assets@[i]).name@ == archive;
        assert(latest@.assets[i] == archive);
    } else if latest@.assets.contains(archive) {
        let i = choose|i: int| 0 <= i < latest@.assets.len() && latest@.assets[i] == archive;
        assert(latest.assets@[i].name@ == archive);
    }
}

/// A beta check succeeds just where GitHub answered with a list in which some
/// prerelease has the beta archive for the machine among its assets.
pub proof fn law_beta_check_finds_the_archive(list: Vec<GitHubRelease>, fault: String, host: Host)
    ensures
        beta_outcome(Ok(list), host) is Ok <==> exists|i: int, k: int|
            {
                &&& 0 <= i < list@.len()
                &&& list@[i].prerelease
                &&& 0 <= k < list@[i].assets@.len()
                &&& (#[trigger] list@[i].assets@[k]).name@ == release::asset_of(
                    text::without_leading(list@[i].tag_name@, 'v'),
                    true,
                    host,
                )
            },
        beta_outcome(Ok(list), host) == release::beta_choice(Seq::new(list@.len(), |i: int| list@[i]@), host),
        beta_outcome(Err(fault), host) == Err::<Seq<char>, CheckFailure>(CheckFailure::Unreachable { detail: fault@ }),
{
    let all = release::releases_of(list@);
    assert(all =~= Seq::new(list@.len(), |i: int| list@[i]@));
    release::law_beta_is_announced_where_an_archive_is_up(all, host);
    if exists|i: int, k: int|
        {
            &&& 0 <= i < list@.len()
            &&& list@[i].prerelease
            &&& 0 <= k < list@[i].assets@.len()
            &&& (#[trigger] list@[i].assets@[k]).name@ == release::asset_of(
                text::without_leading(list@[i].tag_name@, 'v'),
                true,
                host,
            )
        } {
        let (i, k) = choose|i: int, k: int|
            {
                &&& 0 <= i < list@.len()
                &&& list@[i].prerelease
                &&& 0 <= k < list@[i].assets@.len()
                &&& (#[trigger] list@[i].assets@[k]).name@ == release::asset_of(
                    text::without_leading(list@[i].tag_name@, 'v'),
                    true,
                    host,
                )
            };
        assert(all[i].assets[k] == release::asset_of(all[i].version(), true, host));
    }
    if beta_outcome(Ok(list), host) is Ok {
        let i = choose|i: int|
            0 <= i < all.len() && (#[trigger] all[i]).prerelease && all[i].assets.contains(
                release::asset_of(all[i].version(), true, host),
            );
        let archive = release::asset_of(all[i].version(), true, host);
        let k = choose|k: int| 0 <= k < all[i].assets.len() && all[i].assets[k] == archive;
        assert(list@[i].assets@[k].name@ == archive);
    }
}

/// A check has the outcome of the channel that was asked, and its version, if it
/// has one, is what the short forms yield.
pub proof fn law_check_has_the_outcome_of_its_channel(
    stable: Reply<GitHubRelease>,
    beta: Reply<Vec<GitHubRelease>>,
    version: Seq<char>,
    failure: CheckFailure,
    host: Host,
)
    ensures
        latest_outcome(ReleaseReply::Stable(stable), host) == stable_outcome(stable, host),
        latest_outcome(ReleaseReply::Beta(beta), host) == beta_outcome(beta, host),
        version_in(Ok(version)) == Some(version),
        version_in(Err(failure)) is None,
{
}

/// A notice that is on announces what the check finds, and one without a reply
/// announces nothing.
pub proof fn law_notice_announces_what_the_check_finds(value: Option<Seq<char>>, reply: ReleaseReply, host: Host)
    ensures
        notice_on(value) ==> match latest_outcome(reply, host) {
            Ok(version) => passive_outcome(value, Some(reply), host) == Some(version),
            Err(_) => passive_outcome(value, Some(reply), host) is None,
        },
        !notice_on(value) ==> passive_outcome(value, Some(reply), host) is None,
        passive_outcome(value, None, host) is None,
{
}

/// The contents of an optional text are those of the text.
pub proof fn law_contents_of_optional_texts(s: &str, version: String)
    ensures
        text_in(Some(s)) == Some(s@),
        text_in(None) is None,
        string_in(Some(version)) == Some(version@),
        string_in(None) is None,
{
}

} // verus!

//! The worldwide token counter: when to upload, what to send, and what the
//! replies mean.

use super::request::{Method, Reply, Request, RequestContents};
use crate::user_config::UserConfig;
use vstd::prelude::*;

verus! {

/// The endpoint of the counter.
pub const WORKER_URL: &'static str = "https://tokensave-counter.enzinol.workers.dev";

/// Timeout for flush (upload) requests, in milliseconds.
pub const FLUSH_TIMEOUT_MS: u64 = 2_000;

/// Timeout for fetching the worldwide total, in milliseconds.
pub const TOTAL_TIMEOUT_MS: u64 = 1_000;

/// Timeout for fetching the country flags, in milliseconds.
pub const COUNTRIES_TIMEOUT_MS: u64 = 500;

/// How long a successful upload holds off the next one: once a day.
///
/// The counter is a single global sum, so nothing about it needs a finer grain
/// than this: an intermediate upload changes the number it reports for a few
/// hours and then is indistinguishable from having waited.
pub const UPLOAD_INTERVAL_SECS: i64 = 24 * 60 * 60;

/// How long a *failed* attempt holds off the next one.
///
/// Deliberately much shorter than [`UPLOAD_INTERVAL_SECS`]: a failure leaves
/// `last_upload_at` untouched, so the daily gate stays open and this is the
/// only thing standing between a broken network and a request per command.
pub const FAILED_ATTEMPT_COOLDOWN_SECS: i64 = 60;

/// The last attempt failed, and that was less than the cooldown ago. A failed
/// attempt is recorded past the last success.
pub open spec fn just_failed(config: UserConfig, now: int) -> bool {
    &&& config.last_flush_attempt_at > config.last_upload_at
    &&& now - config.last_flush_attempt_at < FAILED_ATTEMPT_COOLDOWN_SECS
}

/// An upload is due at `now`.
pub open spec fn upload_due(config: UserConfig, now: int) -> bool {
    &&& config.upload_enabled
    &&& config.pending_upload != 0
    &&& !just_failed(config, now)
    &&& now - config.last_upload_at >= UPLOAD_INTERVAL_SECS
}

/// A difference of two times that 64 bits can hold.
pub open spec fn fits(difference: int) -> bool {
    i64::MIN <= difference <= i64::MAX
}

/// The differences of times that decide whether an upload is due fit in 64 bits.
pub open spec fn comparable_times(config: UserConfig, now: int) -> bool {
    config.upload_enabled && config.pending_upload != 0 ==> {
        &&& config.last_flush_attempt_at > config.last_upload_at ==> fits(now - config.last_flush_attempt_at)
        &&& !just_failed(config, now) ==> fits(now - config.last_upload_at)
    }
}

/// Whether an upload is due: uploads are enabled, something is pending, a day
/// has passed since the last success, and the last attempt did not just fail.
///
/// Every path that uploads goes through this, so the cadence is one decision
/// in one place.
pub fn upload_is_due(config: &UserConfig, now: i64) -> (r: bool)
    requires
        comparable_times(*config, now as int),
    ensures
        r == upload_due(*config, now as int),
{
    if config.pending_upload == 0 || !config.upload_enabled {
        return false;
    }
    if config.last_flush_attempt_at > config.last_upload_at && now - config.last_flush_attempt_at
        < FAILED_ATTEMPT_COOLDOWN_SECS {
        return false;
    }
    now - config.last_upload_at >= UPLOAD_INTERVAL_SECS
}

/// A request to the counter's endpoint.
pub open spec fn worker_request(method: Method, path: Seq<char>, timeout_ms: u64) -> RequestContents {
    RequestContents {
        method,
        url: WORKER_URL@ + path,
        user_agent: None,
        timeout_ms,
    }
}

fn to_worker(method: Method, path: &str, timeout_ms: u64) -> (r: Request)
    ensures
        r@ == worker_request(method, path@, timeout_ms),
{
    let mut url = WORKER_URL.to_owned();
    url.append(path);
    Request { method, url, user_agent: None, timeout_ms }
}

/// The request that uploads `amount` pending tokens. There is none for zero.
pub fn flush_request(amount: u64) -> (r: Option<Request>)
    ensures
        amount == 0 ==> r is None,
        amount != 0 ==> r is Some && r->0@ == worker_request(
            Method::Post { amount },
            "/increment"@,
            FLUSH_TIMEOUT_MS,
        ),
{
    if amount == 0 {
        return None;
    }
    Some(to_worker(Method::Post { amount }, "/increment", FLUSH_TIMEOUT_MS))
}

/// The request for the worldwide total.
pub fn worldwide_total_request() -> (r: Request)
    ensures
        r@ == worker_request(Method::Get, "/total"@, TOTAL_TIMEOUT_MS),
{
    to_worker(Method::Get, "/total", TOTAL_TIMEOUT_MS)
}

/// The request for the flags of the countries that the counter has seen.
pub fn country_flags_request() -> (r: Request)
    ensures
        r@ == worker_request(Method::Get, "/countries"@, COUNTRIES_TIMEOUT_MS),
{
    to_worker(Method::Get, "/countries", COUNTRIES_TIMEOUT_MS)
}

/// The counter's answer to an upload and to a request for the total.
#[derive(Debug)]
pub struct WorkerResponse {
    pub total: u64,
}

/// The counter's answer to a request for the country flags.
#[derive(Debug)]
pub struct CountriesResponse {
    pub flags: Vec<String>,
}

/// The total that a reply carries.
pub open spec fn total_in(reply: Reply<WorkerResponse>) -> Option<u64> {
    match reply {
        Ok(response) => Some(response.total),
        Err(_) => None,
    }
}

/// The outcome of an upload of `amount` pending tokens: the new worldwide total,
/// or None on any failure. `reply` answers [`flush_request`]; it is absent where
/// there was nothing to send.
pub fn flush_pending(amount: u64, reply: Option<Reply<WorkerResponse>>) -> (r: Option<u64>)
    ensures
        r == (if amount != 0 && reply is Some {
            total_in(reply->0)
        } else {
            None
        }),
{
    if amount == 0 {
        return None;
    }
    match reply {
        Some(Ok(response)) => Some(response.total),
        _ => None,
    }
}

/// The current worldwide total out of the reply to [`worldwide_total_request`].
/// None on timeout, network error, or parse failure.
pub fn fetch_worldwide_total(reply: Reply<WorkerResponse>) -> (r: Option<u64>)
    ensures
        r == total_in(reply),
{
    match reply {
        Ok(response) => Some(response.total),
        Err(_) => None,
    }
}

/// The emoji flags out of the reply to [`country_flags_request`], or an empty
/// list on failure.
pub fn fetch_country_flags(reply: Reply<CountriesResponse>) -> (r: Vec<String>)
    ensures
        r@ == match reply {
            Ok(response) => response.flags@,
            Err(_) => Seq::empty(),
        },
{
    match reply {
        Ok(response) => response.flags,
        Err(_) => Vec::new(),
    }
}

/// Two uploads that each succeed are at least a day apart: after a success no
/// upload is due before the interval is over.
pub proof fn law_at_most_one_upload_a_day(config: UserConfig, success: i64, now: int)
    requires
        upload_due(UserConfig { last_upload_at: success, ..config }, now),
    ensures
        now >= success + UPLOAD_INTERVAL_SECS,
{
}

/// With nothing to send, or against the user's wish, no upload is ever due.
pub proof fn law_nothing_pending_or_opted_out_is_never_due(config: UserConfig, now: int)
    requires
        config.pending_upload == 0 || !config.upload_enabled,
    ensures
        !upload_due(config, now),
{
}

/// A machine that has never uploaded and has something to send is due, unless an
/// attempt just failed. Its clock has to stand at least one interval past the
/// epoch.
pub proof fn law_first_upload_is_due(config: UserConfig, now: int)
    requires
        config.upload_enabled,
        config.pending_upload != 0,
        config.last_upload_at == 0,
        !just_failed(config, now),
        now >= UPLOAD_INTERVAL_SECS,
    ensures
        upload_due(config, now),
{
}

/// An upload that is due stays due until it is attempted.
pub proof fn law_due_stays_due(config: UserConfig, now: int, later: int)
    requires
        upload_due(config, now),
        now <= later,
    ensures
        upload_due(config, later),
{
}

/// An attempt that fails holds off the next one for the length of the cooldown,
/// and no longer: the failure leaves the time of the last success untouched.
pub proof fn law_a_failed_attempt_costs_one_cooldown(config: UserConfig, now: i64, later: int)
    requires
        upload_due(config, now as int),
        now <= later,
    ensures
        upload_due(UserConfig { last_flush_attempt_at: now, ..config }, later) <==> later >= now
            + FAILED_ATTEMPT_COOLDOWN_SECS,
{
}

/// Whatever the amount and whenever the last success was: with uploads enabled
/// and something pending, a day after that success an upload is due, unless an
/// attempt after it failed less than a minute ago.
pub proof fn law_due_a_day_after_any_success(config: UserConfig, now: int)
    requires
        config.upload_enabled,
        config.pending_upload > 0,
        now >= config.last_upload_at + 86_400,
        config.last_flush_attempt_at <= config.last_upload_at || now >= config.last_flush_attempt_at + 60,
    ensures
        upload_due(config, now),
{
}

/// An upload that is due is one that the user allows, that has something to send,
/// that comes a day or more after the last success, and a minute or more after
/// an attempt that failed since.
pub proof fn law_never_due_too_early(config: UserConfig, now: int)
    requires
        upload_due(config, now),
    ensures
        config.upload_enabled,
        config.pending_upload > 0,
        now >= config.last_upload_at + 86_400,
        config.last_flush_attempt_at > config.last_upload_at ==> now >= config.last_flush_attempt_at + 60,
{
}

/// Two amounts that are not zero are due alike, and moving every time by as much
/// changes nothing.
pub proof fn law_neither_amount_nor_epoch_matters(config: UserConfig, other: UserConfig, now: int, shift: int)
    requires
        other.upload_enabled == config.upload_enabled,
        (other.pending_upload == 0) == (config.pending_upload == 0),
        other.last_upload_at == config.last_upload_at + shift,
        other.last_flush_attempt_at == config.last_flush_attempt_at + shift,
    ensures
        upload_due(config, now) == upload_due(other, now + shift),
{
}

/// The cadence is a day after a success and a minute after a failure.
pub proof fn law_cadence_in_seconds()
    ensures
        UPLOAD_INTERVAL_SECS == 86_400,
        FAILED_ATTEMPT_COOLDOWN_SECS == 60,
{
}

/// Any times from the epoch on can be compared, and so can any within a range of
/// 64 bits from the present on either side.
pub proof fn law_ordinary_times_are_comparable(config: UserConfig, now: i64)
    requires
        now - config.last_upload_at <= 0x7fff_ffff_ffff_ffff,
        now - config.last_upload_at >= -0x8000_0000_0000_0000,
        now - config.last_flush_attempt_at <= 0x7fff_ffff_ffff_ffff,
        now - config.last_flush_attempt_at >= -0x8000_0000_0000_0000,
    ensures
        comparable_times(config, now as int),
{
}

/// Every request to the counter goes to one host, with the path behind its name,
/// and carries the method and the limit given; it names no user agent.
pub proof fn law_counter_requests_go_to_one_host(method: Method, path: Seq<char>, timeout_ms: u64)
    ensures
        worker_request(method, path, timeout_ms).url == "https://tokensave-counter.enzinol.workers.dev"@ + path,
        worker_request(method, path, timeout_ms).method == method,
        worker_request(method, path, timeout_ms).timeout_ms == timeout_ms,
        worker_request(method, path, timeout_ms).user_agent is None,
{
}

/// Uploads may take two seconds, the total one, and the flags half of one.
pub proof fn law_counter_limits_in_milliseconds()
    ensures
        FLUSH_TIMEOUT_MS == 2_000,
        TOTAL_TIMEOUT_MS == 1_000,
        COUNTRIES_TIMEOUT_MS == 500,
{
}

/// A reply of the counter yields the total that it carries, whatever that is, and
/// a failure yields none.
pub proof fn law_total_comes_from_the_reply(response: WorkerResponse, fault: String)
    ensures
        total_in(Ok(response)) == Some(response.total),
        total_in(Err(fault)) is None,
{
}

} // verus!

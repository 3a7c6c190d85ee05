use vstd::prelude::*;

use crate::model::BotError;
use crate::text::{chars_of, trim, trim_spec};

verus! {

/// The JSON envelope of every API answer.
pub struct ApiResponse<T> {
    pub success: bool,
    pub data: Option<T>,
    pub error: Option<ApiErrorBody>,
}

/// The error part of an API answer.
#[derive(Debug)]
pub struct ApiErrorBody {
    pub code: String,
    pub message: String,
}

impl<T> ApiResponse<T> {
    /// A successful answer carrying `data`.
    pub fn ok(data: T) -> (r: Self)
        ensures
            r.success,
            r.data == Some(data),
            r.error is None,
    {
        ApiResponse { success: true, data: Some(data), error: None }
    }

    /// A failed answer with an error code and message.
    pub fn err(code: &str, message: &str) -> (r: Self)
        ensures
            !r.success,
            r.data is None,
            r.error matches Some(e) && e.code@ == code@ && e.message@ == message@,
    {
        ApiResponse {
            success: false,
            data: None,
            error: Some(
                ApiErrorBody { code: String::from_str(code), message: String::from_str(message) },
            ),
        }
    }
}

/// An HTTP status with the error code and message the API answers with.
#[derive(Debug)]
pub struct ApiFailure {
    pub status: u16,
    pub code: &'static str,
    pub message: &'static str,
}

pub open spec fn failure_is(f: ApiFailure, status: u16, code: Seq<char>, message: Seq<char>) -> bool {
    f.status == status && f.code@ == code && f.message@ == message
}

/// How a failed song request is answered: a full queue with 409, a
/// cooldown with 429, no match with 404, anything else as an internal error.
pub fn request_failure(e: &BotError) -> (r: ApiFailure)
    ensures
        match e {
            BotError::QueueFull => failure_is(r, 409, "QUEUE_FULL"@, "The queue is full"@),
            BotError::RateLimited => failure_is(r, 429, "RATE_LIMITED"@, "Cooldown active"@),
            BotError::NotFound => failure_is(r, 404, "NO_MATCH"@, "No matching song found"@),
            _ => failure_is(r, 500, "INTERNAL"@, "An internal error occurred"@),
        },
{
    proof {
        reveal_strlit("QUEUE_FULL");
        reveal_strlit("The queue is full");
        reveal_strlit("RATE_LIMITED");
        reveal_strlit("Cooldown active");
        reveal_strlit("NO_MATCH");
        reveal_strlit("No matching song found");
        reveal_strlit("INTERNAL");
        reveal_strlit("An internal error occurred");
    }
    match e {
        BotError::QueueFull => ApiFailure {
            status: 409,
            code: "QUEUE_FULL",
            message: "The queue is full",
        },
        BotError::RateLimited => ApiFailure {
            status: 429,
            code: "RATE_LIMITED",
            message: "Cooldown active",
        },
        BotError::NotFound => ApiFailure {
            status: 404,
            code: "NO_MATCH",
            message: "No matching song found",
        },
        _ => ApiFailure { status: 500, code: "INTERNAL", message: "An internal error occurred" },
    }
}

/// A dashboard song query is accepted when, trimmed, it holds 1 to 300
/// characters.
pub open spec fn song_query_ok(q: Seq<char>) -> bool {
    0 < trim_spec(q).len() <= 300
}

/// Checks a dashboard song query.
pub fn valid_song_query(query: &str) -> (r: bool)
    ensures
        r == song_query_ok(query@),
{
    let cs = chars_of(query);
    let t = trim(cs.as_slice());
    t.len() > 0 && t.len() <= 300
}

/// A search query is accepted when it is not blank.
pub fn valid_search_query(query: &str) -> (r: bool)
    ensures
        r == (trim_spec(query@).len() > 0),
{
    let cs = chars_of(query);
    let t = trim(cs.as_slice());
    t.len() > 0
}

/// A block request needs a user id and a login that are not blank.
pub fn valid_block_request(user_id: &str, user_login: &str) -> (r: bool)
    ensures
        r == (trim_spec(user_id@).len() > 0 && trim_spec(user_login@).len() > 0),
{
    let a = chars_of(user_id);
    let b = chars_of(user_login);
    trim(a.as_slice()).len() > 0 && trim(b.as_slice()).len() > 0
}

/// At most this many items can be reordered at once.
pub fn reorder_too_large(count: usize) -> (r: bool)
    ensures
        r == (count > 500),
{
    count > 500
}

/// The history page size: 20 by default, kept within `1..=100`.
pub fn history_limit(requested: Option<i64>) -> (r: i64)
    ensures
        match requested {
            None => r == 20,
            Some(n) => r == (if n < 1 {
                1
            } else if n > 100 {
                100
            } else {
                n
            }),
        },
{
    let n = match requested {
        Some(n) => n,
        None => 20,
    };
    if n < 1 {
        1
    } else if n > 100 {
        100
    } else {
        n
    }
}

/// The search result count: 10 by default, kept within `1..=25`.
pub fn search_limit(requested: Option<usize>) -> (r: usize)
    ensures
        match requested {
            None => r == 10,
            Some(n) => r == (if n < 1 {
                1
            } else if n > 25 {
                25
            } else {
                n
            }),
        },
{
    let n = match requested {
        Some(n) => n,
        None => 10,
    };
    if n < 1 {
        1
    } else if n > 25 {
        25
    } else {
        n
    }
}

/// `v` kept within `lo..=hi`.
pub open spec fn clamp_spec(v: int, lo: int, hi: int) -> int {
    if v < lo {
        lo
    } else if v > hi {
        hi
    } else {
        v
    }
}

fn clamp_i32(v: i32, lo: i32, hi: i32) -> (r: i32)
    requires
        lo <= hi,
    ensures
        r == clamp_spec(v as int, lo as int, hi as int),
{
    if v < lo {
        lo
    } else if v > hi {
        hi
    } else {
        v
    }
}

/// The integer limits of a streamer configuration as the dashboard may set
/// them.
pub struct RequestLimits {
    pub max_queue_size: i32,
    pub max_requests_per_user: i32,
    pub request_cooldown_seconds: i32,
}

/// Keeps dashboard-supplied limits sane so a bad payload cannot stall
/// playback: queue size within `1..=500`, requests per user within `1..=50`,
/// cooldown within `0..=3600` seconds.
pub fn sanitize_limits(limits: RequestLimits) -> (r: RequestLimits)
    ensures
        r.max_queue_size == clamp_spec(limits.max_queue_size as int, 1, 500),
        r.max_requests_per_user == clamp_spec(limits.max_requests_per_user as int, 1, 50),
        r.request_cooldown_seconds == clamp_spec(limits.request_cooldown_seconds as int, 0, 3600),
{
    RequestLimits {
        max_queue_size: clamp_i32(limits.max_queue_size, 1, 500),
        max_requests_per_user: clamp_i32(limits.max_requests_per_user, 1, 50),
        request_cooldown_seconds: clamp_i32(limits.request_cooldown_seconds, 0, 3600),
    }
}

/// Sanitizing keeps the limits within their bounds and changes nothing a
/// second time.
pub proof fn law_sanitize_idempotent(v: int, lo: int, hi: int)
    requires
        lo <= hi,
    ensures
        lo <= clamp_spec(v, lo, hi) <= hi,
        clamp_spec(clamp_spec(v, lo, hi), lo, hi) == clamp_spec(v, lo, hi),
        lo <= v <= hi ==> clamp_spec(v, lo, hi) == v,
{
}

/// A skip request names the playing song either by its song id or by its
/// queue item id.
pub fn is_skip_target(song_id: u128, queue_item_id: u128, requested: u128) -> (r: bool)
    ensures
        r == (song_id == requested || queue_item_id == requested),
{
    song_id == requested || queue_item_id == requested
}

} // verus!

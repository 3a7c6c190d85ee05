use vstd::prelude::*;

use crate::model::{BotError, QueueStatus, TwitchUser};
use crate::text::{chars_of, contains, contains_spec, spec_to_lowercase, str_eq, to_lowercase};

verus! {

// ---------------------------------------------------------------------------
// Request admission
// ---------------------------------------------------------------------------

/// The parts of a streamer's configuration that decide whether a song
/// request is admitted.
pub struct AdmissionLimits {
    pub max_queue_size: i32,
    pub max_requests_per_user: i32,
    pub request_cooldown_seconds: i32,
    /// `allow`, `clean_only` or `block`: explicit songs are refused unless
    /// it is `allow`.
    pub explicit_filter: String,
    /// `fifo` plays requests in order; the priority modes put moderators
    /// first.
    pub queue_mode: String,
    /// Artists whose songs are refused (compared case-insensitively).
    pub blocked_artists: Vec<String>,
    /// Words that refuse a song when its title contains one
    /// (case-insensitively; blank entries are ignored).
    pub blocked_keywords: Vec<String>,
}

/// What the admission needs to know of the best search hit.
pub struct HitFacts {
    pub explicit: bool,
    /// Its search confidence reaches the streamer's fuzzy threshold.
    pub meets_threshold: bool,
    pub artist: String,
    pub title: String,
}

/// What has been learned so far while admitting one request; `None` means
/// not asked yet.
pub struct AdmissionFacts {
    /// The requester is on the streamer's block list.
    pub blocked: Option<bool>,
    /// Pending requests of this user.
    pub user_pending: Option<i64>,
    /// Milliseconds since the user's last request, if they ever requested.
    pub since_last_request_ms: Option<Option<i64>>,
    /// The per-user request window still has room.
    pub within_rate_window: Option<bool>,
    /// Pending requests of the whole queue.
    pub pending_total: Option<i64>,
    /// The best search hit; `Some(None)` when the search found nothing.
    pub best_hit: Option<Option<HitFacts>>,
    /// The best hit is already pending or playing.
    pub duplicate: Option<bool>,
}

/// The next thing to do for a request.
#[derive(Debug)]
pub enum AdmissionAction {
    LookUpBlocked,
    CountUserPending,
    LookUpLastRequest,
    /// Count this request in the user's window and report whether it fits.
    CheckRateWindow { window_seconds: i64, max_count: i32 },
    CountPending,
    /// Search the allowed sources for this many candidates.
    Search { limit: usize },
    CheckDuplicate,
    /// Store the best hit and queue it with this priority.
    Enqueue { priority: i32 },
    /// Refuse the request; `metric` names the failed-operation counter, if any.
    Reject { error: BotError, metric: Option<&'static str> },
}

/// Length of the per-user request window, in seconds.
pub open spec fn rate_window_seconds() -> i64 {
    60
}

/// How many candidates a request search asks for.
pub open spec fn request_search_limit() -> usize {
    5
}

/// The artist is on the block list, compared case-insensitively.
pub open spec fn artist_blocked(artist: Seq<char>, blocked: Seq<String>) -> bool {
    exists|i: int|
        0 <= i < blocked.len() && spec_to_lowercase(#[trigger] blocked[i]@) == spec_to_lowercase(artist)
}

/// The title contains a non-blank blocked keyword, case-insensitively.
pub open spec fn keyword_blocked(title: Seq<char>, keywords: Seq<String>) -> bool {
    exists|i: int|
        0 <= i < keywords.len() && (#[trigger] keywords[i])@.len() > 0 && contains_spec(
            spec_to_lowercase(title),
            spec_to_lowercase(keywords[i]@),
        )
}

/// Explicit songs pass only when the filter allows them.
pub open spec fn explicit_refused(explicit: bool, filter: Seq<char>) -> bool {
    explicit && filter != "allow"@
}

/// Moderators, subscribers and VIPs: the users a priority mode puts first.
pub open spec fn has_priority_role(user: TwitchUser) -> bool {
    user.is_mod || user.is_sub || user.is_vip
}

/// The priority of a queued request: every request waits its turn in
/// `fifo` mode; the priority modes put moderators, subscribers and VIPs
/// first.
pub open spec fn enqueue_priority(queue_mode: Seq<char>, user: TwitchUser) -> i32 {
    if queue_mode != "fifo"@ && has_priority_role(user) {
        10
    } else {
        0
    }
}

/// The decision once a hit was found: below the fuzzy threshold, by a
/// blocked artist, with a blocked keyword or explicit against the filter it
/// is refused; otherwise it is queued unless already pending or playing.
pub open spec fn hit_decision(
    limits: AdmissionLimits,
    user: TwitchUser,
    hit: HitFacts,
    duplicate: Option<bool>,
) -> AdmissionAction {
    if !hit.meets_threshold {
        AdmissionAction::Reject { error: BotError::NotFound, metric: None }
    } else if artist_blocked(hit.artist@, limits.blocked_artists@) || keyword_blocked(
        hit.title@,
        limits.blocked_keywords@,
    ) {
        AdmissionAction::Reject { error: BotError::NotFound, metric: None }
    } else if explicit_refused(hit.explicit, limits.explicit_filter@) {
        AdmissionAction::Reject { error: BotError::NotFound, metric: None }
    } else {
        match duplicate {
            None => AdmissionAction::CheckDuplicate,
            Some(true) => AdmissionAction::Reject {
                error: BotError::NotFound,
                metric: Some("add_duplicate"),
            },
            Some(false) => AdmissionAction::Enqueue {
                priority: enqueue_priority(limits.queue_mode@, user),
            },
        }
    }
}

/// The decision on a request given what is known: checks run in order
/// (block list, per-user cap, cooldown, request window, capacity, search,
/// then the hit itself and duplicates) and the first one not yet answered is
/// asked. Moderators skip the per-user cap and the cooldown.
pub open spec fn admission_spec(
    limits: AdmissionLimits,
    user: TwitchUser,
    facts: AdmissionFacts,
) -> AdmissionAction {
    match facts.blocked {
        None => AdmissionAction::LookUpBlocked,
        Some(true) => AdmissionAction::Reject {
            error: BotError::UserBlocked,
            metric: Some("add_blocked_user"),
        },
        Some(false) => match facts.user_pending {
            None => AdmissionAction::CountUserPending,
            Some(n) => if n >= limits.max_requests_per_user && !user.is_mod {
                AdmissionAction::Reject { error: BotError::RateLimited, metric: Some("add_limit") }
            } else if limits.request_cooldown_seconds > 0 && !user.is_mod && facts.since_last_request_ms
                is None {
                AdmissionAction::LookUpLastRequest
            } else if limits.request_cooldown_seconds > 0 && !user.is_mod && (match facts.since_last_request_ms {
                Some(Some(ms)) => ms < limits.request_cooldown_seconds * 1000,
                _ => false,
            }) {
                AdmissionAction::Reject {
                    error: BotError::RateLimited,
                    metric: Some("add_cooldown"),
                }
            } else {
                match facts.within_rate_window {
                    None => AdmissionAction::CheckRateWindow {
                        window_seconds: rate_window_seconds(),
                        max_count: (limits.max_requests_per_user * 2) as i32,
                    },
                    Some(false) => AdmissionAction::Reject {
                        error: BotError::RateLimited,
                        metric: Some("add_ratelimit"),
                    },
                    Some(true) => match facts.pending_total {
                        None => AdmissionAction::CountPending,
                        Some(total) => if total >= limits.max_queue_size {
                            AdmissionAction::Reject {
                                error: BotError::QueueFull,
                                metric: Some("add_full"),
                            }
                        } else {
                            match facts.best_hit {
                                None => AdmissionAction::Search { limit: request_search_limit() },
                                Some(None) => AdmissionAction::Reject {
                                    error: BotError::NotFound,
                                    metric: None,
                                },
                                Some(Some(hit)) => hit_decision(
                                    limits,
                                    user,
                                    hit,
                                    facts.duplicate,
                                ),
                            }
                        },
                    },
                }
            },
        },
    }
}

/// Whether the admission decision has room to be computed: the doubled
/// per-user cap that sizes the request window fits an `i32`.
pub open spec fn admission_limits_ok(limits: AdmissionLimits) -> bool {
    i32::MIN <= limits.max_requests_per_user * 2 <= i32::MAX
}

/// Checks that the doubled per-user cap fits an `i32`.
pub fn admission_limits_fit(limits: &AdmissionLimits) -> (r: bool)
    ensures
        r == admission_limits_ok(*limits),
{
    limits.max_requests_per_user >= i32::MIN / 2 && limits.max_requests_per_user <= i32::MAX / 2
}

/// Whether an artist is on the block list, compared case-insensitively.
pub fn is_artist_blocked(artist: &str, blocked: &Vec<String>) -> (r: bool)
    ensures
        r == artist_blocked(artist@, blocked@),
{
    let a = to_lowercase(artist);
    let mut i: usize = 0;
    while i < blocked.len()
        invariant
            i <= blocked@.len(),
            a@ == spec_to_lowercase(artist@),
            forall|j: int|
                0 <= j < i ==> spec_to_lowercase(#[trigger] blocked@[j]@) != spec_to_lowercase(artist@),
        decreases blocked@.len() - i,
    {
        let b = to_lowercase(blocked[i].as_str());
        if str_eq(b.as_str(), a.as_str()) {
            assert(spec_to_lowercase(blocked@[i as int]@) == spec_to_lowercase(artist@));
            return true;
        }
        i = i + 1;
    }
    false
}

/// Whether a title contains a non-blank blocked keyword, case-insensitively.
pub fn is_title_blocked(title: &str, keywords: &Vec<String>) -> (r: bool)
    ensures
        r == keyword_blocked(title@, keywords@),
{
    let t = to_lowercase(title);
    let tc = chars_of(t.as_str());
    let mut i: usize = 0;
    while i < keywords.len()
        invariant
            i <= keywords@.len(),
            tc@ == spec_to_lowercase(title@),
            forall|j: int|
                0 <= j < i ==> !((#[trigger] keywords@[j])@.len() > 0 && contains_spec(
                    spec_to_lowercase(title@),
                    spec_to_lowercase(keywords@[j]@),
                )),
        decreases keywords@.len() - i,
    {
        let kw = &keywords[i];
        let blank = kw.as_str().unicode_len() == 0;
        if !blank {
            let k = to_lowercase(kw.as_str());
            let kc = chars_of(k.as_str());
            if contains(tc.as_slice(), kc.as_slice()) {
                assert(keywords@[i as int]@.len() > 0);
                return true;
            }
        }
        i = i + 1;
    }
    false
}

fn decide_hit(limits: &AdmissionLimits, user: &TwitchUser, hit: &HitFacts, duplicate: Option<bool>) -> (r:
    AdmissionAction)
    ensures
        r == hit_decision(*limits, *user, *hit, duplicate),
{
    proof {
        reveal_strlit("allow");
        reveal_strlit("fifo");
        reveal_strlit("add_duplicate");
    }
    if !hit.meets_threshold {
        return AdmissionAction::Reject { error: BotError::NotFound, metric: None };
    }
    if is_artist_blocked(hit.artist.as_str(), &limits.blocked_artists) || is_title_blocked(
        hit.title.as_str(),
        &limits.blocked_keywords,
    ) {
        return AdmissionAction::Reject { error: BotError::NotFound, metric: None };
    }
    if hit.explicit && !str_eq(limits.explicit_filter.as_str(), "allow") {
        return AdmissionAction::Reject { error: BotError::NotFound, metric: None };
    }
    match duplicate {
        None => AdmissionAction::CheckDuplicate,
        Some(true) => AdmissionAction::Reject {
            error: BotError::NotFound,
            metric: Some("add_duplicate"),
        },
        Some(false) => AdmissionAction::Enqueue {
            priority: if !str_eq(limits.queue_mode.as_str(), "fifo") && (user.is_mod || user.is_sub
                || user.is_vip) {
                10
            } else {
                0
            },
        },
    }
}

/// Decides the next step of admitting a song request.
pub fn next_admission_action(
    limits: &AdmissionLimits,
    user: &TwitchUser,
    facts: &AdmissionFacts,
) -> (r: AdmissionAction)
    requires
        admission_limits_ok(*limits),
    ensures
        r == admission_spec(*limits, *user, *facts),
{
    proof {
        reveal_strlit("add_blocked_user");
        reveal_strlit("add_limit");
        reveal_strlit("add_cooldown");
        reveal_strlit("add_ratelimit");
        reveal_strlit("add_full");
    }
    match facts.blocked {
        None => return AdmissionAction::LookUpBlocked,
        Some(true) => {
            return AdmissionAction::Reject {
                error: BotError::UserBlocked,
                metric: Some("add_blocked_user"),
            }
        },
        Some(false) => {},
    }
    let n = match facts.user_pending {
        None => return AdmissionAction::CountUserPending,
        Some(n) => n,
    };
    if n >= limits.max_requests_per_user as i64 && !user.is_mod {
        return AdmissionAction::Reject { error: BotError::RateLimited, metric: Some("add_limit") };
    }
    if limits.request_cooldown_seconds > 0 && !user.is_mod {
        match facts.since_last_request_ms {
            None => return AdmissionAction::LookUpLastRequest,
            Some(Some(ms)) => {
                let limit_ms: i64 = limits.request_cooldown_seconds as i64 * 1000;
                if ms < limit_ms {
                    return AdmissionAction::Reject {
                        error: BotError::RateLimited,
                        metric: Some("add_cooldown"),
                    };
                }
            },
            Some(None) => {},
        }
    }
    match facts.within_rate_window {
        None => {
            return AdmissionAction::CheckRateWindow {
                window_seconds: 60,
                max_count: limits.max_requests_per_user * 2,
            }
        },
        Some(false) => {
            return AdmissionAction::Reject {
                error: BotError::RateLimited,
                metric: Some("add_ratelimit"),
            }
        },
        Some(true) => {},
    }
    let total = match facts.pending_total {
        None => return AdmissionAction::CountPending,
        Some(t) => t,
    };
    if total >= limits.max_queue_size as i64 {
        return AdmissionAction::Reject { error: BotError::QueueFull, metric: Some("add_full") };
    }
    match &facts.best_hit {
        None => AdmissionAction::Search { limit: 5 },
        Some(None) => AdmissionAction::Reject { error: BotError::NotFound, metric: None },
        Some(Some(hit)) => decide_hit(limits, user, hit, facts.duplicate),
    }
}

/// Moderators are never refused for the per-user request cap or the
/// cooldown between requests.
pub proof fn law_moderators_skip_user_limits(limits: AdmissionLimits, user: TwitchUser, facts: AdmissionFacts)
    requires
        user.is_mod,
    ensures
        !(admission_spec(limits, user, facts) matches AdmissionAction::Reject { metric, .. } && (
        metric == Some("add_limit") || metric == Some("add_cooldown"))),
{
    reveal_strlit("add_limit");
    reveal_strlit("add_cooldown");
    reveal_strlit("add_blocked_user");
    reveal_strlit("add_ratelimit");
    reveal_strlit("add_full");
    reveal_strlit("add_duplicate");
}

/// A request is queued only when every check has been answered and passed:
/// the user is not blocked, the request window has room, the queue is below
/// its size limit, a hit was found that reaches the fuzzy threshold, is by
/// no blocked artist, has no blocked keyword in its title, is not explicit
/// unless the filter allows it, and is not already queued; users who are
/// not moderators are also below their cap and past their cooldown. In
/// `fifo` mode every request gets priority 0; otherwise moderators,
/// subscribers and VIPs get 10.
pub proof fn law_enqueue_requires_all_checks(
    limits: AdmissionLimits,
    user: TwitchUser,
    facts: AdmissionFacts,
)
    requires
        admission_spec(limits, user, facts) is Enqueue,
    ensures
        facts.blocked == Some(false),
        facts.within_rate_window == Some(true),
        facts.pending_total matches Some(t) && t < limits.max_queue_size,
        facts.best_hit matches Some(Some(hit)) && hit.meets_threshold && !artist_blocked(
            hit.artist@,
            limits.blocked_artists@,
        ) && !keyword_blocked(hit.title@, limits.blocked_keywords@) && (hit.explicit
            ==> limits.explicit_filter@ == "allow"@),
        facts.duplicate == Some(false),
        !user.is_mod ==> (facts.user_pending matches Some(n) && n < limits.max_requests_per_user),
        !user.is_mod && limits.request_cooldown_seconds > 0 ==> (facts.since_last_request_ms matches Some(
            last,
        ) && (last matches Some(ms) ==> ms >= limits.request_cooldown_seconds * 1000)),
        admission_spec(limits, user, facts)->priority == (if limits.queue_mode@ != "fifo"@
            && has_priority_role(user) {
            10int
        } else {
            0int
        }),
        limits.queue_mode@ == "fifo"@ ==> admission_spec(limits, user, facts)->priority == 0,
{
}

/// Each look-up the decision asks for is one whose answer is still unknown,
/// so feeding answers back reaches a verdict after at most seven look-ups.
pub proof fn law_admission_asks_only_unknowns(
    limits: AdmissionLimits,
    user: TwitchUser,
    facts: AdmissionFacts,
)
    ensures
        admission_spec(limits, user, facts) is LookUpBlocked ==> facts.blocked is None,
        admission_spec(limits, user, facts) is CountUserPending ==> facts.user_pending is None,
        admission_spec(limits, user, facts) is LookUpLastRequest
            ==> facts.since_last_request_ms is None,
        admission_spec(limits, user, facts) is CheckRateWindow ==> facts.within_rate_window is None,
        admission_spec(limits, user, facts) is CountPending ==> facts.pending_total is None,
        admission_spec(limits, user, facts) is Search ==> facts.best_hit is None,
        admission_spec(limits, user, facts) is CheckDuplicate ==> facts.duplicate is None,
{
}

// ---------------------------------------------------------------------------
// Vote skips
// ---------------------------------------------------------------------------

/// What a vote-skip request does before any vote is stored.
#[derive(Debug)]
pub enum VoteSkipStart {
    /// Nothing of this streamer is playing: nothing to do.
    NothingPlaying,
    /// Moderators skip directly.
    SkipDirectly,
    /// Community vote skip is turned off: the vote is ignored.
    Disabled,
    /// Record the vote and count the votes.
    RecordVote,
}

/// Decides how a vote-skip request starts: moderators skip the playing song
/// directly; other viewers' votes count only while vote skip is enabled.
pub fn vote_skip_start(something_playing: bool, voter_is_mod: bool, vote_skip_enabled: bool) -> (r:
    VoteSkipStart)
    ensures
        !something_playing ==> r is NothingPlaying,
        something_playing && voter_is_mod ==> r is SkipDirectly,
        something_playing && !voter_is_mod && !vote_skip_enabled ==> r is Disabled,
        something_playing && !voter_is_mod && vote_skip_enabled ==> r is RecordVote,
{
    if !something_playing {
        VoteSkipStart::NothingPlaying
    } else if voter_is_mod {
        VoteSkipStart::SkipDirectly
    } else if !vote_skip_enabled {
        VoteSkipStart::Disabled
    } else {
        VoteSkipStart::RecordVote
    }
}

/// What a recorded vote leads to.
#[derive(Debug)]
pub enum VoteOutcome {
    /// Report the progress `(votes, required)`.
    Progress(i64, i32),
    /// The threshold is reached: skip the song.
    Skip,
}

pub open spec fn vote_outcome_spec(inserted: bool, count: i64, required: i32) -> VoteOutcome {
    if inserted && count >= required {
        VoteOutcome::Skip
    } else {
        VoteOutcome::Progress(count, required)
    }
}

/// Decides what a vote does: a new vote that brings the count to the
/// threshold skips the song; a repeated vote only reports progress.
pub fn vote_outcome(inserted: bool, count: i64, required: i32) -> (r: VoteOutcome)
    ensures
        r == vote_outcome_spec(inserted, count, required),
{
    if !inserted {
        return VoteOutcome::Progress(count, required);
    }
    if count >= required as i64 {
        VoteOutcome::Skip
    } else {
        VoteOutcome::Progress(count, required)
    }
}

/// A vote that was already cast never skips the song.
pub proof fn law_repeated_vote_never_skips(count: i64, required: i32)
    ensures
        vote_outcome_spec(false, count, required) == VoteOutcome::Progress(count, required),
{
}

// ---------------------------------------------------------------------------
// Playback
// ---------------------------------------------------------------------------

/// Seconds of grace after a song's duration before it is considered over.
pub open spec fn end_grace_seconds() -> int {
    5
}

/// A song with a known duration has ended once more than its duration plus
/// the grace period has passed since it started; songs of unknown duration
/// never end on their own.
pub open spec fn should_auto_advance_spec(duration_seconds: Option<i32>, elapsed_seconds: i64) -> bool {
    match duration_seconds {
        Some(d) => elapsed_seconds > d + end_grace_seconds(),
        None => false,
    }
}

/// Whether the playing song has run past its end.
pub fn should_auto_advance(duration_seconds: Option<i32>, elapsed_seconds: i64) -> (r: bool)
    ensures
        r == should_auto_advance_spec(duration_seconds, elapsed_seconds),
{
    match duration_seconds {
        Some(d) => elapsed_seconds > d as i64 + 5,
        None => false,
    }
}

/// A song of known length `d` moves on exactly when more than `d + 5`
/// seconds have passed since it started, however long it is; a song of
/// unknown length never moves on by itself; and a longer song never moves on
/// sooner than a shorter one.
pub proof fn law_auto_advance_after_duration(d: i32, d2: i32, elapsed: i64)
    ensures
        should_auto_advance_spec(Some(d), elapsed) <==> elapsed > d + 5,
        !should_auto_advance_spec(None, elapsed),
        d <= d2 && should_auto_advance_spec(Some(d2), elapsed) ==> should_auto_advance_spec(
            Some(d),
            elapsed,
        ),
{
}

/// The status a finished song gets.
pub fn finished_status(skipped: bool) -> (r: QueueStatus)
    ensures
        r == (if skipped {
            QueueStatus::Skipped
        } else {
            QueueStatus::Played
        }),
{
    if skipped {
        QueueStatus::Skipped
    } else {
        QueueStatus::Played
    }
}

/// Seconds a song counts as played: the time since it was requested,
/// clamped to `0..=86400`.
pub fn played_seconds(elapsed_seconds: i64) -> (r: i32)
    ensures
        r == (if elapsed_seconds < 0 {
            0
        } else if elapsed_seconds > 86400 {
            86400
        } else {
            elapsed_seconds
        }),
{
    if elapsed_seconds < 0 {
        0
    } else if elapsed_seconds > 86400 {
        86400
    } else {
        elapsed_seconds as i32
    }
}

/// The 1-based positions a reorder gives to `n` items in the given order,
/// as the `i32` values stored in the queue.
pub fn reorder_positions(n: usize) -> (r: Vec<i32>)
    requires
        n < i32::MAX,
    ensures
        r@.len() == n,
        forall|i: int| 0 <= i < n ==> #[trigger] r@[i] == i + 1,
{
    let mut v: Vec<i32> = Vec::new();
    let mut i: usize = 0;
    while i < n
        invariant
            i <= n < i32::MAX,
            v@.len() == i,
            forall|k: int| 0 <= k < i ==> #[trigger] v@[k] == k + 1,
        decreases n - i,
    {
        v.push(i as i32 + 1);
        i = i + 1;
    }
    v
}

} // verus!

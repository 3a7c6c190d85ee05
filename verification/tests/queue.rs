use twitch_music_bot::model::{BotError, QueueStatus, TwitchUser};
use twitch_music_bot::queue::{
    finished_status, next_admission_action, played_seconds, reorder_positions, should_auto_advance, vote_outcome,
    vote_skip_start, admission_limits_fit, is_artist_blocked, is_title_blocked, AdmissionAction, AdmissionFacts,
    AdmissionLimits, HitFacts, VoteOutcome, VoteSkipStart,
};

fn user(is_mod: bool, is_sub: bool, is_vip: bool) -> TwitchUser {
    TwitchUser {
        id: "u1".to_string(),
        twitch_user_id: "1001".to_string(),
        login: "viewer".to_string(),
        display_name: "Viewer".to_string(),
        is_mod,
        is_sub,
        is_vip,
    }
}

fn viewer() -> TwitchUser {
    user(false, false, false)
}

fn moderator() -> TwitchUser {
    user(true, false, false)
}

fn limits(filter: &str) -> AdmissionLimits {
    AdmissionLimits {
        max_queue_size: 10,
        max_requests_per_user: 2,
        request_cooldown_seconds: 30,
        explicit_filter: filter.to_string(),
        queue_mode: "fifo".to_string(),
        blocked_artists: vec![],
        blocked_keywords: vec![],
    }
}

fn hit(explicit: bool, meets_threshold: bool, artist: &str, title: &str) -> Option<Option<HitFacts>> {
    Some(Some(HitFacts { explicit, meets_threshold, artist: artist.to_string(), title: title.to_string() }))
}

fn nothing_known() -> AdmissionFacts {
    AdmissionFacts {
        blocked: None,
        user_pending: None,
        since_last_request_ms: None,
        within_rate_window: None,
        pending_total: None,
        best_hit: None,
        duplicate: None,
    }
}

fn all_clear() -> AdmissionFacts {
    AdmissionFacts {
        blocked: Some(false),
        user_pending: Some(0),
        since_last_request_ms: Some(None),
        within_rate_window: Some(true),
        pending_total: Some(0),
        best_hit: hit(false, true, "Artist", "Title"),
        duplicate: Some(false),
    }
}

#[test]
fn admission_asks_in_order() {
    let l = limits("allow");
    let mut f = nothing_known();
    assert!(matches!(next_admission_action(&l, &viewer(), &f), AdmissionAction::LookUpBlocked));
    f.blocked = Some(false);
    assert!(matches!(next_admission_action(&l, &viewer(), &f), AdmissionAction::CountUserPending));
    f.user_pending = Some(1);
    assert!(matches!(next_admission_action(&l, &viewer(), &f), AdmissionAction::LookUpLastRequest));
    f.since_last_request_ms = Some(Some(31_000));
    assert!(matches!(
        next_admission_action(&l, &viewer(), &f),
        AdmissionAction::CheckRateWindow { window_seconds: 60, max_count: 4 }
    ));
    f.within_rate_window = Some(true);
    assert!(matches!(next_admission_action(&l, &viewer(), &f), AdmissionAction::CountPending));
    f.pending_total = Some(9);
    assert!(matches!(next_admission_action(&l, &viewer(), &f), AdmissionAction::Search { limit: 5 }));
    f.best_hit = hit(true, true, "Artist", "Title");
    assert!(matches!(next_admission_action(&l, &viewer(), &f), AdmissionAction::CheckDuplicate));
    f.duplicate = Some(false);
    assert!(matches!(next_admission_action(&l, &viewer(), &f), AdmissionAction::Enqueue { priority: 0 }));
}

#[test]
fn admission_refusals() {
    let l = limits("block");
    let mut f = all_clear();
    f.blocked = Some(true);
    assert!(matches!(
        next_admission_action(&l, &viewer(), &f),
        AdmissionAction::Reject { error: BotError::UserBlocked, metric: Some("add_blocked_user") }
    ));
    let mut f = all_clear();
    f.user_pending = Some(2);
    assert!(matches!(
        next_admission_action(&l, &viewer(), &f),
        AdmissionAction::Reject { error: BotError::RateLimited, metric: Some("add_limit") }
    ));
    let mut f = all_clear();
    f.since_last_request_ms = Some(Some(29_999));
    assert!(matches!(
        next_admission_action(&l, &viewer(), &f),
        AdmissionAction::Reject { error: BotError::RateLimited, metric: Some("add_cooldown") }
    ));
    let mut f = all_clear();
    f.within_rate_window = Some(false);
    assert!(matches!(
        next_admission_action(&l, &viewer(), &f),
        AdmissionAction::Reject { error: BotError::RateLimited, metric: Some("add_ratelimit") }
    ));
    let mut f = all_clear();
    f.pending_total = Some(10);
    assert!(matches!(
        next_admission_action(&l, &viewer(), &f),
        AdmissionAction::Reject { error: BotError::QueueFull, metric: Some("add_full") }
    ));
    let mut f = all_clear();
    f.best_hit = Some(None);
    assert!(matches!(
        next_admission_action(&l, &viewer(), &f),
        AdmissionAction::Reject { error: BotError::NotFound, metric: None }
    ));
    let mut f = all_clear();
    f.best_hit = hit(true, true, "Artist", "Title");
    assert!(matches!(
        next_admission_action(&l, &viewer(), &f),
        AdmissionAction::Reject { error: BotError::NotFound, metric: None }
    ));
    let mut f = all_clear();
    f.duplicate = Some(true);
    assert!(matches!(
        next_admission_action(&l, &viewer(), &f),
        AdmissionAction::Reject { error: BotError::NotFound, metric: Some("add_duplicate") }
    ));
}

#[test]
fn moderators_skip_cap_and_cooldown() {
    let mut l = limits("allow");
    let mut f = all_clear();
    f.user_pending = Some(50);
    f.since_last_request_ms = None;
    // In request order under FIFO; moderators first in a priority mode.
    assert!(matches!(next_admission_action(&l, &moderator(), &f), AdmissionAction::Enqueue { priority: 0 }));
    l.queue_mode = "priority".to_string();
    assert!(matches!(next_admission_action(&l, &moderator(), &f), AdmissionAction::Enqueue { priority: 10 }));
    assert!(matches!(next_admission_action(&l, &viewer(), &all_clear()), AdmissionAction::Enqueue { priority: 0 }));
}

#[test]
fn priority_mode_puts_subscribers_and_vips_first() {
    let mut l = limits("allow");
    let f = all_clear();
    let sub = user(false, true, false);
    let vip = user(false, false, true);
    assert!(matches!(next_admission_action(&l, &sub, &f), AdmissionAction::Enqueue { priority: 0 }));
    assert!(matches!(next_admission_action(&l, &vip, &f), AdmissionAction::Enqueue { priority: 0 }));
    l.queue_mode = "priority".to_string();
    assert!(matches!(next_admission_action(&l, &sub, &f), AdmissionAction::Enqueue { priority: 10 }));
    assert!(matches!(next_admission_action(&l, &vip, &f), AdmissionAction::Enqueue { priority: 10 }));
    assert!(matches!(next_admission_action(&l, &viewer(), &f), AdmissionAction::Enqueue { priority: 0 }));
    // Subscribers and VIPs still have the per-user cap.
    let mut capped = all_clear();
    capped.user_pending = Some(2);
    assert!(matches!(
        next_admission_action(&l, &sub, &capped),
        AdmissionAction::Reject { error: BotError::RateLimited, metric: Some("add_limit") }
    ));
}

#[test]
fn explicit_filter_modes() {
    let mut f = all_clear();
    f.best_hit = hit(true, true, "Artist", "Title");
    let refused = AdmissionAction::Reject { error: BotError::NotFound, metric: None };
    assert_eq!(format!("{:?}", next_admission_action(&limits("clean_only"), &viewer(), &f)), format!("{refused:?}"));
    assert_eq!(format!("{:?}", next_admission_action(&limits("block"), &viewer(), &f)), format!("{refused:?}"));
    assert!(matches!(next_admission_action(&limits("allow"), &viewer(), &f), AdmissionAction::Enqueue { .. }));
    f.best_hit = hit(false, true, "Artist", "Title");
    assert!(matches!(next_admission_action(&limits("clean_only"), &viewer(), &f), AdmissionAction::Enqueue { .. }));
}

#[test]
fn fuzzy_threshold_and_blocklists() {
    let mut l = limits("allow");
    let mut f = all_clear();
    f.best_hit = hit(false, false, "Artist", "Title");
    assert!(matches!(
        next_admission_action(&l, &viewer(), &f),
        AdmissionAction::Reject { error: BotError::NotFound, metric: None }
    ));
    l.blocked_artists = vec!["ARTIST".to_string()];
    f.best_hit = hit(false, true, "artist", "Title");
    assert!(matches!(
        next_admission_action(&l, &moderator(), &f),
        AdmissionAction::Reject { error: BotError::NotFound, metric: None }
    ));
    l.blocked_artists = vec![];
    l.blocked_keywords = vec!["".to_string(), "Remix".to_string()];
    f.best_hit = hit(false, true, "Artist", "Song (REMIX)");
    assert!(matches!(
        next_admission_action(&l, &viewer(), &f),
        AdmissionAction::Reject { error: BotError::NotFound, metric: None }
    ));
    f.best_hit = hit(false, true, "Artist", "Song");
    assert!(matches!(next_admission_action(&l, &viewer(), &f), AdmissionAction::Enqueue { priority: 0 }));
    assert!(is_artist_blocked("Daft Punk", &vec!["daft punk".to_string()]));
    assert!(!is_artist_blocked("Daft Punk", &vec!["daft".to_string()]));
    assert!(is_title_blocked("Live At Wembley", &vec!["live".to_string()]));
    assert!(!is_title_blocked("Anything", &vec!["".to_string()]));
    assert!(admission_limits_fit(&l));
    l.max_requests_per_user = i32::MAX;
    assert!(!admission_limits_fit(&l));
}

#[test]
fn cooldown_off_or_first_request() {
    let mut l = limits("allow");
    let mut f = all_clear();
    f.since_last_request_ms = None;
    l.request_cooldown_seconds = 0;
    assert!(matches!(next_admission_action(&l, &viewer(), &f), AdmissionAction::Enqueue { priority: 0 }));
    let l = limits("allow");
    f.since_last_request_ms = Some(None);
    assert!(matches!(next_admission_action(&l, &viewer(), &f), AdmissionAction::Enqueue { priority: 0 }));
    f.since_last_request_ms = Some(Some(30_000));
    assert!(matches!(next_admission_action(&l, &viewer(), &f), AdmissionAction::Enqueue { priority: 0 }));
}

#[test]
fn vote_skip_flow() {
    assert!(matches!(vote_skip_start(false, true, true), VoteSkipStart::NothingPlaying));
    assert!(matches!(vote_skip_start(true, true, true), VoteSkipStart::SkipDirectly));
    assert!(matches!(vote_skip_start(true, true, false), VoteSkipStart::SkipDirectly));
    assert!(matches!(vote_skip_start(true, false, true), VoteSkipStart::RecordVote));
    assert!(matches!(vote_skip_start(true, false, false), VoteSkipStart::Disabled));
    assert!(matches!(vote_outcome(true, 3, 3), VoteOutcome::Skip));
    assert!(matches!(vote_outcome(true, 2, 3), VoteOutcome::Progress(2, 3)));
    assert!(matches!(vote_outcome(false, 5, 3), VoteOutcome::Progress(5, 3)));
}

#[test]
fn auto_advance_after_duration_and_grace() {
    assert!(!should_auto_advance(Some(180), 185));
    assert!(should_auto_advance(Some(180), 186));
    assert!(!should_auto_advance(None, 100_000));
    assert!(should_auto_advance(Some(-10), 0));
}

#[test]
fn finishing_and_history() {
    assert_eq!(finished_status(true), QueueStatus::Skipped);
    assert_eq!(finished_status(false), QueueStatus::Played);
    assert_eq!(played_seconds(-5), 0);
    assert_eq!(played_seconds(200), 200);
    assert_eq!(played_seconds(90_000), 86_400);
    assert_eq!(reorder_positions(4), vec![1, 2, 3, 4]);
    assert!(reorder_positions(0).is_empty());
}

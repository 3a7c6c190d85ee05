use twitch_music_bot::api::{
    history_limit, is_skip_target, reorder_too_large, request_failure, sanitize_limits, search_limit,
    valid_block_request, valid_search_query, valid_song_query, ApiResponse, RequestLimits,
};
use twitch_music_bot::auth::{
    authorize_url, base64_basic, bearer_subject, check_login_state, claims_subject, connected_redirect,
    error_redirect, expiry_after, is_known_provider, login_redirect, needs_refresh, provider_columns,
    refreshed_expiry, sign_token, spotify_configured, token_expiries, token_lifetimes_fit, token_subject,
    callback_step, AuthRejection, CallbackStep, Claims, StateLookup,
};
use twitch_music_bot::config::{default_refresh_token_days, frontend_url, SecurityConfig, Settings};
use twitch_music_bot::model::{BotError, MusicSource, QueueStatus};

fn claims(sub: &str, kind: &str) -> Claims {
    Claims { sub: sub.to_string(), iat: 0, exp: 10, token_type: kind.to_string() }
}

#[test]
fn api_envelopes() {
    let ok = ApiResponse::ok(5u32);
    assert!(ok.success);
    assert_eq!(ok.data, Some(5));
    assert!(ok.error.is_none());
    let err = ApiResponse::<u32>::err("NOT_FOUND", "Unknown provider");
    assert!(!err.success);
    assert!(err.data.is_none());
    let body = err.error.unwrap();
    assert_eq!(body.code, "NOT_FOUND");
    assert_eq!(body.message, "Unknown provider");
}

#[test]
fn request_failures() {
    let f = request_failure(&BotError::QueueFull);
    assert_eq!((f.status, f.code, f.message), (409, "QUEUE_FULL", "The queue is full"));
    let f = request_failure(&BotError::RateLimited);
    assert_eq!((f.status, f.code, f.message), (429, "RATE_LIMITED", "Cooldown active"));
    let f = request_failure(&BotError::NotFound);
    assert_eq!((f.status, f.code, f.message), (404, "NO_MATCH", "No matching song found"));
    let f = request_failure(&BotError::UserBlocked);
    assert_eq!((f.status, f.code, f.message), (500, "INTERNAL", "An internal error occurred"));
    let f = request_failure(&BotError::Database("x".to_string()));
    assert_eq!(f.status, 500);
}

#[test]
fn bot_error_messages() {
    assert_eq!(BotError::QueueFull.message(), "Queue is full");
    assert_eq!(BotError::NotFound.message(), "Song not found or not streamable");
    assert_eq!(BotError::Music("boom".to_string()).message(), "Music service error: boom");
    assert_eq!(BotError::RateLimited.message(), "Rate limit exceeded");
}

#[test]
fn query_checks() {
    assert!(valid_song_query("never gonna give you up"));
    assert!(!valid_song_query("   "));
    assert!(valid_song_query(&"a".repeat(300)));
    assert!(!valid_song_query(&"a".repeat(301)));
    assert!(valid_song_query(&"é".repeat(300)));
    assert!(!valid_song_query(&"é".repeat(301)));
    assert!(valid_song_query(&format!("  {}  ", "a".repeat(300))));
    assert!(valid_search_query(" x "));
    assert!(!valid_search_query(""));
    assert!(valid_block_request("1", "a"));
    assert!(!valid_block_request("1", " "));
    assert!(!reorder_too_large(500));
    assert!(reorder_too_large(501));
}

#[test]
fn page_sizes() {
    assert_eq!(history_limit(None), 20);
    assert_eq!(history_limit(Some(0)), 1);
    assert_eq!(history_limit(Some(55)), 55);
    assert_eq!(history_limit(Some(1000)), 100);
    assert_eq!(search_limit(None), 10);
    assert_eq!(search_limit(Some(0)), 1);
    assert_eq!(search_limit(Some(30)), 25);
}

#[test]
fn limits_are_clamped_and_stay_put() {
    let r = sanitize_limits(RequestLimits { max_queue_size: 0, max_requests_per_user: 99, request_cooldown_seconds: -4 });
    assert_eq!((r.max_queue_size, r.max_requests_per_user, r.request_cooldown_seconds), (1, 50, 0));
    let again = sanitize_limits(r);
    assert_eq!((again.max_queue_size, again.max_requests_per_user, again.request_cooldown_seconds), (1, 50, 0));
    let r = sanitize_limits(RequestLimits { max_queue_size: 50, max_requests_per_user: 3, request_cooldown_seconds: 7200 });
    assert_eq!((r.max_queue_size, r.max_requests_per_user, r.request_cooldown_seconds), (50, 3, 3600));
}

#[test]
fn skip_targets() {
    assert!(is_skip_target(1, 2, 1));
    assert!(is_skip_target(1, 2, 2));
    assert!(!is_skip_target(1, 2, 3));
}

#[test]
fn token_lifetimes() {
    assert_eq!(token_expiries(1_000, 24, 30), (1_000 + 86_400, 1_000 + 2_592_000));
    assert_eq!(default_refresh_token_days(), 30);
}

#[test]
fn token_kinds_and_subjects() {
    let id = "67e55044-10b1-426f-9247-bb680e5fe0c8";
    let want = 0x67e5504410b1426f9247bb680e5fe0c8u128;
    assert_eq!(claims_subject(Some(claims(id, "access")), 5, "access"), Ok(want));
    assert_eq!(claims_subject(Some(claims(id, "refresh")), 5, "refresh"), Ok(want));
    assert_eq!(claims_subject(Some(claims(id, "refresh")), 5, "access"), Err(AuthRejection::WrongTokenType));
    assert_eq!(claims_subject(Some(claims(id, "access")), 5, "refresh"), Err(AuthRejection::WrongTokenType));
    assert_eq!(claims_subject(Some(claims("not-a-uuid", "access")), 5, "access"), Err(AuthRejection::InvalidSubject));
    assert_eq!(claims_subject(None, 5, "access"), Err(AuthRejection::InvalidToken));
    // exp 10: still accepted 60 s after expiry, refused one second later.
    assert_eq!(claims_subject(Some(claims(id, "access")), 70, "access"), Ok(want));
    assert_eq!(claims_subject(Some(claims(id, "access")), 71, "access"), Err(AuthRejection::InvalidToken));
}

const SECRET: &[u8] = b"0123456789abcdef0123456789abcdef";
const SUBJECT: &str = "67e55044-10b1-426f-9247-bb680e5fe0c8";

fn claims_json(sub: &str, exp: i64, kind: &str) -> Vec<u8> {
    format!("{{\"sub\":\"{sub}\",\"iat\":1000,\"exp\":{exp},\"token_type\":\"{kind}\"}}").into_bytes()
}

#[test]
fn signed_tokens_round_trip() {
    let want = 0x67e5504410b1426f9247bb680e5fe0c8u128;
    let token = sign_token(&claims_json(SUBJECT, 5_000, "access"), SECRET);
    assert_eq!(token.split('.').count(), 3);
    assert_eq!(token_subject(&token, SECRET, 4_000, "access"), Ok(want));
    assert_eq!(token_subject(&token, SECRET, 4_000, "refresh"), Err(AuthRejection::WrongTokenType));
    assert_eq!(token_subject(&token, b"another secret of enough length!", 4_000, "access"), Err(AuthRejection::InvalidToken));
    assert_eq!(token_subject(&token, SECRET, 5_060, "access"), Ok(want));
    assert_eq!(token_subject(&token, SECRET, 5_061, "access"), Err(AuthRejection::InvalidToken));
    let mut tampered = token.clone();
    tampered.push('x');
    assert_eq!(token_subject(&tampered, SECRET, 4_000, "access"), Err(AuthRejection::InvalidToken));
    assert_eq!(token_subject("not a token", SECRET, 4_000, "access"), Err(AuthRejection::InvalidToken));
    let odd = sign_token(&claims_json("streamer-7", 5_000, "access"), SECRET);
    assert_eq!(token_subject(&odd, SECRET, 4_000, "access"), Err(AuthRejection::InvalidSubject));
    let no_exp = sign_token(b"{\"sub\":\"x\",\"iat\":1,\"token_type\":\"access\"}", SECRET);
    assert_eq!(token_subject(&no_exp, SECRET, 0, "access"), Err(AuthRejection::InvalidToken));
}

#[test]
fn signed_tokens_match_the_jwt_crate() {
    let json = claims_json(SUBJECT, 5_000, "refresh");
    let token = sign_token(&json, SECRET);
    let mut rules = jsonwebtoken::Validation::new(jsonwebtoken::Algorithm::HS256);
    rules.validate_exp = false;
    let key = jsonwebtoken::DecodingKey::from_secret(SECRET);
    let decoded = jsonwebtoken::decode::<serde_json::Value>(&token, &key, &rules).unwrap();
    assert_eq!(decoded.claims.get("token_type").and_then(|v| v.as_str()), Some("refresh"));
    let theirs = jsonwebtoken::encode(
        &jsonwebtoken::Header::default(),
        &decoded.claims,
        &jsonwebtoken::EncodingKey::from_secret(SECRET),
    )
    .unwrap();
    assert_eq!(token.split('.').next(), theirs.split('.').next());
    let want = 0x67e5504410b1426f9247bb680e5fe0c8u128;
    assert_eq!(token_subject(&theirs, SECRET, 4_000, "refresh"), Ok(want));
}

#[test]
fn bearer_headers() {
    let want = 0x67e5504410b1426f9247bb680e5fe0c8u128;
    let token = sign_token(&claims_json(SUBJECT, 5_000, "access"), SECRET);
    let header = format!("Bearer {token}");
    assert_eq!(bearer_subject(Some(&header), SECRET, 4_000, "access"), Ok(want));
    assert_eq!(bearer_subject(None, SECRET, 4_000, "access"), Err(AuthRejection::MissingToken));
    assert_eq!(bearer_subject(Some(&token), SECRET, 4_000, "access"), Err(AuthRejection::MissingToken));
    let basic = format!("Basic {token}");
    assert_eq!(bearer_subject(Some(&basic), SECRET, 4_000, "access"), Err(AuthRejection::MissingToken));
    assert_eq!(bearer_subject(Some("Bearer "), SECRET, 4_000, "access"), Err(AuthRejection::InvalidToken));
    let refresh = sign_token(&claims_json(SUBJECT, 5_000, "refresh"), SECRET);
    let header = format!("Bearer {refresh}");
    assert_eq!(bearer_subject(Some(&header), SECRET, 4_000, "access"), Err(AuthRejection::WrongTokenType));
}

#[test]
fn lifetime_bounds() {
    assert!(token_lifetimes_fit(1_000, 24, 30));
    assert!(!token_lifetimes_fit(i64::MAX - 10, 1, 30));
    assert!(!token_lifetimes_fit(0, 2_562_047_788_016, 1));
    assert!(!token_lifetimes_fit(0, 1, i64::MAX / 86_400 + 1));
}

#[test]
fn oauth_urls() {
    let scopes = vec!["chat:read".to_string(), "chat:edit".to_string()];
    assert_eq!(
        authorize_url(
            "https://id.twitch.tv/oauth2/authorize",
            "cid",
            "http://localhost:8080/auth/twitch/callback",
            &scopes,
            "st-1",
        ),
        "https://id.twitch.tv/oauth2/authorize?response_type=code&client_id=cid\
         &redirect_uri=http%3A%2F%2Flocalhost%3A8080%2Fauth%2Ftwitch%2Fcallback\
         &scope=chat%3Aread%20chat%3Aedit&state=st-1"
    );
    let fe = "http://localhost:3000".to_string();
    assert_eq!(error_redirect(&fe, "invalid_state"), "http://localhost:3000/auth/callback#error=invalid_state");
    assert_eq!(
        login_redirect(&fe, "a.b.c", "d.e.f"),
        "http://localhost:3000/auth/callback#access_token=a.b.c&refresh_token=d.e.f"
    );
    assert_eq!(connected_redirect(&fe, "spotify"), "http://localhost:3000/dashboard?connected=spotify");
}

#[test]
fn login_states() {
    assert_eq!(check_login_state("twitch", None, "twitch", false), Ok(None));
    assert_eq!(check_login_state("spotify", Some(9), "twitch", false), Err("provider_mismatch"));
    assert_eq!(check_login_state("spotify", None, "spotify", true), Err("unauthorized_connect"));
    assert_eq!(check_login_state("spotify", Some(9), "spotify", true), Ok(Some(9)));
}

#[test]
fn providers() {
    assert!(is_known_provider("spotify") && is_known_provider("youtube") && is_known_provider("soundcloud"));
    assert!(!is_known_provider("twitch"));
    assert_eq!(
        provider_columns("youtube"),
        Some(("youtube_access_token", "youtube_refresh_token", "youtube_expires_at", "youtube_scope"))
    );
    assert_eq!(provider_columns("twitch"), None);
}

#[test]
fn provider_tokens() {
    assert_eq!(base64_basic("id", "secret"), "aWQ6c2VjcmV0");
    assert_eq!(expiry_after(100, Some(3600)), Some(3700));
    assert_eq!(expiry_after(100, None), None);
    assert_eq!(refreshed_expiry(100, 14_400), Some(14_500));
    assert_eq!(refreshed_expiry(100, 0), None);
    assert_eq!(refreshed_expiry(100, -5), None);
    assert!(needs_refresh(None, 0));
    assert!(needs_refresh(Some(60_999_999), 1_000_000));
    assert!(!needs_refresh(Some(61_000_000), 1_000_000));
    assert!(needs_refresh(Some(i64::MIN), i64::MAX));
    assert!(spotify_configured("id", "secret"));
    assert!(!spotify_configured("id", "  "));
}

fn security(jwt: &str, key: &str) -> SecurityConfig {
    SecurityConfig {
        jwt_secret: jwt.to_string(),
        jwt_expiry_hours: 24,
        refresh_token_days: 30,
        encryption_key: key.to_string(),
        cors_allowed_origins: vec![],
        rate_limit_requests_per_minute: 60,
        rate_limit_burst: 10,
    }
}

#[test]
fn secrets_are_validated() {
    let good_jwt = "k3Jq9vX2mP8rT5wY1zB6nC4dF7gH0aLs";
    let good_key = "Qw8eR2tY6uI0oP4aS1dF5gH9jK3lZ7xC";
    assert_eq!(security(good_jwt, good_key).validate(), Ok(()));
    assert_eq!(
        security("short", good_key).validate(),
        Err("security.jwt_secret must be at least 32 characters".to_string())
    );
    assert_eq!(
        security(good_jwt, "short").validate(),
        Err("security.encryption_key must be at least 32 bytes".to_string())
    );
    assert_eq!(
        security("xxxxxxxxxxxxchange-me-in-production", good_key).validate(),
        Err("security.jwt_secret is still set to an insecure placeholder".to_string())
    );
    assert_eq!(
        security(good_jwt, "my-secret-value-that-is-long-enough").validate(),
        Err("security.encryption_key is still set to an insecure placeholder".to_string())
    );
}

#[test]
fn default_settings_fail_validation() {
    let s = Settings::defaults(8);
    assert_eq!(s.server.workers, 8);
    assert_eq!(s.server.port, 8080);
    assert_eq!(s.security.jwt_secret, "change-me-in-production");
    assert_eq!(s.metrics.port, Some(9090));
    assert!(s.security.validate().is_err());
    assert_eq!(frontend_url(&s), "http://localhost:3000");
    assert_eq!(s.jwt_secret(), "change-me-in-production");
    assert_eq!(s.encryption_key(), "32-byte-encryption-key-change-me!!");
    assert_eq!(s.database_url(), "postgresql://localhost/twitch_music_bot");
}

#[test]
fn frontend_falls_back_without_origins() {
    let mut s = Settings::defaults(1);
    s.security.cors_allowed_origins = vec![];
    assert_eq!(frontend_url(&s), "http://localhost:3000");
    s.security.cors_allowed_origins = vec!["https://dash.example".to_string()];
    assert_eq!(frontend_url(&s), "https://dash.example");
}

#[test]
fn stored_names_roundtrip() {
    for s in [MusicSource::YouTube, MusicSource::Spotify, MusicSource::SoundCloud, MusicSource::Local] {
        assert_eq!(MusicSource::from_stored(s.as_str()), s);
    }
    for s in [QueueStatus::Pending, QueueStatus::Playing, QueueStatus::Played, QueueStatus::Skipped, QueueStatus::Failed] {
        assert_eq!(QueueStatus::from_stored(s.as_str()), s);
    }
    assert_eq!(MusicSource::from_stored("vimeo"), MusicSource::Local);
    assert_eq!(QueueStatus::from_stored("weird"), QueueStatus::Pending);
    assert_eq!(MusicSource::YouTube.as_str(), "youtube");
    assert_eq!(QueueStatus::Skipped.as_str(), "skipped");
    assert!(QueueStatus::Played.marks_played());
}

#[test]
fn callback_steps_check_the_state_before_the_exchange() {
    let found = |p: &str, id: Option<u128>| Some(StateLookup::Found { provider: p.to_string(), streamer_id: id });
    assert!(matches!(callback_step(false, "twitch", false, true, &None), CallbackStep::Fail("oauth_denied")));
    assert!(matches!(callback_step(false, "twitch", true, false, &None), CallbackStep::Fail("missing_state")));
    assert!(matches!(callback_step(true, "spotify", true, false, &None), CallbackStep::Fail("missing_params")));
    assert!(matches!(callback_step(false, "twitch", true, true, &None), CallbackStep::TakeState));
    assert!(matches!(
        callback_step(false, "twitch", true, true, &Some(StateLookup::Failed)),
        CallbackStep::Fail("state_error")
    ));
    assert!(matches!(
        callback_step(false, "twitch", true, true, &Some(StateLookup::Missing)),
        CallbackStep::Fail("invalid_state")
    ));
    assert!(matches!(
        callback_step(false, "twitch", true, true, &found("spotify", None)),
        CallbackStep::Fail("provider_mismatch")
    ));
    assert!(matches!(callback_step(false, "twitch", true, true, &found("twitch", None)), CallbackStep::Exchange(None)));
    assert!(matches!(
        callback_step(true, "spotify", true, true, &found("spotify", None)),
        CallbackStep::Fail("unauthorized_connect")
    ));
    assert!(matches!(
        callback_step(true, "spotify", true, true, &found("spotify", Some(7))),
        CallbackStep::Exchange(Some(7))
    ));
}

use twitch_music_bot::cors::{glob_match, origin_allowed};
use twitch_music_bot::duration::{iso_duration_overflows, parse_iso8601_duration};
use twitch_music_bot::links::{extract_soundcloud_track_id, extract_spotify_track_id, extract_video_id, is_soundcloud_link};

#[test]
fn glob_exact_and_wildcards() {
    assert!(glob_match("https://app.example.com", "https://app.example.com"));
    assert!(!glob_match("https://app.example.com", "https://app.example.com/"));
    assert!(glob_match("https://*.vercel.app", "https://my-preview.vercel.app"));
    assert!(!glob_match("https://*.vercel.app", "https://vercel.app.evil.com"));
    assert!(glob_match("http://localhost:*", "http://localhost:3000"));
    assert!(glob_match("*", "anything at all"));
    assert!(glob_match("*", ""));
    assert!(glob_match("a*b*c", "aXXbYYc"));
    assert!(glob_match("a*b*c", "abc"));
    assert!(!glob_match("a*b*c", "acb"));
    assert!(!glob_match("ab*ba", "aba"));
}

#[test]
fn origins_match_any_pattern() {
    let allowed = vec!["http://localhost:3000".to_string(), "https://*.example.org".to_string()];
    assert!(origin_allowed(&allowed, "http://localhost:3000"));
    assert!(origin_allowed(&allowed, "https://dash.example.org"));
    assert!(!origin_allowed(&allowed, "https://example.com"));
    assert!(!origin_allowed(&vec![], "http://localhost:3000"));
}

#[test]
fn youtube_video_ids() {
    assert_eq!(extract_video_id("https://www.youtube.com/watch?v=dQw4w9WgXcQ").unwrap(), "dQw4w9WgXcQ");
    assert_eq!(extract_video_id("https://youtube.com/watch?feature=share&v=abc%2Dd").unwrap(), "abc-d");
    assert_eq!(extract_video_id("https://youtu.be/dQw4w9WgXcQ?t=42").unwrap(), "dQw4w9WgXcQ");
    assert_eq!(extract_video_id("https://www.youtube.com/shorts/abc123/extra").unwrap(), "abc123");
    assert_eq!(extract_video_id("https://www.youtube.com/embed/xyz").unwrap(), "xyz");
    assert_eq!(extract_video_id("https://youtu.be/").unwrap(), "");
    assert!(extract_video_id("https://example.com/watch?v=abc").is_none());
    assert!(extract_video_id("https://www.youtube.com/channel/UC123").is_none());
    assert!(extract_video_id("dQw4w9WgXcQ").is_none());
}

#[test]
fn spotify_track_ids() {
    assert_eq!(extract_spotify_track_id("spotify:track:4uLU6hMCjMI75M1A2tKUQC").unwrap(), "4uLU6hMCjMI75M1A2tKUQC");
    assert_eq!(extract_spotify_track_id("spotify:track:abc?si=1").unwrap(), "abc");
    assert_eq!(
        extract_spotify_track_id("https://open.spotify.com/track/4uLU6hMCjMI75M1A2tKUQC?si=xyz").unwrap(),
        "4uLU6hMCjMI75M1A2tKUQC"
    );
    assert_eq!(extract_spotify_track_id("https://open.spotify.com//track//id9").unwrap(), "id9");
    assert!(extract_spotify_track_id("https://open.spotify.com/album/123").is_none());
    assert!(extract_spotify_track_id("https://example.com/track/123").is_none());
    assert!(extract_spotify_track_id("just words").is_none());
}

#[test]
fn soundcloud_links() {
    assert_eq!(extract_soundcloud_track_id("https://api.soundcloud.com/track/12345").unwrap(), "12345");
    assert!(extract_soundcloud_track_id("https://soundcloud.com/artist/song").is_none());
    assert!(extract_soundcloud_track_id("https://example.com/track/1").is_none());
    assert!(is_soundcloud_link("https://soundcloud.com/artist/song"));
    assert!(!is_soundcloud_link("https://example.com/artist/song"));
    assert!(!is_soundcloud_link("soundcloud.com/artist/song"));
}

#[test]
fn iso_durations() {
    assert_eq!(parse_iso8601_duration("PT3M33S"), Some(213));
    assert_eq!(parse_iso8601_duration("PT1H2M3S"), Some(3723));
    assert_eq!(parse_iso8601_duration("PT45S"), Some(45));
    assert_eq!(parse_iso8601_duration("PT10.5S"), Some(0));
    assert_eq!(parse_iso8601_duration("PT1M10.5S"), Some(60));
    assert_eq!(parse_iso8601_duration("PT"), Some(0));
    assert_eq!(parse_iso8601_duration("PT5"), Some(0));
    assert_eq!(parse_iso8601_duration("P1DT2H"), None);
    assert_eq!(parse_iso8601_duration("PTM"), None);
    assert_eq!(parse_iso8601_duration("PT1X"), None);
    assert_eq!(parse_iso8601_duration("3M"), None);
}

#[test]
fn iso_duration_overflow_is_detected() {
    assert!(!iso_duration_overflows("PT9223372036854775807S"));
    assert_eq!(parse_iso8601_duration("PT9223372036854775807S"), Some(i64::MAX));
    assert!(iso_duration_overflows("PT9223372036854775807H"));
    assert!(iso_duration_overflows("PT9223372036854775807S1S"));
    // A number too large for an i64 is no duration at all.
    assert!(!iso_duration_overflows("PT99999999999999999999S"));
    assert_eq!(parse_iso8601_duration("PT99999999999999999999S"), None);
    assert!(!iso_duration_overflows("not a duration"));
}

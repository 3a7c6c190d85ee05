use std::time::Duration;

use twitch_music_bot::model::MusicSource;
use twitch_music_bot::music::{
    best_audio_format, first_artist, instance_index, last_max, millis_to_seconds, pick_stream, replace_all,
    rotate_instance, youtube_lookup_query, MirrorFormat, StreamOption,
};
use twitch_music_bot::overlay::{connection_count, dedupe, should_forward};
use twitch_music_bot::ratelimit::{RateKey, WindowStore};
use twitch_music_bot::sources::{
    best_bitrate, client_id_in, configured_client_id, data_api_selection, first_kept, kept_within,
    largest_thumbnail, mirror_selection, pick_thumbnail, script_bundle_urls, search_sources, second_mirror_limit,
    should_rediscover, soundcloud_selection, spotify_selection, stream_route, with_client_id, DataApiHit,
    MirrorVideo, SoundCloudHit, StreamRoute,
};
use twitch_music_bot::telemetry::{
    record_active_connections, record_music_error, record_music_search, record_queue_operation, record_queue_size,
    record_stream_url_fetch, record_twitch_message, MetricUpdate, MetricValue,
};

const SECOND: i64 = 1_000_000_000;

fn key(port: u16, bucket: &str) -> RateKey {
    RateKey { addr: 0x7f00_0001, is_v6: false, port, bucket: bucket.to_string() }
}

#[test]
fn fixed_window_rate_limit() {
    let mut store = WindowStore::new();
    assert_eq!(store.len(), 0);
    assert!(store.check(key(1, "login"), 2, 60, 0));
    assert!(store.check(key(1, "login"), 2, 60, SECOND));
    assert!(!store.check(key(1, "login"), 2, 60, 2 * SECOND));
    assert!(!store.check(key(1, "login"), 2, 60, 60 * SECOND));
    // Another bucket or another client has its own window.
    assert!(store.check(key(1, "api"), 2, 60, 2 * SECOND));
    assert!(store.check(key(2, "login"), 2, 60, 2 * SECOND));
    assert_eq!(store.len(), 3);
    // Once the window is over, counting starts afresh.
    assert!(store.check(key(1, "login"), 2, 60, 60 * SECOND + 1));
    assert!(store.check(key(1, "login"), 2, 60, 61 * SECOND));
    assert!(!store.check(key(1, "login"), 2, 60, 62 * SECOND));
    assert_eq!(store.len(), 3);
}

#[test]
fn zero_allowance_refuses_repeats() {
    let mut store = WindowStore::new();
    assert!(store.check(key(9, "x"), 0, 10, 0));
    assert!(!store.check(key(9, "x"), 0, 10, 1));
}

#[test]
fn mirror_rotation() {
    assert_eq!(instance_index(7, 3), Some(1));
    assert_eq!(instance_index(0, 0), None);
    assert_eq!(rotate_instance(2, 3), 0);
    assert_eq!(rotate_instance(0, 3), 1);
    assert_eq!(rotate_instance(4, 0), 4);
    let mut cursor = 1;
    let mut seen = vec![];
    for _ in 0..3 {
        seen.push(instance_index(cursor, 3).unwrap());
        cursor = rotate_instance(cursor, 3);
    }
    assert_eq!(seen, vec![1, 2, 0]);
    assert_eq!(cursor, 1);
}

#[test]
fn last_largest_key() {
    assert_eq!(last_max(&vec![3, 5, 5, 1]), Some(2));
    assert_eq!(last_max(&vec![9]), Some(0));
    assert_eq!(last_max(&vec![]), None);
}

fn option(protocol: Option<&str>, quality: Option<&str>) -> StreamOption {
    StreamOption { protocol: protocol.map(str::to_string), quality: quality.map(str::to_string) }
}

#[test]
fn soundcloud_stream_choice() {
    let opts = vec![
        option(Some("hls"), Some("hq")),
        option(Some("progressive"), None),
        option(Some("progressive"), Some("high")),
        option(Some("progressive"), Some("high")),
    ];
    assert_eq!(pick_stream(&opts), Some(3));
    let hls_only = vec![option(Some("hls"), Some("sq")), option(Some("hls"), Some("hq")), option(None, Some("hq"))];
    assert_eq!(pick_stream(&hls_only), Some(1));
    assert_eq!(pick_stream(&vec![option(Some("dash"), Some("hq")), option(None, None)]), None);
    assert_eq!(pick_stream(&vec![]), None);
}

#[test]
fn mirror_audio_choice() {
    let formats = vec![
        MirrorFormat { mime_type: "video/mp4".to_string(), bitrate: Some(1000) },
        MirrorFormat { mime_type: "audio/webm; codecs=\"opus\"".to_string(), bitrate: Some(128) },
        MirrorFormat { mime_type: "audio/mp4".to_string(), bitrate: None },
        MirrorFormat { mime_type: "audio/webm".to_string(), bitrate: Some(160) },
    ];
    assert_eq!(best_audio_format(&formats), Some(3));
    let no_audio = vec![MirrorFormat { mime_type: "video/webm".to_string(), bitrate: Some(5) }];
    assert_eq!(best_audio_format(&no_audio), None);
    let only_unknown = vec![MirrorFormat { mime_type: "audio/ogg".to_string(), bitrate: None }];
    assert_eq!(best_audio_format(&only_unknown), Some(0));
}

#[test]
fn track_details() {
    assert_eq!(first_artist(&vec!["Rick Astley".to_string(), "Other".to_string()]), "Rick Astley");
    assert_eq!(first_artist(&vec![]), "Unknown Artist");
    assert_eq!(millis_to_seconds(213_999), 213);
    assert_eq!(millis_to_seconds(0), 0);
    assert_eq!(youtube_lookup_query("Rick Astley", "Never Gonna Give You Up"), "Rick Astley Never Gonna Give You Up");
}

#[test]
fn artwork_url_replacement() {
    assert_eq!(
        replace_all("https://i1.sndcdn.com/artworks-000-large.jpg", "large.jpg", "t500x500.jpg"),
        "https://i1.sndcdn.com/artworks-000-t500x500.jpg"
    );
    assert_eq!(replace_all("aaaa", "aa", "b"), "bb");
    assert_eq!(replace_all("aaa", "aa", "b"), "ba");
    assert_eq!(replace_all("abc", "x", "y"), "abc");
    assert_eq!(replace_all("", "x", "y"), "");
    assert_eq!(replace_all("a.b.c", ".", ""), "abc");
}

#[test]
fn hit_selection() {
    let keep = vec![true, false, true, true];
    assert_eq!(first_kept(&keep, 2), vec![0, 2]);
    assert_eq!(first_kept(&keep, 10), vec![0, 2, 3]);
    assert_eq!(kept_within(&keep, 2), vec![0]);
    assert_eq!(kept_within(&keep, 0), Vec::<usize>::new());
    let videos = vec![
        MirrorVideo { is_live: false, paid: false, premiere: false },
        MirrorVideo { is_live: true, paid: false, premiere: false },
        MirrorVideo { is_live: false, paid: true, premiere: false },
        MirrorVideo { is_live: false, paid: false, premiere: false },
    ];
    assert_eq!(mirror_selection(&videos, 3), vec![0]);
    assert_eq!(mirror_selection(&videos, 4), vec![0, 3]);
    assert_eq!(spotify_selection(&vec![Some(true), None, Some(false), Some(true)], 2), vec![0, 1]);
    let tracks = vec![
        SoundCloudHit { id: 0, streamable: false },
        SoundCloudHit { id: 5, streamable: false },
        SoundCloudHit { id: 0, streamable: true },
    ];
    assert_eq!(soundcloud_selection(&tracks, 5), vec![1, 2]);
    let hit = |id: Option<&str>, live: Option<&str>| DataApiHit {
        video_id: id.map(str::to_string),
        live_broadcast_content: live.map(str::to_string),
    };
    let items = vec![
        hit(None, None),
        hit(Some("a"), Some("live")),
        hit(Some("b"), Some("none")),
        hit(Some("c"), None),
        hit(Some("d"), Some("upcoming")),
    ];
    assert_eq!(data_api_selection(&items, 2), vec![2, 3]);
    assert_eq!(data_api_selection(&items, 0), vec![2]);
    assert_eq!(data_api_selection(&items, 10), vec![2, 3, 4]);
    assert_eq!(second_mirror_limit(5, 3), Some(2));
    assert_eq!(second_mirror_limit(5, 5), None);
}

#[test]
fn youtube_artwork_and_streams() {
    let s = |x: &str| Some(x.to_string());
    assert_eq!(pick_thumbnail(&s("h"), &s("m"), &s("d")), s("h"));
    assert_eq!(pick_thumbnail(&None, &s("m"), &s("d")), s("m"));
    assert_eq!(pick_thumbnail(&None, &None, &s("d")), s("d"));
    assert_eq!(pick_thumbnail(&None, &None, &None), None);
    assert_eq!(largest_thumbnail(&vec![(120, 90), (480, 360), (320, 180)]), Some(1));
    assert_eq!(largest_thumbnail(&vec![(2, 3), (3, 2)]), Some(1));
    assert_eq!(largest_thumbnail(&vec![]), None);
    assert_eq!(best_bitrate(&vec![128, 160, 160, 64]), Some(2));
    assert_eq!(best_bitrate(&vec![]), None);
}

#[test]
fn source_routing() {
    let names: Vec<String> = ["youtube", "local", "spotify", "bogus", "soundcloud"].iter().map(|s| s.to_string()).collect();
    assert_eq!(search_sources(&names), vec![MusicSource::YouTube, MusicSource::Spotify, MusicSource::SoundCloud]);
    assert_eq!(stream_route(MusicSource::YouTube), StreamRoute::YouTube);
    assert_eq!(stream_route(MusicSource::SoundCloud), StreamRoute::SoundCloud);
    assert_eq!(stream_route(MusicSource::Spotify), StreamRoute::YouTubeSearch);
    assert_eq!(stream_route(MusicSource::Local), StreamRoute::Unsupported);
}

#[test]
fn soundcloud_client_id_handling() {
    assert_eq!(configured_client_id("  "), None);
    assert_eq!(configured_client_id(""), None);
    assert_eq!(configured_client_id(" abc "), Some(" abc ".to_string()));
    assert_eq!(
        with_client_id("https://api-v2.soundcloud.com/search/tracks?q=x", "ID1"),
        "https://api-v2.soundcloud.com/search/tracks?q=x&client_id=ID1"
    );
    assert_eq!(
        with_client_id("https://api-v2.soundcloud.com/tracks/5", "ID1"),
        "https://api-v2.soundcloud.com/tracks/5?client_id=ID1"
    );
    assert!(should_rediscover(401, 0, false));
    assert!(should_rediscover(403, 0, false));
    assert!(!should_rediscover(401, 1, false));
    assert!(!should_rediscover(401, 0, true));
    assert!(!should_rediscover(500, 0, false));
}

#[test]
fn soundcloud_client_id_discovery() {
    let script = |n: &str| format!("<script crossorigin src=\"https://a-v2.sndcdn.com/assets/{n}.js\"></script>");
    let html = format!("{}{}{}<script src=\"https://other.cdn/x.js\"></script>", script("0-aaa"), script("0-aaa"), script("1-bbb"));
    assert_eq!(
        script_bundle_urls(&html).unwrap(),
        vec!["https://a-v2.sndcdn.com/assets/1-bbb.js", "https://a-v2.sndcdn.com/assets/0-aaa.js"]
    );
    let many: String = (0..7).map(|i| script(&format!("{i}-x"))).collect();
    assert_eq!(
        script_bundle_urls(&many).unwrap(),
        vec![
            "https://a-v2.sndcdn.com/assets/6-x.js",
            "https://a-v2.sndcdn.com/assets/5-x.js",
            "https://a-v2.sndcdn.com/assets/4-x.js",
            "https://a-v2.sndcdn.com/assets/3-x.js",
            "https://a-v2.sndcdn.com/assets/2-x.js",
        ]
    );
    assert_eq!(script_bundle_urls("<html></html>").unwrap(), Vec::<String>::new());
    let bundle = "var a={client_id:\"abcdefghijklmnopqrstuvwxyz0123\",x:1};client_id=\"ZZZZZZZZZZZZZZZZZZZZZZZZZZZZZZ\"";
    assert_eq!(client_id_in(bundle), Some("abcdefghijklmnopqrstuvwxyz0123".to_string()));
    assert_eq!(client_id_in("client_id = \"short\""), None);
    assert_eq!(client_id_in(""), None);
}

fn view(u: &MetricUpdate) -> (String, Vec<(String, String)>) {
    (u.name.clone(), u.labels.iter().map(|l| (l.key.clone(), l.value.clone())).collect())
}

fn pairs(p: &[(&str, &str)]) -> Vec<(String, String)> {
    p.iter().map(|(k, v)| (k.to_string(), v.to_string())).collect()
}

#[test]
fn metric_updates() {
    let u = record_twitch_message("sr", true);
    assert_eq!(u.len(), 1);
    assert_eq!(view(&u[0]), ("twitch_messages_total".to_string(), pairs(&[("command", "sr"), ("success", "true")])));
    assert!(matches!(u[0].value, MetricValue::Increment(1)));
    let u = record_queue_operation("add_full", false);
    assert_eq!(view(&u[0]), ("queue_operations_total".to_string(), pairs(&[("operation", "add_full"), ("success", "false")])));
    let u = record_music_search("youtube", 4, Duration::from_millis(250));
    assert_eq!(u.len(), 3);
    assert_eq!(view(&u[0]).0, "music_searches_total");
    assert_eq!(view(&u[1]).0, "music_search_duration_seconds");
    assert!(matches!(u[1].value, MetricValue::Record(d) if d == Duration::from_millis(250)));
    assert_eq!(view(&u[2]), ("music_search_results".to_string(), pairs(&[("source", "youtube")])));
    assert!(matches!(u[2].value, MetricValue::Assign(4)));
    assert_eq!(record_stream_url_fetch("youtube", true, Duration::from_secs(1)).len(), 2);
    let failed = record_stream_url_fetch("youtube", false, Duration::from_secs(1));
    assert_eq!(failed.len(), 1);
    assert_eq!(view(&failed[0]).1, pairs(&[("source", "youtube"), ("success", "false")]));
    assert_eq!(view(&record_music_error("spotify")[0]), ("music_errors_total".to_string(), pairs(&[("source", "spotify")])));
    let c = record_active_connections(3);
    assert_eq!(view(&c[0]), ("overlay_connections_active".to_string(), vec![]));
    assert!(matches!(c[0].value, MetricValue::Assign(3)));
    let q = record_queue_size("abc", 7);
    assert_eq!(view(&q[0]), ("queue_size".to_string(), pairs(&[("streamer_id", "abc")])));
}

#[test]
fn overlay_helpers() {
    assert_eq!(dedupe(&vec![3, 1, 3, 2, 1]), vec![3, 1, 2]);
    assert_eq!(dedupe(&vec![]), Vec::<u128>::new());
    assert_eq!(connection_count(-3), 0);
    assert_eq!(connection_count(12), 12);
    assert!(should_forward(5, 5));
    assert!(!should_forward(5, 6));
}

#[test]
fn window_allows_the_limit_whatever_comes_between() {
    let mut store = WindowStore::new();
    let s = 1_000_000_000i64;
    let mut allowed = Vec::new();
    for t in 0..5i64 {
        // Another bucket, with a shorter window, is asked between each request.
        store.check(key(9, "auth"), 1, 1, t * 10 * s);
        allowed.push(store.check(key(1, "api"), 3, 60, t * 10 * s));
    }
    assert_eq!(allowed, vec![true, true, true, false, false]);
    // After the window has run out the key starts again.
    assert!(store.check(key(1, "api"), 3, 60, 61 * s));
}

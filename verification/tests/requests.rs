use twitch_music_bot::auth::refresh_token_to_store;
use twitch_music_bot::requests::{
    decimal, invidious_search_url, piped_search_url, soundcloud_resolve_url, soundcloud_search_url,
    spotify_search_path, spotify_track_path,
};
use twitch_music_bot::sources::{next_stream_source, StreamSource};

#[test]
fn decimal_numbers() {
    assert_eq!(decimal(0), "0");
    assert_eq!(decimal(7), "7");
    assert_eq!(decimal(10), "10");
    assert_eq!(decimal(2024), "2024");
    assert_eq!(decimal(usize::MAX), usize::MAX.to_string());
}

#[test]
fn search_urls_encode_the_query() {
    assert_eq!(
        invidious_search_url("https://inv.example", "rick & roll"),
        "https://inv.example/api/v1/search?q=rick%20%26%20roll&type=video"
    );
    assert_eq!(piped_search_url("https://piped.example", "a/b"), "https://piped.example/search?q=a%2Fb&filter=video");
    assert_eq!(
        soundcloud_search_url("https://api.sc", "lo-fi", 20),
        "https://api.sc/search/tracks?q=lo-fi&limit=20"
    );
    assert_eq!(
        soundcloud_resolve_url("https://api.sc", "https://soundcloud.com/a/b"),
        "https://api.sc/resolve?url=https%3A%2F%2Fsoundcloud.com%2Fa%2Fb"
    );
    assert_eq!(spotify_search_path("daft punk", 5), "/search?type=track&limit=5&q=daft%20punk");
    assert_eq!(spotify_track_path("4uLU6hMCjMI75M1A2tKUQC"), "/tracks/4uLU6hMCjMI75M1A2tKUQC");
}

#[test]
fn stream_failover_order() {
    assert_eq!(next_stream_source(StreamSource::Invidious, false), Some(StreamSource::Piped));
    assert_eq!(next_stream_source(StreamSource::Piped, false), None);
    assert_eq!(next_stream_source(StreamSource::Piped, true), Some(StreamSource::YtDlp));
    assert_eq!(next_stream_source(StreamSource::YtDlp, true), None);
}

#[test]
fn rotated_refresh_tokens_are_kept() {
    assert_eq!(refresh_token_to_store("old", Some("new")), "new");
    assert_eq!(refresh_token_to_store("old", None), "old");
}

use vstd::prelude::*;

use crate::text::{chars_of, contains, contains_spec};

verus! {

/// HTTP server settings.
pub struct ServerConfig {
    pub host: String,
    pub port: u16,
    pub workers: usize,
    pub request_timeout_seconds: u64,
    pub body_limit_mb: usize,
}

/// Database connection settings; `url` is a secret.
pub struct DatabaseConfig {
    pub url: String,
    pub max_connections: u32,
    pub min_connections: u32,
    pub connect_timeout_seconds: u64,
    pub idle_timeout_seconds: u64,
    pub run_migrations: bool,
}

/// Redis connection settings; `url` is a secret.
pub struct RedisConfig {
    pub url: String,
    pub max_connections: u32,
    pub connection_timeout_seconds: u64,
    pub command_timeout_seconds: u64,
}

/// Twitch application settings; the client secret and bot token are secrets.
pub struct TwitchConfig {
    pub client_id: String,
    pub client_secret: String,
    pub redirect_uri: String,
    pub scopes: Vec<String>,
    pub bot_username: String,
    pub bot_oauth_token: String,
    pub irc_reconnect_interval_seconds: u64,
    pub irc_ping_interval_seconds: u64,
}

/// Spotify application settings.
pub struct SpotifyConfig {
    pub client_id: String,
    pub client_secret: String,
    pub redirect_uri: String,
    pub scopes: Vec<String>,
    pub api_base_url: String,
    pub rate_limit_per_second: u32,
}

/// YouTube mirror and API settings; `api_key` is a secret.
pub struct YouTubeConfig {
    pub api_key: String,
    pub invidious_instances: Vec<String>,
    pub piped_instances: Vec<String>,
    pub fallback_to_ytdlp: bool,
    pub ytdlp_path: Option<String>,
    pub request_timeout_seconds: u64,
    pub max_retries: u32,
    pub preferred_quality: String,
}

/// SoundCloud settings.
pub struct SoundCloudConfig {
    pub client_id: String,
    pub api_base_url: String,
    pub rate_limit_per_second: u32,
}

/// Overlay WebSocket settings.
pub struct OverlayConfig {
    pub ws_path: String,
    pub ping_interval_seconds: u64,
    pub max_message_size: usize,
    pub reconnect_interval_seconds: u64,
    pub allowed_origins: Vec<String>,
}

/// Token, encryption and CORS settings; the JWT secret and the encryption
/// key are secrets.
pub struct SecurityConfig {
    pub jwt_secret: String,
    pub jwt_expiry_hours: i64,
    pub refresh_token_days: i64,
    pub encryption_key: String,
    pub cors_allowed_origins: Vec<String>,
    pub rate_limit_requests_per_minute: u32,
    pub rate_limit_burst: u32,
}

/// Logging settings.
pub struct LoggingConfig {
    pub level: String,
    pub format: String,
    pub json_output: bool,
    pub file_path: Option<String>,
    pub max_file_size_mb: u64,
    pub max_files: u32,
}

/// Metrics exporter settings.
pub struct MetricsConfig {
    pub enabled: bool,
    pub path: String,
    pub port: Option<u16>,
}

/// All service settings.
pub struct Settings {
    pub server: ServerConfig,
    pub database: DatabaseConfig,
    pub redis: RedisConfig,
    pub twitch: TwitchConfig,
    pub spotify: SpotifyConfig,
    pub youtube: YouTubeConfig,
    pub soundcloud: SoundCloudConfig,
    pub overlay: OverlayConfig,
    pub security: SecurityConfig,
    pub logging: LoggingConfig,
    pub metrics: MetricsConfig,
}

/// Refresh tokens live this many days unless configured otherwise.
pub fn default_refresh_token_days() -> (r: i64)
    ensures
        r == 30,
{
    30
}

// ---------------------------------------------------------------------------
// Secret validation
// ---------------------------------------------------------------------------

/// Known insecure values that must not appear in production secrets.
pub open spec fn placeholder(i: int) -> Seq<char> {
    if i == 0 {
        "change-me-in-production"@
    } else if i == 1 {
        "32-byte-encryption-key-change-me!!"@
    } else if i == 2 {
        "test"@
    } else {
        "secret"@
    }
}

pub open spec fn placeholder_count() -> int {
    4
}

fn placeholder_at(i: usize) -> (r: &'static str)
    requires
        i < 4,
    ensures
        r@ == placeholder(i as int),
{
    proof {
        reveal_strlit("change-me-in-production");
        reveal_strlit("32-byte-encryption-key-change-me!!");
        reveal_strlit("test");
        reveal_strlit("secret");
    }
    if i == 0 {
        "change-me-in-production"
    } else if i == 1 {
        "32-byte-encryption-key-change-me!!"
    } else if i == 2 {
        "test"
    } else {
        "secret"
    }
}

/// Byte length of the UTF-8 encoding of a character sequence.
pub open spec fn utf8_len(s: Seq<char>) -> int {
    vstd::utf8::encode_utf8(s).len() as int
}

pub open spec fn msg_jwt_short() -> Seq<char> {
    "security.jwt_secret must be at least 32 characters"@
}

pub open spec fn msg_key_short() -> Seq<char> {
    "security.encryption_key must be at least 32 bytes"@
}

pub open spec fn msg_jwt_placeholder() -> Seq<char> {
    "security.jwt_secret is still set to an insecure placeholder"@
}

pub open spec fn msg_key_placeholder() -> Seq<char> {
    "security.encryption_key is still set to an insecure placeholder"@
}

/// The outcome of checking placeholders `i..` against both secrets: the
/// first placeholder found decides, the JWT secret checked before the key.
pub open spec fn placeholder_check(jwt: Seq<char>, key: Seq<char>, i: int) -> Result<(), Seq<char>>
    decreases placeholder_count() - i,
{
    if i >= placeholder_count() || i < 0 {
        Ok(())
    } else if contains_spec(jwt, placeholder(i)) {
        Err(msg_jwt_placeholder())
    } else if contains_spec(key, placeholder(i)) {
        Err(msg_key_placeholder())
    } else {
        placeholder_check(jwt, key, i + 1)
    }
}

/// What validating a JWT secret and an encryption key gives: both must be
/// at least 32 bytes long and contain no known placeholder.
pub open spec fn validate_spec(jwt: Seq<char>, key: Seq<char>) -> Result<(), Seq<char>> {
    if utf8_len(jwt) < 32 {
        Err(msg_jwt_short())
    } else if utf8_len(key) < 32 {
        Err(msg_key_short())
    } else {
        placeholder_check(jwt, key, 0)
    }
}

fn message(s: &str) -> (r: String)
    ensures
        r@ == s@,
{
    String::from_str(s)
}

impl SecurityConfig {
    /// Refuses secrets that are too short or still an insecure placeholder.
    pub fn validate(&self) -> (r: Result<(), String>)
        ensures
            match (r, validate_spec(self.jwt_secret@, self.encryption_key@)) {
                (Ok(()), Ok(())) => true,
                (Err(m), Err(n)) => m@ == n,
                _ => false,
            },
    {
        proof {
            reveal_strlit("security.jwt_secret must be at least 32 characters");
            reveal_strlit("security.encryption_key must be at least 32 bytes");
            reveal_strlit("security.jwt_secret is still set to an insecure placeholder");
            reveal_strlit("security.encryption_key is still set to an insecure placeholder");
        }
        let jwt = self.jwt_secret.as_str();
        let enc = self.encryption_key.as_str();
        if jwt.as_bytes().len() < 32 {
            return Err(message("security.jwt_secret must be at least 32 characters"));
        }
        if enc.as_bytes().len() < 32 {
            return Err(message("security.encryption_key must be at least 32 bytes"));
        }
        let jwt_chars = chars_of(jwt);
        let enc_chars = chars_of(enc);
        let mut i: usize = 0;
        while i < 4
            invariant
                i <= 4,
                jwt_chars@ == self.jwt_secret@,
                enc_chars@ == self.encryption_key@,
                validate_spec(self.jwt_secret@, self.encryption_key@) == placeholder_check(
                    self.jwt_secret@,
                    self.encryption_key@,
                    i as int,
                ),
            decreases 4 - i,
        {
            let p = chars_of(placeholder_at(i));
            if contains(jwt_chars.as_slice(), p.as_slice()) {
                return Err(
                    message("security.jwt_secret is still set to an insecure placeholder"),
                );
            }
            if contains(enc_chars.as_slice(), p.as_slice()) {
                return Err(
                    message("security.encryption_key is still set to an insecure placeholder"),
                );
            }
            i = i + 1;
        }
        Ok(())
    }
}

// ---------------------------------------------------------------------------
// Defaults and accessors
// ---------------------------------------------------------------------------

/// Two strings per list entry: `v` holds exactly the given texts.
pub open spec fn strings_are(v: Vec<String>, texts: Seq<Seq<char>>) -> bool {
    &&& v@.len() == texts.len()
    &&& forall|i: int| 0 <= i < texts.len() ==> #[trigger] v@[i]@ == texts[i]
}

/// The shipped defaults, with `workers` worker threads.
pub open spec fn is_default_settings(s: Settings, workers: usize) -> bool {
    &&& s.server.host@ == "0.0.0.0"@
    &&& s.server.port == 8080
    &&& s.server.workers == workers
    &&& s.server.request_timeout_seconds == 30
    &&& s.server.body_limit_mb == 10
    &&& s.database.url@ == "postgresql://localhost/twitch_music_bot"@
    &&& s.database.max_connections == 10
    &&& s.database.min_connections == 2
    &&& s.database.connect_timeout_seconds == 10
    &&& s.database.idle_timeout_seconds == 300
    &&& s.database.run_migrations
    &&& s.redis.url@ == "redis://localhost:6379"@
    &&& s.redis.max_connections == 20
    &&& s.redis.connection_timeout_seconds == 5
    &&& s.redis.command_timeout_seconds == 10
    &&& s.twitch.client_id@ == ""@
    &&& s.twitch.client_secret@ == ""@
    &&& s.twitch.redirect_uri@ == "http://localhost:3000/auth/twitch/callback"@
    &&& strings_are(
        s.twitch.scopes,
        seq!["chat:read"@, "chat:edit"@, "channel:manage:broadcast"@, "user:read:email"@],
    )
    &&& s.twitch.bot_username@ == "musicbot"@
    &&& s.twitch.bot_oauth_token@ == ""@
    &&& s.twitch.irc_reconnect_interval_seconds == 10
    &&& s.twitch.irc_ping_interval_seconds == 60
    &&& s.spotify.client_id@ == ""@
    &&& s.spotify.client_secret@ == ""@
    &&& s.spotify.redirect_uri@ == "http://localhost:3000/auth/spotify/callback"@
    &&& strings_are(
        s.spotify.scopes,
        seq![
            "user-read-email"@,
            "user-read-private"@,
            "playlist-read-private"@,
            "playlist-read-collaborative"@,
        ],
    )
    &&& s.spotify.api_base_url@ == "https://api.spotify.com/v1"@
    &&& s.spotify.rate_limit_per_second == 10
    &&& s.youtube.api_key@ == ""@
    &&& strings_are(
        s.youtube.invidious_instances,
        seq!["https://yewtu.be"@, "https://inv.nadeko.net"@, "https://invidious.snopyta.org"@],
    )
    &&& strings_are(
        s.youtube.piped_instances,
        seq!["https://pipedapi.kavin.rocks"@, "https://piped-api.garudalinux.org"@],
    )
    &&& s.youtube.fallback_to_ytdlp
    &&& s.youtube.ytdlp_path is None
    &&& s.youtube.request_timeout_seconds == 15
    &&& s.youtube.max_retries == 3
    &&& s.youtube.preferred_quality@ == "audio_only"@
    &&& s.soundcloud.client_id@ == ""@
    &&& s.soundcloud.api_base_url@ == "https://api-v2.soundcloud.com"@
    &&& s.soundcloud.rate_limit_per_second == 5
    &&& s.overlay.ws_path@ == "/ws/overlay"@
    &&& s.overlay.ping_interval_seconds == 30
    &&& s.overlay.max_message_size == 65536
    &&& s.overlay.reconnect_interval_seconds == 5
    &&& strings_are(s.overlay.allowed_origins, seq!["*"@])
    &&& s.security.jwt_secret@ == "change-me-in-production"@
    &&& s.security.jwt_expiry_hours == 24
    &&& s.security.refresh_token_days == 30
    &&& s.security.encryption_key@ == "32-byte-encryption-key-change-me!!"@
    &&& strings_are(
        s.security.cors_allowed_origins,
        seq!["http://localhost:3000"@, "https://*.vercel.app"@],
    )
    &&& s.security.rate_limit_requests_per_minute == 60
    &&& s.security.rate_limit_burst == 10
    &&& s.logging.level@ == "info"@
    &&& s.logging.format@ == "json"@
    &&& s.logging.json_output
    &&& s.logging.file_path is None
    &&& s.logging.max_file_size_mb == 100
    &&& s.logging.max_files == 10
    &&& s.metrics.enabled
    &&& s.metrics.path@ == "/metrics"@
    &&& s.metrics.port == Some(9090u16)
}

fn strings2(a: &str, b: &str) -> (r: Vec<String>)
    ensures
        r@.len() == 2,
        r@[0]@ == a@,
        r@[1]@ == b@,
{
    let mut v: Vec<String> = Vec::new();
    v.push(message(a));
    v.push(message(b));
    v
}

fn strings3(a: &str, b: &str, c: &str) -> (r: Vec<String>)
    ensures
        r@.len() == 3,
        r@[0]@ == a@,
        r@[1]@ == b@,
        r@[2]@ == c@,
{
    let mut v = strings2(a, b);
    v.push(message(c));
    v
}

fn strings4(a: &str, b: &str, c: &str, d: &str) -> (r: Vec<String>)
    ensures
        r@.len() == 4,
        r@[0]@ == a@,
        r@[1]@ == b@,
        r@[2]@ == c@,
        r@[3]@ == d@,
{
    let mut v = strings3(a, b, c);
    v.push(message(d));
    v
}

impl Settings {
    /// The shipped defaults; `workers` is the machine's available
    /// parallelism (4 when it cannot be determined).
    pub fn defaults(workers: usize) -> (r: Settings)
        ensures
            is_default_settings(r, workers),
    {
        let mut one: Vec<String> = Vec::new();
        one.push(message("*"));
        let r = Settings {
            server: ServerConfig {
                host: message("0.0.0.0"),
                port: 8080,
                workers,
                request_timeout_seconds: 30,
                body_limit_mb: 10,
            },
            database: DatabaseConfig {
                url: message("postgresql://localhost/twitch_music_bot"),
                max_connections: 10,
                min_connections: 2,
                connect_timeout_seconds: 10,
                idle_timeout_seconds: 300,
                run_migrations: true,
            },
            redis: RedisConfig {
                url: message("redis://localhost:6379"),
                max_connections: 20,
                connection_timeout_seconds: 5,
                command_timeout_seconds: 10,
            },
            twitch: TwitchConfig {
                client_id: message(""),
                client_secret: message(""),
                redirect_uri: message("http://localhost:3000/auth/twitch/callback"),
                scopes: strings4(
                    "chat:read",
                    "chat:edit",
                    "channel:manage:broadcast",
                    "user:read:email",
                ),
                bot_username: message("musicbot"),
                bot_oauth_token: message(""),
                irc_reconnect_interval_seconds: 10,
                irc_ping_interval_seconds: 60,
            },
            spotify: SpotifyConfig {
                client_id: message(""),
                client_secret: message(""),
                redirect_uri: message("http://localhost:3000/auth/spotify/callback"),
                scopes: strings4(
                    "user-read-email",
                    "user-read-private",
                    "playlist-read-private",
                    "playlist-read-collaborative",
                ),
                api_base_url: message("https://api.spotify.com/v1"),
                rate_limit_per_second: 10,
            },
            youtube: YouTubeConfig {
                api_key: message(""),
                invidious_instances: strings3(
                    "https://yewtu.be",
                    "https://inv.nadeko.net",
                    "https://invidious.snopyta.org",
                ),
                piped_instances: strings2(
                    "https://pipedapi.kavin.rocks",
                    "https://piped-api.garudalinux.org",
                ),
                fallback_to_ytdlp: true,
                ytdlp_path: None,
                request_timeout_seconds: 15,
                max_retries: 3,
                preferred_quality: message("audio_only"),
            },
            soundcloud: SoundCloudConfig {
                client_id: message(""),
                api_base_url: message("https://api-v2.soundcloud.com"),
                rate_limit_per_second: 5,
            },
            overlay: OverlayConfig {
                ws_path: message("/ws/overlay"),
                ping_interval_seconds: 30,
                max_message_size: 65536,
                reconnect_interval_seconds: 5,
                allowed_origins: one,
            },
            security: SecurityConfig {
                jwt_secret: message("change-me-in-production"),
                jwt_expiry_hours: 24,
                refresh_token_days: default_refresh_token_days(),
                encryption_key: message("32-byte-encryption-key-change-me!!"),
                cors_allowed_origins: strings2("http://localhost:3000", "https://*.vercel.app"),
                rate_limit_requests_per_minute: 60,
                rate_limit_burst: 10,
            },
            logging: LoggingConfig {
                level: message("info"),
                format: message("json"),
                json_output: true,
                file_path: None,
                max_file_size_mb: 100,
                max_files: 10,
            },
            metrics: MetricsConfig { enabled: true, path: message("/metrics"), port: Some(9090) },
        };
        assert(strings_are(r.overlay.allowed_origins, seq!["*"@]));
        r
    }

    pub fn database_url(&self) -> (r: &str)
        ensures
            r@ == self.database.url@,
    {
        self.database.url.as_str()
    }

    pub fn redis_url(&self) -> (r: &str)
        ensures
            r@ == self.redis.url@,
    {
        self.redis.url.as_str()
    }

    pub fn twitch_client_id(&self) -> (r: &str)
        ensures
            r@ == self.twitch.client_id@,
    {
        self.twitch.client_id.as_str()
    }

    pub fn twitch_client_secret(&self) -> (r: &str)
        ensures
            r@ == self.twitch.client_secret@,
    {
        self.twitch.client_secret.as_str()
    }

    pub fn twitch_bot_token(&self) -> (r: &str)
        ensures
            r@ == self.twitch.bot_oauth_token@,
    {
        self.twitch.bot_oauth_token.as_str()
    }

    pub fn spotify_client_id(&self) -> (r: &str)
        ensures
            r@ == self.spotify.client_id@,
    {
        self.spotify.client_id.as_str()
    }

    pub fn spotify_client_secret(&self) -> (r: &str)
        ensures
            r@ == self.spotify.client_secret@,
    {
        self.spotify.client_secret.as_str()
    }

    pub fn soundcloud_client_id(&self) -> (r: &str)
        ensures
            r@ == self.soundcloud.client_id@,
    {
        self.soundcloud.client_id.as_str()
    }

    pub fn jwt_secret(&self) -> (r: &str)
        ensures
            r@ == self.security.jwt_secret@,
    {
        self.security.jwt_secret.as_str()
    }

    pub fn encryption_key(&self) -> (r: &str)
        ensures
            r@ == self.security.encryption_key@,
    {
        self.security.encryption_key.as_str()
    }
}

/// The dashboard's base URL: the first allowed CORS origin, or
/// `http://localhost:3000` when none is configured.
pub open spec fn frontend_url_spec(s: Settings) -> Seq<char> {
    if s.security.cors_allowed_origins@.len() > 0 {
        s.security.cors_allowed_origins@[0]@
    } else {
        "http://localhost:3000"@
    }
}

/// The dashboard's base URL.
pub fn frontend_url(settings: &Settings) -> (r: String)
    ensures
        r@ == frontend_url_spec(*settings),
{
    if settings.security.cors_allowed_origins.len() > 0 {
        settings.security.cors_allowed_origins[0].clone()
    } else {
        message("http://localhost:3000")
    }
}

} // verus!

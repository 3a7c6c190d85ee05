use vstd::prelude::*;

use crate::text::str_eq;

verus! {

/// Where a song comes from.
#[derive(Debug, Clone, Copy, PartialEq, Eq, Structural)]
pub enum MusicSource {
    YouTube,
    Spotify,
    SoundCloud,
    Local,
}

/// The lowercase wire name of a source.
pub open spec fn source_name(s: MusicSource) -> Seq<char> {
    match s {
        MusicSource::YouTube => "youtube"@,
        MusicSource::Spotify => "spotify"@,
        MusicSource::SoundCloud => "soundcloud"@,
        MusicSource::Local => "local"@,
    }
}

/// The source a configured source name selects for searching; `local` and
/// unknown names select none.
pub open spec fn searchable_source(name: Seq<char>) -> Option<MusicSource> {
    if name == "youtube"@ {
        Some(MusicSource::YouTube)
    } else if name == "spotify"@ {
        Some(MusicSource::Spotify)
    } else if name == "soundcloud"@ {
        Some(MusicSource::SoundCloud)
    } else {
        None
    }
}

/// The source a stored name denotes; unknown names fall back to `Local`.
pub open spec fn stored_source(name: Seq<char>) -> MusicSource {
    match searchable_source(name) {
        Some(s) => s,
        None => MusicSource::Local,
    }
}

impl MusicSource {
    /// Lowercase name, as stored in the database and sent to clients.
    pub fn as_str(&self) -> (r: &'static str)
        ensures
            r@ == source_name(*self),
    {
        proof {
            reveal_strlit("youtube");
            reveal_strlit("spotify");
            reveal_strlit("soundcloud");
            reveal_strlit("local");
        }
        match self {
            MusicSource::YouTube => "youtube",
            MusicSource::Spotify => "spotify",
            MusicSource::SoundCloud => "soundcloud",
            MusicSource::Local => "local",
        }
    }

    /// Reads a stored source name; unknown names read as `Local`.
    pub fn from_stored(name: &str) -> (r: MusicSource)
        ensures
            r == stored_source(name@),
    {
        match parse_source(name) {
            Some(s) => s,
            None => MusicSource::Local,
        }
    }
}

/// Maps a configured source name to the source it enables for searching.
pub fn parse_source(name: &str) -> (r: Option<MusicSource>)
    ensures
        r == searchable_source(name@),
{
    if str_eq(name, "youtube") {
        Some(MusicSource::YouTube)
    } else if str_eq(name, "spotify") {
        Some(MusicSource::Spotify)
    } else if str_eq(name, "soundcloud") {
        Some(MusicSource::SoundCloud)
    } else {
        None
    }
}

/// Reading back the stored name of a source gives that source, and the
/// name of every source but `Local` selects it for searching.
pub proof fn law_source_name_roundtrip(s: MusicSource)
    ensures
        stored_source(source_name(s)) == s,
        s != MusicSource::Local ==> searchable_source(source_name(s)) == Some(s),
{
    reveal_strlit("youtube");
    reveal_strlit("spotify");
    reveal_strlit("soundcloud");
    reveal_strlit("local");
    assert("spotify"@[0] != "youtube"@[0]);
    assert("soundcloud"@[0] != "youtube"@[0]);
    assert("soundcloud"@[1] != "spotify"@[1]);
    assert("local"@[0] != "youtube"@[0]);
    assert("local"@[0] != "spotify"@[0]);
    assert("local"@[0] != "soundcloud"@[0]);
}

/// Reading back the stored name of a status gives that status.
pub proof fn law_status_name_roundtrip(s: QueueStatus)
    ensures
        stored_status(status_name(s)) == s,
{
    reveal_strlit("pending");
    reveal_strlit("playing");
    reveal_strlit("played");
    reveal_strlit("skipped");
    reveal_strlit("failed");
    assert("pending"@[1] != "playing"@[1]);
    assert("pending"@.len() != "played"@.len());
    assert("pending"@[0] != "skipped"@[0]);
    assert("pending"@[0] != "failed"@[0]);
    assert("played"@.len() != "playing"@.len());
    assert("skipped"@[0] != "playing"@[0]);
    assert("skipped"@[0] != "played"@[0]);
    assert("failed"@[0] != "playing"@[0]);
    assert("failed"@[0] != "played"@[0]);
    assert("failed"@[0] != "skipped"@[0]);
}

/// Life cycle of a queue item.
#[derive(Debug, Clone, Copy, PartialEq, Eq, Structural)]
pub enum QueueStatus {
    Pending,
    Playing,
    Played,
    Skipped,
    Failed,
}

/// The lowercase stored name of a status.
pub open spec fn status_name(s: QueueStatus) -> Seq<char> {
    match s {
        QueueStatus::Pending => "pending"@,
        QueueStatus::Playing => "playing"@,
        QueueStatus::Played => "played"@,
        QueueStatus::Skipped => "skipped"@,
        QueueStatus::Failed => "failed"@,
    }
}

/// The status a stored name denotes; unknown names read as `Pending`.
pub open spec fn stored_status(name: Seq<char>) -> QueueStatus {
    if name == "playing"@ {
        QueueStatus::Playing
    } else if name == "played"@ {
        QueueStatus::Played
    } else if name == "skipped"@ {
        QueueStatus::Skipped
    } else if name == "failed"@ {
        QueueStatus::Failed
    } else {
        QueueStatus::Pending
    }
}

impl QueueStatus {
    /// Lowercase name, as stored in the database.
    pub fn as_str(&self) -> (r: &'static str)
        ensures
            r@ == status_name(*self),
    {
        proof {
            reveal_strlit("pending");
            reveal_strlit("playing");
            reveal_strlit("played");
            reveal_strlit("skipped");
            reveal_strlit("failed");
        }
        match self {
            QueueStatus::Pending => "pending",
            QueueStatus::Playing => "playing",
            QueueStatus::Played => "played",
            QueueStatus::Skipped => "skipped",
            QueueStatus::Failed => "failed",
        }
    }

    /// Reads a stored status name; unknown names read as `Pending`.
    pub fn from_stored(name: &str) -> (r: QueueStatus)
        ensures
            r == stored_status(name@),
    {
        if str_eq(name, "playing") {
            QueueStatus::Playing
        } else if str_eq(name, "played") {
            QueueStatus::Played
        } else if str_eq(name, "skipped") {
            QueueStatus::Skipped
        } else if str_eq(name, "failed") {
            QueueStatus::Failed
        } else {
            QueueStatus::Pending
        }
    }

    /// Whether entering this status stamps the item's `played_at` time.
    pub fn marks_played(&self) -> (r: bool)
        ensures
            r == (*self == QueueStatus::Played || *self == QueueStatus::Skipped),
    {
        match self {
            QueueStatus::Played | QueueStatus::Skipped => true,
            _ => false,
        }
    }
}

/// A chat user as the bot sees them.
#[derive(Debug)]
pub struct TwitchUser {
    pub id: String,
    pub twitch_user_id: String,
    pub login: String,
    pub display_name: String,
    pub is_mod: bool,
    pub is_sub: bool,
    pub is_vip: bool,
}

impl Clone for TwitchUser {
    fn clone(&self) -> (r: Self)
        ensures
            r == *self,
    {
        TwitchUser {
            id: self.id.clone(),
            twitch_user_id: self.twitch_user_id.clone(),
            login: self.login.clone(),
            display_name: self.display_name.clone(),
            is_mod: self.is_mod,
            is_sub: self.is_sub,
            is_vip: self.is_vip,
        }
    }
}

/// A `!command` read from chat.
#[derive(Debug)]
pub struct ChatCommand {
    pub command: String,
    pub args: Vec<String>,
    pub raw_message: String,
    pub user: TwitchUser,
}

/// Why a song request or a bot action failed.
#[derive(Debug)]
pub enum BotError {
    Database(String),
    Music(String),
    Twitch(String),
    UserBlocked,
    RateLimited,
    NotFound,
    QueueFull,
}

impl BotError {
    /// The message the error displays.
    pub fn message(&self) -> (r: String)
        ensures
            r@ == bot_error_message(*self),
    {
        match self {
            BotError::Database(m) => prefixed("Database error: ", m),
            BotError::Music(m) => prefixed("Music service error: ", m),
            BotError::Twitch(m) => prefixed("Twitch error: ", m),
            BotError::UserBlocked => String::from_str("User blocked from music requests"),
            BotError::RateLimited => String::from_str("Rate limit exceeded"),
            BotError::NotFound => String::from_str("Song not found or not streamable"),
            BotError::QueueFull => String::from_str("Queue is full"),
        }
    }
}

fn prefixed(p: &str, m: &String) -> (r: String)
    ensures
        r@ == p@ + m@,
{
    let s = String::from_str(p);
    s.concat(m.as_str())
}

/// The display text of each error.
pub open spec fn bot_error_message(e: BotError) -> Seq<char> {
    match e {
        BotError::Database(m) => "Database error: "@ + m@,
        BotError::Music(m) => "Music service error: "@ + m@,
        BotError::Twitch(m) => "Twitch error: "@ + m@,
        BotError::UserBlocked => "User blocked from music requests"@,
        BotError::RateLimited => "Rate limit exceeded"@,
        BotError::NotFound => "Song not found or not streamable"@,
        BotError::QueueFull => "Queue is full"@,
    }
}

} // verus!

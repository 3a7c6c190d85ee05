use vstd::prelude::*;

use crate::model::{ChatCommand, TwitchUser};
use crate::text::str_eq;
use crate::text::{
    all_ascii, ascii_lower, chars_of, eq_ignore_ascii_case, eq_ignore_ascii_case_spec, is_whitespace, is_ws,
    spec_to_lowercase, split_whitespace, string_of, to_lowercase, trim, trim_spec, words_spec,
};

verus! {

// ---------------------------------------------------------------------------
// Command parsing
// ---------------------------------------------------------------------------

/// Index of the first whitespace character of `t`, or its length.
pub open spec fn ws_index(t: Seq<char>) -> int
    decreases t.len(),
{
    if t.len() == 0 || is_ws(t[0]) {
        0
    } else {
        1 + ws_index(t.drop_first())
    }
}

/// Index of the first `c` in `t`, or its length.
pub open spec fn index_of(t: Seq<char>, c: char) -> int
    decreases t.len(),
{
    if t.len() == 0 || t[0] == c {
        0
    } else {
        1 + index_of(t.drop_first(), c)
    }
}

/// `s` without its leading `!` characters.
pub open spec fn strip_bangs(s: Seq<char>) -> Seq<char>
    decreases s.len(),
{
    if s.len() > 0 && s[0] == '!' {
        strip_bangs(s.drop_first())
    } else {
        s
    }
}

/// The first whitespace-delimited piece of a message.
pub open spec fn command_head(t: Seq<char>) -> Seq<char> {
    t.take(ws_index(t))
}

/// What follows the first whitespace character of a message.
pub open spec fn command_rest(t: Seq<char>) -> Seq<char> {
    if ws_index(t) < t.len() {
        t.skip(ws_index(t) + 1)
    } else {
        Seq::empty()
    }
}

/// The lowercase command name, without its leading `!`s.
pub open spec fn command_name(t: Seq<char>) -> Seq<char> {
    spec_to_lowercase(strip_bangs(command_head(t)))
}

/// A command such as `sr@nightbot` names another bot: it carries an `@`
/// target that is neither this channel nor `tmi.js`.
pub open spec fn addressed_elsewhere(name: Seq<char>, channel: Seq<char>) -> bool {
    let at = index_of(name, '@');
    at < name.len() && {
        let target = name.skip(at + 1);
        !eq_ignore_ascii_case_spec(target, channel) && !eq_ignore_ascii_case_spec(
            target,
            "tmi.js"@,
        )
    }
}

/// The command a chat message holds: its name, arguments and trimmed text;
/// `None` when the message is not a `!command` or is aimed at another bot.
pub open spec fn parse_command_spec(channel: Seq<char>, text: Seq<char>) -> Option<
    (Seq<char>, Seq<Seq<char>>, Seq<char>),
> {
    let t = trim_spec(text);
    if t.len() == 0 || t[0] != '!' {
        None
    } else if addressed_elsewhere(command_name(t), channel) {
        None
    } else {
        Some((command_name(t), words_spec(command_rest(t)), t))
    }
}

proof fn lemma_ws_index(t: Seq<char>, i: int)
    requires
        0 <= i <= t.len(),
        forall|k: int| 0 <= k < i ==> !is_ws(#[trigger] t[k]),
        i == t.len() || is_ws(t[i]),
    ensures
        ws_index(t) == i,
    decreases i,
{
    if i > 0 {
        assert forall|k: int| 0 <= k < i - 1 implies !is_ws(#[trigger] t.drop_first()[k]) by {
            assert(t.drop_first()[k] == t[k + 1]);
        }
        lemma_ws_index(t.drop_first(), i - 1);
    }
}

proof fn lemma_index_of(t: Seq<char>, c: char, i: int)
    requires
        0 <= i <= t.len(),
        forall|k: int| 0 <= k < i ==> #[trigger] t[k] != c,
        i == t.len() || t[i] == c,
    ensures
        index_of(t, c) == i,
    decreases i,
{
    if i > 0 {
        assert forall|k: int| 0 <= k < i - 1 implies #[trigger] t.drop_first()[k] != c by {
            assert(t.drop_first()[k] == t[k + 1]);
        }
        lemma_index_of(t.drop_first(), c, i - 1);
    }
}

proof fn lemma_strip_bangs(s: Seq<char>, i: int)
    requires
        0 <= i <= s.len(),
        forall|k: int| 0 <= k < i ==> #[trigger] s[k] == '!',
        i == s.len() || s[i] != '!',
    ensures
        strip_bangs(s) == s.skip(i),
    decreases i,
{
    if i > 0 {
        assert forall|k: int| 0 <= k < i - 1 implies #[trigger] s.drop_first()[k] == '!' by {
            assert(s.drop_first()[k] == s[k + 1]);
        }
        lemma_strip_bangs(s.drop_first(), i - 1);
        assert(s.drop_first().skip(i - 1) =~= s.skip(i));
    } else {
        assert(s.skip(0) =~= s);
    }
}

/// `s[from..to]` as a new vector.
fn copy_range(s: &[char], from: usize, to: usize) -> (r: Vec<char>)
    requires
        from <= to <= s@.len(),
    ensures
        r@ == s@.subrange(from as int, to as int),
{
    let mut out: Vec<char> = Vec::new();
    let mut i = from;
    while i < to
        invariant
            from <= i <= to <= s@.len(),
            out@ =~= s@.subrange(from as int, i as int),
        decreases to - i,
    {
        out.push(s[i]);
        i = i + 1;
    }
    out
}

/// Reads a `!command` from a chat message. Messages that do not start with
/// `!` (after trimming) and commands aimed at another bot (`!sr@nightbot`)
/// give `None`.
pub fn parse_command(channel: &str, user: &TwitchUser, text: &str) -> (r: Option<ChatCommand>)
    ensures
        match (r, parse_command_spec(channel@, text@)) {
            (None, None) => true,
            (Some(c), Some((name, args, raw))) => {
                &&& c.command@ == name
                &&& c.args@.len() == args.len()
                &&& forall|i: int| 0 <= i < args.len() ==> #[trigger] c.args@[i]@ == args[i]
                &&& c.raw_message@ == raw
                &&& c.user == *user
            },
            _ => false,
        },
        // On an ASCII command word the name is its ASCII lowercase.
        r is Some && all_ascii(strip_bangs(command_head(trim_spec(text@)))) ==> command_name(trim_spec(text@))
            == strip_bangs(command_head(trim_spec(text@))).map_values(|c: char| ascii_lower(c)),
{
    let raw = chars_of(text);
    let t = trim(raw.as_slice());
    if t.len() == 0 || t[0] != '!' {
        return None;
    }
    let n = t.len();
    let mut k: usize = 0;
    while k < n && !is_whitespace(t[k])
        invariant
            k <= n,
            n == t@.len(),
            forall|j: int| 0 <= j < k ==> !is_ws(#[trigger] t@[j]),
        decreases n - k,
    {
        k = k + 1;
    }
    proof {
        lemma_ws_index(t@, k as int);
    }
    let mut b: usize = 0;
    while b < k && t[b] == '!'
        invariant
            b <= k <= n,
            n == t@.len(),
            forall|j: int| 0 <= j < b ==> #[trigger] t@[j] == '!',
        decreases k - b,
    {
        b = b + 1;
    }
    let head = copy_range(t.as_slice(), 0, k);
    proof {
        assert forall|j: int| 0 <= j < b implies #[trigger] head@[j] == '!' by {
            assert(head@[j] == t@[j]);
        }
        if b < k {
            assert(head@[b as int] == t@[b as int]);
        }
        lemma_strip_bangs(head@, b as int);
        assert(head@ == command_head(t@));
    }
    let stripped = copy_range(head.as_slice(), b, k);
    assert(stripped@ =~= head@.skip(b as int));
    let name = to_lowercase(string_of(stripped.as_slice()).as_str());
    let name_chars = chars_of(name.as_str());
    let m = name_chars.len();
    let mut a: usize = 0;
    while a < m && name_chars[a] != '@'
        invariant
            a <= m,
            m == name_chars@.len(),
            forall|j: int| 0 <= j < a ==> #[trigger] name_chars@[j] != '@',
        decreases m - a,
    {
        a = a + 1;
    }
    proof {
        lemma_index_of(name_chars@, '@', a as int);
    }
    if a < m {
        let target = copy_range(name_chars.as_slice(), a + 1, m);
        assert(target@ =~= name_chars@.skip(a + 1));
        let chan = chars_of(channel);
        let tmi = chars_of("tmi.js");
        if !eq_ignore_ascii_case(target.as_slice(), chan.as_slice()) && !eq_ignore_ascii_case(
            target.as_slice(),
            tmi.as_slice(),
        ) {
            return None;
        }
    }
    let rest = if k < n {
        copy_range(t.as_slice(), k + 1, n)
    } else {
        Vec::new()
    };
    assert(rest@ =~= command_rest(t@));
    let words = split_whitespace(rest.as_slice());
    let mut args: Vec<String> = Vec::new();
    let mut i: usize = 0;
    while i < words.len()
        invariant
            i <= words@.len(),
            args@.len() == i,
            forall|j: int| 0 <= j < i ==> #[trigger] args@[j]@ == words@[j]@,
        decreases words@.len() - i,
    {
        args.push(string_of(words[i].as_slice()));
        i = i + 1;
    }
    Some(
        ChatCommand {
            command: name,
            args,
            raw_message: string_of(t.as_slice()),
            user: user.clone(),
        },
    )
}

// ---------------------------------------------------------------------------
// Dispatch
// ---------------------------------------------------------------------------

/// What the bot does for a chat command.
#[derive(Debug, Clone, Copy, PartialEq, Eq, Structural)]
pub enum ChatAction {
    /// `!sr`, `!songrequest`, `!playsong`: request the song named by the arguments.
    SongRequest,
    /// `!skip`, `!voteskip`: vote to skip the current song.
    VoteSkip,
    /// `!queue`, `!songs`: link to the queue page.
    ShowQueue,
    /// `!downloadlink`, `!dl`: hand out a download link for the current song.
    DownloadLink,
    /// Anything else.
    Ignore,
}

pub open spec fn chat_action_spec(name: Seq<char>) -> ChatAction {
    if name == "sr"@ || name == "songrequest"@ || name == "playsong"@ {
        ChatAction::SongRequest
    } else if name == "skip"@ || name == "voteskip"@ {
        ChatAction::VoteSkip
    } else if name == "queue"@ || name == "songs"@ {
        ChatAction::ShowQueue
    } else if name == "downloadlink"@ || name == "dl"@ {
        ChatAction::DownloadLink
    } else {
        ChatAction::Ignore
    }
}

/// Maps a command name to the bot's action.
pub fn classify_command(name: &str) -> (r: ChatAction)
    ensures
        r == chat_action_spec(name@),
{
    if str_eq(name, "sr") || str_eq(name, "songrequest") || str_eq(name, "playsong") {
        ChatAction::SongRequest
    } else if str_eq(name, "skip") || str_eq(name, "voteskip") {
        ChatAction::VoteSkip
    } else if str_eq(name, "queue") || str_eq(name, "songs") {
        ChatAction::ShowQueue
    } else if str_eq(name, "downloadlink") || str_eq(name, "dl") {
        ChatAction::DownloadLink
    } else {
        ChatAction::Ignore
    }
}

/// `parts` joined with `sep` between neighbours.
pub open spec fn join_spec(parts: Seq<Seq<char>>, sep: Seq<char>) -> Seq<char>
    decreases parts.len(),
{
    if parts.len() == 0 {
        Seq::empty()
    } else if parts.len() == 1 {
        parts[0]
    } else {
        join_spec(parts.drop_last(), sep) + sep + parts.last()
    }
}

/// Joins the arguments of a command with single spaces: the search query of
/// a song request.
pub fn join_args(args: &Vec<String>) -> (r: String)
    ensures
        r@ == join_spec(args@.map_values(|a: String| a@), " "@),
{
    let ghost parts = args@.map_values(|a: String| a@);
    proof {
        reveal_strlit("");
        reveal_strlit(" ");
        assert(parts.take(0) =~= Seq::<Seq<char>>::empty());
    }
    let mut out = String::from_str("");
    let mut i: usize = 0;
    while i < args.len()
        invariant
            i <= args@.len(),
            parts == args@.map_values(|a: String| a@),
            out@ == join_spec(parts.take(i as int), " "@),
        decreases args@.len() - i,
    {
        proof {
            assert(parts.take(i + 1).drop_last() =~= parts.take(i as int));
            assert(parts.take(i + 1).last() == args@[i as int]@);
        }
        if i > 0 {
            out.append(" ");
        }
        out.append(args[i].as_str());
        proof {
            if i == 0 {
                assert(out@ =~= parts.take(1)[0]);
            }
        }
        i = i + 1;
    }
    proof {
        assert(parts.take(args@.len() as int) =~= parts);
    }
    out
}

/// Whether any badge has the given name.
fn has_badge(badges: &Vec<String>, name: &str) -> (r: bool)
    ensures
        r == exists|i: int| 0 <= i < badges@.len() && #[trigger] badges@[i]@ == name@,
{
    let mut i: usize = 0;
    while i < badges.len()
        invariant
            i <= badges@.len(),
            forall|k: int| 0 <= k < i ==> #[trigger] badges@[k]@ != name@,
        decreases badges@.len() - i,
    {
        if str_eq(badges[i].as_str(), name) {
            return true;
        }
        i = i + 1;
    }
    false
}

/// The chat user behind a message: moderator, subscriber and VIP status
/// come from the `moderator`, `subscriber` and `vip` badges.
pub fn user_from_chat(sender_id: &str, login: &str, name: &str, badges: &Vec<String>) -> (r: TwitchUser)
    ensures
        r.id@ == sender_id@,
        r.twitch_user_id@ == sender_id@,
        r.login@ == login@,
        r.display_name@ == name@,
        r.is_mod == exists|i: int| 0 <= i < badges@.len() && #[trigger] badges@[i]@ == "moderator"@,
        r.is_sub == exists|i: int| 0 <= i < badges@.len() && #[trigger] badges@[i]@ == "subscriber"@,
        r.is_vip == exists|i: int| 0 <= i < badges@.len() && #[trigger] badges@[i]@ == "vip"@,
{
    proof {
        reveal_strlit("moderator");
        reveal_strlit("subscriber");
        reveal_strlit("vip");
    }
    TwitchUser {
        id: String::from_str(sender_id),
        twitch_user_id: String::from_str(sender_id),
        login: String::from_str(login),
        display_name: String::from_str(name),
        is_mod: has_badge(badges, "moderator"),
        is_sub: has_badge(badges, "subscriber"),
        is_vip: has_badge(badges, "vip"),
    }
}

// ---------------------------------------------------------------------------
// Replies
// ---------------------------------------------------------------------------

/// Titles longer than 60 characters are cut to 57 and end in `...`.
pub open spec fn truncate_title_spec(title: Seq<char>) -> Seq<char> {
    if title.len() > 60 {
        title.take(57) + "..."@
    } else {
        title
    }
}

/// Shortens a song title for chat.
pub fn truncate_title(title: &str) -> (r: String)
    ensures
        r@ == truncate_title_spec(title@),
        r@.len() <= 60,
{
    proof {
        reveal_strlit("...");
    }
    let cs = chars_of(title);
    if cs.len() > 60 {
        let cut = copy_range(cs.as_slice(), 0, 57);
        let s = string_of(cut.as_slice());
        s.concat("...")
    } else {
        String::from_str(title)
    }
}

/// The text of a two-part chat reply: the non-empty parts joined by a space.
pub open spec fn chat_message_spec(a: Seq<char>, b: Seq<char>) -> Seq<char> {
    if a.len() > 0 && b.len() > 0 {
        a + " "@ + b
    } else {
        a + b
    }
}

/// Assembles a chat reply; `None` when both parts are empty and nothing is
/// sent.
pub fn compose_chat_message(text_a: &str, text_b: &str) -> (r: Option<String>)
    ensures
        match r {
            Some(m) => m@ == chat_message_spec(text_a@, text_b@) && m@.len() > 0,
            None => text_a@.len() == 0 && text_b@.len() == 0,
        },
{
    proof {
        reveal_strlit("");
        reveal_strlit(" ");
    }
    let mut message = String::from_str("");
    if !text_a.is_empty() {
        message.append(text_a);
    }
    if !text_b.is_empty() {
        if !message.as_str().is_empty() {
            message.append(" ");
        }
        message.append(text_b);
    }
    if message.as_str().is_empty() {
        return None;
    }
    Some(message)
}

/// `base + sep + tail`.
fn url_join(base: &String, sep: &str, tail: &str) -> (r: String)
    ensures
        r@ == base@ + sep@ + tail@,
{
    let s = base.clone();
    let s = s.concat(sep);
    s.concat(tail)
}

/// The dashboard page listing a streamer's queue.
pub fn queue_page_url(frontend: &String, streamer_id: &str) -> (r: String)
    ensures
        r@ == frontend@ + "/queue/"@ + streamer_id@,
{
    url_join(frontend, "/queue/", streamer_id)
}

/// The dashboard page behind a download code.
pub fn download_page_url(frontend: &String, code: &str) -> (r: String)
    ensures
        r@ == frontend@ + "/dl/"@ + code@,
{
    url_join(frontend, "/dl/", code)
}

/// What `!downloadlink` answers.
#[derive(Debug, Clone, Copy, PartialEq, Eq, Structural)]
pub enum DownloadLinkReply {
    /// Nothing is playing.
    NothingPlaying,
    /// Today's link for this song is still valid: hand it out again.
    ReuseLink,
    /// Today's link for this song has expired: no new one until tomorrow.
    AlreadyUsedToday,
    /// No link today: create one.
    CreateLink,
}

pub open spec fn download_link_reply_spec(
    playing: bool,
    todays_link_expires_at: Option<i64>,
    now: i64,
) -> DownloadLinkReply {
    if !playing {
        DownloadLinkReply::NothingPlaying
    } else {
        match todays_link_expires_at {
            Some(exp) => if exp > now {
                DownloadLinkReply::ReuseLink
            } else {
                DownloadLinkReply::AlreadyUsedToday
            },
            None => DownloadLinkReply::CreateLink,
        }
    }
}

/// One link per song per day: within its lifetime the same link is handed
/// out again, after that the command stays locked until the next day.
pub fn download_link_reply(playing: bool, todays_link_expires_at: Option<i64>, now: i64) -> (r:
    DownloadLinkReply)
    ensures
        r == download_link_reply_spec(playing, todays_link_expires_at, now),
{
    if !playing {
        return DownloadLinkReply::NothingPlaying;
    }
    match todays_link_expires_at {
        Some(exp) => if exp > now {
            DownloadLinkReply::ReuseLink
        } else {
            DownloadLinkReply::AlreadyUsedToday
        },
        None => DownloadLinkReply::CreateLink,
    }
}

/// The reply that announces a download link for a title.
pub fn download_announcement(title: &str) -> (r: String)
    ensures
        r@ == "Download '"@ + truncate_title_spec(title@) + "':"@,
{
    let s = String::from_str("Download '");
    let t = truncate_title(title);
    let s = s.concat(t.as_str());
    s.concat("':")
}

/// The reply when today's link for a title was already used.
pub fn download_used_notice(title: &str) -> (r: String)
    ensures
        r@ == "A download link for '"@ + truncate_title_spec(title@)
            + "' was already used today - try again tomorrow."@,
{
    let s = String::from_str("A download link for '");
    let t = truncate_title(title);
    let s = s.concat(t.as_str());
    s.concat("' was already used today - try again tomorrow.")
}

/// Next step of sending a chat reply through Helix.
#[derive(Debug, Clone, Copy, PartialEq, Eq, Structural)]
pub enum HelixStep {
    Done,
    /// The token expired: refresh it once and send again.
    RefreshAndRetry,
    Failed,
}

/// Decides what a Helix response leads to: success ends, a first 401
/// refreshes the token and retries, anything else fails.
pub fn helix_step(status: u16, retried: bool) -> (r: HelixStep)
    ensures
        200 <= status <= 299 ==> r == HelixStep::Done,
        status == 401 && !retried ==> r == HelixStep::RefreshAndRetry,
        !(200 <= status <= 299) && !(status == 401 && !retried) ==> r == HelixStep::Failed,
{
    if status == 401 && !retried {
        HelixStep::RefreshAndRetry
    } else if 200 <= status && status <= 299 {
        HelixStep::Done
    } else {
        HelixStep::Failed
    }
}

} // verus!

use vstd::prelude::*;

use crate::model::{parse_source, searchable_source, MusicSource};
use crate::music::{last_max, last_max_index};
use crate::text::{chars_of, contains, contains_spec, str_eq, trim, trim_spec};

verus! {

// ---------------------------------------------------------------------------
// Which hits of a reply are kept
// ---------------------------------------------------------------------------

/// The indices below `n` whose flag is set, in order.
pub open spec fn kept(keep: Seq<bool>, n: int) -> Seq<usize>
    decreases n,
{
    if n <= 0 {
        Seq::empty()
    } else {
        let p = kept(keep, n - 1);
        if keep[n - 1] {
            p.push((n - 1) as usize)
        } else {
            p
        }
    }
}

/// At most the first `limit` entries of `s`.
pub open spec fn at_most(s: Seq<usize>, limit: int) -> Seq<usize> {
    if s.len() <= limit {
        s
    } else {
        s.take(limit)
    }
}

/// Filter, then take: the first `limit` indices whose flag is set.
pub open spec fn first_kept_spec(keep: Seq<bool>, limit: int) -> Seq<usize> {
    at_most(kept(keep, keep.len() as int), limit)
}

/// Take, then filter: the indices below `limit` whose flag is set.
pub open spec fn kept_within_spec(keep: Seq<bool>, limit: int) -> Seq<usize> {
    kept(
        keep,
        if limit < keep.len() {
            limit
        } else {
            keep.len() as int
        },
    )
}

/// The first `limit` indices whose flag is set.
pub fn first_kept(keep: &Vec<bool>, limit: usize) -> (r: Vec<usize>)
    ensures
        r@ == first_kept_spec(keep@, limit as int),
{
    let mut out: Vec<usize> = Vec::new();
    let mut i: usize = 0;
    while i < keep.len()
        invariant
            i <= keep@.len(),
            out@ == at_most(kept(keep@, i as int), limit as int),
        decreases keep@.len() - i,
    {
        let ghost before = kept(keep@, i as int);
        if keep[i] && out.len() < limit {
            out.push(i);
        }
        proof {
            if keep@[i as int] && before.len() >= limit {
                assert(before.push(i).take(limit as int) =~= before.take(limit as int));
            }
        }
        i = i + 1;
    }
    out
}

/// The indices below `limit` whose flag is set.
pub fn kept_within(keep: &Vec<bool>, limit: usize) -> (r: Vec<usize>)
    ensures
        r@ == kept_within_spec(keep@, limit as int),
{
    let n = if limit < keep.len() {
        limit
    } else {
        keep.len()
    };
    let mut out: Vec<usize> = Vec::new();
    let mut i: usize = 0;
    while i < n
        invariant
            i <= n <= keep@.len(),
            out@ == kept(keep@, i as int),
        decreases n - i,
    {
        if keep[i] {
            out.push(i);
        }
        i = i + 1;
    }
    out
}

proof fn lemma_kept(keep: Seq<bool>, n: int)
    requires
        0 <= n <= keep.len(),
        n <= usize::MAX + 1,
    ensures
        forall|a: int|
            0 <= a < kept(keep, n).len() ==> (#[trigger] kept(keep, n)[a] as int) < n && keep[kept(
                keep,
                n,
            )[a] as int],
        forall|a: int, b: int|
            0 <= a < b < kept(keep, n).len() ==> #[trigger] kept(keep, n)[a] < #[trigger] kept(
                keep,
                n,
            )[b],
        forall|i: int| 0 <= i < n && keep[i] ==> #[trigger] kept(keep, n).contains(i as usize),
    decreases n,
{
    if n > 0 {
        lemma_kept(keep, n - 1);
        let p = kept(keep, n - 1);
        if keep[n - 1] {
            let q = p.push((n - 1) as usize);
            assert forall|i: int| 0 <= i < n && keep[i] implies #[trigger] q.contains(i as usize) by {
                if i == n - 1 {
                    assert(q[q.len() - 1] == (n - 1) as usize);
                } else {
                    assert(p.contains(i as usize));
                    let x = choose|x: int| 0 <= x < p.len() && p[x] == i as usize;
                    assert(q[x] == p[x]);
                }
            }
        } else {
            assert forall|i: int| 0 <= i < n && keep[i] implies #[trigger] p.contains(i as usize) by {
                assert(i != n - 1);
            }
        }
    }
}

/// A video in a mirror's search reply.
pub struct MirrorVideo {
    pub is_live: bool,
    pub paid: bool,
    pub premiere: bool,
}

pub open spec fn mirror_keeps(v: MirrorVideo) -> bool {
    !(v.is_live || v.paid || v.premiere)
}

pub open spec fn playable(v: MirrorVideo) -> bool {
    !v.is_live && !v.paid && !v.premiere
}

/// The hits kept from a mirror's reply are exactly its playable videos among
/// the first `limit`, in order: none is live, paid or a premiere, and every
/// playable one within the limit is kept.
pub proof fn law_mirror_keeps_only_playable(videos: Seq<MirrorVideo>, limit: int)
    requires
        videos.len() <= usize::MAX,
        0 <= limit,
    ensures
        ({
            let r = kept_within_spec(videos.map_values(|v: MirrorVideo| mirror_keeps(v)), limit);
            &&& forall|a: int|
                0 <= a < r.len() ==> (#[trigger] r[a] as int) < videos.len() && (r[a] as int) < limit
                    && playable(videos[r[a] as int])
            &&& forall|a: int, b: int| 0 <= a < b < r.len() ==> #[trigger] r[a] < #[trigger] r[b]
            &&& forall|i: int|
                0 <= i < videos.len() && i < limit && playable(#[trigger] videos[i]) ==> r.contains(
                    i as usize,
                )
        }),
{
    let keep = videos.map_values(|v: MirrorVideo| mirror_keeps(v));
    let n = if limit < keep.len() {
        limit
    } else {
        keep.len() as int
    };
    lemma_kept(keep, n);
    let r = kept_within_spec(keep, limit);
    assert forall|i: int|
        0 <= i < videos.len() && i < limit && playable(#[trigger] videos[i]) implies r.contains(
        i as usize,
    ) by {
        assert(keep[i]);
    }
}

/// The hits kept from a mirror's search reply: of its first `limit`
/// videos, those that are neither live, paid nor premieres.
pub fn mirror_selection(videos: &Vec<MirrorVideo>, limit: usize) -> (r: Vec<usize>)
    ensures
        r@ == kept_within_spec(videos@.map_values(|v: MirrorVideo| mirror_keeps(v)), limit as int),
{
    let mut keep: Vec<bool> = Vec::new();
    let mut i: usize = 0;
    while i < videos.len()
        invariant
            i <= videos@.len(),
            keep@ =~= videos@.map_values(|v: MirrorVideo| mirror_keeps(v)).take(i as int),
        decreases videos@.len() - i,
    {
        let v = &videos[i];
        keep.push(!(v.is_live || v.paid || v.premiere));
        i = i + 1;
    }
    assert(keep@ =~= videos@.map_values(|v: MirrorVideo| mirror_keeps(v)));
    kept_within(&keep, limit)
}

/// The hits kept from a Spotify search reply: the first `limit` tracks not
/// marked unplayable.
pub fn spotify_selection(playable: &Vec<Option<bool>>, limit: usize) -> (r: Vec<usize>)
    ensures
        r@ == first_kept_spec(
            playable@.map_values(|p: Option<bool>| p != Some(false)),
            limit as int,
        ),
{
    let mut keep: Vec<bool> = Vec::new();
    let mut i: usize = 0;
    while i < playable.len()
        invariant
            i <= playable@.len(),
            keep@ =~= playable@.map_values(|p: Option<bool>| p != Some(false)).take(i as int),
        decreases playable@.len() - i,
    {
        let k = match playable[i] {
            Some(b) => b,
            None => true,
        };
        keep.push(k);
        i = i + 1;
    }
    assert(keep@ =~= playable@.map_values(|p: Option<bool>| p != Some(false)));
    first_kept(&keep, limit)
}

/// A track in a SoundCloud search reply.
pub struct SoundCloudHit {
    pub id: u64,
    pub streamable: bool,
}

pub open spec fn soundcloud_keeps(t: SoundCloudHit) -> bool {
    t.streamable || t.id > 0
}

/// The hits kept from a SoundCloud search reply: the first `limit` tracks
/// that are streamable or carry an id.
pub fn soundcloud_selection(tracks: &Vec<SoundCloudHit>, limit: usize) -> (r: Vec<usize>)
    ensures
        r@ == first_kept_spec(tracks@.map_values(|t: SoundCloudHit| soundcloud_keeps(t)), limit as int),
{
    let mut keep: Vec<bool> = Vec::new();
    let mut i: usize = 0;
    while i < tracks.len()
        invariant
            i <= tracks@.len(),
            keep@ =~= tracks@.map_values(|t: SoundCloudHit| soundcloud_keeps(t)).take(i as int),
        decreases tracks@.len() - i,
    {
        keep.push(tracks[i].streamable || tracks[i].id > 0);
        i = i + 1;
    }
    assert(keep@ =~= tracks@.map_values(|t: SoundCloudHit| soundcloud_keeps(t)));
    first_kept(&keep, limit)
}

/// An item of a YouTube Data API search reply.
pub struct DataApiHit {
    pub video_id: Option<String>,
    pub live_broadcast_content: Option<String>,
}

pub open spec fn data_api_keeps(h: DataApiHit) -> bool {
    &&& h.video_id is Some
    &&& match h.live_broadcast_content {
        Some(c) => c@ != "live"@,
        None => true,
    }
}

/// The hits kept from a YouTube Data API reply: items with a video id that
/// are not live, stopping once `limit` are kept (and after the first kept
/// item when `limit` is 0).
pub fn data_api_selection(items: &Vec<DataApiHit>, limit: usize) -> (r: Vec<usize>)
    ensures
        r@ == first_kept_spec(
            items@.map_values(|h: DataApiHit| data_api_keeps(h)),
            if limit == 0 {
                1
            } else {
                limit as int
            },
        ),
{
    let mut keep: Vec<bool> = Vec::new();
    let mut i: usize = 0;
    while i < items.len()
        invariant
            i <= items@.len(),
            keep@ =~= items@.map_values(|h: DataApiHit| data_api_keeps(h)).take(i as int),
        decreases items@.len() - i,
    {
        let h = &items[i];
        let live = match &h.live_broadcast_content {
            Some(c) => str_eq(c.as_str(), "live"),
            None => false,
        };
        keep.push(h.video_id.is_some() && !live);
        i = i + 1;
    }
    assert(keep@ =~= items@.map_values(|h: DataApiHit| data_api_keeps(h)));
    let cap = if limit == 0 {
        1
    } else {
        limit
    };
    first_kept(&keep, cap)
}

/// How many more hits to ask the second mirror for: what is missing to
/// reach `limit`, or `None` when the first mirror filled it.
pub fn second_mirror_limit(limit: usize, have: usize) -> (r: Option<usize>)
    ensures
        have < limit ==> r == Some((limit - have) as usize),
        have >= limit ==> r is None,
{
    if have < limit {
        Some(limit - have)
    } else {
        None
    }
}

// ---------------------------------------------------------------------------
// YouTube artwork and streams
// ---------------------------------------------------------------------------

/// The thumbnail shown for a Data API video: high, else medium, else default.
pub fn pick_thumbnail(high: &Option<String>, medium: &Option<String>, default: &Option<String>) -> (r: Option<String>)
    ensures
        match r {
            Some(u) => match (high, medium, default) {
                (Some(h), _, _) => u@ == h@,
                (None, Some(m), _) => u@ == m@,
                (None, None, Some(d)) => u@ == d@,
                (None, None, None) => false,
            },
            None => high is None && medium is None && default is None,
        },
{
    match high {
        Some(h) => Some(h.clone()),
        None => match medium {
            Some(m) => Some(m.clone()),
            None => match default {
                Some(d) => Some(d.clone()),
                None => None,
            },
        },
    }
}

pub open spec fn area(s: (u32, u32)) -> u64 {
    (s.0 * s.1) as u64
}

/// The largest of a mirror's thumbnails (width times height), the last one
/// among equals.
pub fn largest_thumbnail(sizes: &Vec<(u32, u32)>) -> (r: Option<usize>)
    requires
        forall|i: int| 0 <= i < sizes@.len() ==> #[trigger] sizes@[i].0 * sizes@[i].1 <= u32::MAX,
    ensures
        match r {
            None => sizes@.len() == 0,
            Some(i) => last_max_index(sizes@.map_values(|s: (u32, u32)| area(s))) == Some(i as int),
        },
{
    let mut keys: Vec<u64> = Vec::new();
    let mut i: usize = 0;
    while i < sizes.len()
        invariant
            i <= sizes@.len(),
            forall|i: int| 0 <= i < sizes@.len() ==> #[trigger] sizes@[i].0 * sizes@[i].1 <= u32::MAX,
            keys@ =~= sizes@.map_values(|s: (u32, u32)| area(s)).take(i as int),
        decreases sizes@.len() - i,
    {
        let (w, h) = sizes[i];
        assert(sizes@[i as int].0 * sizes@[i as int].1 <= u32::MAX);
        let a: u32 = w * h;
        keys.push(a as u64);
        i = i + 1;
    }
    assert(keys@ =~= sizes@.map_values(|s: (u32, u32)| area(s)));
    proof {
        crate::music::law_last_max_is_max(keys@);
    }
    last_max(&keys)
}

/// The audio stream with the highest bitrate, the last one among equals.
pub fn best_bitrate(bitrates: &Vec<u32>) -> (r: Option<usize>)
    ensures
        match r {
            None => bitrates@.len() == 0,
            Some(i) => last_max_index(bitrates@.map_values(|b: u32| b as u64)) == Some(i as int),
        },
{
    let mut keys: Vec<u64> = Vec::new();
    let mut i: usize = 0;
    while i < bitrates.len()
        invariant
            i <= bitrates@.len(),
            keys@ =~= bitrates@.map_values(|b: u32| b as u64).take(i as int),
        decreases bitrates@.len() - i,
    {
        keys.push(bitrates[i] as u64);
        i = i + 1;
    }
    assert(keys@ =~= bitrates@.map_values(|b: u32| b as u64));
    proof {
        crate::music::law_last_max_is_max(keys@);
    }
    last_max(&keys)
}

// ---------------------------------------------------------------------------
// Routing between sources
// ---------------------------------------------------------------------------

/// The sources a streamer's configured names enable, in order; unknown
/// names are skipped.
pub open spec fn search_sources_spec(names: Seq<Seq<char>>) -> Seq<MusicSource>
    decreases names.len(),
{
    if names.len() == 0 {
        Seq::empty()
    } else {
        let p = search_sources_spec(names.drop_last());
        match searchable_source(names.last()) {
            Some(s) => p.push(s),
            None => p,
        }
    }
}

/// The sources to search, from a streamer's configured source names.
pub fn search_sources(names: &Vec<String>) -> (r: Vec<MusicSource>)
    ensures
        r@ == search_sources_spec(names@.map_values(|n: String| n@)),
{
    let ghost views = names@.map_values(|n: String| n@);
    let mut out: Vec<MusicSource> = Vec::new();
    let mut i: usize = 0;
    while i < names.len()
        invariant
            i <= names@.len(),
            views == names@.map_values(|n: String| n@),
            out@ == search_sources_spec(views.take(i as int)),
        decreases names@.len() - i,
    {
        proof {
            assert(views.take(i + 1).drop_last() =~= views.take(i as int));
        }
        match parse_source(names[i].as_str()) {
            Some(s) => out.push(s),
            None => {},
        }
        i = i + 1;
    }
    proof {
        assert(views.take(names@.len() as int) =~= views);
    }
    out
}

/// Where a song's playable URL comes from.
#[derive(Debug, Clone, Copy, PartialEq, Eq, Structural)]
pub enum StreamRoute {
    /// The song's YouTube video.
    YouTube,
    /// The song's SoundCloud track.
    SoundCloud,
    /// The first YouTube hit for `artist title`: Spotify has no streams.
    YouTubeSearch,
    /// Local files are not played.
    Unsupported,
}

/// How the stream of a song from `source` is resolved.
pub fn stream_route(source: MusicSource) -> (r: StreamRoute)
    ensures
        source == MusicSource::YouTube ==> r == StreamRoute::YouTube,
        source == MusicSource::SoundCloud ==> r == StreamRoute::SoundCloud,
        source == MusicSource::Spotify ==> r == StreamRoute::YouTubeSearch,
        source == MusicSource::Local ==> r == StreamRoute::Unsupported,
{
    match source {
        MusicSource::YouTube => StreamRoute::YouTube,
        MusicSource::SoundCloud => StreamRoute::SoundCloud,
        MusicSource::Spotify => StreamRoute::YouTubeSearch,
        MusicSource::Local => StreamRoute::Unsupported,
    }
}

/// Where a YouTube video's audio stream is looked up.
#[derive(Debug, Clone, Copy, PartialEq, Eq, Structural)]
pub enum StreamSource {
    /// The Invidious mirrors, tried first.
    Invidious,
    /// The Piped mirrors.
    Piped,
    /// The local `yt-dlp` program, when enabled.
    YtDlp,
}

/// Where to look next after `failed` gave no stream: Invidious, then Piped,
/// then `yt-dlp` only when the fallback is enabled; after that, nowhere.
pub fn next_stream_source(failed: StreamSource, fallback_to_ytdlp: bool) -> (r: Option<StreamSource>)
    ensures
        r == match failed {
            StreamSource::Invidious => Some(StreamSource::Piped),
            StreamSource::Piped => if fallback_to_ytdlp {
                Some(StreamSource::YtDlp)
            } else {
                None
            },
            StreamSource::YtDlp => None::<StreamSource>,
        },
{
    match failed {
        StreamSource::Invidious => Some(StreamSource::Piped),
        StreamSource::Piped => if fallback_to_ytdlp {
            Some(StreamSource::YtDlp)
        } else {
            None
        },
        StreamSource::YtDlp => None,
    }
}

// ---------------------------------------------------------------------------
// SoundCloud client id
// ---------------------------------------------------------------------------

/// The configured client id, unless it is blank.
pub fn configured_client_id(configured: &str) -> (r: Option<String>)
    ensures
        trim_spec(configured@).len() == 0 ==> r is None,
        trim_spec(configured@).len() > 0 ==> (r matches Some(id) && id@ == configured@),
{
    let cs = chars_of(configured);
    let t = trim(cs.as_slice());
    if t.len() == 0 {
        None
    } else {
        Some(String::from_str(configured))
    }
}

/// An API URL with the client id appended as a query parameter (`?` or
/// `&`, depending on whether the URL has a query already).
pub fn with_client_id(url: &str, client_id: &str) -> (r: String)
    ensures
        contains_spec(url@, seq!['?']) ==> r@ == url@ + "&client_id="@ + client_id@,
        !contains_spec(url@, seq!['?']) ==> r@ == url@ + "?client_id="@ + client_id@,
{
    let cs = chars_of(url);
    let mut q: Vec<char> = Vec::new();
    q.push('?');
    assert(q@ =~= seq!['?']);
    let s = String::from_str(url);
    let s = if contains(cs.as_slice(), q.as_slice()) {
        s.concat("&client_id=")
    } else {
        s.concat("?client_id=")
    };
    s.concat(client_id)
}

/// Whether a rejected call (HTTP 401 or 403) drops the discovered client id
/// and tries once more: only on the first attempt, and only when the id
/// was discovered rather than configured.
pub fn should_rediscover(status: u16, attempt: u32, configured: bool) -> (r: bool)
    ensures
        r == ((status == 401 || status == 403) && attempt == 0 && !configured),
{
    (status == 401 || status == 403) && attempt == 0 && !configured
}

/// What `regex::Regex::new(pattern)` and then `Regex::captures_iter(text)`
/// yield: for each match in order, the text of capture group 1, or `None`
/// where that group took no part; `None` when the pattern does not compile.
pub uninterp spec fn spec_regex_groups(pattern: Seq<char>, text: Seq<char>) -> Option<
    Seq<Option<Seq<char>>>,
>;

pub open spec fn group_view(g: Option<String>) -> Option<Seq<char>> {
    match g {
        Some(t) => Some(t@),
        None => None,
    }
}

/// Runs `regex::Regex::new` and `Regex::captures_iter`, reading group 1 of
/// each match (`Captures::get`). Claimed: the result is `spec_regex_groups`
/// of the pattern and the text.
#[verifier::external_body]
fn regex_groups(pattern: &str, text: &str) -> (r: Option<Vec<Option<String>>>)
    ensures
        match r {
            Some(v) => spec_regex_groups(pattern@, text@) == Some(
                v@.map_values(|g: Option<String>| group_view(g)),
            ),
            None => spec_regex_groups(pattern@, text@) is None,
        },
{
    let re = match regex::Regex::new(pattern) {
        Ok(re) => re,
        Err(_) => return None,
    };
    let mut out: Vec<Option<String>> = Vec::new();
    for caps in re.captures_iter(text) {
        out.push(caps.get(1).map(|m| m.as_str().to_string()));
    }
    Some(out)
}

/// The groups that took part, in order.
pub open spec fn present_groups(s: Seq<Option<Seq<char>>>) -> Seq<Seq<char>>
    decreases s.len(),
{
    if s.len() == 0 {
        Seq::empty()
    } else {
        let p = present_groups(s.drop_last());
        match s.last() {
            Some(g) => p.push(g),
            None => p,
        }
    }
}

fn keep_present(groups: &Vec<Option<String>>) -> (r: Vec<String>)
    ensures
        r@.map_values(|g: String| g@) == present_groups(
            groups@.map_values(|g: Option<String>| group_view(g)),
        ),
{
    let ghost gv = groups@.map_values(|g: Option<String>| group_view(g));
    let mut out: Vec<String> = Vec::new();
    let mut i: usize = 0;
    while i < groups.len()
        invariant
            i <= groups@.len(),
            gv == groups@.map_values(|g: Option<String>| group_view(g)),
            out@.map_values(|g: String| g@) == present_groups(gv.take(i as int)),
        decreases groups@.len() - i,
    {
        proof {
            assert(gv.take(i + 1).drop_last() =~= gv.take(i as int));
        }
        match &groups[i] {
            Some(g) => {
                let ghost before = out@.map_values(|g: String| g@);
                out.push(g.clone());
                proof {
                    assert(out@.map_values(|g: String| g@) =~= before.push(g@));
                }
            },
            None => {},
        }
        i = i + 1;
    }
    proof {
        assert(gv.take(groups@.len() as int) =~= gv);
    }
    out
}

/// `s` with each run of equal neighbours cut down to one, as `Vec::dedup`
/// does.
pub open spec fn dedup_adjacent(s: Seq<Seq<char>>) -> Seq<Seq<char>>
    decreases s.len(),
{
    if s.len() == 0 {
        Seq::empty()
    } else {
        let p = dedup_adjacent(s.drop_last());
        if s.len() >= 2 && s[s.len() - 2] == s.last() {
            p
        } else {
            p.push(s.last())
        }
    }
}

/// The script bundles worth fetching: the bundle URLs found in the page,
/// repeats next to each other dropped, the last five first.
pub open spec fn script_candidates_spec(found: Seq<Seq<char>>) -> Seq<Seq<char>> {
    let r = dedup_adjacent(found).reverse();
    if r.len() <= 5 {
        r
    } else {
        r.take(5)
    }
}

/// The pattern of a script bundle URL in the SoundCloud home page.
pub open spec fn script_pattern() -> Seq<char> {
    "src=\"(https://a-v2\\.sndcdn\\.com/assets/[^\"]+\\.js)\""@
}

/// The pattern of a client id assignment in a script bundle.
pub open spec fn client_id_pattern() -> Seq<char> {
    "client_id\\s*[:=]\\s*\"([a-zA-Z0-9]{28,40})\""@
}

/// The script bundles of the SoundCloud home page to look for a client id
/// in, in the order to try them; `None` when the bundle pattern does not
/// compile.
pub fn script_bundle_urls(html: &str) -> (r: Option<Vec<String>>)
    ensures
        match spec_regex_groups(script_pattern(), html@) {
            Some(found) => r matches Some(v) && v@.map_values(|g: String| g@) == script_candidates_spec(
                present_groups(found),
            ),
            None => r is None,
        },
{
    let found = match regex_groups("src=\"(https://a-v2\\.sndcdn\\.com/assets/[^\"]+\\.js)\"", html) {
        Some(v) => keep_present(&v),
        None => return None,
    };
    let ghost fv = found@.map_values(|g: String| g@);
    let mut d: Vec<String> = Vec::new();
    let mut i: usize = 0;
    while i < found.len()
        invariant
            i <= found@.len(),
            fv == found@.map_values(|g: String| g@),
            d@.map_values(|g: String| g@) == dedup_adjacent(fv.take(i as int)),
        decreases found@.len() - i,
    {
        proof {
            assert(fv.take(i + 1).drop_last() =~= fv.take(i as int));
        }
        let repeat = i > 0 && str_eq(found[i].as_str(), found[i - 1].as_str());
        if !repeat {
            let g = found[i].clone();
            let ghost before = d@.map_values(|g: String| g@);
            d.push(g);
            proof {
                assert(d@.map_values(|g: String| g@) =~= before.push(fv[i as int]));
            }
        }
        i = i + 1;
    }
    proof {
        assert(fv.take(found@.len() as int) =~= fv);
    }
    let ghost dv = d@.map_values(|g: String| g@);
    let n = d.len();
    let take = if n < 5 {
        n
    } else {
        5
    };
    let mut out: Vec<String> = Vec::new();
    let mut k: usize = 0;
    while k < take
        invariant
            k <= take <= n,
            n == d@.len(),
            dv == d@.map_values(|g: String| g@),
            out@.map_values(|g: String| g@) =~= dv.reverse().take(k as int),
        decreases take - k,
    {
        let g = d[n - 1 - k].clone();
        let ghost before = out@.map_values(|g: String| g@);
        out.push(g);
        proof {
            assert(out@.map_values(|g: String| g@) =~= before.push(dv[n - 1 - k]));
            assert(dv.reverse().take(k + 1) =~= dv.reverse().take(k as int).push(dv[n - 1 - k]));
        }
        k = k + 1;
    }
    proof {
        if n <= 5 {
            assert(dv.reverse().take(n as int) =~= dv.reverse());
        }
    }
    Some(out)
}

/// The client id a script bundle assigns, from the first match of the
/// client id pattern; `None` when there is none or the pattern does not
/// compile.
pub fn client_id_in(bundle: &str) -> (r: Option<String>)
    ensures
        match spec_regex_groups(client_id_pattern(), bundle@) {
            Some(found) => if found.len() > 0 && found[0] is Some {
                r matches Some(id) && Some(id@) == found[0]
            } else {
                r is None
            },
            None => r is None,
        },
{
    match regex_groups("client_id\\s*[:=]\\s*\"([a-zA-Z0-9]{28,40})\"", bundle) {
        Some(v) => if v.len() > 0 {
            match &v[0] {
                Some(id) => Some(id.clone()),
                None => None,
            }
        } else {
            None
        },
        None => None,
    }
}

} // verus!

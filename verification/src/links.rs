use vstd::prelude::*;

use crate::text::{
    chars_equal, chars_of, contains, contains_spec, is_prefix, prefix_before, prefix_before_spec,
    split_on, split_spec, starts_with, str_eq, string_of, suffix_from,
};

verus! {

// ---------------------------------------------------------------------------
// URLs
// ---------------------------------------------------------------------------

/// The parts of a parsed URL that link recognition reads.
pub struct ParsedUrl {
    /// The host, as `Url::host_str` gives it.
    pub host: Option<String>,
    /// The percent-encoded path, as `Url::path` gives it.
    pub path: String,
    /// The decoded query pairs, as `Url::query_pairs` yields them.
    pub query_pairs: Vec<(String, String)>,
}

pub open spec fn parsed_url_view(u: ParsedUrl) -> (
    Option<Seq<char>>,
    Seq<char>,
    Seq<(Seq<char>, Seq<char>)>,
) {
    (
        match u.host {
            Some(h) => Some(h@),
            None => None,
        },
        u.path@,
        u.query_pairs@.map_values(|p: (String, String)| (p.0@, p.1@)),
    )
}

/// What `url::Url::parse` makes of a string, read back as host, path and
/// query pairs; `None` when it is not an absolute URL.
pub uninterp spec fn spec_url_parse(input: Seq<char>) -> Option<
    (Option<Seq<char>>, Seq<char>, Seq<(Seq<char>, Seq<char>)>),
>;

/// Parses a URL through `url::Url::parse` and reads its host
/// (`Url::host_str`), path (`Url::path`) and decoded query pairs
/// (`Url::query_pairs`). Claimed: the result is `spec_url_parse` of the
/// input.
#[verifier::external_body]
pub(crate) fn parse_url(input: &str) -> (r: Option<ParsedUrl>)
    ensures
        match r {
            None => spec_url_parse(input@) is None,
            Some(u) => spec_url_parse(input@) == Some(parsed_url_view(u)),
        },
{
    let u = match url::Url::parse(input) {
        Ok(u) => u,
        Err(_) => return None,
    };
    let host = match u.host_str() {
        Some(h) => Some(h.to_string()),
        None => None,
    };
    let mut query_pairs = Vec::new();
    for (k, v) in u.query_pairs() {
        query_pairs.push((k.into_owned(), v.into_owned()));
    }
    Some(ParsedUrl { host, path: u.path().to_string(), query_pairs })
}

/// The `/`-separated segments of a path, as `Url::path_segments` gives
/// them: `None` unless the path starts with `/`.
pub open spec fn path_segments_spec(path: Seq<char>) -> Option<Seq<Seq<char>>> {
    if path.len() > 0 && path[0] == '/' {
        Some(split_spec(path.skip(1), '/'))
    } else {
        None
    }
}

/// The non-empty `/`-separated pieces of a path.
pub open spec fn nonempty_pieces(path: Seq<char>) -> Seq<Seq<char>> {
    split_spec(path, '/').filter(|p: Seq<char>| p.len() > 0)
}

fn nonempty_path_pieces(path: &[char]) -> (r: Vec<Vec<char>>)
    ensures
        r@.len() == nonempty_pieces(path@).len(),
        forall|i: int| 0 <= i < r@.len() ==> #[trigger] r@[i]@ == nonempty_pieces(path@)[i],
{
    let pieces = split_on(path, '/');
    let ghost sp = split_spec(path@, '/');
    let mut out: Vec<Vec<char>> = Vec::new();
    let mut i: usize = 0;
    while i < pieces.len()
        invariant
            i <= pieces@.len(),
            pieces@.len() == sp.len(),
            sp == split_spec(path@, '/'),
            forall|k: int| 0 <= k < pieces@.len() ==> #[trigger] pieces@[k]@ == sp[k],
            out@.len() == sp.take(i as int).filter(|p: Seq<char>| p.len() > 0).len(),
            forall|k: int|
                0 <= k < out@.len() ==> #[trigger] out@[k]@ == sp.take(i as int).filter(
                    |p: Seq<char>| p.len() > 0,
                )[k],
        decreases pieces@.len() - i,
    {
        proof {
            reveal_with_fuel(Seq::<_>::filter, 1);
            assert(sp.take(i + 1).drop_last() =~= sp.take(i as int));
        }
        if pieces[i].len() > 0 {
            out.push(copy_chars(pieces[i].as_slice()));
        }
        i = i + 1;
    }
    proof {
        assert(sp.take(pieces@.len() as int) =~= sp);
    }
    out
}

fn copy_chars(s: &[char]) -> (r: Vec<char>)
    ensures
        r@ == s@,
{
    suffix_from(s, 0)
}

/// The first path segment, when the path has segments.
fn first_path_segment(path: &[char]) -> (r: Option<Vec<char>>)
    ensures
        match (r, path_segments_spec(path@)) {
            (None, None) => true,
            (Some(s), Some(segs)) => s@ == segs[0],
            _ => false,
        },
{
    if path.len() == 0 || path[0] != '/' {
        return None;
    }
    let rest = suffix_from(path, 1);
    let segs = split_on(rest.as_slice(), '/');
    proof {
        assert(segs@.len() >= 1) by {
            crate::text::lemma_split_nonempty(rest@, '/');
        }
    }
    Some(copy_chars(segs[0].as_slice()))
}

// ---------------------------------------------------------------------------
// YouTube
// ---------------------------------------------------------------------------

/// The value of the first query pair named `v`.
pub open spec fn first_v_param(pairs: Seq<(Seq<char>, Seq<char>)>) -> Option<Seq<char>>
    decreases pairs.len(),
{
    if pairs.len() == 0 {
        None
    } else if pairs[0].0 == "v"@ {
        Some(pairs[0].1)
    } else {
        first_v_param(pairs.drop_first())
    }
}

/// The video id a YouTube link names: the first path segment of a
/// `youtu.be` link, else the `v` query parameter, else what follows
/// `/shorts/` or `/embed/` up to the next `/`.
pub open spec fn video_id_spec(input: Seq<char>) -> Option<Seq<char>> {
    match spec_url_parse(input) {
        None => None,
        Some((host, path, pairs)) => match host {
            None => None,
            Some(h) => if contains_spec(h, "youtu.be"@) {
                match path_segments_spec(path) {
                    Some(segs) => Some(segs[0]),
                    None => None,
                }
            } else if contains_spec(h, "youtube.com"@) {
                match first_v_param(pairs) {
                    Some(v) => Some(v),
                    None => if is_prefix("/shorts/"@, path) {
                        Some(prefix_before_spec(path.skip(8), '/'))
                    } else if is_prefix("/embed/"@, path) {
                        Some(prefix_before_spec(path.skip(7), '/'))
                    } else {
                        None
                    },
                }
            } else {
                None
            },
        },
    }
}

proof fn lemma_first_v_param(pairs: Seq<(Seq<char>, Seq<char>)>, j: int)
    requires
        0 <= j < pairs.len(),
        pairs[j].0 == "v"@,
        forall|m: int| 0 <= m < j ==> pairs[m].0 != "v"@,
    ensures
        first_v_param(pairs) == Some(pairs[j].1),
    decreases j,
{
    if j > 0 {
        let rest = pairs.drop_first();
        assert forall|m: int| 0 <= m < j - 1 implies rest[m].0 != "v"@ by {
            assert(rest[m] == pairs[m + 1]);
        }
        lemma_first_v_param(rest, j - 1);
    }
}

/// Any host containing `youtube.com` (such as `music.youtube.com`,
/// `m.youtube.com` or `www.youtube.com`), unless it is a `youtu.be` host,
/// takes the video id from the first query pair named `v`.
pub proof fn law_youtube_hosts_by_containment(
    input: Seq<char>,
    h: Seq<char>,
    path: Seq<char>,
    pairs: Seq<(Seq<char>, Seq<char>)>,
    at: int,
    j: int,
)
    requires
        spec_url_parse(input) == Some((Some(h), path, pairs)),
        0 <= at && at + 11 <= h.len() && h.subrange(at, at + 11) == "youtube.com"@,
        !contains_spec(h, "youtu.be"@),
        0 <= j < pairs.len(),
        pairs[j].0 == "v"@,
        forall|m: int| 0 <= m < j ==> pairs[m].0 != "v"@,
    ensures
        video_id_spec(input) == Some(pairs[j].1),
{
    reveal_strlit("youtube.com");
    assert(crate::text::occurs_at("youtube.com"@, h, at));
    lemma_first_v_param(pairs, j);
}

proof fn lemma_no_v_param(pairs: Seq<(Seq<char>, Seq<char>)>)
    requires
        forall|m: int| 0 <= m < pairs.len() ==> #[trigger] pairs[m].0 != "v"@,
    ensures
        first_v_param(pairs) is None,
    decreases pairs.len(),
{
    if pairs.len() > 0 {
        let rest = pairs.drop_first();
        assert forall|m: int| 0 <= m < rest.len() implies #[trigger] rest[m].0 != "v"@ by {
            assert(rest[m] == pairs[m + 1]);
        }
        lemma_no_v_param(rest);
    }
}

proof fn lemma_piece(id: Seq<char>, tail: Seq<char>)
    requires
        forall|k: int| 0 <= k < id.len() ==> #[trigger] id[k] != '/',
        tail.len() == 0 || tail[0] == '/',
    ensures
        prefix_before_spec(id + tail, '/') == id,
{
    let s = id + tail;
    assert forall|k: int| 0 <= k < id.len() implies #[trigger] s[k] != '/' by {
        assert(s[k] == id[k]);
    }
    crate::text::lemma_prefix_before(s, '/', id.len() as int);
    assert(s.take(id.len() as int) =~= id);
}

/// A `youtu.be` link names the video by its first path segment: on a host
/// containing `youtu.be`, a path `/<id>` or `/<id>/...` gives `<id>`,
/// whatever the query holds.
pub proof fn law_short_links_take_the_first_segment(
    input: Seq<char>,
    h: Seq<char>,
    pairs: Seq<(Seq<char>, Seq<char>)>,
    at: int,
    id: Seq<char>,
    tail: Seq<char>,
)
    requires
        spec_url_parse(input) == Some((Some(h), "/"@ + id + tail, pairs)),
        0 <= at && at + 8 <= h.len() && h.subrange(at, at + 8) == "youtu.be"@,
        forall|k: int| 0 <= k < id.len() ==> #[trigger] id[k] != '/',
        tail.len() == 0 || tail[0] == '/',
    ensures
        video_id_spec(input) == Some(id),
{
    reveal_strlit("youtu.be");
    reveal_strlit("/");
    assert(crate::text::occurs_at("youtu.be"@, h, at));
    let path = "/"@ + id + tail;
    assert(path.skip(1) =~= id + tail);
    crate::text::lemma_split_first(id + tail, '/');
    lemma_piece(id, tail);
}

/// On a `youtube.com` host without a `v` query pair, `/shorts/<id>` and
/// `/embed/<id>` links (optionally followed by `/...`) give `<id>`.
pub proof fn law_shorts_and_embeds(
    input: Seq<char>,
    h: Seq<char>,
    pairs: Seq<(Seq<char>, Seq<char>)>,
    at: int,
    embed: bool,
    id: Seq<char>,
    tail: Seq<char>,
)
    requires
        spec_url_parse(input) == Some(
            (Some(h), (if embed { "/embed/"@ } else { "/shorts/"@ }) + id + tail, pairs),
        ),
        0 <= at && at + 11 <= h.len() && h.subrange(at, at + 11) == "youtube.com"@,
        !contains_spec(h, "youtu.be"@),
        forall|m: int| 0 <= m < pairs.len() ==> #[trigger] pairs[m].0 != "v"@,
        forall|k: int| 0 <= k < id.len() ==> #[trigger] id[k] != '/',
        tail.len() == 0 || tail[0] == '/',
    ensures
        video_id_spec(input) == Some(id),
{
    reveal_strlit("youtube.com");
    reveal_strlit("/shorts/");
    reveal_strlit("/embed/");
    assert(crate::text::occurs_at("youtube.com"@, h, at));
    lemma_no_v_param(pairs);
    lemma_piece(id, tail);
    if embed {
        let path = "/embed/"@ + id + tail;
        assert(path.skip(7) =~= id + tail);
        assert(!is_prefix("/shorts/"@, path)) by {
            if path.len() >= 8 {
                assert(path.subrange(0, 8)[1] == path[1]);
                assert(path[1] == "/embed/"@[1]);
            }
        }
        assert(path.subrange(0, 7) =~= "/embed/"@);
    } else {
        let path = "/shorts/"@ + id + tail;
        assert(path.skip(8) =~= id + tail);
        assert(path.subrange(0, 8) =~= "/shorts/"@);
    }
}

/// Reads the video id from a YouTube URL (`youtube.com/watch?v=`,
/// `youtu.be/`, `/shorts/`, `/embed/`).
pub fn extract_video_id(url: &str) -> (r: Option<String>)
    ensures
        match r {
            Some(id) => video_id_spec(url@) == Some(id@),
            None => video_id_spec(url@) is None,
        },
{
    proof {
        reveal_strlit("youtu.be");
        reveal_strlit("youtube.com");
        reveal_strlit("/shorts/");
        reveal_strlit("/embed/");
        reveal_strlit("v");
    }
    let parsed = match parse_url(url) {
        Some(p) => p,
        None => return None,
    };
    let host = match &parsed.host {
        Some(h) => chars_of(h.as_str()),
        None => return None,
    };
    let path = chars_of(parsed.path.as_str());
    if contains(host.as_slice(), chars_of("youtu.be").as_slice()) {
        return match first_path_segment(path.as_slice()) {
            Some(seg) => Some(string_of(seg.as_slice())),
            None => None,
        };
    }
    if !contains(host.as_slice(), chars_of("youtube.com").as_slice()) {
        return None;
    }
    let ghost pairs = parsed.query_pairs@.map_values(|p: (String, String)| (p.0@, p.1@));
    let mut i: usize = 0;
    assert(pairs.skip(0) =~= pairs);
    #[verifier::loop_isolation(false)]
    while i < parsed.query_pairs.len()
        invariant
            i <= parsed.query_pairs@.len(),
            pairs == parsed.query_pairs@.map_values(|p: (String, String)| (p.0@, p.1@)),
            first_v_param(pairs) == first_v_param(pairs.skip(i as int)),
        decreases parsed.query_pairs@.len() - i,
    {
        let pair = &parsed.query_pairs[i];
        proof {
            assert(pairs.skip(i as int)[0] == pairs[i as int]);
            assert(pairs.skip(i as int).drop_first() =~= pairs.skip(i + 1));
        }
        if str_eq(pair.0.as_str(), "v") {
            return Some(pair.1.clone());
        }
        i = i + 1;
    }
    let shorts = chars_of("/shorts/");
    if starts_with(path.as_slice(), shorts.as_slice()) {
        let rest = suffix_from(path.as_slice(), 8);
        return Some(string_of(prefix_before(rest.as_slice(), '/').as_slice()));
    }
    let embed = chars_of("/embed/");
    if starts_with(path.as_slice(), embed.as_slice()) {
        let rest = suffix_from(path.as_slice(), 7);
        return Some(string_of(prefix_before(rest.as_slice(), '/').as_slice()));
    }
    None
}

// ---------------------------------------------------------------------------
// Spotify and SoundCloud
// ---------------------------------------------------------------------------

/// The id in a `/track/<id>` link on a host containing `site`: the second
/// non-empty path piece, up to a `?`.
pub open spec fn track_link_id(input: Seq<char>, site: Seq<char>) -> Option<Seq<char>> {
    match spec_url_parse(input) {
        None => None,
        Some((host, path, _)) => match host {
            None => None,
            Some(h) => if contains_spec(h, site) && nonempty_pieces(path).len() >= 2
                && nonempty_pieces(path)[0] == "track"@ {
                Some(prefix_before_spec(nonempty_pieces(path)[1], '?'))
            } else {
                None
            },
        },
    }
}

/// The track id a Spotify reference names: a `spotify:track:<id>` URI (up
/// to a `?`) or an `open.spotify.com/track/<id>` link.
pub open spec fn spotify_track_id_spec(input: Seq<char>) -> Option<Seq<char>> {
    if is_prefix("spotify:track:"@, input) {
        Some(prefix_before_spec(input.skip(14), '?'))
    } else {
        track_link_id(input, "spotify.com"@)
    }
}

fn track_id_from_link(input: &str, site: &str) -> (r: Option<String>)
    ensures
        match r {
            Some(id) => track_link_id(input@, site@) == Some(id@),
            None => track_link_id(input@, site@) is None,
        },
{
    proof {
        reveal_strlit("track");
    }
    let parsed = match parse_url(input) {
        Some(p) => p,
        None => return None,
    };
    let host = match &parsed.host {
        Some(h) => chars_of(h.as_str()),
        None => return None,
    };
    if !contains(host.as_slice(), chars_of(site).as_slice()) {
        return None;
    }
    let path = chars_of(parsed.path.as_str());
    let parts = nonempty_path_pieces(path.as_slice());
    if parts.len() >= 2 && chars_equal(parts[0].as_slice(), chars_of("track").as_slice()) {
        return Some(string_of(prefix_before(parts[1].as_slice(), '?').as_slice()));
    }
    None
}

/// Reads the track id from a Spotify URI or link.
pub fn extract_spotify_track_id(input: &str) -> (r: Option<String>)
    ensures
        match r {
            Some(id) => spotify_track_id_spec(input@) == Some(id@),
            None => spotify_track_id_spec(input@) is None,
        },
{
    proof {
        reveal_strlit("spotify:track:");
        reveal_strlit("spotify.com");
    }
    let cs = chars_of(input);
    let prefix = chars_of("spotify:track:");
    if starts_with(cs.as_slice(), prefix.as_slice()) {
        let rest = suffix_from(cs.as_slice(), 14);
        return Some(string_of(prefix_before(rest.as_slice(), '?').as_slice()));
    }
    track_id_from_link(input, "spotify.com")
}

/// Reads the numeric track id from a `soundcloud.com/track/<id>` link.
pub fn extract_soundcloud_track_id(url: &str) -> (r: Option<String>)
    ensures
        match r {
            Some(id) => track_link_id(url@, "soundcloud.com"@) == Some(id@),
            None => track_link_id(url@, "soundcloud.com"@) is None,
        },
{
    track_id_from_link(url, "soundcloud.com")
}

/// Whether a link is a SoundCloud permalink that can be resolved: it parses
/// and its host contains `soundcloud.com`.
pub fn is_soundcloud_link(url: &str) -> (r: bool)
    ensures
        r == (spec_url_parse(url@) matches Some((Some(h), _, _)) && contains_spec(
            h,
            "soundcloud.com"@,
        )),
{
    match parse_url(url) {
        Some(p) => match &p.host {
            Some(h) => contains(chars_of(h.as_str()).as_slice(), chars_of("soundcloud.com").as_slice()),
            None => false,
        },
        None => false,
    }
}

} // verus!

//! Request URLs sent to the music sources' APIs.

use vstd::prelude::*;

use crate::auth::{url_encode, url_encode_spec};
use crate::text::string_of;

verus! {

/// The ASCII digit for a value below ten.
pub open spec fn digit_char(d: int) -> char {
    if d == 0 {
        '0'
    } else if d == 1 {
        '1'
    } else if d == 2 {
        '2'
    } else if d == 3 {
        '3'
    } else if d == 4 {
        '4'
    } else if d == 5 {
        '5'
    } else if d == 6 {
        '6'
    } else if d == 7 {
        '7'
    } else if d == 8 {
        '8'
    } else {
        '9'
    }
}

/// A number in decimal, without leading zeros.
pub open spec fn decimal_spec(n: nat) -> Seq<char>
    decreases n,
{
    if n < 10 {
        seq![digit_char(n as int)]
    } else {
        decimal_spec(n / 10) + seq![digit_char((n % 10) as int)]
    }
}

fn digit(d: usize) -> (r: char)
    requires
        d < 10,
    ensures
        r == digit_char(d as int),
{
    if d == 0 {
        '0'
    } else if d == 1 {
        '1'
    } else if d == 2 {
        '2'
    } else if d == 3 {
        '3'
    } else if d == 4 {
        '4'
    } else if d == 5 {
        '5'
    } else if d == 6 {
        '6'
    } else if d == 7 {
        '7'
    } else if d == 8 {
        '8'
    } else {
        '9'
    }
}

fn push_decimal(n: usize, out: &mut Vec<char>)
    ensures
        final(out)@ == old(out)@ + decimal_spec(n as nat),
    decreases n,
{
    if n >= 10 {
        push_decimal(n / 10, out);
    }
    out.push(digit(n % 10));
}

/// `n` written in decimal.
pub fn decimal(n: usize) -> (r: String)
    ensures
        r@ == decimal_spec(n as nat),
{
    let mut out: Vec<char> = Vec::new();
    push_decimal(n, &mut out);
    assert(out@ =~= decimal_spec(n as nat));
    string_of(out.as_slice())
}

/// An Invidious search for videos matching `query`.
pub fn invidious_search_url(base: &str, query: &str) -> (r: String)
    ensures
        r@ == base@ + "/api/v1/search?q="@ + url_encode_spec(query@) + "&type=video"@,
{
    let s = String::from_str(base);
    let s = s.concat("/api/v1/search?q=");
    let s = s.concat(url_encode(query).as_str());
    s.concat("&type=video")
}

/// A Piped search for videos matching `query`.
pub fn piped_search_url(base: &str, query: &str) -> (r: String)
    ensures
        r@ == base@ + "/search?q="@ + url_encode_spec(query@) + "&filter=video"@,
{
    let s = String::from_str(base);
    let s = s.concat("/search?q=");
    let s = s.concat(url_encode(query).as_str());
    s.concat("&filter=video")
}

/// A SoundCloud track search for `query`, at most `limit` results.
pub fn soundcloud_search_url(base: &str, query: &str, limit: usize) -> (r: String)
    ensures
        r@ == base@ + "/search/tracks?q="@ + url_encode_spec(query@) + "&limit="@ + decimal_spec(
            limit as nat,
        ),
{
    let s = String::from_str(base);
    let s = s.concat("/search/tracks?q=");
    let s = s.concat(url_encode(query).as_str());
    let s = s.concat("&limit=");
    s.concat(decimal(limit).as_str())
}

/// A SoundCloud lookup of the resource behind a public `url`.
pub fn soundcloud_resolve_url(base: &str, url: &str) -> (r: String)
    ensures
        r@ == base@ + "/resolve?url="@ + url_encode_spec(url@),
{
    let s = String::from_str(base);
    let s = s.concat("/resolve?url=");
    s.concat(url_encode(url).as_str())
}

/// The Spotify Web API path of a track search for `query`.
pub fn spotify_search_path(query: &str, limit: usize) -> (r: String)
    ensures
        r@ == "/search?type=track&limit="@ + decimal_spec(limit as nat) + "&q="@ + url_encode_spec(
            query@,
        ),
{
    let s = String::from_str("/search?type=track&limit=");
    let s = s.concat(decimal(limit).as_str());
    let s = s.concat("&q=");
    s.concat(url_encode(query).as_str())
}

/// The Spotify Web API path of one track.
pub fn spotify_track_path(track_id: &str) -> (r: String)
    ensures
        r@ == "/tracks/"@ + url_encode_spec(track_id@),
{
    let s = String::from_str("/tracks/");
    s.concat(url_encode(track_id).as_str())
}

} // verus!

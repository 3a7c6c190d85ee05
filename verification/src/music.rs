use vstd::prelude::*;

use vstd::arithmetic::div_mod::{
    lemma_add_mod_noop_right, lemma_mod_add_multiples_vanish, lemma_mod_pos_bound, lemma_small_mod,
};

use crate::text::{chars_of, is_prefix, matches_at, starts_with, str_eq, string_of};

verus! {

// ---------------------------------------------------------------------------
// Mirror rotation
// ---------------------------------------------------------------------------

/// The mirror in use: the cursor taken modulo the number of mirrors; `None`
/// when no mirror is configured.
pub fn instance_index(cursor: usize, count: usize) -> (r: Option<usize>)
    ensures
        count == 0 ==> r is None,
        count > 0 ==> r == Some((cursor % count) as usize),
{
    if count == 0 {
        None
    } else {
        Some(cursor % count)
    }
}

/// The cursor after giving up on the current mirror: the next one, wrapping
/// around; unchanged when no mirror is configured.
pub fn rotate_instance(cursor: usize, count: usize) -> (r: usize)
    requires
        cursor < usize::MAX,
    ensures
        count == 0 ==> r == cursor,
        count > 0 ==> r == (cursor + 1) % (count as int),
{
    if count == 0 {
        cursor
    } else {
        (cursor + 1) % count
    }
}

pub open spec fn rotate_n(cursor: int, count: int, n: nat) -> int
    decreases n,
{
    if n == 0 {
        cursor
    } else {
        (rotate_n(cursor, count, (n - 1) as nat) + 1) % count
    }
}

/// How many rotations lead from mirror `start` to mirror `k`.
pub open spec fn steps_to(start: int, count: int, k: int) -> nat {
    ((k - start + count) % count) as nat
}

/// Rotating through all `count` mirrors once comes back to the mirror one
/// started from, and every mirror is reached within fewer than `count`
/// rotations.
pub proof fn law_rotation_visits_all(start: int, count: int)
    requires
        0 <= start < count,
    ensures
        rotate_n(start, count, count as nat) == start,
        forall|k: int|
            0 <= k < count ==> steps_to(start, count, k) < count && #[trigger] rotate_n(
                start,
                count,
                steps_to(start, count, k),
            ) == k,
{
    lemma_rotate_n(start, count, count as nat);
    lemma_mod_add_multiples_vanish(start, count);
    lemma_small_mod(start as nat, count as nat);
    assert forall|k: int| 0 <= k < count implies steps_to(start, count, k) < count && #[trigger] rotate_n(
        start,
        count,
        steps_to(start, count, k),
    ) == k by {
        let n = steps_to(start, count, k);
        lemma_mod_pos_bound(k - start + count, count);
        lemma_rotate_n(start, count, n);
        lemma_add_mod_noop_right(start, k - start + count, count);
        lemma_mod_add_multiples_vanish(k, count);
        lemma_small_mod(k as nat, count as nat);
    }
}

proof fn lemma_rotate_n(start: int, count: int, n: nat)
    requires
        0 <= start < count,
    ensures
        rotate_n(start, count, n) == (start + n) % count,
    decreases n,
{
    if n > 0 {
        lemma_rotate_n(start, count, (n - 1) as nat);
        lemma_add_mod_noop_right(1, start + n - 1, count);
        assert(rotate_n(start, count, n) == (rotate_n(start, count, (n - 1) as nat) + 1) % count);
        assert(1 + (start + n - 1) == start + n);
    } else {
        lemma_small_mod(start as nat, count as nat);
    }
}

// ---------------------------------------------------------------------------
// Picking among candidates
// ---------------------------------------------------------------------------

/// Index of the last largest key, as `Iterator::max_by_key` picks it.
pub open spec fn last_max_index(keys: Seq<u64>) -> Option<int>
    decreases keys.len(),
{
    if keys.len() == 0 {
        None
    } else {
        match last_max_index(keys.drop_last()) {
            None => Some(keys.len() - 1),
            Some(i) => if keys.last() >= keys[i] {
                Some(keys.len() - 1)
            } else {
                Some(i)
            },
        }
    }
}

/// Where the last largest key sits.
pub fn last_max(keys: &Vec<u64>) -> (r: Option<usize>)
    ensures
        match r {
            None => last_max_index(keys@) is None,
            Some(i) => i < keys@.len() && last_max_index(keys@) == Some(i as int),
        },
{
    let mut best: Option<usize> = None;
    let mut i: usize = 0;
    while i < keys.len()
        invariant
            i <= keys@.len(),
            match best {
                None => last_max_index(keys@.take(i as int)) is None,
                Some(b) => last_max_index(keys@.take(i as int)) == Some(b as int) && b < i,
            },
        decreases keys@.len() - i,
    {
        proof {
            assert(keys@.take(i + 1).drop_last() =~= keys@.take(i as int));
        }
        best = match best {
            None => Some(i),
            Some(b) => if keys[i] >= keys[b] {
                Some(i)
            } else {
                Some(b)
            },
        };
        i = i + 1;
    }
    proof {
        assert(keys@.take(keys@.len() as int) =~= keys@);
    }
    best
}

/// `keys[i]` is a largest key and no later key ties it.
pub open spec fn is_last_max(keys: Seq<u64>, i: int) -> bool {
    &&& 0 <= i < keys.len()
    &&& forall|j: int| 0 <= j < keys.len() ==> keys[j] <= keys[i]
    &&& forall|j: int| i < j < keys.len() ==> keys[j] < keys[i]
}

/// The picked index holds the largest key, and no later key ties it; there
/// is a pick exactly when there are keys.
pub proof fn law_last_max_is_max(keys: Seq<u64>)
    ensures
        match last_max_index(keys) {
            Some(i) => is_last_max(keys, i),
            None => keys.len() == 0,
        },
    decreases keys.len(),
{
    if keys.len() > 0 {
        let prev = keys.drop_last();
        law_last_max_is_max(prev);
        assert forall|j: int| 0 <= j < prev.len() implies prev[j] == keys[j] by {}
    }
}

/// A stream variant offered for a track.
pub struct StreamOption {
    /// `progressive`, `hls`, ...
    pub protocol: Option<String>,
    /// `hq`, `high`, ...
    pub quality: Option<String>,
}

/// Rank of a SoundCloud quality: `hq` 3, `high` 2, anything else 1.
pub open spec fn quality_rank(q: Option<Seq<char>>) -> u64 {
    match q {
        Some(s) => if s == "hq"@ {
            3
        } else if s == "high"@ {
            2
        } else {
            1
        },
        None => 1,
    }
}

/// Rank of an option for a protocol: 0 when it is for another protocol.
pub open spec fn option_key(o: StreamOption, protocol: Seq<char>) -> u64 {
    match o.protocol {
        Some(p) => if p@ == protocol {
            quality_rank(
                match o.quality {
                    Some(q) => Some(q@),
                    None => None,
                },
            )
        } else {
            0
        },
        None => 0,
    }
}

/// The option chosen for a protocol: the last of its best-ranked options.
pub open spec fn pick_for_protocol(options: Seq<StreamOption>, protocol: Seq<char>) -> Option<int> {
    let keys = options.map_values(|o: StreamOption| option_key(o, protocol));
    match last_max_index(keys) {
        Some(i) => if keys[i] > 0 {
            Some(i)
        } else {
            None
        },
        None => None,
    }
}

/// The stream chosen for a track: progressive MP3 first (playable by a
/// plain `<audio>`), HLS otherwise, each time the best quality.
pub open spec fn pick_stream_spec(options: Seq<StreamOption>) -> Option<int> {
    match pick_for_protocol(options, "progressive"@) {
        Some(i) => Some(i),
        None => pick_for_protocol(options, "hls"@),
    }
}

fn stream_option_key(o: &StreamOption, protocol: &str) -> (r: u64)
    ensures
        r == option_key(*o, protocol@),
{
    proof {
        reveal_strlit("hq");
        reveal_strlit("high");
    }
    match &o.protocol {
        Some(p) => if str_eq(p.as_str(), protocol) {
            match &o.quality {
                Some(q) => if str_eq(q.as_str(), "hq") {
                    3
                } else if str_eq(q.as_str(), "high") {
                    2
                } else {
                    1
                },
                None => 1,
            }
        } else {
            0
        },
        None => 0,
    }
}

fn pick_protocol(options: &Vec<StreamOption>, protocol: &str) -> (r: Option<usize>)
    ensures
        match r {
            None => pick_for_protocol(options@, protocol@) is None,
            Some(i) => pick_for_protocol(options@, protocol@) == Some(i as int),
        },
{
    let ghost keys_spec = options@.map_values(|o: StreamOption| option_key(o, protocol@));
    let mut keys: Vec<u64> = Vec::new();
    let mut i: usize = 0;
    while i < options.len()
        invariant
            i <= options@.len(),
            keys_spec == options@.map_values(|o: StreamOption| option_key(o, protocol@)),
            keys@ =~= keys_spec.take(i as int),
        decreases options@.len() - i,
    {
        keys.push(stream_option_key(&options[i], protocol));
        i = i + 1;
    }
    assert(keys@ =~= keys_spec);
    match last_max(&keys) {
        Some(b) => if keys[b] > 0 {
            Some(b)
        } else {
            None
        },
        None => None,
    }
}

pub open spec fn has_protocol(o: StreamOption, protocol: Seq<char>) -> bool {
    o.protocol matches Some(p) && p@ == protocol
}

proof fn lemma_pick_for_protocol(options: Seq<StreamOption>, protocol: Seq<char>)
    ensures
        (exists|k: int| 0 <= k < options.len() && has_protocol(#[trigger] options[k], protocol)) ==> (
        pick_for_protocol(options, protocol) matches Some(i) && 0 <= i < options.len() && has_protocol(
            options[i],
            protocol,
        )),
        !(exists|k: int| 0 <= k < options.len() && has_protocol(#[trigger] options[k], protocol))
            ==> pick_for_protocol(options, protocol) is None,
{
    let keys = options.map_values(|o: StreamOption| option_key(o, protocol));
    law_last_max_is_max(keys);
    if exists|k: int| 0 <= k < options.len() && has_protocol(#[trigger] options[k], protocol) {
        let k = choose|k: int| 0 <= k < options.len() && has_protocol(#[trigger] options[k], protocol);
        assert(keys[k] >= 1);
        let i = last_max_index(keys)->0;
        assert(keys[i] >= keys[k]);
        assert(keys[i] > 0);
    } else {
        match last_max_index(keys) {
            Some(i) => {
                assert(!has_protocol(options[i], protocol));
                assert(keys[i] == 0);
            },
            None => {},
        }
    }
}

pub open spec fn has_quality(o: StreamOption, quality: Seq<char>) -> bool {
    o.quality matches Some(q) && q@ == quality
}

proof fn lemma_pick_best_quality(options: Seq<StreamOption>, protocol: Seq<char>)
    ensures
        (exists|k: int|
            0 <= k < options.len() && has_protocol(#[trigger] options[k], protocol) && has_quality(
                options[k],
                "hq"@,
            )) ==> (pick_for_protocol(options, protocol) matches Some(i) && has_quality(
            options[i],
            "hq"@,
        )),
        (exists|k: int|
            0 <= k < options.len() && has_protocol(#[trigger] options[k], protocol) && has_quality(
                options[k],
                "high"@,
            )) && !(exists|k: int|
            0 <= k < options.len() && has_protocol(#[trigger] options[k], protocol) && has_quality(
                options[k],
                "hq"@,
            )) ==> (pick_for_protocol(options, protocol) matches Some(i) && has_quality(
            options[i],
            "high"@,
        )),
{
    reveal_strlit("hq");
    reveal_strlit("high");
    let keys = options.map_values(|o: StreamOption| option_key(o, protocol));
    law_last_max_is_max(keys);
    lemma_pick_for_protocol(options, protocol);
    assert("high"@ != "hq"@) by {
        assert("high"@.len() != "hq"@.len());
    }
    if exists|k: int|
        0 <= k < options.len() && has_protocol(#[trigger] options[k], protocol) && has_quality(
            options[k],
            "hq"@,
        ) {
        let k = choose|k: int|
            0 <= k < options.len() && has_protocol(#[trigger] options[k], protocol) && has_quality(
                options[k],
                "hq"@,
            );
        assert(keys[k] == 3);
        let i = last_max_index(keys)->0;
        assert(keys[i] >= 3);
    } else if exists|k: int|
        0 <= k < options.len() && has_protocol(#[trigger] options[k], protocol) && has_quality(
            options[k],
            "high"@,
        ) {
        let k = choose|k: int|
            0 <= k < options.len() && has_protocol(#[trigger] options[k], protocol) && has_quality(
                options[k],
                "high"@,
            );
        assert(keys[k] == 2);
        let i = last_max_index(keys)->0;
        assert(keys[i] >= 2);
        if keys[i] == 3 {
            assert(has_protocol(options[i], protocol) && has_quality(options[i], "hq"@));
        }
    }
}

/// The chosen stream is of the best quality its protocol offers: `hq` when
/// some stream of that protocol is `hq`, else `high` when one is `high`.
pub proof fn law_stream_best_quality(options: Seq<StreamOption>)
    ensures
        pick_stream_spec(options) matches Some(i) ==> ((exists|k: int|
            0 <= k < options.len() && has_protocol(#[trigger] options[k], "progressive"@)) ==> (
        has_protocol(options[i], "progressive"@) && ((exists|k: int|
            0 <= k < options.len() && has_protocol(#[trigger] options[k], "progressive"@)
                && has_quality(options[k], "hq"@)) ==> has_quality(options[i], "hq"@)))),
        pick_stream_spec(options) matches Some(i) ==> (!(exists|k: int|
            0 <= k < options.len() && has_protocol(#[trigger] options[k], "progressive"@)) ==> (
        has_protocol(options[i], "hls"@) && ((exists|k: int|
            0 <= k < options.len() && has_protocol(#[trigger] options[k], "hls"@) && has_quality(
                options[k],
                "hq"@,
            )) ==> has_quality(options[i], "hq"@)))),
        (exists|k: int|
            0 <= k < options.len() && has_protocol(#[trigger] options[k], "progressive"@)
                && has_quality(options[k], "high"@)) && !(exists|k: int|
            0 <= k < options.len() && has_protocol(#[trigger] options[k], "progressive"@)
                && has_quality(options[k], "hq"@)) ==> (pick_stream_spec(options) matches Some(i)
            && has_quality(options[i], "high"@)),
{
    lemma_pick_for_protocol(options, "progressive"@);
    lemma_pick_for_protocol(options, "hls"@);
    lemma_pick_best_quality(options, "progressive"@);
    lemma_pick_best_quality(options, "hls"@);
}

/// Every offered stream of the wanted protocol counts, whatever its quality:
/// when a progressive stream is offered a progressive one is chosen; when
/// only HLS streams are, an HLS one is; otherwise none.
pub proof fn law_stream_for_every_quality(options: Seq<StreamOption>)
    ensures
        (exists|k: int| 0 <= k < options.len() && has_protocol(#[trigger] options[k], "progressive"@))
            ==> (pick_stream_spec(options) matches Some(i) && 0 <= i < options.len() && has_protocol(
            options[i],
            "progressive"@,
        )),
        !(exists|k: int| 0 <= k < options.len() && has_protocol(#[trigger] options[k], "progressive"@))
            && (exists|k: int| 0 <= k < options.len() && has_protocol(#[trigger] options[k], "hls"@))
            ==> (pick_stream_spec(options) matches Some(i) && 0 <= i < options.len() && has_protocol(
            options[i],
            "hls"@,
        )),
        !(exists|k: int|
            0 <= k < options.len() && (has_protocol(#[trigger] options[k], "progressive"@)
                || has_protocol(options[k], "hls"@))) ==> pick_stream_spec(options) is None,
{
    lemma_pick_for_protocol(options, "progressive"@);
    lemma_pick_for_protocol(options, "hls"@);
}

/// Chooses which offered stream to play.
pub fn pick_stream(options: &Vec<StreamOption>) -> (r: Option<usize>)
    ensures
        match r {
            None => pick_stream_spec(options@) is None,
            Some(i) => pick_stream_spec(options@) == Some(i as int),
        },
{
    proof {
        reveal_strlit("progressive");
        reveal_strlit("hls");
    }
    match pick_protocol(options, "progressive") {
        Some(i) => Some(i),
        None => pick_protocol(options, "hls"),
    }
}

/// An audio or video format a YouTube mirror offers.
pub struct MirrorFormat {
    pub mime_type: String,
    pub bitrate: Option<u32>,
}

/// Rank of a format: its bitrate plus one (a missing bitrate counts as 0)
/// for an `audio/` format, 0 for any other.
pub open spec fn audio_key(f: MirrorFormat) -> u64 {
    if is_prefix("audio/"@, f.mime_type@) {
        ((match f.bitrate {
            Some(b) => b as int,
            None => 0,
        }) + 1) as u64
    } else {
        0u64
    }
}

/// The format chosen from a mirror's list: among the `audio/` formats, the
/// last one with the highest bitrate.
pub open spec fn best_audio_spec(formats: Seq<MirrorFormat>) -> Option<int> {
    let keys = formats.map_values(|f: MirrorFormat| audio_key(f));
    match last_max_index(keys) {
        Some(i) => if keys[i] > 0 {
            Some(i)
        } else {
            None
        },
        None => None,
    }
}

/// Chooses the audio stream among a mirror's formats.
pub fn best_audio_format(formats: &Vec<MirrorFormat>) -> (r: Option<usize>)
    ensures
        match r {
            None => best_audio_spec(formats@) is None,
            Some(i) => best_audio_spec(formats@) == Some(i as int),
        },
{
    proof {
        reveal_strlit("audio/");
    }
    let audio_prefix = chars_of("audio/");
    let ghost keys_spec = formats@.map_values(|f: MirrorFormat| audio_key(f));
    let mut keys: Vec<u64> = Vec::new();
    let mut i: usize = 0;
    while i < formats.len()
        invariant
            i <= formats@.len(),
            audio_prefix@ == "audio/"@,
            keys_spec == formats@.map_values(|f: MirrorFormat| audio_key(f)),
            keys@ =~= keys_spec.take(i as int),
        decreases formats@.len() - i,
    {
        let f = &formats[i];
        let m = chars_of(f.mime_type.as_str());
        let key: u64 = if starts_with(m.as_slice(), audio_prefix.as_slice()) {
            match f.bitrate {
                Some(b) => b as u64 + 1,
                None => 1,
            }
        } else {
            0
        };
        keys.push(key);
        i = i + 1;
    }
    assert(keys@ =~= keys_spec);
    match last_max(&keys) {
        Some(b) => if keys[b] > 0 {
            Some(b)
        } else {
            None
        },
        None => None,
    }
}

// ---------------------------------------------------------------------------
// Track details
// ---------------------------------------------------------------------------

/// The artist shown for a Spotify track: the first credited artist, or
/// `Unknown Artist`.
pub fn first_artist(artists: &Vec<String>) -> (r: String)
    ensures
        artists@.len() > 0 ==> r@ == artists@[0]@,
        artists@.len() == 0 ==> r@ == "Unknown Artist"@,
{
    if artists.len() > 0 {
        artists[0].clone()
    } else {
        String::from_str("Unknown Artist")
    }
}

/// Whole seconds of a duration given in milliseconds, as the `i32` the
/// catalog stores (truncating like an `as` cast).
pub fn millis_to_seconds(ms: u64) -> (r: i32)
    ensures
        r == (ms / 1000) as i32,
{
    (ms / 1000) as i32
}

/// The query that looks up a Spotify track on YouTube: artist, a space,
/// title.
pub fn youtube_lookup_query(artist: &str, title: &str) -> (r: String)
    ensures
        r@ == artist@ + " "@ + title@,
{
    let s = String::from_str(artist);
    let s = s.concat(" ");
    s.concat(title)
}

/// `s` with every non-overlapping occurrence of `from`, leftmost first,
/// replaced by `to`.
pub open spec fn replace_spec(s: Seq<char>, from: Seq<char>, to: Seq<char>) -> Seq<char>
    decreases s.len(),
{
    if from.len() == 0 || s.len() == 0 {
        s
    } else if is_prefix(from, s) {
        to + replace_spec(s.skip(from.len() as int), from, to)
    } else {
        seq![s[0]] + replace_spec(s.drop_first(), from, to)
    }
}

/// Replaces every occurrence of `from` (not empty) in `s` by `to`, as
/// `str::replace` does.
pub fn replace_all(s: &str, from: &str, to: &str) -> (r: String)
    requires
        from@.len() > 0,
    ensures
        r@ == replace_spec(s@, from@, to@),
{
    let cs = chars_of(s);
    let f = chars_of(from);
    let t = chars_of(to);
    let mut out: Vec<char> = Vec::new();
    let mut i: usize = 0;
    let n = cs.len();
    proof {
        assert(cs@.skip(0) =~= cs@);
        assert(out@ + replace_spec(cs@, f@, t@) =~= replace_spec(cs@, f@, t@));
    }
    while i < n
        invariant
            i <= n,
            n == cs@.len(),
            f@ == from@,
            f@.len() > 0,
            t@ == to@,
            out@ + replace_spec(cs@.skip(i as int), f@, t@) == replace_spec(cs@, f@, t@),
        decreases n - i,
    {
        let ghost rest = cs@.skip(i as int);
        proof {
            if f@.len() <= rest.len() {
                assert(rest.subrange(0, f@.len() as int) =~= cs@.subrange(i as int, i + f@.len()));
            }
        }
        if matches_at(cs.as_slice(), f.as_slice(), i) {
            proof {
                assert(is_prefix(f@, rest));
                assert(rest.skip(f@.len() as int) =~= cs@.skip(i + f@.len()));
            }
            let ghost before = out@;
            let mut k: usize = 0;
            while k < t.len()
                invariant
                    k <= t@.len(),
                    out@ =~= before + t@.take(k as int),
                decreases t@.len() - k,
            {
                out.push(t[k]);
                k = k + 1;
            }
            proof {
                assert(t@.take(t@.len() as int) =~= t@);
                assert(before + replace_spec(rest, f@, t@) =~= out@ + replace_spec(cs@.skip(i + f@.len()), f@, t@));
            }
            i = i + f.len();
        } else {
            proof {
                assert(!is_prefix(f@, rest));
                assert(rest.drop_first() =~= cs@.skip(i + 1));
                assert(out@ + replace_spec(rest, f@, t@) =~= out@.push(cs@[i as int]) + replace_spec(cs@.skip(i + 1), f@, t@));
            }
            out.push(cs[i]);
            i = i + 1;
        }
    }
    proof {
        assert(cs@.skip(n as int) =~= Seq::<char>::empty());
    }
    string_of(out.as_slice())
}

} // verus!

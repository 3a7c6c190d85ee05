use vstd::prelude::*;

use crate::text::{
    chars_equal, chars_of, ends_with, find_from, is_prefix, is_suffix, occurs_at, split_on, split_scan,
    split_spec, starts_with,
};

verus! {

/// `s` (the text after a `*`) is covered by `parts`: it contains the inner
/// parts in order, with anything between them, and ends with the last part.
pub open spec fn glob_tail(parts: Seq<Seq<char>>, s: Seq<char>) -> bool
    decreases parts.len(),
{
    if parts.len() <= 1 {
        parts.len() == 1 && is_suffix(parts[0], s)
    } else {
        exists|i: int|
            #![trigger occurs_at(parts[0], s, i)]
            occurs_at(parts[0], s, i) && glob_tail(parts.drop_first(), s.skip(i + parts[0].len()))
    }
}

/// `value` belongs to the language of `pattern`, where each `*` stands for
/// any (possibly empty) run of characters and everything else is literal.
pub open spec fn glob_spec(pattern: Seq<char>, value: Seq<char>) -> bool {
    let parts = split_spec(pattern, '*');
    if parts.len() == 1 {
        pattern == value
    } else {
        is_prefix(parts[0], value) && glob_tail(parts.drop_first(), value.skip(parts[0].len() as int))
    }
}

proof fn lemma_split_single(s: Seq<char>, sep: char)
    ensures
        split_spec(s, sep).len() == 1 ==> split_spec(s, sep)[0] == s,
        split_spec(s, sep).len() >= 1,
    decreases s.len(),
{
    if s.len() > 0 {
        lemma_split_single(s.drop_last(), sep);
        let (d, c) = split_scan(s.drop_last(), sep);
        if s.last() != sep && d.len() == 0 {
            assert(c == s.drop_last());
            assert(c.push(s.last()) =~= s);
        }
    }
}

proof fn lemma_split_without_sep(s: Seq<char>, sep: char)
    requires
        forall|i: int| 0 <= i < s.len() ==> s[i] != sep,
    ensures
        split_scan(s, sep).0.len() == 0,
        split_scan(s, sep).1 == s,
    decreases s.len(),
{
    if s.len() > 0 {
        lemma_split_without_sep(s.drop_last(), sep);
        assert(s.drop_last().push(s.last()) =~= s);
    }
}

/// A pattern without `*` matches exactly itself.
pub proof fn law_plain_pattern_matches_only_itself(pattern: Seq<char>, value: Seq<char>)
    requires
        forall|i: int| 0 <= i < pattern.len() ==> pattern[i] != '*',
    ensures
        glob_spec(pattern, value) <==> pattern == value,
{
    lemma_split_without_sep(pattern, '*');
}

/// The pattern `*` matches every value.
pub proof fn law_star_matches_everything(value: Seq<char>)
    ensures
        glob_spec(seq!['*'], value),
{
    let p = seq!['*'];
    assert(p.drop_last() =~= Seq::<char>::empty());
    assert(p.last() == '*');
    assert(split_scan(p.drop_last(), '*') == (Seq::<Seq<char>>::empty(), Seq::<char>::empty()));
    assert(split_scan(p, '*') == (seq![Seq::<char>::empty()], Seq::<char>::empty()));
    let parts = split_spec(p, '*');
    assert(parts =~= seq![Seq::<char>::empty(), Seq::<char>::empty()]);
    assert(value.subrange(0, 0) =~= Seq::<char>::empty());
    let rest = value.skip(0);
    assert(rest.subrange(rest.len() as int, rest.len() as int) =~= Seq::<char>::empty());
    assert(parts.drop_first() =~= seq![Seq::<char>::empty()]);
}

/// Coverage is kept when more text comes in front.
proof fn lemma_glob_tail_extend(parts: Seq<Seq<char>>, t: Seq<char>, d: int)
    requires
        0 <= d <= t.len(),
        glob_tail(parts, t.skip(d)),
    ensures
        glob_tail(parts, t),
    decreases parts.len(),
{
    if parts.len() > 1 {
        let s = t.skip(d);
        let i = choose|i: int|
            #![trigger occurs_at(parts[0], s, i)]
            occurs_at(parts[0], s, i) && glob_tail(parts.drop_first(), s.skip(i + parts[0].len()));
        assert(t.subrange(i + d, i + d + parts[0].len()) =~= s.subrange(i, i + parts[0].len()));
        assert(t.skip(i + d + parts[0].len()) =~= s.skip(i + parts[0].len()));
        assert(occurs_at(parts[0], t, i + d));
    } else if parts.len() == 1 {
        let s = t.skip(d);
        let n = parts[0].len() as int;
        assert(t.subrange(t.len() - n, t.len() as int) =~= s.subrange(
            s.len() - n,
            s.len() as int,
        ));
    }
}

/// Whether `value` matches `pattern`, where `*` matches any run of
/// characters: exact patterns, trailing wildcards and inner wildcards such
/// as `https://*.vercel.app`.
pub fn glob_match(pattern: &str, value: &str) -> (r: bool)
    ensures
        r == glob_spec(pattern@, value@),
{
    let p = chars_of(pattern);
    let v = chars_of(value);
    let parts = split_on(p.as_slice(), '*');
    proof {
        lemma_split_single(p@, '*');
    }
    if parts.len() == 1 {
        return chars_equal(p.as_slice(), v.as_slice());
    }
    let ghost sp = split_spec(p@, '*');
    let first = &parts[0];
    if !starts_with(v.as_slice(), first.as_slice()) {
        return false;
    }
    let mut pos: usize = first.len();
    let last_index = parts.len() - 1;
    let mut m: usize = 1;
    assert(sp.skip(1) =~= sp.drop_first());
    while m < last_index
        invariant
            sp == split_spec(p@, '*'),
            parts@.len() == sp.len(),
            forall|i: int| 0 <= i < parts@.len() ==> #[trigger] parts@[i]@ == sp[i],
            last_index == parts@.len() - 1,
            1 <= m <= last_index,
            pos <= v@.len(),
            v@.len() == v.len(),
            p@ == pattern@,
            v@ == value@,
            glob_spec(p@, v@) == glob_tail(sp.skip(m as int), v@.skip(pos as int)),
        decreases last_index - m,
    {
        let piece = &parts[m];
        let ghost rest = v@.skip(pos as int);
        let ghost ps = sp.skip(m as int);
        assert(ps[0] == piece@);
        assert(ps.len() > 1);
        assert(ps.drop_first() =~= sp.skip(m + 1));
        match find_from(v.as_slice(), piece.as_slice(), pos) {
            Some(i) => {
                proof {
                    assert(occurs_at(ps[0], rest, i - pos)) by {
                        assert(rest.subrange(i - pos, i - pos + ps[0].len()) =~= v@.subrange(
                            i as int,
                            i + ps[0].len(),
                        ));
                    }
                    assert(rest.skip(i - pos + ps[0].len()) =~= v@.skip(i + piece@.len()));
                    if glob_tail(ps, rest) {
                        let j = choose|j: int|
                            #![trigger occurs_at(ps[0], rest, j)]
                            occurs_at(ps[0], rest, j) && glob_tail(
                                ps.drop_first(),
                                rest.skip(j + ps[0].len()),
                            );
                        if j < i - pos {
                            assert(v@.subrange(j + pos, j + pos + ps[0].len()) =~= rest.subrange(
                                j,
                                j + ps[0].len(),
                            ));
                            assert(occurs_at(piece@, v@, j + pos));
                        }
                        let d = j - (i - pos);
                        assert(rest.skip(i - pos + ps[0].len()).skip(d) =~= rest.skip(
                            j + ps[0].len(),
                        ));
                        lemma_glob_tail_extend(
                            ps.drop_first(),
                            rest.skip(i - pos + ps[0].len()),
                            d,
                        );
                    }
                }
                pos = i + piece.len();
            },
            None => {
                proof {
                    if glob_tail(ps, rest) {
                        let j = choose|j: int|
                            #![trigger occurs_at(ps[0], rest, j)]
                            occurs_at(ps[0], rest, j) && glob_tail(
                                ps.drop_first(),
                                rest.skip(j + ps[0].len()),
                            );
                        assert(v@.subrange(j + pos, j + pos + ps[0].len()) =~= rest.subrange(
                            j,
                            j + ps[0].len(),
                        ));
                        assert(occurs_at(piece@, v@, j + pos));
                    }
                }
                return false;
            },
        }
        m = m + 1;
    }
    let last = &parts[last_index];
    let ghost rest = v@.skip(pos as int);
    assert(sp.skip(m as int).len() == 1);
    assert(sp.skip(m as int)[0] == last@);
    if last.len() > v.len() - pos {
        return false;
    }
    let r = ends_with(v.as_slice(), last.as_slice());
    assert(rest.subrange(rest.len() - last@.len(), rest.len() as int) =~= v@.subrange(
        v@.len() - last@.len(),
        v@.len() as int,
    ));
    r
}

/// Whether a request origin matches any configured allowed-origin pattern.
pub fn origin_allowed(allowed: &Vec<String>, origin: &str) -> (r: bool)
    ensures
        r == exists|i: int| 0 <= i < allowed@.len() && glob_spec(#[trigger] allowed@[i]@, origin@),
{
    let mut i: usize = 0;
    while i < allowed.len()
        invariant
            i <= allowed@.len(),
            forall|k: int| 0 <= k < i ==> !glob_spec(#[trigger] allowed@[k]@, origin@),
        decreases allowed@.len() - i,
    {
        if glob_match(allowed[i].as_str(), origin) {
            return true;
        }
        i = i + 1;
    }
    false
}

} // verus!

use vstd::prelude::*;

use crate::text::{chars_equal, chars_of};

verus! {

/// How far apart two characters may sit and still match:
/// `max(|a|, |b|) / 2 - 1`, not below zero.
pub open spec fn match_distance(la: int, lb: int) -> int {
    let m = (if la > lb {
        la
    } else {
        lb
    }) / 2;
    if m >= 1 {
        m - 1
    } else {
        0
    }
}

/// First index in `lo..hi` where `b` holds `c` and is not matched yet.
pub open spec fn first_free(b: Seq<char>, bm: Seq<bool>, c: char, lo: int, hi: int) -> Option<int>
    decreases hi - lo,
{
    if lo >= hi {
        None
    } else if !bm[lo] && b[lo] == c {
        Some(lo)
    } else {
        first_free(b, bm, c, lo + 1, hi)
    }
}

pub open spec fn window_start(i: int, d: int) -> int {
    if i >= d {
        i - d
    } else {
        0
    }
}

pub open spec fn window_end(i: int, d: int, lb: int) -> int {
    if i + d + 1 < lb {
        i + d + 1
    } else {
        lb
    }
}

/// Greedy Jaro matching of the first `i` characters of `a`: each takes the
/// first unmatched equal character of `b` within the match distance. The
/// result is the matched flags of `a` and of `b` and the number of matches.
pub open spec fn jaro_scan(a: Seq<char>, b: Seq<char>, i: int) -> (Seq<bool>, Seq<bool>, int)
    decreases i,
{
    if i <= 0 {
        (Seq::new(a.len(), |k: int| false), Seq::new(b.len(), |k: int| false), 0)
    } else {
        let (am, bm, m) = jaro_scan(a, b, i - 1);
        let d = match_distance(a.len() as int, b.len() as int);
        match first_free(b, bm, a[i - 1], window_start(i - 1, d), window_end(i - 1, d, b.len() as int)) {
            Some(j) => (am.update(i - 1, true), bm.update(j, true), m + 1),
            None => (am, bm, m),
        }
    }
}

/// The characters of `s` whose flag is set, in order.
pub open spec fn picked(s: Seq<char>, f: Seq<bool>) -> Seq<char>
    decreases s.len(),
{
    if s.len() == 0 || f.len() == 0 {
        Seq::empty()
    } else {
        let r = picked(s.drop_last(), f.drop_last());
        if f.last() {
            r.push(s.last())
        } else {
            r
        }
    }
}

/// Number of set flags.
pub open spec fn count_true(f: Seq<bool>) -> int
    decreases f.len(),
{
    if f.len() == 0 {
        0
    } else {
        count_true(f.drop_last()) + if f.last() {
            1int
        } else {
            0
        }
    }
}

/// Positions at which two equally long sequences differ.
pub open spec fn mismatches(x: Seq<char>, y: Seq<char>) -> int
    decreases x.len(),
{
    if x.len() == 0 || y.len() == 0 {
        0
    } else {
        mismatches(x.drop_last(), y.drop_last()) + if x.last() != y.last() {
            1int
        } else {
            0
        }
    }
}

/// Length of the common prefix of `a` and `b`, counting at most `limit`.
pub open spec fn common_prefix(a: Seq<char>, b: Seq<char>, limit: int) -> int
    decreases limit,
{
    if limit <= 0 || a.len() == 0 || b.len() == 0 || a[0] != b[0] {
        0
    } else {
        1 + common_prefix(a.drop_first(), b.drop_first(), limit - 1)
    }
}

/// The integer ingredients of the Jaro-Winkler similarity of two texts.
#[derive(Debug)]
pub enum JaroParts {
    /// The texts are equal: similarity 1.
    Identical,
    /// One text is empty or no character matches: similarity 0.
    Unrelated,
    /// Matched characters, transpositions (matched characters out of
    /// order), common prefix (at most 4) and the two lengths.
    Counts { matches: usize, transpositions: usize, prefix: usize, len_a: usize, len_b: usize },
}

/// What the similarity of `a` and `b` is computed from.
pub open spec fn jaro_parts_spec(a: Seq<char>, b: Seq<char>) -> JaroParts {
    if a == b {
        JaroParts::Identical
    } else if a.len() == 0 || b.len() == 0 {
        JaroParts::Unrelated
    } else {
        let (am, bm, m) = jaro_scan(a, b, a.len() as int);
        if m == 0 {
            JaroParts::Unrelated
        } else {
            JaroParts::Counts {
                matches: m as usize,
                transpositions: mismatches(picked(a, am), picked(b, bm)) as usize,
                prefix: common_prefix(a, b, 4) as usize,
                len_a: a.len() as usize,
                len_b: b.len() as usize,
            }
        }
    }
}

proof fn lemma_first_free_skip(b: Seq<char>, bm: Seq<bool>, c: char, lo: int, j: int, hi: int)
    requires
        lo <= j <= hi,
        forall|x: int| lo <= x < j ==> !(!bm[x] && #[trigger] b[x] == c),
    ensures
        first_free(b, bm, c, lo, hi) == first_free(b, bm, c, j, hi),
    decreases j - lo,
{
    if lo < j {
        lemma_first_free_skip(b, bm, c, lo + 1, j, hi);
    }
}

proof fn lemma_count_update(f: Seq<bool>, j: int)
    requires
        0 <= j < f.len(),
        !f[j],
    ensures
        count_true(f.update(j, true)) == count_true(f) + 1,
    decreases f.len(),
{
    let g = f.update(j, true);
    if j == f.len() - 1 {
        assert(g.drop_last() =~= f.drop_last());
    } else {
        assert(g.drop_last() =~= f.drop_last().update(j, true));
        lemma_count_update(f.drop_last(), j);
    }
}

proof fn lemma_count_all_false(n: nat)
    ensures
        count_true(Seq::new(n, |k: int| false)) == 0,
    decreases n,
{
    if n > 0 {
        assert(Seq::new(n, |k: int| false).drop_last() =~= Seq::new((n - 1) as nat, |k: int| false));
        lemma_count_all_false((n - 1) as nat);
    }
}

proof fn lemma_scan_facts(a: Seq<char>, b: Seq<char>, i: int)
    requires
        0 <= i <= a.len(),
    ensures
        jaro_scan(a, b, i).0.len() == a.len(),
        jaro_scan(a, b, i).1.len() == b.len(),
        count_true(jaro_scan(a, b, i).0) == jaro_scan(a, b, i).2,
        count_true(jaro_scan(a, b, i).1) == jaro_scan(a, b, i).2,
        forall|k: int| i <= k < a.len() ==> !#[trigger] jaro_scan(a, b, i).0[k],
    decreases i,
{
    if i <= 0 {
        lemma_count_all_false(a.len());
        lemma_count_all_false(b.len());
    } else {
        lemma_scan_facts(a, b, i - 1);
        let (am, bm, m) = jaro_scan(a, b, i - 1);
        let d = match_distance(a.len() as int, b.len() as int);
        let r = first_free(b, bm, a[i - 1], window_start(i - 1, d), window_end(i - 1, d, b.len() as int));
        if let Some(j) = r {
            lemma_first_free_found(b, bm, a[i - 1], window_start(i - 1, d), window_end(i - 1, d, b.len() as int));
            lemma_count_update(am, i - 1);
            lemma_count_update(bm, j);
        }
    }
}

proof fn lemma_first_free_found(b: Seq<char>, bm: Seq<bool>, c: char, lo: int, hi: int)
    requires
        0 <= lo,
        hi <= b.len(),
        hi <= bm.len(),
    ensures
        first_free(b, bm, c, lo, hi) matches Some(j) ==> lo <= j < hi && !bm[j] && b[j] == c,
    decreases hi - lo,
{
    if lo < hi {
        lemma_first_free_found(b, bm, c, lo + 1, hi);
    }
}

proof fn lemma_count_take_step(f: Seq<bool>, k: int)
    requires
        0 <= k < f.len(),
    ensures
        count_true(f.take(k + 1)) == count_true(f.take(k)) + if f[k] {
            1int
        } else {
            0
        },
{
    assert(f.take(k + 1).drop_last() =~= f.take(k));
}

proof fn lemma_count_take_le(f: Seq<bool>, k: int)
    requires
        0 <= k <= f.len(),
    ensures
        count_true(f.take(k)) <= count_true(f),
    decreases f.len() - k,
{
    if k < f.len() {
        lemma_count_take_step(f, k);
        lemma_count_take_le(f, k + 1);
    } else {
        assert(f.take(k) =~= f);
    }
}

proof fn lemma_picked_len(s: Seq<char>, f: Seq<bool>)
    requires
        s.len() == f.len(),
    ensures
        picked(s, f).len() == count_true(f),
    decreases s.len(),
{
    if s.len() > 0 {
        lemma_picked_len(s.drop_last(), f.drop_last());
    }
}

proof fn lemma_picked_step(s: Seq<char>, f: Seq<bool>, k: int)
    requires
        s.len() == f.len(),
        0 <= k < s.len(),
    ensures
        picked(s.take(k + 1), f.take(k + 1)) == if f[k] {
            picked(s.take(k), f.take(k)).push(s[k])
        } else {
            picked(s.take(k), f.take(k))
        },
{
    assert(s.take(k + 1).drop_last() =~= s.take(k));
    assert(f.take(k + 1).drop_last() =~= f.take(k));
}

proof fn lemma_mismatches_push(x: Seq<char>, y: Seq<char>, c: char, e: char)
    ensures
        mismatches(x.push(c), y.push(e)) == mismatches(x, y) + if c != e {
            1int
        } else {
            0
        },
{
    assert(x.push(c).drop_last() =~= x);
    assert(y.push(e).drop_last() =~= y);
}

proof fn lemma_common_prefix_gen(a: Seq<char>, b: Seq<char>, k: int, limit: int)
    requires
        0 <= k < limit,
        k < a.len(),
        k < b.len(),
        forall|x: int| 0 <= x < k ==> #[trigger] a[x] == b[x],
    ensures
        a[k] != b[k] ==> common_prefix(a, b, limit) == k,
    decreases k,
{
    if k > 0 {
        assert forall|x: int| 0 <= x < k - 1 implies #[trigger] a.drop_first()[x]
            == b.drop_first()[x] by {
            assert(a[x + 1] == b[x + 1]);
        }
        assert(a[0] == b[0]);
        lemma_common_prefix_gen(a.drop_first(), b.drop_first(), k - 1, limit - 1);
    }
}

proof fn lemma_common_prefix_full(a: Seq<char>, b: Seq<char>, k: int, limit: int)
    requires
        0 <= k <= limit,
        k <= a.len(),
        k <= b.len(),
        forall|x: int| 0 <= x < k ==> #[trigger] a[x] == b[x],
        k == limit || k == a.len() || k == b.len(),
    ensures
        common_prefix(a, b, limit) == k,
    decreases k,
{
    if k > 0 {
        assert forall|x: int| 0 <= x < k - 1 implies #[trigger] a.drop_first()[x]
            == b.drop_first()[x] by {
            assert(a[x + 1] == b[x + 1]);
        }
        assert(a[0] == b[0]);
        lemma_common_prefix_full(a.drop_first(), b.drop_first(), k - 1, limit - 1);
    }
}

/// Computes what the Jaro-Winkler similarity of two texts is made of.
pub fn jaro_parts(a_text: &str, b_text: &str) -> (r: JaroParts)
    ensures
        r == jaro_parts_spec(a_text@, b_text@),
{
    let a = chars_of(a_text);
    let b = chars_of(b_text);
    if chars_equal(a.as_slice(), b.as_slice()) {
        return JaroParts::Identical;
    }
    let la = a.len();
    let lb = b.len();
    if la == 0 || lb == 0 {
        return JaroParts::Unrelated;
    }
    let longest = if la > lb {
        la
    } else {
        lb
    };
    let half = longest / 2;
    let d: usize = if half >= 1 {
        half - 1
    } else {
        0
    };
    assert(d == match_distance(la as int, lb as int));
    let mut am: Vec<bool> = vec![false; la];
    let mut bm: Vec<bool> = vec![false; lb];
    let mut matches: usize = 0;
    let mut i: usize = 0;
    proof {
        assert(am@ =~= Seq::new(la as nat, |k: int| false));
        assert(bm@ =~= Seq::new(lb as nat, |k: int| false));
    }
    while i < la
        invariant
            i <= la,
            la == a@.len(),
            lb == b@.len(),
            d == match_distance(la as int, lb as int),
            (am@, bm@, matches as int) == jaro_scan(a@, b@, i as int),
            matches <= i,
        decreases la - i,
    {
        proof {
            lemma_scan_facts(a@, b@, i as int);
        }
        let start: usize = if i >= d {
            i - d
        } else {
            0
        };
        let reach: u128 = i as u128 + d as u128 + 1;
        let end: usize = if reach < lb as u128 {
            reach as usize
        } else {
            lb
        };
        let c = a[i];
        let mut j = start;
        let ghost bm0 = bm@;
        let ghost lo = start as int;
        while j < end
            invariant
                lo <= j,
                j <= end || j == lo,
                end <= lb,
                lb == b@.len(),
                bm@ == bm0,
                bm0.len() == lb,
                forall|x: int| lo <= x < j ==> !(!bm0[x] && #[trigger] b@[x] == c),
            ensures
                lo <= j,
                j <= end || j == lo,
                bm@ == bm0,
                forall|x: int| lo <= x < j ==> !(!bm0[x] && #[trigger] b@[x] == c),
                j < end ==> !bm0[j as int] && b@[j as int] == c,
            decreases end - j,
        {
            if !bm[j] && c == b[j] {
                break;
            }
            j = j + 1;
        }
        proof {
            if lo <= end {
                lemma_first_free_skip(b@, bm0, c, lo, j as int, end as int);
            }
        }
        if j < end {
            am.set(i, true);
            bm.set(j, true);
            matches = matches + 1;
        }
        i = i + 1;
    }
    proof {
        lemma_scan_facts(a@, b@, la as int);
    }
    if matches == 0 {
        return JaroParts::Unrelated;
    }
    let ghost pa_all = picked(a@, am@);
    let ghost pb_all = picked(b@, bm@);
    let mut t: usize = 0;
    let mut k: usize = 0;
    let mut i: usize = 0;
    proof {
        assert(a@.take(0) =~= Seq::<char>::empty());
        assert(b@.take(0) =~= Seq::<char>::empty());
        assert(am@.take(0) =~= Seq::<bool>::empty());
        assert(bm@.take(0) =~= Seq::<bool>::empty());
    }
    while i < la
        invariant
            i <= la,
            k <= lb,
            la == a@.len(),
            lb == b@.len(),
            am@.len() == la,
            bm@.len() == lb,
            count_true(am@) == count_true(bm@),
            count_true(am@.take(i as int)) == count_true(bm@.take(k as int)),
            t as int == mismatches(
                picked(a@.take(i as int), am@.take(i as int)),
                picked(b@.take(k as int), bm@.take(k as int)),
            ),
            t <= i,
        decreases la - i,
    {
        proof {
            lemma_count_take_step(am@, i as int);
            lemma_picked_step(a@, am@, i as int);
        }
        if am[i] {
            proof {
                lemma_count_take_le(am@, i + 1);
                if k == lb {
                    assert(bm@.take(k as int) =~= bm@);
                }
            }
            while !bm[k]
                invariant
                    k < lb,
                    lb == b@.len(),
                    bm@.len() == lb,
                    count_true(bm@.take(k as int)) < count_true(bm@),
                    t as int == mismatches(
                        picked(a@.take(i as int), am@.take(i as int)),
                        picked(b@.take(k as int), bm@.take(k as int)),
                    ),
                    count_true(am@.take(i as int)) == count_true(bm@.take(k as int)),
                decreases lb - k,
            {
                proof {
                    lemma_count_take_step(bm@, k as int);
                    lemma_picked_step(b@, bm@, k as int);
                    if k + 1 == lb {
                        assert(bm@.take(lb as int) =~= bm@);
                    }
                }
                k = k + 1;
            }
            proof {
                lemma_count_take_step(bm@, k as int);
                lemma_picked_step(b@, bm@, k as int);
                lemma_mismatches_push(
                    picked(a@.take(i as int), am@.take(i as int)),
                    picked(b@.take(k as int), bm@.take(k as int)),
                    a@[i as int],
                    b@[k as int],
                );
            }
            if a[i] != b[k] {
                t = t + 1;
            }
            k = k + 1;
        }
        i = i + 1;
    }
    proof {
        assert(a@.take(la as int) =~= a@);
        assert(am@.take(la as int) =~= am@);
        lemma_trailing_unset(bm@, k as int);
        lemma_picked_trailing(b@, bm@, k as int);
    }
    let mut p: usize = 0;
    while p < 4 && p < la && p < lb && a[p] == b[p]
        invariant
            p <= 4,
            p <= la,
            p <= lb,
            la == a@.len(),
            lb == b@.len(),
            forall|x: int| 0 <= x < p ==> #[trigger] a@[x] == b@[x],
        decreases 4 - p,
    {
        p = p + 1;
    }
    proof {
        if p < 4 && p < la && p < lb {
            lemma_common_prefix_gen(a@, b@, p as int, 4);
        } else {
            lemma_common_prefix_full(a@, b@, p as int, 4);
        }
    }
    JaroParts::Counts { matches, transpositions: t, prefix: p, len_a: la, len_b: lb }
}

/// Unset trailing flags pick nothing.
proof fn lemma_picked_trailing(s: Seq<char>, f: Seq<bool>, k: int)
    requires
        s.len() == f.len(),
        0 <= k <= f.len(),
        forall|x: int| k <= x < f.len() ==> !#[trigger] f[x],
    ensures
        picked(s.take(k), f.take(k)) == picked(s, f),
    decreases f.len() - k,
{
    if k < f.len() {
        lemma_picked_step(s, f, k);
        lemma_picked_trailing(s, f, k + 1);
    } else {
        assert(s.take(k) =~= s);
        assert(f.take(k) =~= f);
    }
}

/// After the last set flag, taking more of the sequence picks nothing more.
proof fn lemma_trailing_unset(f: Seq<bool>, k: int)
    requires
        0 <= k <= f.len(),
        count_true(f.take(k)) == count_true(f),
    ensures
        forall|x: int| k <= x < f.len() ==> !#[trigger] f[x],
    decreases f.len() - k,
{
    if k < f.len() {
        lemma_count_take_step(f, k);
        lemma_count_take_le(f, k + 1);
        lemma_trailing_unset(f, k + 1);
    }
}

} // verus!

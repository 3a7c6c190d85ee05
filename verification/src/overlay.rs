use vstd::prelude::*;

use std::collections::HashSet;

verus! {

broadcast use vstd::std_specs::hash::group_hash_axioms;

/// An overlay connection forwards only the events of its own streamer
/// (ids are 128-bit UUIDs).
pub fn should_forward(event_streamer: u128, connection_streamer: u128) -> (r: bool)
    ensures
        r == (event_streamer == connection_streamer),
{
    event_streamer == connection_streamer
}

/// The number of open overlay connections from a SQL `COUNT(*)`: negative
/// counts read as 0, the rest are cast to `usize` as `as` does.
pub fn connection_count(n: i64) -> (r: usize)
    ensures
        n < 0 ==> r == 0,
        n >= 0 ==> r == n as usize,
{
    if n < 0 {
        0
    } else {
        n as usize
    }
}

/// The ids of `s` in order, each kept at its first occurrence only.
pub open spec fn dedupe_spec(s: Seq<u128>) -> Seq<u128>
    decreases s.len(),
{
    if s.len() == 0 {
        Seq::empty()
    } else {
        let prev = dedupe_spec(s.drop_last());
        if s.drop_last().contains(s.last()) {
            prev
        } else {
            prev.push(s.last())
        }
    }
}

/// Drops repeated ids, keeping the first occurrence of each in order.
pub fn dedupe(ids: &Vec<u128>) -> (r: Vec<u128>)
    ensures
        r@ == dedupe_spec(ids@),
{
    let mut seen: HashSet<u128> = HashSet::new();
    let mut out: Vec<u128> = Vec::new();
    let mut i: usize = 0;
    while i < ids.len()
        invariant
            i <= ids@.len(),
            forall|x: u128| seen@.contains(x) <==> ids@.take(i as int).contains(x),
            out@ == dedupe_spec(ids@.take(i as int)),
        decreases ids@.len() - i,
    {
        let x = ids[i];
        let ghost before = ids@.take(i as int);
        proof {
            assert(ids@.take(i + 1).drop_last() =~= before);
            assert(ids@.take(i + 1).last() == x);
        }
        let fresh = seen.insert(x);
        if fresh {
            out.push(x);
        }
        proof {
            let next = ids@.take(i + 1);
            assert forall|y: u128| seen@.contains(y) <==> next.contains(y) by {
                if next.contains(y) {
                    let k = choose|k: int| 0 <= k < next.len() && next[k] == y;
                    if k < i {
                        assert(before[k] == y);
                    }
                }
                if before.contains(y) {
                    let k = choose|k: int| 0 <= k < before.len() && before[k] == y;
                    assert(next[k] == y);
                }
                if y == x {
                    assert(next[i as int] == y);
                }
            }
        }
        i = i + 1;
    }
    proof {
        assert(ids@.take(ids@.len() as int) =~= ids@);
    }
    out
}

/// No id occurs twice in `s`.
pub open spec fn no_repeats(s: Seq<u128>) -> bool {
    forall|i: int, j: int| 0 <= i < j < s.len() ==> s[i] != s[j]
}

/// After dropping repeats no id occurs twice, and exactly the ids of the
/// input remain.
pub proof fn law_dedupe_keeps_each_once(s: Seq<u128>)
    ensures
        no_repeats(dedupe_spec(s)),
        forall|x: u128| dedupe_spec(s).contains(x) <==> s.contains(x),
    decreases s.len(),
{
    if s.len() > 0 {
        let p = s.drop_last();
        law_dedupe_keeps_each_once(p);
        let dp = dedupe_spec(p);
        let ds = dedupe_spec(s);
        let last = s.last();
        assert forall|x: u128| s.contains(x) <==> (p.contains(x) || x == last) by {
            if s.contains(x) {
                let k = choose|k: int| 0 <= k < s.len() && s[k] == x;
                if k < s.len() - 1 {
                    assert(p[k] == x);
                }
            }
            if p.contains(x) {
                let k = choose|k: int| 0 <= k < p.len() && p[k] == x;
                assert(s[k] == x);
            }
            if x == last {
                assert(s[s.len() - 1] == x);
            }
        }
        if !p.contains(last) {
            assert(ds == dp.push(last));
            assert forall|x: u128| ds.contains(x) <==> (dp.contains(x) || x == last) by {
                if ds.contains(x) {
                    let k = choose|k: int| 0 <= k < ds.len() && ds[k] == x;
                    if k < dp.len() {
                        assert(dp[k] == x);
                    }
                }
                if dp.contains(x) {
                    let k = choose|k: int| 0 <= k < dp.len() && dp[k] == x;
                    assert(ds[k] == x);
                }
                if x == last {
                    assert(ds[dp.len() as int] == x);
                }
            }
        }
    }
}

} // verus!

use vstd::prelude::*;

verus! {

/// Who a request is counted against: the client's socket address and the
/// limiter bucket it falls in.
pub struct RateKey {
    /// The IP address as a number (IPv4 addresses in the low 32 bits).
    pub addr: u128,
    pub is_v6: bool,
    pub port: u16,
    pub bucket: String,
}

pub open spec fn key_view(k: RateKey) -> (u128, bool, u16, Seq<char>) {
    (k.addr, k.is_v6, k.port, k.bucket@)
}

/// One fixed window: when it started (nanoseconds since the epoch), how
/// many requests it has counted, and its own length in seconds.
pub struct RateWindow {
    pub key: RateKey,
    pub start_ns: i64,
    pub count: u32,
    pub window_seconds: i64,
}

pub open spec fn window_view(w: RateWindow) -> ((u128, bool, u16, Seq<char>), int, int, int) {
    (key_view(w.key), w.start_ns as int, w.count as int, w.window_seconds as int)
}

/// Windows kept beyond this many trigger a sweep of expired ones.
pub open spec fn sweep_threshold() -> int {
    10_000
}

/// Fixed-window limiter state shared by all buckets: at most one window per
/// key.
pub struct WindowStore {
    windows: Vec<RateWindow>,
}

/// Nanoseconds in `s` seconds.
pub open spec fn window_ns(s: int) -> int {
    s * 1_000_000_000
}

/// A window started at `start` has run out at `now` when more than the
/// window length has passed.
pub open spec fn expired(start: int, now: int, window_seconds: int) -> bool {
    now - start > window_ns(window_seconds)
}

pub open spec fn keys_unique(s: Seq<((u128, bool, u16, Seq<char>), int, int, int)>) -> bool {
    forall|i: int, j: int| 0 <= i < j < s.len() ==> #[trigger] s[i].0 != #[trigger] s[j].0
}

/// Index of the window for key `k`, if any.
pub open spec fn window_index(s: Seq<((u128, bool, u16, Seq<char>), int, int, int)>, k: (
    u128,
    bool,
    u16,
    Seq<char>,
)) -> Option<int> {
    if exists|i: int| 0 <= i < s.len() && s[i].0 == k {
        Some(choose|i: int| 0 <= i < s.len() && s[i].0 == k)
    } else {
        None
    }
}

/// Whether a request is allowed: a key without a window, or whose window
/// has run out, starts a new window and is allowed; otherwise the request is
/// counted and allowed while the count stays within `max_requests`.
pub open spec fn allowed_spec(
    s: Seq<((u128, bool, u16, Seq<char>), int, int, int)>,
    k: (u128, bool, u16, Seq<char>),
    max_requests: u32,
    window_seconds: i64,
    now_ns: i64,
) -> bool {
    match window_index(s, k) {
        None => true,
        Some(i) => expired(s[i].1, now_ns as int, window_seconds as int) || s[i].2 + 1 <= max_requests,
    }
}

/// The windows after counting a request, before any sweep.
pub open spec fn counted_spec(
    s: Seq<((u128, bool, u16, Seq<char>), int, int, int)>,
    k: (u128, bool, u16, Seq<char>),
    window_seconds: i64,
    now_ns: i64,
) -> Seq<((u128, bool, u16, Seq<char>), int, int, int)> {
    match window_index(s, k) {
        None => s.push((k, now_ns as int, 1, window_seconds as int)),
        Some(i) => if expired(s[i].1, now_ns as int, window_seconds as int) {
            s.update(i, (k, now_ns as int, 1, window_seconds as int))
        } else {
            s.update(
                i,
                (
                    k,
                    s[i].1,
                    if s[i].2 < u32::MAX {
                        s[i].2 + 1
                    } else {
                        s[i].2
                    },
                    window_seconds as int,
                ),
            )
        },
    }
}

/// Windows still running at `now`, each under its own length.
pub open spec fn live(now_ns: i64) -> spec_fn(((u128, bool, u16, Seq<char>), int, int, int)) -> bool {
    |w: ((u128, bool, u16, Seq<char>), int, int, int)| !expired(w.1, now_ns as int, w.3)
}

/// The windows after a request: counted, then swept of expired windows when
/// more than `sweep_threshold()` are kept.
pub open spec fn after_spec(
    s: Seq<((u128, bool, u16, Seq<char>), int, int, int)>,
    k: (u128, bool, u16, Seq<char>),
    window_seconds: i64,
    now_ns: i64,
) -> Seq<((u128, bool, u16, Seq<char>), int, int, int)> {
    let c = counted_spec(s, k, window_seconds, now_ns);
    if c.len() > sweep_threshold() {
        c.filter(live(now_ns))
    } else {
        c
    }
}

/// Window lengths the limiter can express: whole seconds that fit a
/// nanosecond-precise duration.
pub open spec fn window_seconds_ok(window_seconds: i64) -> bool {
    -9_223_372_036 <= window_seconds <= 9_223_372_036
}

impl WindowStore {
    pub closed spec fn view(&self) -> Seq<((u128, bool, u16, Seq<char>), int, int, int)> {
        self.windows@.map_values(|w: RateWindow| window_view(w))
    }

    /// At most one window per key.
    pub closed spec fn wf(&self) -> bool {
        keys_unique(self.view())
    }

    /// An empty store.
    pub fn new() -> (r: WindowStore)
        ensures
            r.wf(),
            r.view() == Seq::<((u128, bool, u16, Seq<char>), int, int, int)>::empty(),
    {
        let r = WindowStore { windows: Vec::new() };
        assert(r.view() =~= Seq::<((u128, bool, u16, Seq<char>), int, int, int)>::empty());
        r
    }

    /// Number of windows kept.
    pub fn len(&self) -> (r: usize)
        ensures
            r == self.view().len(),
    {
        self.windows.len()
    }

    fn same_key(a: &RateKey, b: &RateKey) -> (r: bool)
        ensures
            r == (key_view(*a) == key_view(*b)),
    {
        a.addr == b.addr && a.is_v6 == b.is_v6 && a.port == b.port && a.bucket == b.bucket
    }

    /// Counts a request against `key` at time `now_ns` and says whether it
    /// is allowed under `max_requests` per `window_seconds`.
    pub fn check(
        &mut self,
        key: RateKey,
        max_requests: u32,
        window_seconds: i64,
        now_ns: i64,
    ) -> (allowed: bool)
        requires
            old(self).wf(),
            window_seconds_ok(window_seconds),
        ensures
            final(self).wf(),
            allowed == allowed_spec(
                old(self).view(),
                key_view(key),
                max_requests,
                window_seconds,
                now_ns,
            ),
            final(self).view() == after_spec(
                old(self).view(),
                key_view(key),
                window_seconds,
                now_ns,
            ),
    {
        let ghost s = self.view();
        let ghost k = key_view(key);
        let window: i128 = window_seconds as i128 * 1_000_000_000;
        let n = self.windows.len();
        let mut i: usize = 0;
        while i < n
            invariant
                i <= n,
                n == self.windows@.len(),
                s == self.view(),
                k == key_view(key),
                forall|j: int| 0 <= j < i ==> #[trigger] s[j].0 != k,
            ensures
                i <= n,
                n == self.windows@.len(),
                s == self.view(),
                k == key_view(key),
                forall|j: int| 0 <= j < i ==> #[trigger] s[j].0 != k,
                i < n ==> s[i as int].0 == k,
            decreases n - i,
        {
            assert(s[i as int] == window_view(self.windows@[i as int]));
            if Self::same_key(&self.windows[i].key, &key) {
                break;
            }
            i = i + 1;
        }
        let allowed;
        if i < n {
            proof {
                assert(s[i as int].0 == k);
                assert(window_index(s, k) == Some(i as int)) by {
                    let c = choose|c: int| 0 <= c < s.len() && s[c].0 == k;
                    if c != i as int {
                        if c < i {
                            assert(s[c].0 != k);
                        } else {
                            assert(s[i as int].0 != s[c].0);
                        }
                    }
                }
            }
            let start = self.windows[i].start_ns;
            let count = self.windows[i].count;
            let elapsed: i128 = now_ns as i128 - start as i128;
            let new_start;
            let new_count;
            if elapsed > window {
                new_start = now_ns;
                new_count = 1u32;
                allowed = true;
            } else {
                new_start = start;
                new_count = if count < u32::MAX {
                    count + 1
                } else {
                    count
                };
                allowed = count as u64 + 1 <= max_requests as u64;
            }
            let old_w = self.windows.remove(i);
            let w = RateWindow { key: old_w.key, start_ns: new_start, count: new_count, window_seconds };
            self.windows.insert(i, w);
            proof {
                assert(self.view() =~= counted_spec(s, k, window_seconds, now_ns));
            }
        } else {
            proof {
                assert(window_index(s, k) is None);
            }
            allowed = true;
            self.windows.push(RateWindow { key, start_ns: now_ns, count: 1, window_seconds });
            proof {
                assert(self.view() =~= counted_spec(s, k, window_seconds, now_ns));
            }
        }
        let ghost c = self.view();
        proof {
            assert(keys_unique(c)) by {
                assert forall|a: int, b: int| 0 <= a < b < c.len() implies #[trigger] c[a].0
                    != #[trigger] c[b].0 by {
                    if a < s.len() && b < s.len() {
                        assert(s[a].0 != s[b].0);
                    }
                }
            }
        }
        if self.windows.len() > 10_000 {
            self.sweep(now_ns);
        }
        allowed
    }

    /// Drops the windows that ran out at `now_ns`, each by its own length.
    fn sweep(&mut self, now_ns: i64)
        requires
            keys_unique(old(self).view()),
        ensures
            keys_unique(final(self).view()),
            final(self).view() == old(self).view().filter(live(now_ns)),
    {
        let ghost s = self.view();
        let mut kept: Vec<RateWindow> = Vec::new();
        let n = self.windows.len();
        let mut i: usize = 0;
        while i < n
            invariant
                i <= n,
                n == self.windows@.len(),
                s == self.view(),
                keys_unique(s),
                kept@.map_values(|w: RateWindow| window_view(w)) == s.take(i as int).filter(
                    live(now_ns),
                ),
                keys_unique(kept@.map_values(|w: RateWindow| window_view(w))),
                forall|a: int|
                    0 <= a < kept@.len() ==> exists|j: int|
                        0 <= j < i && #[trigger] window_view(kept@[a]).0 == s[j].0,
            decreases n - i,
        {
            proof {
                reveal_with_fuel(Seq::<_>::filter, 1);
                assert(s.take(i + 1).drop_last() =~= s.take(i as int));
                assert(s[i as int] == window_view(self.windows@[i as int]));
            }
            let w = &self.windows[i];
            let elapsed: i128 = now_ns as i128 - w.start_ns as i128;
            let window: i128 = w.window_seconds as i128 * 1_000_000_000;
            let ghost before = kept@.map_values(|w: RateWindow| window_view(w));
            let ghost kept_before = kept@;
            if elapsed <= window {
                let copy = RateWindow {
                    key: RateKey {
                        addr: w.key.addr,
                        is_v6: w.key.is_v6,
                        port: w.key.port,
                        bucket: w.key.bucket.clone(),
                    },
                    start_ns: w.start_ns,
                    count: w.count,
                    window_seconds: w.window_seconds,
                };
                kept.push(copy);
                proof {
                    let after = kept@.map_values(|w: RateWindow| window_view(w));
                    assert(after =~= before.push(s[i as int]));
                    assert forall|a: int, b: int| 0 <= a < b < after.len() implies #[trigger] after[a].0
                        != #[trigger] after[b].0 by {
                        if b == after.len() - 1 {
                            assert(after[a] == window_view(kept@[a]));
                            let j = choose|j: int|
                                0 <= j < i && #[trigger] window_view(kept@[a]).0 == s[j].0;
                            assert(s[j].0 != s[i as int].0);
                        } else {
                            assert(before[a].0 != before[b].0);
                        }
                    }
                    assert forall|a: int| 0 <= a < kept@.len() implies exists|j: int|
                        0 <= j < i + 1 && #[trigger] window_view(kept@[a]).0 == s[j].0 by {
                        if a == kept@.len() - 1 {
                            assert(window_view(kept@[a]).0 == s[i as int].0);
                        } else {
                            assert(kept@[a] == kept_before[a]);
                            let j = choose|j: int|
                                0 <= j < i && #[trigger] window_view(kept_before[a]).0 == s[j].0;
                        }
                    }
                }
            }
            proof {
                assert(kept@.map_values(|w: RateWindow| window_view(w)) =~= s.take(i + 1).filter(
                    live(now_ns),
                ));
            }
            i = i + 1;
        }
        proof {
            assert(s.take(n as int) =~= s);
        }
        self.windows = kept;
    }
}

/// A key without a window is allowed and starts a window counting one
/// request.
pub proof fn law_new_key_allowed(
    s: Seq<((u128, bool, u16, Seq<char>), int, int, int)>,
    k: (u128, bool, u16, Seq<char>),
    max_requests: u32,
    window_seconds: i64,
    now_ns: i64,
)
    requires
        forall|i: int| 0 <= i < s.len() ==> #[trigger] s[i].0 != k,
    ensures
        allowed_spec(s, k, max_requests, window_seconds, now_ns),
        counted_spec(s, k, window_seconds, now_ns) == s.push((k, now_ns as int, 1, window_seconds as int)),
{
}

/// Within a running window, a key that has already been counted
/// `max_requests` times is refused.
pub proof fn law_full_window_refuses(
    s: Seq<((u128, bool, u16, Seq<char>), int, int, int)>,
    i: int,
    max_requests: u32,
    window_seconds: i64,
    now_ns: i64,
)
    requires
        keys_unique(s),
        0 <= i < s.len(),
        !expired(s[i].1, now_ns as int, window_seconds as int),
        s[i].2 >= max_requests,
    ensures
        !allowed_spec(s, s[i].0, max_requests, window_seconds, now_ns),
{
    let k = s[i].0;
    let c = choose|c: int| 0 <= c < s.len() && s[c].0 == k;
    if c != i {
        if c < i {
            assert(s[c].0 != s[i].0);
        } else {
            assert(s[i].0 != s[c].0);
        }
    }
}

/// Once a key's window has run out, its next request is allowed and opens a
/// fresh window counting one request.
pub proof fn law_expired_window_restarts(
    s: Seq<((u128, bool, u16, Seq<char>), int, int, int)>,
    i: int,
    max_requests: u32,
    window_seconds: i64,
    now_ns: i64,
)
    requires
        keys_unique(s),
        0 <= i < s.len(),
        expired(s[i].1, now_ns as int, window_seconds as int),
    ensures
        allowed_spec(s, s[i].0, max_requests, window_seconds, now_ns),
        counted_spec(s, s[i].0, window_seconds, now_ns) == s.update(
            i,
            (s[i].0, now_ns as int, 1, window_seconds as int),
        ),
{
    let k = s[i].0;
    let c = choose|c: int| 0 <= c < s.len() && s[c].0 == k;
    if c != i {
        if c < i {
            assert(s[c].0 != s[i].0);
        } else {
            assert(s[i].0 != s[c].0);
        }
    }
}

/// A request for one key keeps every other key's window that is still
/// running under its own length, unchanged, whatever length the request's
/// bucket uses.
pub proof fn law_other_live_windows_survive(
    s: Seq<((u128, bool, u16, Seq<char>), int, int, int)>,
    k: (u128, bool, u16, Seq<char>),
    window_seconds: i64,
    now_ns: i64,
    i: int,
)
    requires
        0 <= i < s.len(),
        s[i].0 != k,
        !expired(s[i].1, now_ns as int, s[i].3),
    ensures
        after_spec(s, k, window_seconds, now_ns).contains(s[i]),
{
    let c = counted_spec(s, k, window_seconds, now_ns);
    assert(c[i] == s[i]);
    if c.len() > sweep_threshold() {
        c.lemma_filter_contains(live(now_ns), i);
    } else {
        assert(c.contains(s[i]));
    }
}

// ---------------------------------------------------------------------------
// Several requests in a row
// ---------------------------------------------------------------------------

/// The windows after a run of requests, each a key, its limit, its window
/// length and its time, made in order from `s`.
pub open spec fn run_spec(
    s: Seq<((u128, bool, u16, Seq<char>), int, int, int)>,
    calls: Seq<((u128, bool, u16, Seq<char>), u32, i64, i64)>,
) -> Seq<((u128, bool, u16, Seq<char>), int, int, int)>
    decreases calls.len(),
{
    if calls.len() == 0 {
        s
    } else {
        let c = calls.last();
        after_spec(run_spec(s, calls.drop_last()), c.0, c.2, c.3)
    }
}

/// How many of `calls` are for key `k`.
pub open spec fn calls_for(calls: Seq<((u128, bool, u16, Seq<char>), u32, i64, i64)>, k: (
    u128,
    bool,
    u16,
    Seq<char>,
)) -> int
    decreases calls.len(),
{
    if calls.len() == 0 {
        0
    } else {
        calls_for(calls.drop_last(), k) + if calls.last().0 == k {
            1int
        } else {
            0int
        }
    }
}

/// No two windows are kept for key `k`.
pub open spec fn key_at_most_once(s: Seq<((u128, bool, u16, Seq<char>), int, int, int)>, k: (
    u128,
    bool,
    u16,
    Seq<char>,
)) -> bool {
    forall|a: int, b: int| 0 <= a < b < s.len() && #[trigger] s[a].0 == k ==> #[trigger] s[b].0 != k
}

proof fn lemma_filter_key_at_most_once(
    s: Seq<((u128, bool, u16, Seq<char>), int, int, int)>,
    p: spec_fn(((u128, bool, u16, Seq<char>), int, int, int)) -> bool,
    k: (u128, bool, u16, Seq<char>),
)
    requires
        key_at_most_once(s, k),
    ensures
        key_at_most_once(s.filter(p), k),
        (forall|a: int| 0 <= a < s.len() ==> #[trigger] s[a].0 != k) ==> (forall|a: int|
            0 <= a < s.filter(p).len() ==> #[trigger] s.filter(p)[a].0 != k),
    decreases s.len(),
{
    reveal_with_fuel(Seq::<_>::filter, 1);
    if s.len() > 0 {
        let t = s.drop_last();
        assert(key_at_most_once(t, k)) by {
            assert forall|a: int, b: int| 0 <= a < b < t.len() && #[trigger] t[a].0 == k implies #[trigger] t[b].0
                != k by {
                assert(s[a].0 == k);
            }
        }
        lemma_filter_key_at_most_once(t, p, k);
        if s.last().0 == k {
            assert forall|a: int| 0 <= a < t.len() implies #[trigger] t[a].0 != k by {
                assert(s[a].0 != k || s[s.len() - 1].0 != k);
            }
        }
    }
}

/// The window kept for `k` through one request made at `now` for any key,
/// while that window is still running: it stays, alone, and only a request
/// for `k` itself counts in it.
proof fn lemma_step_keeps_window(
    p: Seq<((u128, bool, u16, Seq<char>), int, int, int)>,
    k: (u128, bool, u16, Seq<char>),
    i: int,
    c: ((u128, bool, u16, Seq<char>), u32, i64, i64),
)
    requires
        key_at_most_once(p, k),
        0 <= i < p.len(),
        p[i].0 == k,
        !expired(p[i].1, c.3 as int, p[i].3),
        c.0 == k ==> c.2 as int == p[i].3,
    ensures
        window_index(p, k) == Some(i),
        key_at_most_once(after_spec(p, c.0, c.2, c.3), k),
        after_spec(p, c.0, c.2, c.3).contains(
            if c.0 == k {
                (k, p[i].1, if p[i].2 < u32::MAX { p[i].2 + 1 } else { p[i].2 }, p[i].3)
            } else {
                p[i]
            },
        ),
{
    let j = choose|j: int| 0 <= j < p.len() && p[j].0 == k;
    if j != i {
        if j < i {
            assert(p[i].0 != k);
        } else {
            assert(p[j].0 != k);
        }
    }
    let q = counted_spec(p, c.0, c.2, c.3);
    let e = if c.0 == k {
        (k, p[i].1, if p[i].2 < u32::MAX { p[i].2 + 1 } else { p[i].2 }, p[i].3)
    } else {
        p[i]
    };
    if c.0 != k {
        match window_index(p, c.0) {
            None => {},
            Some(x) => {
                let x = choose|x: int| 0 <= x < p.len() && p[x].0 == c.0;
                assert(x != i);
            },
        }
    }
    assert(q[i] == e);
    assert(key_at_most_once(q, k)) by {
        assert forall|a: int, b: int| 0 <= a < b < q.len() && #[trigger] q[a].0 == k implies #[trigger] q[b].0
            != k by {
            if a < p.len() && b < p.len() {
                if q[a].0 == p[a].0 && q[b].0 == p[b].0 {
                } else if a == i || b == i {
                    if a == i {
                        assert(p[b].0 != k);
                    } else {
                        assert(p[a].0 != k || q[a].0 != k);
                    }
                }
            }
        }
    }
    if q.len() > sweep_threshold() {
        q.lemma_filter_contains(live(c.3), i);
        lemma_filter_key_at_most_once(q, live(c.3), k);
    } else {
        assert(q.contains(q[i]));
    }
}

/// A run of requests that starts a fresh window for `k`: the first request
/// is for `k`, which then has no window or one that ran out; every request
/// for `k` has limit `max_requests` and window length `window_seconds`;
/// requests come in time order (other keys' requests may come between) and
/// the last comes within the window of the first.
pub open spec fn fresh_window_run(
    s: Seq<((u128, bool, u16, Seq<char>), int, int, int)>,
    calls: Seq<((u128, bool, u16, Seq<char>), u32, i64, i64)>,
    k: (u128, bool, u16, Seq<char>),
    max_requests: u32,
    window_seconds: i64,
) -> bool {
    &&& keys_unique(s)
    &&& calls.len() > 0
    &&& calls[0].0 == k
    &&& forall|a: int|
        0 <= a < calls.len() && #[trigger] calls[a].0 == k ==> calls[a].1 == max_requests
            && calls[a].2 == window_seconds
    &&& forall|a: int, b: int| 0 <= a < b < calls.len() ==> #[trigger] calls[a].3 <= #[trigger] calls[b].3
    &&& calls.last().3 - calls[0].3 <= window_ns(window_seconds as int)
    &&& match window_index(s, k) {
        None => true,
        Some(i) => expired(s[i].1, calls[0].3 as int, window_seconds as int),
    }
}

pub open spec fn saturated(n: int) -> int {
    if n < u32::MAX {
        n
    } else {
        u32::MAX as int
    }
}

proof fn lemma_prefix_step(
    s: Seq<((u128, bool, u16, Seq<char>), int, int, int)>,
    calls: Seq<((u128, bool, u16, Seq<char>), u32, i64, i64)>,
    k: (u128, bool, u16, Seq<char>),
    n: int,
)
    requires
        0 <= n < calls.len(),
    ensures
        run_spec(s, calls.take(n + 1)) == after_spec(
            run_spec(s, calls.take(n)),
            calls[n].0,
            calls[n].2,
            calls[n].3,
        ),
        calls_for(calls.take(n + 1), k) == calls_for(calls.take(n), k) + if calls[n].0 == k {
            1int
        } else {
            0int
        },
{
    assert(calls.take(n + 1).drop_last() =~= calls.take(n));
    assert(calls.take(n + 1).last() == calls[n]);
}

/// After the first `n` requests of a fresh run for `k`, one window is kept
/// for `k`: it started at the first request, counts the requests for `k`
/// so far (up to `u32::MAX`) and has the run's length.
proof fn lemma_run_window(
    s: Seq<((u128, bool, u16, Seq<char>), int, int, int)>,
    calls: Seq<((u128, bool, u16, Seq<char>), u32, i64, i64)>,
    k: (u128, bool, u16, Seq<char>),
    max_requests: u32,
    window_seconds: i64,
    n: int,
)
    requires
        fresh_window_run(s, calls, k, max_requests, window_seconds),
        1 <= n <= calls.len(),
    ensures
        key_at_most_once(run_spec(s, calls.take(n)), k),
        run_spec(s, calls.take(n)).contains(
            (k, calls[0].3 as int, saturated(calls_for(calls.take(n), k)), window_seconds as int),
        ),
    decreases n,
{
    let t0 = calls[0].3;
    let w = window_seconds;
    if calls.len() > 1 {
        assert(calls[0].3 <= calls[calls.len() - 1].3);
    }
    assert(window_ns(w as int) >= 0);
    if n == 1 {
        lemma_prefix_step(s, calls, k, 0);
        assert(calls.take(0) =~= Seq::<((u128, bool, u16, Seq<char>), u32, i64, i64)>::empty());
        assert(run_spec(s, calls.take(0)) == s);
        let q = counted_spec(s, k, w, t0);
        let e = (k, t0 as int, 1int, w as int);
        let idx = match window_index(s, k) {
            None => s.len() as int,
            Some(i) => i,
        };
        match window_index(s, k) {
            None => {
                assert(forall|a: int| 0 <= a < s.len() ==> #[trigger] s[a].0 != k);
            },
            Some(i) => {
                let i = choose|i: int| 0 <= i < s.len() && s[i].0 == k;
                assert(forall|a: int| 0 <= a < s.len() && a != i ==> #[trigger] s[a].0 != k) by {
                    assert forall|a: int| 0 <= a < s.len() && a != i implies #[trigger] s[a].0 != k by {
                        if a < i {
                            assert(s[a].0 != s[i].0);
                        } else {
                            assert(s[i].0 != s[a].0);
                        }
                    }
                }
            },
        }
        assert(q[idx] == e);
        assert(key_at_most_once(q, k)) by {
            assert forall|a: int, b: int| 0 <= a < b < q.len() && #[trigger] q[a].0 == k implies #[trigger] q[b].0
                != k by {
                if a != idx {
                    assert(a < s.len());
                    assert(q[a] == s[a]);
                }
            }
        }
        assert(calls_for(calls.take(0), k) == 0);
        if q.len() > sweep_threshold() {
            q.lemma_filter_contains(live(t0), idx);
            lemma_filter_key_at_most_once(q, live(t0), k);
        } else {
            assert(q.contains(q[idx]));
        }
    } else {
        lemma_run_window(s, calls, k, max_requests, window_seconds, n - 1);
        let p = run_spec(s, calls.take(n - 1));
        let cnt = saturated(calls_for(calls.take(n - 1), k));
        let e = (k, t0 as int, cnt, w as int);
        let i = choose|i: int| 0 <= i < p.len() && p[i] == e;
        let c = calls[n - 1];
        assert(t0 <= c.3);
        assert(c.3 <= calls.last().3) by {
            if n - 1 < calls.len() - 1 {
                assert(calls[n - 1].3 <= calls[calls.len() - 1].3);
            }
        }
        lemma_step_keeps_window(p, k, i, c);
        lemma_prefix_step(s, calls, k, n - 1);
    }
}

/// Within one window, a key is allowed exactly as many requests as its
/// limit: in a run of requests that opens a fresh window for `k` and stays
/// within it, each request for `k` is allowed exactly when the requests for
/// `k` before it number fewer than `max_requests`, whatever requests for
/// other keys come between.
pub proof fn law_window_allows_max_requests(
    s: Seq<((u128, bool, u16, Seq<char>), int, int, int)>,
    calls: Seq<((u128, bool, u16, Seq<char>), u32, i64, i64)>,
    k: (u128, bool, u16, Seq<char>),
    max_requests: u32,
    window_seconds: i64,
    j: int,
)
    requires
        fresh_window_run(s, calls, k, max_requests, window_seconds),
        max_requests >= 1,
        0 <= j < calls.len(),
        calls[j].0 == k,
    ensures
        allowed_spec(run_spec(s, calls.take(j)), k, max_requests, window_seconds, calls[j].3)
            <==> calls_for(calls.take(j), k) + 1 <= max_requests,
{
    if j == 0 {
        assert(calls.take(0) =~= Seq::<((u128, bool, u16, Seq<char>), u32, i64, i64)>::empty());
        assert(run_spec(s, calls.take(0)) == s);
        assert(calls_for(calls.take(0), k) == 0);
    } else {
        lemma_run_window(s, calls, k, max_requests, window_seconds, j);
        let p = run_spec(s, calls.take(j));
        let e = (k, calls[0].3 as int, saturated(calls_for(calls.take(j), k)), window_seconds as int);
        let i = choose|i: int| 0 <= i < p.len() && p[i] == e;
        assert(calls[0].3 <= calls[j].3);
        assert(calls[j].3 <= calls.last().3) by {
            if j < calls.len() - 1 {
                assert(calls[j].3 <= calls[calls.len() - 1].3);
            }
        }
        lemma_step_keeps_window(p, k, i, calls[j]);
    }
}

} // verus!

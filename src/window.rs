//! A bounded sliding average of inter-arrival gaps.
use vstd::prelude::*;
use std::collections::VecDeque;

verus! {

/// How many of the most recent gaps the average covers.
pub const WINDOW_LEN: usize = 20;

/// The largest timestamp magnitude, in microseconds, that the window accepts.
pub const MAX_TIMESTAMP_US: i64 = 4503599627370496;

/// The largest gap magnitude that two accepted timestamps can give.
pub open spec fn max_delta() -> int {
    2 * MAX_TIMESTAMP_US
}

/// Integer division that truncates toward zero, for a positive divisor.
pub open spec fn tdiv(a: int, b: int) -> int {
    if a >= 0 {
        a / b
    } else {
        -((-a) / b)
    }
}

/// The sum of a sequence of gaps.
pub open spec fn sum_of(s: Seq<i64>) -> int
    decreases s.len(),
{
    if s.len() == 0 {
        0
    } else {
        sum_of(s.drop_last()) + s.last()
    }
}

/// The average after one more gap `delta`, from the average `avg` over `window`.
pub open spec fn next_average(avg: int, window: Seq<i64>, delta: int) -> int {
    if window.len() < WINDOW_LEN {
        tdiv(avg * window.len() + delta, window.len() + 1int)
    } else {
        tdiv(avg * WINDOW_LEN - window[0] + delta, WINDOW_LEN as int)
    }
}

/// The retained gaps after one more gap `delta`: the oldest leaves once the window is full.
pub open spec fn next_window(window: Seq<i64>, delta: i64) -> Seq<i64> {
    if window.len() < WINDOW_LEN {
        window.push(delta)
    } else {
        window.subrange(1, window.len() as int).push(delta)
    }
}

/// The gap from the previously accepted timestamp (zero for the first one).
pub open spec fn gap_from(prev: Option<i64>, ts: i64) -> int {
    match prev {
        Some(p) => ts - p,
        None => 0,
    }
}

/// Whether a timestamp lies in the range that the window accepts.
pub open spec fn timestamp_in_range(ts: int) -> bool {
    -MAX_TIMESTAMP_US <= ts <= MAX_TIMESTAMP_US
}

/// The window and average after feeding `deltas`, in order, to an empty window.
pub open spec fn replay(deltas: Seq<i64>) -> (Seq<i64>, int)
    decreases deltas.len(),
{
    if deltas.len() == 0 {
        (Seq::empty(), 0)
    } else {
        let prev = replay(deltas.drop_last());
        (
            next_window(prev.0, deltas.last()),
            next_average(prev.1, prev.0, deltas.last() as int),
        )
    }
}

/// The last `WINDOW_LEN` elements of `deltas` (all of them when there are fewer).
pub open spec fn most_recent(deltas: Seq<i64>) -> Seq<i64> {
    if deltas.len() <= WINDOW_LEN {
        deltas
    } else {
        deltas.subrange(deltas.len() - WINDOW_LEN, deltas.len() as int)
    }
}

/// Whether, after each prefix of `deltas`, the mean of the retained gaps is a whole number.
pub open spec fn whole_means(deltas: Seq<i64>) -> bool {
    forall|k: int|
        1 <= k <= deltas.len() ==> #[trigger] sum_of(most_recent(deltas.take(k))) % (
        most_recent(deltas.take(k)).len() as int) == 0
}

/// Replaying any sequence of gaps retains exactly its last `WINDOW_LEN` gaps, oldest first.
pub proof fn lemma_window_keeps_most_recent(deltas: Seq<i64>)
    ensures
        replay(deltas).0 == most_recent(deltas),
    decreases deltas.len(),
{
    if deltas.len() > 0 {
        let d = deltas.drop_last();
        lemma_window_keeps_most_recent(d);
        assert(next_window(most_recent(d), deltas.last()) =~= most_recent(deltas));
    }
}

/// The incrementally maintained average equals the mean of the retained gaps computed
/// directly, at every step, for every sequence of gaps on which each of those means is
/// a whole number. Where one is not, truncation at each step may drift from the direct
/// mean (gaps 1, 2, 3 give 1 where the mean is 2).
pub proof fn lemma_average_is_window_mean(deltas: Seq<i64>)
    requires
        whole_means(deltas),
    ensures
        deltas.len() > 0 ==> replay(deltas).1 == sum_of(most_recent(deltas)) / (most_recent(
            deltas,
        ).len() as int),
        replay(deltas).1 * most_recent(deltas).len() == sum_of(most_recent(deltas)),
    decreases deltas.len(),
{
    lemma_window_keeps_most_recent(deltas);
    if deltas.len() > 0 {
        let d = deltas.drop_last();
        let x = deltas.last();
        assert forall|k: int| 1 <= k <= d.len() implies #[trigger] sum_of(most_recent(d.take(k)))
            % (most_recent(d.take(k)).len() as int) == 0 by {
            assert(d.take(k) =~= deltas.take(k));
        }
        lemma_average_is_window_mean(d);
        lemma_window_keeps_most_recent(d);
        let w = most_recent(d);
        let avg = replay(d).1;
        let s2 = most_recent(deltas);
        let l = s2.len() as int;
        let n = w.len() as int;
        assert(deltas.take(deltas.len() as int) =~= deltas);
        assert(sum_of(s2) % l == 0);
        assert(s2 =~= next_window(w, x));
        assert(s2.drop_last() =~= if n < WINDOW_LEN { w } else { w.subrange(1, n) });
        if n >= WINDOW_LEN {
            lemma_sum_drop_first(w);
        }
        let num = if n < WINDOW_LEN {
            avg * n + x
        } else {
            avg * WINDOW_LEN - w[0] + x
        };
        assert(num == sum_of(s2));
        vstd::arithmetic::div_mod::lemma_fundamental_div_mod(num, l);
        let q = num / l;
        assert(num == l * q);
        if q >= 0 {
            vstd::arithmetic::div_mod::lemma_div_by_multiple(q, l);
            assert(num == q * l) by (nonlinear_arith)
                requires num == l * q;
            assert(num >= 0) by (nonlinear_arith)
                requires num == l * q, q >= 0, l > 0;
        } else {
            vstd::arithmetic::div_mod::lemma_div_by_multiple(-q, l);
            assert(-num == (-q) * l) by (nonlinear_arith)
                requires num == l * q;
            assert(num < 0) by (nonlinear_arith)
                requires num == l * q, q < 0, l > 0;
        }
        assert(tdiv(num, l) == q);
        assert(replay(deltas).1 == q);
        assert(q * l == num) by (nonlinear_arith)
            requires num == l * q;
    }
}

/// Moving average of the last `WINDOW_LEN` gaps between accepted timestamps.
pub struct TimingWindow {
    prev: Option<i64>,
    deltas: VecDeque<i64>,
    avg: i64,
    history: Ghost<Seq<i64>>,
}

proof fn lemma_sum_drop_first(s: Seq<i64>)
    requires
        s.len() > 0,
    ensures
        sum_of(s) == s[0] + sum_of(s.subrange(1, s.len() as int)),
    decreases s.len(),
{
    if s.len() > 1 {
        let t = s.subrange(1, s.len() as int);
        lemma_sum_drop_first(s.drop_last());
        assert(s.drop_last().subrange(1, s.len() - 1) =~= t.drop_last());
        assert(s.drop_last()[0] == s[0]);
        assert(t.last() == s.last());
    } else {
        assert(s.drop_last() =~= Seq::<i64>::empty());
        assert(s.subrange(1, s.len() as int) =~= Seq::<i64>::empty());
    }
}

proof fn lemma_sum_bound(s: Seq<i64>, b: int)
    requires
        forall|i: int| 0 <= i < s.len() ==> -b <= #[trigger] s[i] <= b,
    ensures
        -b * s.len() <= sum_of(s) <= b * s.len(),
    decreases s.len(),
{
    if s.len() > 0 {
        lemma_sum_bound(s.drop_last(), b);
        assert(-b * s.len() == -b * (s.len() - 1) - b) by (nonlinear_arith);
        assert(b * s.len() == b * (s.len() - 1) + b) by (nonlinear_arith);
    }
}

/// Bounds of truncating division by a positive divisor.
proof fn lemma_tdiv(a: int, b: int)
    requires
        b > 0,
    ensures
        a >= 0 ==> 0 <= a - b * tdiv(a, b) < b,
        a < 0 ==> -b < a - b * tdiv(a, b) <= 0,
        a >= 0 ==> tdiv(a, b) >= 0,
        a < 0 ==> tdiv(a, b) <= 0,
{
    if a >= 0 {
        vstd::arithmetic::div_mod::lemma_fundamental_div_mod(a, b);
        vstd::arithmetic::div_mod::lemma_mod_bound(a, b);
        vstd::arithmetic::div_mod::lemma_div_pos_is_pos(a, b);
    } else {
        vstd::arithmetic::div_mod::lemma_fundamental_div_mod(-a, b);
        vstd::arithmetic::div_mod::lemma_mod_bound(-a, b);
        vstd::arithmetic::div_mod::lemma_div_pos_is_pos(-a, b);
        let q = (-a) / b;
        assert(b * (-q) == -(b * q)) by (nonlinear_arith);
    }
}

/// With the gap `n - q * b` bounded as truncation leaves it, `|q| <= m` when `|n| <= m * b`.
proof fn lemma_quotient_bound(n: int, b: int, q: int, m: int)
    requires
        b > 0,
        m >= 0,
        -m * b <= n <= m * b,
        n >= 0 ==> 0 <= n - b * q < b && q >= 0,
        n < 0 ==> -b < n - b * q <= 0 && q <= 0,
    ensures
        -m <= q <= m,
{
    if q > m {
        assert(b * q >= b * (m + 1)) by (nonlinear_arith)
            requires q > m, b > 0;
        assert(b * (m + 1) == m * b + b) by (nonlinear_arith);
    }
    if q < -m {
        assert(b * q <= b * (-m - 1)) by (nonlinear_arith)
            requires q < -m, b > 0;
        assert(b * (-m - 1) == -m * b - b) by (nonlinear_arith);
    }
}

/// One step of the window keeps the gaps bounded, and the average and its error within
/// the bounds of the invariant.
proof fn lemma_step(w: Seq<i64>, avg: int, delta: i64)
    requires
        w.len() <= WINDOW_LEN,
        forall|i: int| 0 <= i < w.len() ==> -max_delta() <= #[trigger] w[i] <= max_delta(),
        -(2 * max_delta() + 1) <= avg <= 2 * max_delta() + 1,
        -(w.len() * (max_delta() + 1)) <= avg * w.len() - sum_of(w) <= w.len() * (max_delta() + 1),
        -max_delta() <= delta <= max_delta(),
    ensures
        ({
            let s2 = next_window(w, delta);
            let a2 = next_average(avg, w, delta as int);
            let l = s2.len();
            &&& l <= WINDOW_LEN
            &&& forall|i: int| 0 <= i < l ==> -max_delta() <= #[trigger] s2[i] <= max_delta()
            &&& -(2 * max_delta() + 1) <= a2 <= 2 * max_delta() + 1
            &&& -(l * (max_delta() + 1)) <= a2 * l - sum_of(s2) <= l * (max_delta() + 1)
        }),
{
    let b = max_delta();
    let n = w.len() as int;
    let s2 = next_window(w, delta);
    let l = s2.len() as int;
    let e = avg * n - sum_of(w);
    let num = if n < WINDOW_LEN {
        avg * n + delta
    } else {
        avg * WINDOW_LEN - w[0] + delta
    };
    assert(s2.drop_last() =~= if n < WINDOW_LEN { w } else { w.subrange(1, n) });
    assert(sum_of(s2) == sum_of(s2.drop_last()) + delta);
    if n >= WINDOW_LEN {
        lemma_sum_drop_first(w);
    }
    assert(num == sum_of(s2) + e);
    assert forall|i: int| 0 <= i < l implies -b <= #[trigger] s2[i] <= b by {
        if i < l - 1 {
            if n < WINDOW_LEN {
                assert(s2[i] == w[i]);
            } else {
                assert(s2[i] == w[i + 1]);
            }
        }
    }
    lemma_sum_bound(s2, b);
    let q = tdiv(num, l);
    assert(q == next_average(avg, w, delta as int));
    lemma_tdiv(num, l);
    assert(-(l * (b + 1)) <= e <= l * (b + 1)) by (nonlinear_arith)
        requires -(n * (b + 1)) <= e <= n * (b + 1), n <= l, b > 0;
    assert(-(2 * b + 1) * l <= num <= (2 * b + 1) * l) by (nonlinear_arith)
        requires num == sum_of(s2) + e, -b * l <= sum_of(s2) <= b * l,
            -(l * (b + 1)) <= e <= l * (b + 1);
    lemma_quotient_bound(num, l, q, 2 * b + 1);
    let e2 = q * l - sum_of(s2);
    assert(-(l * (b + 1)) <= e2 <= l * (b + 1)) by (nonlinear_arith)
        requires e2 == q * l - sum_of(s2), num == sum_of(s2) + e, l >= 1, b > 0,
            -(l * (b + 1)) <= e <= l * (b + 1), -b * l <= sum_of(s2) <= b * l,
            num >= 0 ==> 0 <= num - l * q < l,
            num < 0 ==> -l < num - l * q <= 0;
}

impl TimingWindow {
    /// The timestamp of the previously accepted frame, if any.
    pub closed spec fn prev_spec(&self) -> Option<i64> {
        self.prev
    }

    /// The retained gaps, oldest first.
    pub closed spec fn window_spec(&self) -> Seq<i64> {
        self.deltas@
    }

    /// Every gap accepted since the window was created or reset, oldest first.
    pub closed spec fn history(&self) -> Seq<i64> {
        self.history@
    }

    /// The current average.
    pub closed spec fn avg_spec(&self) -> int {
        self.avg as int
    }

    /// The window's invariant: at most `WINDOW_LEN` bounded gaps, an average whose
    /// accumulated truncation error stays bounded, and an empty state before the first gap.
    pub closed spec fn wf(&self) -> bool {
        let n = self.deltas@.len();
        &&& n <= WINDOW_LEN
        &&& forall|i: int| 0 <= i < n ==> -max_delta() <= #[trigger] self.deltas@[i] <= max_delta()
        &&& -(2 * max_delta() + 1) <= self.avg <= 2 * max_delta() + 1
        &&& -(n * (max_delta() + 1)) <= self.avg * n - sum_of(self.deltas@) <= n * (max_delta() + 1)
        &&& replay(self.history@) == (self.deltas@, self.avg as int)
        &&& match self.prev {
            Some(p) => timestamp_in_range(p as int) && n > 0,
            None => n == 0 && self.avg == 0,
        }
    }

    /// The window holds the last `WINDOW_LEN` gaps it has accepted, and its average is the
    /// one that the incremental formula gives over all of them. Where every mean of the
    /// retained gaps along the way was a whole number, the average is the direct mean of
    /// the retained gaps.
    pub proof fn lemma_state_follows_history(&self)
        requires
            self.wf(),
        ensures
            self.window_spec() == most_recent(self.history()),
            self.avg_spec() == replay(self.history()).1,
            whole_means(self.history()) && self.history().len() > 0 ==> self.avg_spec() == sum_of(
                self.window_spec(),
            ) / (self.window_spec().len() as int),
    {
        lemma_window_keeps_most_recent(self.history@);
        if whole_means(self.history@) {
            lemma_average_is_window_mean(self.history@);
        }
    }

    /// A window that has seen no frame.
    pub fn new() -> (w: TimingWindow)
        ensures
            w.wf(),
            w.prev_spec() is None,
            w.history().len() == 0,
            w.window_spec().len() == 0,
            w.avg_spec() == 0,
    {
        TimingWindow { prev: None, deltas: VecDeque::new(), avg: 0, history: Ghost(Seq::empty()) }
    }

    /// Forgets every gap and the previous timestamp.
    pub fn reset(&mut self)
        ensures
            final(self).wf(),
            final(self).prev_spec() is None,
            final(self).history().len() == 0,
            final(self).window_spec().len() == 0,
            final(self).avg_spec() == 0,
    {
        self.prev = None;
        self.deltas = VecDeque::new();
        self.avg = 0;
        self.history = Ghost(Seq::empty());
    }

    /// The current average.
    pub fn average(&self) -> (r: i64)
        ensures
            r == self.avg_spec(),
    {
        self.avg
    }

    /// The timestamp of the previously accepted frame, if any.
    pub fn last_timestamp(&self) -> (r: Option<i64>)
        ensures
            r == self.prev_spec(),
    {
        self.prev
    }

    /// The retained gaps, oldest first.
    pub fn samples(&self) -> (r: Vec<i64>)
        ensures
            r@ == self.window_spec(),
    {
        let mut out: Vec<i64> = Vec::new();
        let mut i: usize = 0;
        while i < self.deltas.len()
            invariant
                i <= self.deltas@.len(),
                out@ == self.deltas@.take(i as int),
            decreases self.deltas@.len() - i,
        {
            out.push(self.deltas[i]);
            i = i + 1;
            assert(out@ =~= self.deltas@.take(i as int));
        }
        assert(self.deltas@.take(i as int) =~= self.deltas@);
        out
    }

    /// Accepts the frame captured at `ts` (microseconds) and returns the gap from the
    /// previous one together with the updated average.
    pub fn update(&mut self, ts: i64) -> (r: (i64, i64))
        requires
            old(self).wf(),
            timestamp_in_range(ts as int),
        ensures
            final(self).wf(),
            r.0 == gap_from(old(self).prev_spec(), ts),
            r.1 == final(self).avg_spec(),
            final(self).prev_spec() == Some(ts),
            final(self).history() == old(self).history().push(r.0),
            final(self).window_spec() == next_window(old(self).window_spec(), r.0),
            final(self).avg_spec() == next_average(old(self).avg_spec(), old(self).window_spec(), r.0 as int),
    {
        let delta: i64 = match self.prev {
            Some(p) => ts - p,
            None => 0,
        };
        let ghost old_w = self.deltas@;
        let ghost old_avg = self.avg as int;
        let ghost b = max_delta();
        proof {
            lemma_step(old_w, old_avg, delta);
        }
        let n = self.deltas.len();
        let num: i64;
        let den: i64;
        if n < WINDOW_LEN {
            assert(-(2 * b + 1) * 20 <= old_avg * n <= (2 * b + 1) * 20) by (nonlinear_arith)
                requires -(2 * b + 1) <= old_avg <= 2 * b + 1, 0 <= n <= 20, b > 0;
            num = self.avg * (n as i64) + delta;
            den = (n as i64) + 1;
            self.deltas.push_back(delta);
        } else {
            assert(-(2 * b + 1) * 20 <= old_avg * 20 <= (2 * b + 1) * 20) by (nonlinear_arith)
                requires -(2 * b + 1) <= old_avg <= 2 * b + 1, b > 0;
            let evicted = match self.deltas.pop_front() {
                Some(x) => x,
                None => 0,
            };
            num = self.avg * 20 - evicted + delta;
            den = 20;
            self.deltas.push_back(delta);
        }
        let q: i64 = if num >= 0 {
            num / den
        } else {
            -((-num) / den)
        };
        assert(self.deltas@ =~= next_window(old_w, delta));
        self.avg = q;
        self.prev = Some(ts);
        proof {
            let h = self.history@.push(delta);
            assert(h.drop_last() =~= self.history@);
            self.history = Ghost(h);
        }
        (delta, q)
    }
}

} // verus!

//! Rate thresholds: "N events within a sliding window of W milliseconds".

use vstd::prelude::*;

verus! {

/// A rate threshold: an alert fires only when `count` events fall within a
/// sliding window of `window_ms` milliseconds ending at the current instant.
#[derive(Debug, Clone, Copy, PartialEq, Eq, Structural)]
pub struct Threshold {
    pub count: u32,
    pub window_ms: u64,
}

/// An event at time `t` is still inside the window `[now - window_ms, now]`.
pub open spec fn in_window(t: u64, window_ms: u64, now: u64) -> bool {
    t + window_ms >= now
}

/// Timestamps are in non-decreasing order.
pub open spec fn sorted_times(s: Seq<u64>) -> bool {
    forall|i: int, j: int| 0 <= i <= j < s.len() ==> s[i] <= s[j]
}

/// Drop expired entries from the front of the deque, exactly as the tracker
/// does: evict while the oldest entry lies outside the window.
pub open spec fn drop_expired(s: Seq<u64>, window_ms: u64, now: u64) -> Seq<u64>
    decreases s.len(),
{
    if s.len() == 0 {
        s
    } else if !in_window(s[0], window_ms, now) {
        drop_expired(s.subrange(1, s.len() as int), window_ms, now)
    } else {
        s
    }
}

/// Sliding-window event tracker for one rule (or one health check).
///
/// Keeps a monotone deque of event timestamps; on each event the expired
/// entries are evicted from the front, and the tracker fires when at least
/// `threshold.count` timestamps remain.  The deque is cleared on fire so that
/// the next alert needs a fresh batch of events.
#[derive(Debug, Clone)]
pub struct ThresholdTracker {
    pub threshold: Threshold,
    pub times_dq: Vec<u64>,
}

impl ThresholdTracker {
    /// The deque holds timestamps in event order.
    pub open spec fn times(&self) -> Seq<u64> {
        self.times_dq@
    }

    pub open spec fn wf(&self) -> bool {
        sorted_times(self.times())
    }

    /// The timestamps still inside the window after an event at `now`.
    pub open spec fn retained(&self, now: u64) -> Seq<u64> {
        drop_expired(self.times().push(now), self.threshold.window_ms, now)
    }

    /// Whether an event at `now` makes the tracker fire.
    pub open spec fn spec_fires(&self, now: u64) -> bool {
        self.retained(now).len() >= self.threshold.count
    }

    pub fn new(threshold: Threshold) -> (r: Self)
        ensures
            r.threshold == threshold,
            r.times() == Seq::<u64>::empty(),
            r.wf(),
    {
        ThresholdTracker { threshold, times_dq: Vec::new() }
    }

    /// Forget all recorded events (the deque is emptied).
    pub fn clear_times(&mut self)
        ensures
            final(self).threshold == old(self).threshold,
            final(self).times() == Seq::<u64>::empty(),
            final(self).wf(),
    {
        self.times_dq.clear();
    }

    /// Record an event at `now_ms`: append it, evict entries older than
    /// `now_ms - window_ms` from the front, and fire iff `count` or more
    /// remain.  On fire the deque is cleared.
    #[verifier::loop_isolation(false)]
    pub fn record(&mut self, now_ms: u64) -> (fire: bool)
        requires
            old(self).wf(),
            forall|i: int| 0 <= i < old(self).times().len() ==> old(self).times()[i] <= now_ms,
        ensures
            final(self).threshold == old(self).threshold,
            fire == old(self).spec_fires(now_ms),
            fire ==> final(self).times() == Seq::<u64>::empty(),
            !fire ==> final(self).times() == old(self).retained(now_ms),
            final(self).wf(),
            forall|i: int| 0 <= i < final(self).times().len() ==> final(self).times()[i] <= now_ms,
    {
        let ghost orig = self.times_dq@.push(now_ms);
        let ghost thr = self.threshold;
        let window_ms = self.threshold.window_ms;
        self.times_dq.push(now_ms);
        while self.times_dq.len() > 0 && (self.times_dq[0] as u128) + (window_ms as u128)
            < (now_ms as u128)
            invariant
                self.threshold == thr,
                sorted_times(self.times_dq@),
                forall|i: int| 0 <= i < self.times_dq@.len() ==> self.times_dq@[i] <= now_ms,
                drop_expired(self.times_dq@, window_ms, now_ms) == drop_expired(
                    orig,
                    window_ms,
                    now_ms,
                ),
            decreases self.times_dq.len(),
        {
            proof {
                assert(self.times_dq@.subrange(1, self.times_dq@.len() as int) == drop_first_of(
                    self.times_dq@,
                ));
            }
            let ghost pre = self.times_dq@;
            self.times_dq.remove(0);
            proof {
                assert(self.times_dq@ == pre.subrange(1, pre.len() as int));
            }
        }
        proof {
            assert(drop_expired(self.times_dq@, window_ms, now_ms) == self.times_dq@);
        }
        let fire = self.times_dq.len() >= self.threshold.count as usize;
        if fire {
            self.times_dq.clear();
        }
        fire
    }
}

/// Helper naming `s.subrange(1, s.len())` so the eviction loop can talk about it.
pub open spec fn drop_first_of(s: Seq<u64>) -> Seq<u64> {
    s.subrange(1, s.len() as int)
}

/// Every timestamp retained after an event at `now` lies inside the window;
/// together with `lemma_retained_complete` this pins the retained deque down
/// to exactly the in-window events.
pub proof fn lemma_retained_sound(s: Seq<u64>, window_ms: u64, now: u64)
    requires
        sorted_times(s),
    ensures
        forall|i: int|
            0 <= i < drop_expired(s, window_ms, now).len() ==> in_window(
                #[trigger] drop_expired(s, window_ms, now)[i],
                window_ms,
                now,
            ),
    decreases s.len(),
{
    let kept = drop_expired(s, window_ms, now);
    if s.len() == 0 {
        assert(kept.len() == 0);
    } else if !in_window(s[0], window_ms, now) {
        let rest = s.subrange(1, s.len() as int);
        assert(sorted_times(rest));
        lemma_retained_sound(rest, window_ms, now);
        assert(kept == drop_expired(rest, window_ms, now));
    } else {
        assert(kept == s);
        assert forall|i: int| 0 <= i < kept.len() implies in_window(
            kept[i],
            window_ms,
            now,
        ) by {
            assert(s[0] <= s[i]);
        }
    }
}

/// Eviction from the front of a sorted deque drops exactly the expired
/// entries: what remains is the filter of the whole deque by the window.
pub proof fn lemma_retained_complete(s: Seq<u64>, window_ms: u64, now: u64)
    requires
        sorted_times(s),
    ensures
        drop_expired(s, window_ms, now) == s.filter(|t: u64| in_window(t, window_ms, now)),
    decreases s.len(),
{
    let pred = |t: u64| in_window(t, window_ms, now);
    if s.len() == 0 {
        reveal(Seq::filter);
        assert(s.filter(pred) == s);
    } else if !in_window(s[0], window_ms, now) {
        let rest = s.subrange(1, s.len() as int);
        assert(sorted_times(rest));
        lemma_retained_complete(rest, window_ms, now);
        assert(s == s.subrange(0, 1) + rest);
        Seq::filter_distributes_over_add(s.subrange(0, 1), rest, pred);
        assert(s.subrange(0, 1).filter(pred) =~= Seq::<u64>::empty()) by {
            reveal_with_fuel(Seq::filter, 3);
            assert(s.subrange(0, 1).drop_last() =~= Seq::<u64>::empty());
            assert(s.subrange(0, 1).last() == s[0]);
            assert(!pred(s[0]));
        }
        assert(s.filter(pred) =~= rest.filter(pred));
    } else {
        assert(forall|i: int| 0 <= i < s.len() ==> pred(s[i]));
        lemma_filter_all_kept(s, pred);
    }
}

/// A filter whose predicate holds of every element keeps the sequence whole.
proof fn lemma_filter_all_kept(s: Seq<u64>, pred: spec_fn(u64) -> bool)
    requires
        forall|i: int| 0 <= i < s.len() ==> pred(s[i]),
    ensures
        s.filter(pred) == s,
    decreases s.len(),
{
    reveal(Seq::filter);
    if s.len() > 0 {
        assert(forall|i: int| 0 <= i < s.drop_last().len() ==> pred(s.drop_last()[i]));
        lemma_filter_all_kept(s.drop_last(), pred);
        assert(s.filter(pred) =~= s);
    }
}

/// THRESHOLD LAW: for a tracker with threshold `(N, W)`, an event at `now`
/// fires iff at least `N` of the recorded events (the new one included) fall
/// within the window `[now - W, now]`; after a fire the deque is empty, so
/// the next alert needs a fresh `N` events within `W`.
pub proof fn lemma_threshold_fires_iff_in_window(tr: ThresholdTracker, now: u64)
    requires
        tr.wf(),
        forall|i: int| 0 <= i < tr.times().len() ==> tr.times()[i] <= now,
    ensures
        tr.spec_fires(now) <==> tr.times().push(now).filter(
            |t: u64| in_window(t, tr.threshold.window_ms, now),
        ).len() >= tr.threshold.count,
{
    let s = tr.times().push(now);
    assert(sorted_times(s));
    lemma_retained_complete(s, tr.threshold.window_ms, now);
}

/// Whitespace, as the threshold grammar accepts it between tokens.
pub open spec fn is_space(c: char) -> bool {
    c == ' ' || c == '\t' || c == '\n' || c == '\r' || c == '\u{b}' || c == '\u{c}'
}

/// A decimal digit.
pub open spec fn is_digit(c: char) -> bool {
    '0' <= c && c <= '9'
}

/// End of the run of whitespace starting at `j`.
pub open spec fn ws_end(s: Seq<char>, j: int) -> int
    decreases s.len() - j,
{
    if j < 0 || j >= s.len() {
        j
    } else if is_space(s[j]) {
        ws_end(s, j + 1)
    } else {
        j
    }
}

/// End of the run of digits starting at `j`.
pub open spec fn digits_end(s: Seq<char>, j: int) -> int
    decreases s.len() - j,
{
    if j < 0 || j >= s.len() {
        j
    } else if is_digit(s[j]) {
        digits_end(s, j + 1)
    } else {
        j
    }
}

/// Numeric value of the digits `s[j..e)`.
pub open spec fn digits_val(s: Seq<char>, j: int, e: int) -> int
    decreases e - j,
{
    if e <= j {
        0
    } else {
        digits_val(s, j, e - 1) * 10 + (s[e - 1] as u32 - 48)
    }
}

/// Only whitespace from `j` to the end of the string.
pub open spec fn tail_ws_only(s: Seq<char>, j: int) -> bool {
    ws_end(s, j) == s.len()
}

/// The threshold grammar "N in V{ms|s|m|h}", with optional surrounding
/// whitespace: the count and the window in milliseconds, as unbounded
/// numbers, or nothing when the string does not match.
pub open spec fn parse_threshold_spec(s: Seq<char>) -> Option<(int, int)> {
    let a = ws_end(s, 0);
    let b = digits_end(s, a);
    let c = ws_end(s, b);
    let d = ws_end(s, c + 2);
    let e = digits_end(s, d);
    if b == a || c == b || !(c + 2 <= s.len() && s[c] == 'i' && s[c + 1] == 'n') || d == c + 2 || e
        == d {
        None
    } else {
        let count = digits_val(s, a, b);
        let value = digits_val(s, d, e);
        if e + 1 < s.len() && s[e] == 'm' && s[e + 1] == 's' && tail_ws_only(s, e + 2) {
            Some((count, value))
        } else if e < s.len() && s[e] == 's' && tail_ws_only(s, e + 1) {
            Some((count, value * 1000))
        } else if e < s.len() && s[e] == 'm' && tail_ws_only(s, e + 1) {
            Some((count, value * 60000))
        } else if e < s.len() && s[e] == 'h' && tail_ws_only(s, e + 1) {
            Some((count, value * 3600000))
        } else {
            None
        }
    }
}

/// The threshold string does not match the grammar, or its numbers do not
/// fit the machine types.
#[derive(Debug, Clone, Copy, PartialEq, Eq, Structural)]
pub struct ThresholdParseError;

/// `ws_end` / `digits_end` bounds and content.
proof fn lemma_scan_props(s: Seq<char>, j: int)
    requires
        0 <= j <= s.len(),
    ensures
        j <= ws_end(s, j) <= s.len(),
        forall|l: int| j <= l < ws_end(s, j) ==> is_space(s[l]),
        ws_end(s, j) < s.len() ==> !is_space(s[ws_end(s, j)]),
        j <= digits_end(s, j) <= s.len(),
        forall|l: int| j <= l < digits_end(s, j) ==> is_digit(s[l]),
        digits_end(s, j) < s.len() ==> !is_digit(s[digits_end(s, j)]),
    decreases s.len() - j,
{
    if j < s.len() && (is_space(s[j]) || is_digit(s[j])) {
        lemma_scan_props(s, j + 1);
    }
}

/// Digit values are non-negative and grow with each further digit.
proof fn lemma_digits_val_nonneg(s: Seq<char>, j: int, e: int)
    requires
        forall|l: int| j <= l < e ==> is_digit(s[l]),
    ensures
        digits_val(s, j, e) >= 0,
    decreases e - j,
{
    if e > j {
        lemma_digits_val_nonneg(s, j, e - 1);
    }
}

impl Threshold {
    /// Parse a threshold string like "5 in 2s" ("ms", "s", "m" and "h" are
    /// the window units); numbers that do not fit `u32` (count) or a `u64`
    /// of milliseconds (window) are rejected.
    #[verifier::loop_isolation(false)]
    #[verifier::rlimit(30)]
    pub fn parse(s: &str) -> (r: Result<Threshold, ThresholdParseError>)
        ensures
            match parse_threshold_spec(s@) {
                Option::Some(cw) => if cw.0 <= u32::MAX as int && cw.1 <= u64::MAX as int {
                    r matches Ok(t) && t.count == cw.0 && t.window_ms == cw.1
                } else {
                    r is Err
                },
                Option::None => r is Err,
            },
    {
        let chars = crate::matching::str_chars_vec(s);
        let n = chars.len();
        proof {
            lemma_scan_props(chars@, 0);
        }
        let a = scan_ws(&chars, 0);
        let b = scan_digits(&chars, a);
        if b == a {
            return Err(ThresholdParseError);
        }
        let c = scan_ws(&chars, b);
        if c == b || n - c < 2 || chars[c] != 'i' || chars[c + 1] != 'n' {
            return Err(ThresholdParseError);
        }
        let d = scan_ws(&chars, c + 2);
        if d == c + 2 {
            return Err(ThresholdParseError);
        }
        let e = scan_digits(&chars, d);
        if e == d {
            return Err(ThresholdParseError);
        }
        proof {
            lemma_scan_props(chars@, a as int);
            lemma_scan_props(chars@, d as int);
        }
        let count_val = match scan_value(&chars, a, b) {
            Option::Some(v) => v,
            Option::None => {
                return Err(ThresholdParseError);
            },
        };
        if count_val > u32::MAX as u64 {
            return Err(ThresholdParseError);
        }
        let value = match scan_value(&chars, d, e) {
            Option::Some(v) => v,
            Option::None => {
                return Err(ThresholdParseError);
            },
        };
        let count = count_val as u32;
        if n - e > 1 && chars[e] == 'm' && chars[e + 1] == 's' && scan_ws(&chars, e + 2) == n {
            Ok(Threshold { count, window_ms: value })
        } else if e < n && chars[e] == 's' && scan_ws(&chars, e + 1) == n {
            if value > u64::MAX / 1000 {
                return Err(ThresholdParseError);
            }
            Ok(Threshold { count, window_ms: value * 1000 })
        } else if e < n && chars[e] == 'm' && scan_ws(&chars, e + 1) == n {
            if value > u64::MAX / 60000 {
                return Err(ThresholdParseError);
            }
            Ok(Threshold { count, window_ms: value * 60000 })
        } else if e < n && chars[e] == 'h' && scan_ws(&chars, e + 1) == n {
            if value > u64::MAX / 3600000 {
                return Err(ThresholdParseError);
            }
            Ok(Threshold { count, window_ms: value * 3600000 })
        } else {
            Err(ThresholdParseError)
        }
    }
}

/// Scan whitespace from `j`; answers `ws_end`.
fn scan_ws(chars: &Vec<char>, j: usize) -> (r: usize)
    requires
        j <= chars@.len(),
    ensures
        r == ws_end(chars@, j as int),
        j <= r <= chars@.len(),
{
    let mut e: usize = j;
    while e < chars.len() && (chars[e] == ' ' || chars[e] == '\t' || chars[e] == '\n' || chars[e]
        == '\r' || chars[e] == '\u{b}' || chars[e] == '\u{c}')
        invariant
            j <= e <= chars@.len(),
            ws_end(chars@, j as int) == ws_end(chars@, e as int),
        decreases chars@.len() - e,
    {
        e += 1;
    }
    proof {
        assert(ws_end(chars@, e as int) == e);
    }
    e
}

/// Scan digits from `j`; answers `digits_end`.
fn scan_digits(chars: &Vec<char>, j: usize) -> (r: usize)
    requires
        j <= chars@.len(),
    ensures
        r == digits_end(chars@, j as int),
        j <= r <= chars@.len(),
{
    let mut e: usize = j;
    while e < chars.len() && '0' <= chars[e] && chars[e] <= '9'
        invariant
            j <= e <= chars@.len(),
            digits_end(chars@, j as int) == digits_end(chars@, e as int),
        decreases chars@.len() - e,
    {
        e += 1;
    }
    proof {
        assert(digits_end(chars@, e as int) == e);
    }
    e
}

/// Numeric value of the digits `chars[j..e)`, or nothing when it does not
/// fit a `u64`.
#[verifier::loop_isolation(false)]
fn scan_value(chars: &Vec<char>, j: usize, e: usize) -> (r: Option<u64>)
    requires
        j <= e <= chars@.len(),
        forall|l: int| j <= l < e ==> is_digit(chars@[l]),
    ensures
        r matches Some(v) ==> v == digits_val(chars@, j as int, e as int) && digits_val(
            chars@,
            j as int,
            e as int,
        ) <= u64::MAX,
        r is None ==> digits_val(chars@, j as int, e as int) > u64::MAX,
{
    let mut acc: u64 = 0;
    let mut l: usize = j;
    while l < e
        invariant
            j <= l <= e,
            acc == digits_val(chars@, j as int, l as int),
        decreases e - l,
    {
        let c = chars[l];
        proof {
            assert(is_digit(chars@[l as int]));
            lemma_digits_val_nonneg(chars@, j as int, l as int);
        }
        let digit = (c as u32 - 48) as u64;
        if acc > (u64::MAX - digit) / 10 {
            proof {
                lemma_digits_val_grows(chars@, j as int, l + 1, e as int);
            }
            return None;
        }
        acc = acc * 10 + digit;
        l += 1;
    }
    Some(acc)
}

/// With further digits appended, the value never shrinks.
proof fn lemma_digits_val_grows(s: Seq<char>, j: int, m: int, e: int)
    requires
        j <= m <= e,
        forall|l: int| j <= l < e ==> is_digit(s[l]),
    ensures
        digits_val(s, j, e) >= digits_val(s, j, m),
    decreases e - m,
{
    if m < e {
        lemma_digits_val_grows(s, j, m, e - 1);
        lemma_digits_val_nonneg(s, j, e - 1);
    }
}

} // verus!

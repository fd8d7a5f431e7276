//! Fixed-length histories of throughput samples, the recent-second window
//! over them, and the text of throughput labels.
use bounded_vec_deque::BoundedVecDeque;

use vstd::prelude::*;

verus! {

#[verifier::external_type_specification]
#[verifier::external_body]
#[verifier::reject_recursive_types(T)]
pub struct ExBoundedVecDeque<T>(BoundedVecDeque<T>);

/// The samples a history holds, oldest first.
pub uninterp spec fn history_items(d: BoundedVecDeque<u64>) -> Seq<u64>;

/// The number of samples a history keeps at most.
pub uninterp spec fn history_max_len(d: BoundedVecDeque<u64>) -> nat;

/// Calls `BoundedVecDeque::from_iter` on `n` copies of `value` with the
/// length limit `n`: the deque holds those `n` samples and keeps at most `n`.
#[verifier::external_body]
pub(crate) fn history_filled(value: u64, n: usize) -> (d: BoundedVecDeque<u64>)
    ensures
        history_items(d) == Seq::new(n as nat, |_i: int| value),
        history_max_len(d) == n,
{
    BoundedVecDeque::from_iter(std::iter::repeat_n(value, n), n)
}

/// Calls `BoundedVecDeque::push_back`. With a limit of 0 nothing is stored
/// and `value` comes back; otherwise `value` is appended, and when the deque
/// already held at least its limit, its oldest sample is removed first and
/// returned.
#[verifier::external_body]
pub(crate) fn history_push(d: &mut BoundedVecDeque<u64>, value: u64) -> (displaced: Option<u64>)
    ensures
        history_max_len(*final(d)) == history_max_len(*old(d)),
        history_max_len(*old(d)) == 0 ==> history_items(*final(d)) == history_items(*old(d))
            && displaced == Some(value),
        history_max_len(*old(d)) > 0 && history_items(*old(d)).len() >= history_max_len(*old(d))
            ==> history_items(*final(d)) == history_items(*old(d)).drop_first().push(value)
            && displaced == Some(history_items(*old(d))[0]),
        history_max_len(*old(d)) > 0 && history_items(*old(d)).len() < history_max_len(*old(d))
            ==> history_items(*final(d)) == history_items(*old(d)).push(value) && displaced
            is None,
{
    d.push_back(value)
}

/// Calls `VecDeque::len` through the deque: the number of samples held.
#[verifier::external_body]
pub(crate) fn history_len(d: &BoundedVecDeque<u64>) -> (n: usize)
    ensures
        n == history_items(*d).len(),
{
    d.len()
}

/// Calls the deque's indexing: the sample at position `i`, oldest first.
#[verifier::external_body]
pub(crate) fn history_get(d: &BoundedVecDeque<u64>, i: usize) -> (v: u64)
    requires
        i < history_items(*d).len(),
    ensures
        v == history_items(*d)[i as int],
{
    d[i]
}

/// The sum of a run of samples.
pub open spec fn samples_sum(s: Seq<u64>) -> nat
    decreases s.len(),
{
    if s.len() == 0 {
        0
    } else {
        s[0] as nat + samples_sum(s.drop_first())
    }
}

/// How many of the newest samples, `interval_ms` apart, cover the last second:
/// the fewest whose span reaches 1000 ms, or all of them when there are too
/// few (or when the interval is 0).
pub open spec fn window_count(len: nat, interval_ms: nat) -> nat {
    if interval_ms == 0 {
        len
    } else {
        let needed = ((1000 + interval_ms - 1) / interval_ms as int) as nat;
        if needed < len {
            needed
        } else {
            len
        }
    }
}

/// The newest `k` samples of `s`.
pub open spec fn newest(s: Seq<u64>, k: nat) -> Seq<u64> {
    s.subrange(s.len() - k, s.len() as int)
}

proof fn lemma_newest_step(s: Seq<u64>, j: nat)
    requires
        j < s.len(),
    ensures
        samples_sum(newest(s, j + 1)) == s[s.len() - 1 - j] + samples_sum(newest(s, j)),
{
    assert(newest(s, j + 1).drop_first() =~= newest(s, j));
}

proof fn lemma_newest_sum_grows(s: Seq<u64>, j: nat, k: nat)
    requires
        j <= k <= s.len(),
    ensures
        samples_sum(newest(s, j)) <= samples_sum(newest(s, k)),
    decreases k - j,
{
    if j < k {
        lemma_newest_step(s, j);
        lemma_newest_sum_grows(s, j + 1, k);
    }
}

proof fn lemma_window_reached(j: nat, interval: nat)
    requires
        interval > 0,
    ensures
        (j * interval >= 1000) == (j >= (1000 + interval - 1) / interval as int),
{
    let c = (1000 + interval - 1) / interval as int;
    assert((c - 1) * interval < 1000 && c * interval >= 1000) by (nonlinear_arith)
        requires
            interval > 0,
            c == (1000 + interval - 1) / interval as int,
    ;
    if j >= c {
        assert(j * interval >= c * interval) by (nonlinear_arith)
            requires
                j >= c,
                interval > 0,
        ;
    } else {
        assert(j * interval <= (c - 1) * interval) by (nonlinear_arith)
            requires
                j <= c - 1,
                interval > 0,
        ;
    }
}

proof fn lemma_window_bounds(len: nat, interval: nat)
    requires
        0 < interval <= u32::MAX,
    ensures
        ({
            let k = window_count(len, interval);
            &&& (k - 1) * interval < 1000
            &&& k * interval <= u32::MAX
            &&& k < len ==> k * interval >= 1000
        }),
{
    let k = window_count(len, interval);
    let c = (1000 + interval - 1) / interval as int;
    assert(c >= 1) by (nonlinear_arith)
        requires
            interval > 0,
            c == (1000 + interval - 1) / interval as int,
    ;
    lemma_window_reached(c as nat, interval);
    lemma_window_reached((c - 1) as nat, interval);
    assert(c * interval >= 1000);
    assert((c - 1) * interval < 1000);
    assert(k <= c);
    assert(k < len ==> k == c);
    assert((k - 1) * interval <= (c - 1) * interval) by (nonlinear_arith)
        requires
            k <= c,
            interval > 0,
    ;
    if interval >= 1000 {
        assert(c <= 1) by (nonlinear_arith)
            requires
                interval >= 1000,
                c == (1000 + interval - 1) / interval as int,
        ;
        assert(k * interval <= interval) by (nonlinear_arith)
            requires
                k <= 1,
        ;
    } else {
        assert(k * interval < 2000) by (nonlinear_arith)
            requires
                (k - 1) * interval < 1000,
                interval < 1000,
        ;
    }
}

/// Whether the samples covering the last second add up to no more than a `u64`.
pub open spec fn window_fits(s: Seq<u64>, interval_ms: nat) -> bool {
    samples_sum(newest(s, window_count(s.len(), interval_ms))) <= u64::MAX
}

/// Walks the history from the newest sample back, stopping once the samples
/// taken span at least 1000 ms: returns the sum of the samples taken and the
/// span they cover in milliseconds, or `None` when that sum does not fit in a
/// `u64`.
pub fn last_second_window(samples: &BoundedVecDeque<u64>, interval_ms: u32) -> (r: Option<(u64, u32)>)
    ensures
        ({
            let s = history_items(*samples);
            let k = window_count(s.len(), interval_ms as nat);
            match r {
                Some((total, span)) => window_fits(s, interval_ms as nat) && total == samples_sum(
                    newest(s, k),
                ) && span == k * interval_ms,
                None => !window_fits(s, interval_ms as nat),
            }
        }),
{
    let ghost s = history_items(*samples);
    let ghost k = window_count(s.len(), interval_ms as nat);
    let n = history_len(samples);
    let mut total_duration: u32 = 0;
    let mut total: u64 = 0;
    let mut j: usize = 0;
    proof {
        assert(newest(s, 0) =~= Seq::<u64>::empty());
        if interval_ms > 0 {
            lemma_window_bounds(s.len(), interval_ms as nat);
        }
    }
    while j < n
        invariant
            n == s.len(),
            s == history_items(*samples),
            k == window_count(s.len(), interval_ms as nat),
            j <= k,
            total_duration == j * interval_ms,
            total == samples_sum(newest(s, j as nat)),
            interval_ms == 0 ==> k == n,
            interval_ms > 0 && k < n ==> k * interval_ms >= 1000,
            interval_ms > 0 ==> (k - 1) * interval_ms < 1000,
            interval_ms > 0 ==> k * interval_ms <= u32::MAX,
        ensures
            j >= n || total_duration >= 1000,
        decreases n - j,
    {
        if total_duration >= 1000 {
            proof {
                if j < k {
                    lemma_window_reached(j as nat, interval_ms as nat);
                    assert(interval_ms > 0);
                }
            }
            break;
        }
        proof {
            if interval_ms > 0 {
                lemma_window_reached(j as nat, interval_ms as nat);
            }
            assert(j < k);
            lemma_newest_step(s, j as nat);
            lemma_newest_sum_grows(s, (j + 1) as nat, k);
            assert((j + 1) * interval_ms == j * interval_ms + interval_ms) by (nonlinear_arith);
            assert((j + 1) * interval_ms <= k * interval_ms) by (nonlinear_arith)
                requires
                    j + 1 <= k,
            ;
        }
        let sample = history_get(samples, n - 1 - j);
        match total.checked_add(sample) {
            Some(t) => {
                total = t;
            },
            None => {
                return None;
            },
        }
        total_duration = total_duration + interval_ms;
        j = j + 1;
    }
    proof {
        if j < k {
            assert(total_duration >= 1000);
            lemma_window_reached(j as nat, interval_ms as nat);
        }
    }
    Some((total, total_duration))
}

/// The number text without its last character when it is five characters
/// long. The number is written with at most four characters ("9.99",
/// "99.9", "999") except in the largest unit, where a value of 10000 up to
/// 99999 comes as five digits and so loses its last digit.
pub open spec fn without_overflow_digit(value: Seq<char>) -> Seq<char> {
    if value.len() == 5 {
        value.drop_last()
    } else {
        value
    }
}

/// The text of a throughput label: the number, a space in the long format,
/// and the unit; the long format is then padded with spaces on the left to at
/// least nine characters.
pub open spec fn rate_label(value: Seq<char>, unit: Seq<char>, long: bool) -> Seq<char> {
    let body = without_overflow_digit(value) + (if long {
        seq![' ']
    } else {
        seq![]
    }) + unit;
    if long && body.len() < 9 {
        Seq::new((9 - body.len()) as nat, |_i: int| ' ') + body
    } else {
        body
    }
}

/// Builds a throughput label from the formatted number and the unit: a
/// five-character number loses its last character, the long format puts a
/// space before the unit and pads the label on the left to nine characters.
/// Both texts are ASCII, so their lengths in bytes and in characters agree.
pub fn finish_rate_label(value: &str, unit: &str, long: bool) -> (label: String)
    requires
        value.is_ascii(),
        unit.is_ascii(),
    ensures
        label@ == rate_label(value@, unit@, long),
{
    let v = crate::text::chars_of(value);
    let u = crate::text::chars_of(unit);
    let keep: usize = if v.len() == 5 {
        4
    } else {
        v.len()
    };
    let mut body: Vec<char> = Vec::new();
    let mut i: usize = 0;
    while i < keep
        invariant
            keep <= v.len(),
            keep == without_overflow_digit(v@).len(),
            i <= keep,
            body@ == without_overflow_digit(v@).take(i as int),
        decreases keep - i,
    {
        body.push(v[i]);
        i = i + 1;
        assert(body@ =~= without_overflow_digit(v@).take(i as int));
    }
    assert(body@ =~= without_overflow_digit(v@));
    if long {
        body.push(' ');
    }
    let ghost with_space = body@;
    let mut j: usize = 0;
    while j < u.len()
        invariant
            j <= u.len(),
            body@ == with_space + u@.take(j as int),
        decreases u.len() - j,
    {
        body.push(u[j]);
        j = j + 1;
        assert(body@ =~= with_space + u@.take(j as int));
    }
    assert(u@.take(j as int) =~= u@);
    let ghost full = body@;
    assert(full =~= without_overflow_digit(value@) + (if long {
        seq![' ']
    } else {
        seq![]
    }) + unit@);
    let mut label = String::new();
    if long && body.len() < 9 {
        let pad = 9 - body.len();
        let mut p: usize = 0;
        while p < pad
            invariant
                p <= pad,
                label@ == Seq::new(p as nat, |_i: int| ' '),
            decreases pad - p,
        {
            crate::text::push_char(&mut label, ' ');
            p = p + 1;
            assert(label@ =~= Seq::new(p as nat, |_i: int| ' '));
        }
    }
    let ghost prefix = label@;
    let mut q: usize = 0;
    while q < body.len()
        invariant
            q <= body.len(),
            label@ == prefix + body@.take(q as int),
        decreases body.len() - q,
    {
        crate::text::push_char(&mut label, body[q]);
        q = q + 1;
        assert(label@ =~= prefix + body@.take(q as int));
    }
    assert(body@.take(q as int) =~= body@);
    proof {
        if !(long && full.len() < 9) {
            assert(prefix =~= Seq::<char>::empty());
        }
        assert(label@ =~= rate_label(value@, unit@, long));
    }
    label
}

/// A long label is at least nine characters wide and ends with a space and
/// its unit; a short label is the number directly followed by its unit.
pub proof fn lemma_rate_label_shape(value: Seq<char>, unit: Seq<char>)
    ensures
        rate_label(value, unit, true).len() >= 9,
        rate_label(value, unit, true).len() >= unit.len() + 1,
        rate_label(value, unit, true).subrange(
            rate_label(value, unit, true).len() - unit.len() - 1,
            rate_label(value, unit, true).len() as int,
        ) == seq![' '] + unit,
        rate_label(value, unit, false) == without_overflow_digit(value) + unit,
{
    let body = without_overflow_digit(value) + seq![' '] + unit;
    let l = rate_label(value, unit, true);
    assert(l.subrange(l.len() - unit.len() - 1, l.len() as int) =~= seq![' '] + unit);
    assert(rate_label(value, unit, false) =~= without_overflow_digit(value) + unit);
}

/// The window covers at least one second, unless it takes the whole history;
/// and it takes no sample more than it needs for that.
pub proof fn lemma_window_covers_one_second(len: nat, interval_ms: nat)
    requires
        interval_ms <= u32::MAX,
    ensures
        window_count(len, interval_ms) <= len,
        window_count(len, interval_ms) == len || window_count(len, interval_ms) * interval_ms
            >= 1000,
        interval_ms > 0 ==> (window_count(len, interval_ms) - 1) * interval_ms < 1000,
{
    if interval_ms > 0 {
        lemma_window_bounds(len, interval_ms);
    }
}

/// A history of idle refreshes reports no traffic over the last second,
/// whatever the refresh interval.
pub proof fn lemma_idle_window_is_zero(s: Seq<u64>, interval_ms: nat)
    requires
        forall|i: int| 0 <= i < s.len() ==> s[i] == 0,
    ensures
        samples_sum(newest(s, window_count(s.len(), interval_ms))) == 0,
{
    lemma_zero_sum(newest(s, window_count(s.len(), interval_ms)));
}

proof fn lemma_zero_sum(s: Seq<u64>)
    requires
        forall|i: int| 0 <= i < s.len() ==> s[i] == 0,
    ensures
        samples_sum(s) == 0,
    decreases s.len(),
{
    if s.len() > 0 {
        lemma_zero_sum(s.drop_first());
    }
}

} // verus!

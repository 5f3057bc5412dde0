//! Average true range (ATR): the true range of a candle against the close
//! before it, its mean over closed candles, and the spike level a true range
//! reaches against that mean.
use vstd::prelude::*;

use crate::types::{Candle, MAX_PRICE_TICKS, RATIO_SCALE};

verus! {

/// Fewest closed candles an ATR baseline is computed from (a tuning
/// setting of this library).
pub const MIN_CANDLES_FOR_ATR: usize = 3;

/// Spike level of a move that reaches no multiple of the breakout ratio.
pub const NO_SPIKE_LEVEL: u64 = 0;

/// An ATR baseline at or below this many ticks is not used for alerts (a
/// tuning setting of this library).
pub const MIN_VALID_ATR: u64 = 0;

/// Breakout ratio, in thousandths, of the rule-less evaluators (a tuning
/// setting of this library).
pub const ATR_BREAKOUT_RATIO: u64 = 2500;

/// |a - b|.
pub open spec fn abs_diff(a: int, b: int) -> int {
    if a >= b {
        a - b
    } else {
        b - a
    }
}

/// The true range of `cur` against `prev`: the largest of the candle's own
/// range and its gaps from the previous close.
pub open spec fn true_range(prev: Candle, cur: Candle) -> int {
    let range = cur.high_price - cur.low_price;
    let gap_up = abs_diff(cur.high_price as int, prev.close_price as int);
    let gap_down = abs_diff(cur.low_price as int, prev.close_price as int);
    let max_gap = if gap_down >= gap_up { gap_down } else { gap_up };
    if range >= max_gap {
        range
    } else {
        max_gap
    }
}

/// Sum of the true ranges of each candle of `s` against the one before it.
pub open spec fn tr_sum(s: Seq<Candle>) -> int
    decreases s.len(),
{
    if s.len() < 2 {
        0
    } else {
        tr_sum(s.drop_last()) + true_range(s[s.len() - 2], s[s.len() - 1])
    }
}

/// Every candle of `s` has its prices within `MAX_PRICE_TICKS`.
pub open spec fn all_prices_in_range(s: Seq<Candle>) -> bool {
    forall|i: int| 0 <= i < s.len() ==> (#[trigger] s[i]).prices_in_range()
}

/// A true range lies between zero and `MAX_PRICE_TICKS`.
pub proof fn lemma_true_range_bounds(prev: Candle, cur: Candle)
    requires
        prev.prices_in_range(),
        cur.prices_in_range(),
    ensures
        0 <= true_range(prev, cur) <= MAX_PRICE_TICKS,
{
}

/// The true range of a candle is its largest move: at least its own range,
/// at least the distance of its high from the previous close and at least
/// the distance of its low from the previous close, and equal to one of
/// these three.
pub proof fn lemma_true_range_is_largest_move(prev: Candle, cur: Candle)
    ensures
        true_range(prev, cur) >= cur.high_price - cur.low_price,
        true_range(prev, cur) >= cur.high_price - prev.close_price,
        true_range(prev, cur) >= prev.close_price - cur.high_price,
        true_range(prev, cur) >= cur.low_price - prev.close_price,
        true_range(prev, cur) >= prev.close_price - cur.low_price,
        true_range(prev, cur) == cur.high_price - cur.low_price
            || true_range(prev, cur) == cur.high_price - prev.close_price
            || true_range(prev, cur) == prev.close_price - cur.high_price
            || true_range(prev, cur) == cur.low_price - prev.close_price
            || true_range(prev, cur) == prev.close_price - cur.low_price,
{
}

/// The sum of true ranges is non-negative and at most `MAX_PRICE_TICKS` per range.
pub proof fn lemma_tr_sum_bounds(s: Seq<Candle>)
    requires
        all_prices_in_range(s),
    ensures
        0 <= tr_sum(s),
        s.len() >= 1 ==> tr_sum(s) <= (s.len() - 1) * MAX_PRICE_TICKS,
        s.len() == 0 ==> tr_sum(s) == 0,
    decreases s.len(),
{
    if s.len() >= 2 {
        assert(all_prices_in_range(s.drop_last()));
        lemma_tr_sum_bounds(s.drop_last());
        lemma_true_range_bounds(s[s.len() - 2], s[s.len() - 1]);
    }
}

/// The mean true range of closed candles, held exactly as a sum over a count.
#[derive(Debug, Clone, Copy, PartialEq, Eq, Structural)]
pub struct AtrBaseline {
    pub tr_sum: u128,
    pub tr_count: u64,
}

/// Spike level of a true range `live_tr` against the mean `tr_sum / tr_count`
/// at breakout ratio `breakout` (thousandths): the number of whole breakout
/// multiples the ratio `live_tr / mean` reaches, saturating at `u64::MAX`.
/// A ratio of zero (or an undefined one) has level zero; an unbounded ratio,
/// or a zero breakout ratio with a positive ratio, saturates.
pub open spec fn spike_level_of(live_tr: int, tr_sum: int, tr_count: int, breakout: int) -> int {
    let num = live_tr * tr_count * RATIO_SCALE;
    if num == 0 {
        0
    } else if tr_sum == 0 || breakout == 0 {
        u64::MAX as int
    } else if num / (tr_sum * breakout) > u64::MAX {
        u64::MAX as int
    } else {
        num / (tr_sum * breakout)
    }
}

/// A wider live range never gives a lower spike level against the same
/// baseline and ratio.
pub proof fn lemma_spike_level_monotone(live_tr: int, wider_tr: int, tr_sum: int, tr_count: int, breakout: int)
    requires
        0 <= live_tr <= wider_tr,
        0 <= tr_sum,
        0 <= tr_count,
        0 <= breakout,
    ensures
        spike_level_of(live_tr, tr_sum, tr_count, breakout) <= spike_level_of(wider_tr, tr_sum, tr_count, breakout),
{
    let n1 = live_tr * tr_count * RATIO_SCALE;
    let n2 = wider_tr * tr_count * RATIO_SCALE;
    assert(0 <= n1 <= n2) by (nonlinear_arith)
        requires
            0 <= live_tr <= wider_tr,
            0 <= tr_count,
            n1 == live_tr * tr_count * RATIO_SCALE,
            n2 == wider_tr * tr_count * RATIO_SCALE,
    ;
    if n1 != 0 && tr_sum != 0 && breakout != 0 {
        let d = tr_sum * breakout;
        assert(d > 0) by (nonlinear_arith)
            requires
                tr_sum > 0,
                breakout > 0,
                d == tr_sum * breakout,
        ;
        vstd::arithmetic::div_mod::lemma_div_is_ordered(n1, n2, d);
    }
    if n1 == 0 && n2 != 0 && tr_sum != 0 && breakout != 0 {
        let d = tr_sum * breakout;
        assert(d > 0) by (nonlinear_arith)
            requires
                tr_sum > 0,
                breakout > 0,
                d == tr_sum * breakout,
        ;
        vstd::arithmetic::div_mod::lemma_div_pos_is_pos(n2, d);
    }
}

/// The spike level counts whole breakout multiples: against a positive
/// mean and breakout ratio, and below saturation, `level` multiples of the
/// breakout ratio fit in the ratio `live_tr / mean` and one more does not.
pub proof fn lemma_spike_level_counts_multiples(live_tr: int, tr_sum: int, tr_count: int, breakout: int)
    requires
        0 <= live_tr,
        0 < tr_sum,
        0 <= tr_count,
        0 < breakout,
        spike_level_of(live_tr, tr_sum, tr_count, breakout) < u64::MAX,
    ensures
        ({
            let level = spike_level_of(live_tr, tr_sum, tr_count, breakout);
            &&& level * tr_sum * breakout <= live_tr * tr_count * RATIO_SCALE
            &&& live_tr * tr_count * RATIO_SCALE < (level + 1) * tr_sum * breakout
        }),
{
    let num = live_tr * tr_count * RATIO_SCALE;
    let d = tr_sum * breakout;
    assert(d > 0) by (nonlinear_arith)
        requires
            tr_sum > 0,
            breakout > 0,
            d == tr_sum * breakout,
    ;
    assert(num >= 0) by (nonlinear_arith)
        requires
            0 <= live_tr,
            0 <= tr_count,
            num == live_tr * tr_count * RATIO_SCALE,
    ;
    let q = num / d;
    vstd::arithmetic::div_mod::lemma_fundamental_div_mod(num, d);
    assert(0 <= num % d < d) by {
        vstd::arithmetic::div_mod::lemma_mod_bound(num, d);
    }
    let level = spike_level_of(live_tr, tr_sum, tr_count, breakout);
    if num == 0 {
        assert(level == 0);
        assert(num < d);
    } else {
        assert(level == q);
    }
    assert(level * tr_sum * breakout == level * d) by (nonlinear_arith)
        requires
            d == tr_sum * breakout,
    ;
    assert((level + 1) * tr_sum * breakout == level * d + d) by (nonlinear_arith)
        requires
            d == tr_sum * breakout,
    ;
    assert(num == d * q + num % d);
    assert(d * q == q * d) by (nonlinear_arith);
}

/// The sum of true ranges grows by the true range of each added candle
/// against the one before it.
pub proof fn lemma_tr_sum_push(s: Seq<Candle>, c: Candle)
    requires
        s.len() >= 1,
    ensures
        tr_sum(s.push(c)) == tr_sum(s) + true_range(s[s.len() - 1], c),
        tr_sum(seq![s[0]]) == 0,
{
    assert(s.push(c).drop_last() =~= s);
}

/// Whether the mean true range `tr_sum / tr_count` is at most `limit` ticks.
pub open spec fn baseline_at_most(tr_sum: int, tr_count: int, limit: int) -> bool {
    tr_sum <= limit * tr_count
}

/// The spike level `live_tr` reaches against `baseline` at `breakout_ratio`.
pub fn spike_level(live_tr: u64, baseline: AtrBaseline, breakout_ratio: u64) -> (r: u64)
    requires
        live_tr <= MAX_PRICE_TICKS,
    ensures
        r == spike_level_of(live_tr as int, baseline.tr_sum as int, baseline.tr_count as int, breakout_ratio as int),
{
    let a = live_tr as u128;
    let b = baseline.tr_count as u128;
    assert(a * b <= 0x20_0000_0000_0000u128 * 0xffff_ffff_ffff_ffffu128) by (nonlinear_arith)
        requires
            a <= 0x20_0000_0000_0000u128,
            b <= 0xffff_ffff_ffff_ffffu128,
    ;
    let ab = a * b;
    let num = ab * 1000u128;
    if num == 0 {
        return 0;
    }
    if baseline.tr_sum == 0 || breakout_ratio == 0 {
        return u64::MAX;
    }
    let q = num / baseline.tr_sum;
    let q2 = q / (breakout_ratio as u128);
    proof {
        vstd::arithmetic::div_mod::lemma_div_denominator(num as int, baseline.tr_sum as int, breakout_ratio as int);
        assert(a * b * 1000 == live_tr as int * baseline.tr_count as int * 1000);
    }
    if q2 > (u64::MAX as u128) {
        u64::MAX
    } else {
        q2 as u64
    }
}

/// A ratio held exactly as `numerator / denominator`; the denominator is
/// zero when the ratio is taken against a zero baseline.
#[derive(Debug, Clone, Copy, PartialEq, Eq, Structural)]
pub struct AtrRatio {
    pub numerator: u128,
    pub denominator: u128,
}

/// The ratio of the true range `live_tr` to the mean `tr_sum / tr_count`
/// of `baseline`: `live_tr * tr_count / tr_sum`.
pub open spec fn ratio_of(live_tr: u64, baseline: AtrBaseline) -> AtrRatio {
    AtrRatio { numerator: (live_tr * baseline.tr_count) as u128, denominator: baseline.tr_sum }
}

/// The spike level a ratio reaches at breakout ratio `breakout`
/// (thousandths): the whole number of breakout multiples in the ratio,
/// saturating at `u64::MAX`; zero for a zero ratio, saturated for an
/// unbounded one or a zero breakout ratio.
pub open spec fn ratio_level(ratio: AtrRatio, breakout: int) -> int {
    let num = ratio.numerator * RATIO_SCALE;
    if num == 0 {
        0
    } else if ratio.denominator == 0 || breakout == 0 {
        u64::MAX as int
    } else if num / (ratio.denominator * breakout) > u64::MAX {
        u64::MAX as int
    } else {
        num / (ratio.denominator * breakout)
    }
}

/// The spike level of a live range against a baseline is the level its
/// ratio to the baseline reaches.
pub proof fn lemma_level_of_ratio(live_tr: u64, baseline: AtrBaseline, breakout: int)
    ensures
        spike_level_of(live_tr as int, baseline.tr_sum as int, baseline.tr_count as int, breakout)
            == ratio_level(ratio_of(live_tr, baseline), breakout),
{
    assert(live_tr * baseline.tr_count <= 0xffff_ffff_ffff_ffff * 0xffff_ffff_ffff_ffff) by (nonlinear_arith)
        requires
            live_tr <= 0xffff_ffff_ffff_ffff,
            baseline.tr_count <= 0xffff_ffff_ffff_ffff,
    ;
    assert((live_tr * baseline.tr_count) as u128 * RATIO_SCALE == live_tr * baseline.tr_count * RATIO_SCALE);
}

/// The ratio a bare baseline carries before a live range is attached: zero.
pub open spec fn zero_ratio() -> AtrRatio {
    AtrRatio { numerator: 0, denominator: 1 }
}

impl AtrRatio {
    /// The ratio of `live_tr` to the mean true range of `baseline`.
    pub fn of(live_tr: u64, baseline: AtrBaseline) -> (r: AtrRatio)
        ensures
            r == ratio_of(live_tr, baseline),
    {
        let a = live_tr as u128;
        let b = baseline.tr_count as u128;
        assert(a * b <= 0xffff_ffff_ffff_ffffu128 * 0xffff_ffff_ffff_ffffu128) by (nonlinear_arith)
            requires
                a <= 0xffff_ffff_ffff_ffffu128,
                b <= 0xffff_ffff_ffff_ffffu128,
        ;
        AtrRatio { numerator: a * b, denominator: baseline.tr_sum }
    }
}

/// A baseline ATR, and the live true range compared with it: `ratio` is the
/// live range over the mean, `spike_level` the breakout multiples reached.
#[derive(Debug, Clone, Copy, PartialEq, Eq, Structural)]
pub struct ATR {
    pub atr: Option<AtrBaseline>,
    pub live_tr: u64,
    pub ratio: AtrRatio,
    pub spike_level: u64,
    pub open_time_ms: u64,
}

impl ATR {
    /// A baseline ATR from the mean true range over closed candles.
    pub fn from_average(avg: AtrBaseline) -> (r: ATR)
        ensures
            r == (ATR { atr: Some(avg), live_tr: 0, ratio: zero_ratio(), spike_level: 0, open_time_ms: 0 }),
    {
        ATR { atr: Some(avg), live_tr: 0, ratio: AtrRatio { numerator: 0, denominator: 1 }, spike_level: 0, open_time_ms: 0 }
    }

    /// Attaches a live true range, taken at candle `open_time_ms`, to the
    /// baseline, with its ratio to the baseline; `None` when there is no
    /// baseline.
    pub fn with_live(self, live_tr: u64, open_time_ms: u64) -> (r: Option<ATR>)
        ensures
            match self.atr {
                Some(b) => r == Some(
                    ATR { atr: Some(b), live_tr, ratio: ratio_of(live_tr, b), spike_level: self.spike_level, open_time_ms },
                ),
                None => r is None,
            },
    {
        match self.atr {
            Some(baseline) => Some(
                ATR { atr: Some(baseline), live_tr, ratio: AtrRatio::of(live_tr, baseline), spike_level: self.spike_level, open_time_ms },
            ),
            None => None,
        }
    }

    pub fn baseline(&self) -> (r: Option<AtrBaseline>)
        ensures
            r == self.atr,
    {
        self.atr
    }
}

/// The true range of a candle, taking gaps from the previous close into
/// account.
pub fn calculate_true_range(prev_candle: &Candle, curr_candle: &Candle) -> (r: u64)
    requires
        prev_candle.prices_in_range(),
        curr_candle.prices_in_range(),
    ensures
        r == true_range(*prev_candle, *curr_candle),
        r >= curr_candle.high_price - curr_candle.low_price,
        r >= curr_candle.high_price - prev_candle.close_price,
        r >= prev_candle.close_price - curr_candle.high_price,
        r >= curr_candle.low_price - prev_candle.close_price,
        r >= prev_candle.close_price - curr_candle.low_price,
{
    proof {
        lemma_true_range_is_largest_move(*prev_candle, *curr_candle);
    }
    let h = curr_candle.high_price;
    let l = curr_candle.low_price;
    let c = prev_candle.close_price;
    let current_candle_range: u64 = if h >= l { h - l } else { 0 };
    let gap_up_range: u64 = if h >= c { h - c } else { c - h };
    let gap_down_range: u64 = if l >= c { l - c } else { c - l };
    let max_gap_range = if gap_down_range >= gap_up_range { gap_down_range } else { gap_up_range };
    if current_candle_range >= max_gap_range {
        current_candle_range
    } else {
        max_gap_range
    }
}

/// The total and number of a list of true ranges, as a mean; `None` when
/// the list is empty.
fn mean(total: u128, count: usize) -> (r: Option<AtrBaseline>)
    ensures
        count == 0 ==> r is None,
        count > 0 ==> r == Some(AtrBaseline { tr_sum: total, tr_count: count as u64 }),
{
    if count == 0 {
        None
    } else {
        Some(AtrBaseline { tr_sum: total, tr_count: count as u64 })
    }
}

/// The ATR of a candle buffer: the mean true range of each candle against
/// the one before it; `None` when there are fewer than
/// `MIN_CANDLES_FOR_ATR` candles.
pub fn calculate_average_true_range(candle_buffer: &Vec<Candle>) -> (r: Option<ATR>)
    requires
        all_prices_in_range(candle_buffer@),
    ensures
        candle_buffer@.len() < MIN_CANDLES_FOR_ATR ==> r is None,
        candle_buffer@.len() >= MIN_CANDLES_FOR_ATR ==> r == Some(ATR::from_average_spec(
            AtrBaseline { tr_sum: tr_sum(candle_buffer@) as u128, tr_count: (candle_buffer@.len() - 1) as u64 },
        )),
{
    let n = candle_buffer.len();
    if n < MIN_CANDLES_FOR_ATR {
        return None;
    }
    let mut total: u128 = 0;
    let mut i: usize = 1;
    while i < n
        invariant
            1 <= i <= n,
            n == candle_buffer@.len(),
            all_prices_in_range(candle_buffer@),
            total == tr_sum(candle_buffer@.take(i as int)),
            total <= (i - 1) * MAX_PRICE_TICKS,
        decreases n - i,
    {
        let tr = calculate_true_range(&candle_buffer[i - 1], &candle_buffer[i]);
        proof {
            let t = candle_buffer@.take(i + 1);
            assert(t.drop_last() =~= candle_buffer@.take(i as int));
            assert(t[t.len() - 2] == candle_buffer@[i - 1]);
            assert(t[t.len() - 1] == candle_buffer@[i as int]);
            assert(total + tr <= i * MAX_PRICE_TICKS) by (nonlinear_arith)
                requires
                    total <= (i - 1) * MAX_PRICE_TICKS,
                    tr <= MAX_PRICE_TICKS,
            ;
            assert(i * MAX_PRICE_TICKS <= 0xffff_ffff_ffff_ffff * MAX_PRICE_TICKS) by (nonlinear_arith)
                requires
                    i <= 0xffff_ffff_ffff_ffff,
            ;
        }
        total = total + tr as u128;
        i += 1;
    }
    proof {
        assert(candle_buffer@.take(n as int) =~= candle_buffer@);
    }
    match mean(total, n - 1) {
        Some(avg) => Some(ATR::from_average(avg)),
        None => None,
    }
}

impl ATR {
    /// The value `from_average` returns.
    pub open spec fn from_average_spec(avg: AtrBaseline) -> ATR {
        ATR { atr: Some(avg), live_tr: 0, ratio: zero_ratio(), spike_level: 0, open_time_ms: 0 }
    }
}

} // verus!

//! ATR rule evaluation on closed candles, with per-rule duplicate suppression.
use vstd::prelude::*;

use std::collections::HashMap;

use crate::candle_store::{candles_of, CandleView};
use crate::evaluate::spike_gate::{gate_step, pass_gate, state_of, LiveAlertState};
use crate::indicator_rules::{AtrRule, IndicatorRuleId};
use crate::indicators::atr::{
    all_prices_in_range, calculate_average_true_range, calculate_true_range, ratio_of, spike_level, spike_level_of,
    true_range, tr_sum, AtrBaseline, ATR, MIN_CANDLES_FOR_ATR, NO_SPIKE_LEVEL,
};
use crate::types::{Candle, CandleKey, MAX_PRICE_TICKS};

verus! {

/// An ATR rule that fired.
#[derive(Debug, Clone, Copy, PartialEq, Eq, Structural)]
pub struct AtrAlert {
    pub rule_id: IndicatorRuleId,
    pub key: CandleKey,
    pub atr: ATR,
}

/// The ATR of closed candles `s` read at their last bar: the baseline is the
/// mean true range over `s`, the live true range is that of the last closed
/// candle against the one before it.
pub open spec fn closed_bar_atr(s: Seq<Candle>) -> ATR {
    ATR {
        atr: Some(AtrBaseline { tr_sum: tr_sum(s) as u128, tr_count: (s.len() - 1) as u64 }),
        live_tr: true_range(s[s.len() - 2], s[s.len() - 1]) as u64,
        ratio: ratio_of(
            true_range(s[s.len() - 2], s[s.len() - 1]) as u64,
            AtrBaseline { tr_sum: tr_sum(s) as u128, tr_count: (s.len() - 1) as u64 },
        ),
        spike_level: 0,
        open_time_ms: s[s.len() - 1].open_time_ms,
    }
}

/// Spike level of the last closed bar of `s` at breakout ratio `breakout`.
pub open spec fn closed_bar_spike(s: Seq<Candle>, breakout: u64) -> u64 {
    spike_level_of(
        true_range(s[s.len() - 2], s[s.len() - 1]),
        tr_sum(s),
        s.len() - 1,
        breakout as int,
    ) as u64
}

/// One evaluation of rule `rule_id` (breakout ratio `breakout`) on closed
/// candles `s`: the new per-rule states and the ATR reading when it alerts.
pub open spec fn atr_step(states: Map<u64, LiveAlertState>, s: Seq<Candle>, rule_id: u64, breakout: u64) -> (Map<u64, LiveAlertState>, Option<ATR>) {
    if s.len() < MIN_CANDLES_FOR_ATR {
        (states, None)
    } else {
        let a = closed_bar_atr(s);
        let spike = closed_bar_spike(s, breakout);
        if spike == NO_SPIKE_LEVEL {
            (states, None)
        } else {
            let step = gate_step(state_of(states, rule_id), a.open_time_ms, spike);
            (
                states.insert(rule_id, step.0),
                if step.1 {
                    Some(ATR { atr: a.atr, live_tr: a.live_tr, ratio: a.ratio, spike_level: spike, open_time_ms: a.open_time_ms })
                } else {
                    None
                },
            )
        }
    }
}

/// A spike level is a count that fits a `u64`.
pub proof fn lemma_spike_level_in_range(live_tr: int, tr_sum: int, tr_count: int, breakout: int)
    requires
        0 <= live_tr,
        0 <= tr_sum,
        0 <= tr_count,
        0 <= breakout,
    ensures
        0 <= spike_level_of(live_tr, tr_sum, tr_count, breakout) <= u64::MAX,
{
    let num = live_tr * tr_count * crate::types::RATIO_SCALE;
    assert(num >= 0) by (nonlinear_arith)
        requires
            0 <= live_tr,
            0 <= tr_count,
            num == live_tr * tr_count * crate::types::RATIO_SCALE,
    ;
    if num != 0 && tr_sum != 0 && breakout != 0 {
        let d = tr_sum * breakout;
        assert(d > 0) by (nonlinear_arith)
            requires
                tr_sum > 0,
                breakout > 0,
                d == tr_sum * breakout,
        ;
        assert(num / d >= 0) by (nonlinear_arith)
            requires
                num >= 0,
                d > 0,
        ;
    }
}

/// What one evaluation of an ATR rule does, in terms of its candles: the
/// level is the breakout multiples the last closed bar's true range reaches
/// against the mean true range of the closed candles, at the rule's own
/// breakout ratio. The rule alerts exactly when that level is above zero
/// and it has no record, a record of another candle (a new candle starts
/// over), or a lower level on this candle. An alert carries that level, the
/// last closed bar's open time and true range, and the baseline; the rule's
/// record becomes that candle at that level. Without an alert nothing
/// changes, and other rules' records never change. With too few candles
/// nothing happens.
pub proof fn lemma_atr_rule_alerts(
    states: Map<u64, LiveAlertState>,
    s: Seq<Candle>,
    rule_id: u64,
    breakout: u64,
    other: u64,
)
    requires
        all_prices_in_range(s),
        s.len() <= usize::MAX,
        other != rule_id,
    ensures
        s.len() < MIN_CANDLES_FOR_ATR ==> atr_step(states, s, rule_id, breakout) == (states, None::<ATR>),
        s.len() >= MIN_CANDLES_FOR_ATR ==> ({
            let n = s.len() as int;
            let tr = true_range(s[n - 2], s[n - 1]);
            let level = spike_level_of(tr, tr_sum(s), n - 1, breakout as int);
            let t = s[n - 1].open_time_ms;
            let rec = state_of(states, rule_id);
            let step = atr_step(states, s, rule_id, breakout);
            &&& step.1 is Some <==> (level != 0 && (rec is None || rec->0.open_time_ms != t
                || level > rec->0.last_spike_level))
            &&& step.1 matches Some(a) ==> {
                &&& a.spike_level as int == level
                &&& a.open_time_ms == t
                &&& a.live_tr as int == tr
                &&& a.atr == Some(AtrBaseline { tr_sum: tr_sum(s) as u128, tr_count: (n - 1) as u64 })
                &&& tr_sum(s) == (tr_sum(s) as u128) as int
                &&& step.0.contains_key(rule_id)
                &&& step.0[rule_id] == (LiveAlertState { open_time_ms: t, last_spike_level: level as u64 })
            }
            &&& step.1 is None ==> step.0 == states
            &&& state_of(step.0, other) == state_of(states, other)
        }),
{
    if s.len() >= MIN_CANDLES_FOR_ATR {
        let n = s.len() as int;
        crate::indicators::atr::lemma_true_range_bounds(s[n - 2], s[n - 1]);
        lemma_closed_baseline_fits(s);
        crate::indicators::atr::lemma_tr_sum_bounds(s);
        lemma_spike_level_in_range(true_range(s[n - 2], s[n - 1]), tr_sum(s), n - 1, breakout as int);
        let step = atr_step(states, s, rule_id, breakout);
        if step.1 is None {
            assert(step.0 =~= states);
        }
    }
}

/// Duplicate suppression is per rule: evaluating one rule leaves the state
/// of every other rule as it was, so another rule can still alert on the
/// same candle.
pub proof fn lemma_suppression_per_rule(states: Map<u64, LiveAlertState>, s: Seq<Candle>, rule_id: u64, breakout: u64, other_id: u64)
    requires
        other_id != rule_id,
    ensures
        state_of(atr_step(states, s, rule_id, breakout).0, other_id) == state_of(states, other_id),
{
}

/// The baseline of a candle buffer fits the integer widths it is held in.
pub proof fn lemma_closed_baseline_fits(s: Seq<Candle>)
    requires
        all_prices_in_range(s),
        s.len() >= 1,
        s.len() <= usize::MAX,
    ensures
        0 <= tr_sum(s) <= u128::MAX,
        (tr_sum(s) as u128) as int == tr_sum(s),
        ((s.len() - 1) as u64) as int == s.len() - 1,
{
    crate::indicators::atr::lemma_tr_sum_bounds(s);
    assert((s.len() - 1) * MAX_PRICE_TICKS <= 0xffff_ffff_ffff_ffff * 0x20_0000_0000_0000) by (nonlinear_arith)
        requires
            s.len() - 1 <= 0xffff_ffff_ffff_ffff,
            MAX_PRICE_TICKS == 0x20_0000_0000_0000,
    ;
}

/// Evaluates ATR rules; remembers per rule the candle and spike level it
/// last alerted on.
pub struct AtrEvaluator {
    live_alerts: HashMap<u64, LiveAlertState>,
}

impl AtrEvaluator {
    /// Per rule identifier: the candle and level it last alerted on.
    pub closed spec fn states(self) -> Map<u64, LiveAlertState> {
        self.live_alerts@
    }

    pub fn new() -> (r: AtrEvaluator)
        ensures
            r.states() == Map::<u64, LiveAlertState>::empty(),
    {
        AtrEvaluator { live_alerts: HashMap::new() }
    }

    /// Evaluates rule `rule_id` on the closed candles of `view`: the last
    /// closed bar's true range against the mean true range of the closed
    /// candles, in multiples of the rule's breakout ratio. Alerts when that
    /// level is above zero and above the level this rule already alerted on
    /// for the same candle.
    pub fn evaluate_atr(&mut self, view: &CandleView<'_>, rule_id: IndicatorRuleId, rule: &AtrRule) -> (r: Option<AtrAlert>)
        requires
            all_prices_in_range(view.closed_candles@),
        ensures
            final(self).states() == atr_step(old(self).states(), view.closed_candles@, rule_id.0, rule.breakout_ratio).0,
            r == (match atr_step(old(self).states(), view.closed_candles@, rule_id.0, rule.breakout_ratio).1 {
                Some(a) => Some(AtrAlert { rule_id, key: *view.key, atr: a }),
                None => None::<AtrAlert>,
            }),
    {
        let closed = view.closed_candles;
        let n = closed.len();
        if n < MIN_CANDLES_FOR_ATR {
            return None;
        }
        let previous_closed = closed[n - 2];
        let latest_closed = closed[n - 1];
        let atr_input = candles_of(closed);
        proof {
            assert(atr_input@[n - 2] == previous_closed);
            assert(atr_input@[n - 1] == latest_closed);
            lemma_closed_baseline_fits(atr_input@);
        }
        let closed_bar_tr = calculate_true_range(&previous_closed, &latest_closed);
        let average = match calculate_average_true_range(&atr_input) {
            Some(a) => a,
            None => {
                return None;
            },
        };
        let mut atr = match average.with_live(closed_bar_tr, latest_closed.open_time_ms) {
            Some(a) => a,
            None => {
                return None;
            },
        };
        let baseline = match atr.atr {
            Some(b) => b,
            None => {
                return None;
            },
        };
        let spike = spike_level(closed_bar_tr, baseline, rule.breakout_ratio);
        atr.spike_level = spike;
        if spike == NO_SPIKE_LEVEL {
            return None;
        }
        let fired = pass_gate(&mut self.live_alerts, rule_id.0, atr.open_time_ms, spike);
        if !fired {
            return None;
        }
        Some(AtrAlert { rule_id, key: *view.key, atr })
    }
}

} // verus!

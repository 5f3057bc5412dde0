//! Runs every indicator rule of a stream against its candles.
use vstd::prelude::*;

use crate::candle_store::CandleView;
use crate::evaluate::evaluators::indicators::atr_evaluator::{atr_step, lemma_atr_rule_alerts, AtrEvaluator};
use crate::evaluate::spike_gate::{state_of, LiveAlertState};
use crate::event::{Alert, Event};
use crate::indicator_rules::{IndicatorRule, IndicatorRuleId, IndicatorRuleKind};
use crate::indicators::atr::{
    all_prices_in_range, ratio_of, spike_level_of, true_range, tr_sum, AtrBaseline, ATR, MIN_CANDLES_FOR_ATR,
};
use crate::types::{Candle, CandleKey};

verus! {

/// The alert raised when ATR rule `id` on stream `key` fires with reading `a`
/// (none when the reading has no baseline).
pub open spec fn breakout_alert(key: CandleKey, id: IndicatorRuleId, a: ATR) -> Option<Alert> {
    match a.atr {
        Some(b) => Some(
            Alert {
                coin: key.coin,
                key: Some(key),
                event: Event::AtrBreakout {
                    indicator_rule_id: Some(id),
                    atr: b,
                    live_tr: a.live_tr,
                    ratio: a.ratio,
                    spike_level: a.spike_level,
                    open_time_ms: a.open_time_ms,
                },
            },
        ),
        None => None,
    }
}

/// Evaluating `rules`, in order, on stream `key` with closed candles `s`:
/// rules of another stream are skipped; the result is the per-rule states
/// afterwards and the alerts raised, in rule order.
pub open spec fn indicator_fold(
    states: Map<u64, LiveAlertState>,
    s: Seq<Candle>,
    key: CandleKey,
    rules: Seq<IndicatorRule>,
) -> (Map<u64, LiveAlertState>, Seq<Alert>)
    decreases rules.len(),
{
    if rules.len() == 0 {
        (states, Seq::empty())
    } else {
        let prev = indicator_fold(states, s, key, rules.drop_last());
        let rule = rules.last();
        if rule.key != key {
            prev
        } else {
            match rule.kind {
                IndicatorRuleKind::Atr(atr_rule) => {
                    let step = atr_step(prev.0, s, rule.id.0, atr_rule.breakout_ratio);
                    let alerts = match step.1 {
                        Some(a) => match breakout_alert(key, rule.id, a) {
                            Some(alert) => prev.1.push(alert),
                            None => prev.1,
                        },
                        None => prev.1,
                    };
                    (step.0, alerts)
                },
            }
        }
    }
}

/// Whether a rule watches stream `key`.
pub open spec fn on_stream(key: CandleKey) -> spec_fn(IndicatorRule) -> bool {
    |r: IndicatorRule| r.key == key
}

/// Whether `a` is a breakout alert of stream `key` raised by one of `rules`.
pub open spec fn raised_by(a: Alert, key: CandleKey, rules: Seq<IndicatorRule>) -> bool {
    &&& a.coin == key.coin
    &&& a.key == Some(key)
    &&& a.event matches Event::AtrBreakout { indicator_rule_id: Some(id), .. } && exists|j: int|
        0 <= j < rules.len() && (#[trigger] rules[j]).id == id
}

/// Rules of other streams count for nothing: evaluating `rules` gives the
/// same states and alerts as evaluating only those on stream `key`; there
/// are at most as many alerts as such rules, each a breakout alert of the
/// stream raised by one of them; no rules, no alerts.
pub proof fn lemma_fold_keeps_to_stream(states: Map<u64, LiveAlertState>, s: Seq<Candle>, key: CandleKey, rules: Seq<IndicatorRule>)
    ensures
        indicator_fold(states, s, key, rules) == indicator_fold(states, s, key, rules.filter(on_stream(key))),
        indicator_fold(states, s, key, rules).1.len() <= rules.filter(on_stream(key)).len(),
        forall|i: int|
            0 <= i < indicator_fold(states, s, key, rules).1.len() ==> raised_by(
                #[trigger] indicator_fold(states, s, key, rules).1[i],
                key,
                rules.filter(on_stream(key)),
            ),
        rules.len() == 0 ==> indicator_fold(states, s, key, rules).1.len() == 0,
    decreases rules.len(),
{
    reveal(Seq::filter);
    if rules.len() > 0 {
        let d = rules.drop_last();
        let rule = rules.last();
        let m = rules.filter(on_stream(key));
        let md = d.filter(on_stream(key));
        lemma_fold_keeps_to_stream(states, s, key, d);
        let prev = indicator_fold(states, s, key, d);
        if rule.key == key {
            assert(m == md.push(rule));
            assert(m.drop_last() =~= md);
            assert(m.last() == rule);
            let out = indicator_fold(states, s, key, rules).1;
            assert forall|i: int| 0 <= i < out.len() implies raised_by(#[trigger] out[i], key, m) by {
                if i < prev.1.len() {
                    assert(out[i] == prev.1[i]);
                    assert(raised_by(prev.1[i], key, md));
                    if let Event::AtrBreakout { indicator_rule_id: Some(id), .. } = out[i].event {
                        let j = choose|j: int| 0 <= j < md.len() && (#[trigger] md[j]).id == id;
                        assert(m[j] == md[j]);
                    }
                } else {
                    assert(m[m.len() - 1] == rule);
                }
            }
        } else {
            assert(m == md);
        }
    }
}

/// Evaluating one more rule: a rule of another stream changes nothing; an
/// ATR rule of the stream is evaluated at its own breakout ratio. It raises
/// at most one alert, after the earlier ones, exactly when the last closed
/// bar's true range reaches a level above zero against the mean true range
/// of the closed candles at that ratio, and the rule has no record, a record
/// of another candle, or a lower level on this candle. The alert is the
/// stream's breakout alert for that rule, carrying that level, the bar's
/// true range and open time, the baseline and the ratio.
pub proof fn lemma_rule_evaluated_at_its_ratio(
    states: Map<u64, LiveAlertState>,
    s: Seq<Candle>,
    key: CandleKey,
    rules: Seq<IndicatorRule>,
    rule: IndicatorRule,
)
    requires
        all_prices_in_range(s),
        s.len() <= usize::MAX,
    ensures
        ({
            let prev = indicator_fold(states, s, key, rules);
            let next = indicator_fold(states, s, key, rules.push(rule));
            &&& (rule.key != key || s.len() < MIN_CANDLES_FOR_ATR) ==> next.1 == prev.1
            &&& rule.key != key ==> next.0 == prev.0
            &&& next.1.len() <= prev.1.len() + 1
            &&& next.1.take(prev.1.len() as int) == prev.1
            &&& (rule.key == key && s.len() >= MIN_CANDLES_FOR_ATR) ==> match rule.kind {
                IndicatorRuleKind::Atr(atr_rule) => {
                    let n = s.len() as int;
                    let tr = true_range(s[n - 2], s[n - 1]);
                    let level = spike_level_of(tr, tr_sum(s), n - 1, atr_rule.breakout_ratio as int);
                    let t = s[n - 1].open_time_ms;
                    let rec = state_of(prev.0, rule.id.0);
                    let baseline = AtrBaseline { tr_sum: tr_sum(s) as u128, tr_count: (n - 1) as u64 };
                    &&& next.1.len() == prev.1.len() + 1 <==> (level != 0 && (rec is None || rec->0.open_time_ms
                        != t || level > rec->0.last_spike_level))
                    &&& next.1.len() == prev.1.len() + 1 ==> next.1.last() == (Alert {
                        coin: key.coin,
                        key: Some(key),
                        event: Event::AtrBreakout {
                            indicator_rule_id: Some(rule.id),
                            atr: baseline,
                            live_tr: tr as u64,
                            ratio: ratio_of(tr as u64, baseline),
                            spike_level: level as u64,
                            open_time_ms: t,
                        },
                    })
                },
            }
        }),
{
    let r2 = rules.push(rule);
    assert(r2.drop_last() =~= rules);
    let prev = indicator_fold(states, s, key, rules);
    let next = indicator_fold(states, s, key, r2);
    assert(prev.1.take(prev.1.len() as int) =~= prev.1);
    if rule.key == key {
        let IndicatorRuleKind::Atr(atr_rule) = rule.kind;
        lemma_atr_rule_alerts(prev.0, s, rule.id.0, atr_rule.breakout_ratio, if rule.id.0 == 0 { 1 } else { 0 });
        let step = atr_step(prev.0, s, rule.id.0, atr_rule.breakout_ratio);
        if step.1 is Some {
            assert(next.1 == prev.1.push(breakout_alert(key, rule.id, step.1->0)->0));
            assert(next.1.take(prev.1.len() as int) =~= prev.1);
        }
    }
}

/// Evaluates all indicator rules of a stream.
pub struct IndicatorEvaluator {
    atr_evaluator: AtrEvaluator,
}

impl IndicatorEvaluator {
    /// Per ATR rule identifier: the candle and level it last alerted on.
    pub closed spec fn atr_states(self) -> Map<u64, LiveAlertState> {
        self.atr_evaluator.states()
    }

    pub fn new() -> (r: IndicatorEvaluator)
        ensures
            r.atr_states() == Map::<u64, LiveAlertState>::empty(),
    {
        IndicatorEvaluator { atr_evaluator: AtrEvaluator::new() }
    }

    /// Evaluates each rule on the view, in order, and returns the alerts
    /// raised; a rule for another stream is skipped.
    pub fn evaluate_indicator(&mut self, view: &CandleView<'_>, rules: &[IndicatorRule]) -> (r: Vec<Alert>)
        requires
            all_prices_in_range(view.closed_candles@),
        ensures
            (final(self).atr_states(), r@) == indicator_fold(old(self).atr_states(), view.closed_candles@, *view.key, rules@),
    {
        let mut alerts: Vec<Alert> = Vec::new();
        let mut i: usize = 0;
        while i < rules.len()
            invariant
                i <= rules@.len(),
                all_prices_in_range(view.closed_candles@),
                (self.atr_states(), alerts@) == indicator_fold(
                    old(self).atr_states(),
                    view.closed_candles@,
                    *view.key,
                    rules@.take(i as int),
                ),
            decreases rules@.len() - i,
        {
            let rule = rules[i];
            proof {
                assert(rules@.take(i + 1).drop_last() =~= rules@.take(i as int));
                assert(rules@.take(i + 1).last() == rule);
            }
            if rule.key != *view.key {
                i += 1;
                continue;
            }
            match rule.kind {
                IndicatorRuleKind::Atr(atr_rule) => {
                    match self.atr_evaluator.evaluate_atr(view, rule.id, &atr_rule) {
                        Some(atr_alert) => match atr_alert.atr.baseline() {
                            Some(baseline) => {
                                alerts.push(
                                    Alert::indicator(
                                        atr_alert.key,
                                        Event::AtrBreakout {
                                            indicator_rule_id: Some(atr_alert.rule_id),
                                            atr: baseline,
                                            live_tr: atr_alert.atr.live_tr,
                                            ratio: atr_alert.atr.ratio,
                                            spike_level: atr_alert.atr.spike_level,
                                            open_time_ms: atr_alert.atr.open_time_ms,
                                        },
                                    ),
                                );
                            },
                            None => {},
                        },
                        None => {},
                    }
                },
            }
            i += 1;
        }
        proof {
            assert(rules@.take(rules@.len() as int) =~= rules@);
        }
        alerts
    }
}

} // verus!

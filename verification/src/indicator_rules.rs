//! Indicator rules and the service that keeps them per candle stream.
use vstd::prelude::*;

use std::collections::HashMap;

use crate::types::{stream_code, CandleKey};

verus! {

/// Identifier of a subscribed indicator rule.
#[derive(Debug, Clone, Copy, PartialEq, Eq, Hash, Structural)]
pub struct IndicatorRuleId(pub u64);

/// Thresholds of an ATR rule, as ratios in thousandths (see `RATIO_SCALE`):
/// the rule alerts at each multiple of `breakout_ratio`; `debug_ratio` is
/// the fraction of it from which evaluations are worth logging.
#[derive(Debug, Clone, Copy, PartialEq, Eq, Structural)]
pub struct AtrRule {
    pub breakout_ratio: u64,
    pub debug_ratio: u64,
}

/// The kinds of indicator rules.
#[derive(Debug, Clone, Copy, PartialEq, Eq, Structural)]
pub enum IndicatorRuleKind {
    Atr(AtrRule),
}

/// A subscribed rule: which stream it watches and what it checks.
#[derive(Debug, Clone, Copy, PartialEq, Eq, Structural)]
pub struct IndicatorRule {
    pub id: IndicatorRuleId,
    pub key: CandleKey,
    pub kind: IndicatorRuleKind,
}

/// A subscription request for an indicator rule.
#[derive(Debug, Clone, Copy, PartialEq, Eq, Structural)]
pub struct Indicator {
    pub key: CandleKey,
    pub kind: IndicatorRuleKind,
}

impl Indicator {
    pub fn new(key: CandleKey, kind: IndicatorRuleKind) -> (r: Indicator)
        ensures
            r == (Indicator { key, kind }),
    {
        Indicator { key, kind }
    }
}

/// Why an indicator-rule operation was refused.
#[derive(Debug, Clone, Copy, PartialEq, Eq, Structural)]
pub enum IndicatorRuleError {
    /// No rule of that kind exists for the stream.
    NotFound,
}

impl IndicatorRuleError {
    /// The message of this error.
    pub fn to_string(&self) -> (r: String)
        ensures
            r@ == "indicator rule not found"@,
    {
        "indicator rule not found".to_string()
    }
}

/// The rules `subscribe_default_atr_rules` adds for stream `k` when it
/// subscribes one rule of `kind` per key of `keys`, numbering them from `first_id`.
pub open spec fn rules_added(keys: Seq<CandleKey>, k: CandleKey, first_id: int, kind: IndicatorRuleKind) -> Seq<IndicatorRule>
    decreases keys.len(),
{
    if keys.len() == 0 {
        Seq::empty()
    } else {
        let before = rules_added(keys.drop_last(), k, first_id, kind);
        if keys.last() == k {
            before.push(IndicatorRule { id: IndicatorRuleId((first_id + keys.len() - 1) as u64), key: k, kind })
        } else {
            before
        }
    }
}

/// Unsubscribing undoes subscribing: on a stream with no rule of a kind,
/// the rule just subscribed is the first of its kind, so unsubscribing that
/// kind removes exactly it and gives back the stream's rules as they were.
pub proof fn lemma_rule_unsubscribe_undoes_subscribe(rules: Seq<IndicatorRule>, rule: IndicatorRule)
    requires
        forall|i: int| 0 <= i < rules.len() ==> (#[trigger] rules[i]).kind != rule.kind,
    ensures
        rules.push(rule)[rules.len() as int] == rule,
        forall|j: int| 0 <= j < rules.len() ==> (#[trigger] rules.push(rule)[j]).kind != rule.kind,
        rules.push(rule).remove(rules.len() as int) == rules,
{
    assert(rules.push(rule).remove(rules.len() as int) =~= rules);
}

/// Rules are stored under their own stream code, no stream is stored
/// without rules, and identifiers are distinct and below `next_id`.
spec fn stored_wf(m: Map<u8, Vec<IndicatorRule>>, next_id: u64) -> bool {
    &&& next_id >= 1
    &&& forall|c: u8| #[trigger] m.contains_key(c) ==> m[c]@.len() > 0
    &&& forall|c: u8, i: int|
        #![trigger m[c]@[i]]
        m.contains_key(c) && 0 <= i < m[c]@.len() ==> stream_code(m[c]@[i].key) == c && 1 <= m[c]@[i].id.0 < next_id
    &&& forall|c1: u8, i: int, c2: u8, j: int|
        #![trigger m[c1]@[i], m[c2]@[j]]
        m.contains_key(c1) && m.contains_key(c2) && 0 <= i < m[c1]@.len() && 0 <= j < m[c2]@.len() && (c1 != c2 || i != j)
            ==> m[c1]@[i].id != m[c2]@[j].id
}

/// Removing the rule at `index` of stream `code` (and the stream with its
/// last rule) keeps the stored rules well formed.
proof fn lemma_remove_keeps_wf(m0: Map<u8, Vec<IndicatorRule>>, m: Map<u8, Vec<IndicatorRule>>, code: u8, index: int, next_id: u64)
    requires
        stored_wf(m0, next_id),
        m0.contains_key(code),
        0 <= index < m0[code]@.len(),
        forall|c: u8| c != code ==> (#[trigger] m.contains_key(c) == m0.contains_key(c)),
        forall|c: u8| c != code && #[trigger] m.contains_key(c) ==> m[c] == m0[c],
        m.contains_key(code) <==> m0[code]@.len() > 1,
        m.contains_key(code) ==> m[code]@ == m0[code]@.remove(index),
    ensures
        stored_wf(m, next_id),
{
    assert forall|c: u8| #[trigger] m.contains_key(c) implies m[c]@.len() > 0 by {
        if c != code {
            assert(m0.contains_key(c));
        }
    }
    assert forall|c: u8, i: int|
        #![trigger m[c]@[i]]
        m.contains_key(c) && 0 <= i < m[c]@.len() implies stream_code(m[c]@[i].key) == c && 1 <= m[c]@[i].id.0 < next_id by {
        assert(m0.contains_key(c));
        if c != code {
            assert(m[c] == m0[c]);
        } else if i < index {
            assert(m[c]@[i] == m0[c]@[i]);
        } else {
            assert(m[c]@[i] == m0[c]@[i + 1]);
        }
    }
    assert forall|c1: u8, i: int, c2: u8, j: int|
        #![trigger m[c1]@[i], m[c2]@[j]]
        m.contains_key(c1) && m.contains_key(c2) && 0 <= i < m[c1]@.len() && 0 <= j < m[c2]@.len() && (c1 != c2 || i != j)
            implies m[c1]@[i].id != m[c2]@[j].id by {
        let oi = if c1 == code && i >= index { i + 1 } else { i };
        let oj = if c2 == code && j >= index { j + 1 } else { j };
        assert(m0.contains_key(c1) && m0.contains_key(c2));
        assert(m[c1]@[i] == m0[c1]@[oi]);
        assert(m[c2]@[j] == m0[c2]@[oj]);
    }
}

/// Keeps the subscribed rules of each stream in subscription order and
/// hands out rule identifiers.
pub struct IndicatorRuleService {
    rules_by_key: HashMap<u8, Vec<IndicatorRule>>,
    next_id: u64,
}

impl IndicatorRuleService {
    /// The rules of a stream, in subscription order.
    pub closed spec fn rules(self, key: CandleKey) -> Seq<IndicatorRule> {
        if self.rules_by_key@.contains_key(stream_code(key)) {
            self.rules_by_key@[stream_code(key)]@
        } else {
            Seq::empty()
        }
    }

    /// The identifier the next subscribed rule gets.
    pub closed spec fn next_id(self) -> u64 {
        self.next_id
    }

    /// Rules are stored under their own stream, no stream is stored without
    /// rules, and identifiers are distinct and below `next_id`.
    pub closed spec fn inv(self) -> bool {
        stored_wf(self.rules_by_key@, self.next_id)
    }

    /// How many rules have been created since `new`, by `subscribe` or
    /// `subscribe_default_atr_rules`.
    pub open spec fn rules_created(self) -> int {
        self.next_id() - 1
    }

    /// Every rule of a stream watches that stream and has an identifier
    /// from 1 up to the number of rules created; no two rules share an
    /// identifier.
    pub proof fn lemma_rules_wf(self, k1: CandleKey, k2: CandleKey)
        requires
            self.inv(),
        ensures
            forall|i: int| 0 <= i < self.rules(k1).len() ==> (#[trigger] self.rules(k1)[i]).key == k1
                && 1 <= self.rules(k1)[i].id.0 <= self.rules_created(),
            self.rules_created() >= 0,
            forall|i: int, j: int|
                0 <= i < self.rules(k1).len() && 0 <= j < self.rules(k2).len() && (k1 != k2 || i != j)
                    ==> #[trigger] self.rules(k1)[i].id != #[trigger] self.rules(k2)[j].id,
    {
        let m = self.rules_by_key@;
        assert forall|i: int| 0 <= i < self.rules(k1).len() implies (#[trigger] self.rules(k1)[i]).key == k1
            && 1 <= self.rules(k1)[i].id.0 < self.next_id() by {
            let c = stream_code(k1);
            assert(m.contains_key(c));
            assert(stream_code(m[c]@[i].key) == c);
            crate::types::lemma_stream_code_injective(m[c]@[i].key, k1);
        }
        assert forall|i: int, j: int|
            0 <= i < self.rules(k1).len() && 0 <= j < self.rules(k2).len() && (k1 != k2 || i != j)
                implies #[trigger] self.rules(k1)[i].id != #[trigger] self.rules(k2)[j].id by {
            let c1 = stream_code(k1);
            let c2 = stream_code(k2);
            crate::types::lemma_stream_code_injective(k1, k2);
            assert(m.contains_key(c1) && m.contains_key(c2));
            assert(m[c1]@[i] == self.rules(k1)[i]);
            assert(m[c2]@[j] == self.rules(k2)[j]);
        }
    }

    pub fn new() -> (r: IndicatorRuleService)
        ensures
            r.inv(),
            r.next_id() == 1,
            r.rules_created() == 0,
            forall|k: CandleKey| #[trigger] r.rules(k) == Seq::<IndicatorRule>::empty(),
    {
        IndicatorRuleService { rules_by_key: HashMap::new(), next_id: 1 }
    }

    /// Hands out the next rule identifier.
    fn next_rule_id(&mut self) -> (r: IndicatorRuleId)
        requires
            old(self).next_id < u64::MAX,
        ensures
            r.0 == old(self).next_id,
            final(self).next_id == old(self).next_id + 1,
            final(self).rules_by_key == old(self).rules_by_key,
    {
        let id = IndicatorRuleId(self.next_id);
        self.next_id = self.next_id + 1;
        id
    }

    /// Subscribes a rule of `kind` on stream `key` under a fresh identifier.
    pub fn subscribe(&mut self, key: CandleKey, kind: IndicatorRuleKind) -> (r: IndicatorRule)
        requires
            old(self).inv(),
            old(self).next_id() < u64::MAX,
        ensures
            final(self).inv(),
            r == (IndicatorRule { id: IndicatorRuleId(old(self).next_id()), key, kind }),
            final(self).next_id() == old(self).next_id() + 1,
            r.id.0 == old(self).rules_created() + 1,
            final(self).rules_created() == old(self).rules_created() + 1,
            final(self).rules(key) == old(self).rules(key).push(r),
            forall|k: CandleKey| k != key ==> #[trigger] final(self).rules(k) == old(self).rules(k),
    {
        let rule = IndicatorRule { id: self.next_rule_id(), key, kind };
        let code = key.code();
        let mut rules = match self.rules_by_key.remove(&code) {
            Some(v) => v,
            None => Vec::new(),
        };
        let ghost before = rules@;
        rules.push(rule);
        self.rules_by_key.insert(code, rules);
        proof {
            let m0 = old(self).rules_by_key@;
            let m = self.rules_by_key@;
            assert(before == old(self).rules(key));
            assert forall|k: CandleKey| k != key implies #[trigger] self.rules(k) == old(self).rules(k) by {
                crate::types::lemma_stream_code_injective(k, key);
            }
            assert forall|c: u8, i: int|
                #![trigger m[c]@[i]]
                m.contains_key(c) && 0 <= i < m[c]@.len() implies stream_code(m[c]@[i].key) == c && 1 <= m[c]@[i].id.0 < self.next_id by {
                if c != code {
                    assert(m[c] == m0[c]);
                } else if i < before.len() {
                    assert(m[c]@[i] == m0[c]@[i]);
                }
            }
            assert forall|c1: u8, i: int, c2: u8, j: int|
                #![trigger m[c1]@[i], m[c2]@[j]]
                m.contains_key(c1) && m.contains_key(c2) && 0 <= i < m[c1]@.len() && 0 <= j < m[c2]@.len() && (c1 != c2 || i != j)
                    implies m[c1]@[i].id != m[c2]@[j].id by {
                let old_i = c1 != code || i < before.len();
                let old_j = c2 != code || j < before.len();
                if old_i {
                    assert(m0.contains_key(c1));
                    assert(m[c1]@[i] == m0[c1]@[i]);
                }
                if old_j {
                    assert(m0.contains_key(c2));
                    assert(m[c2]@[j] == m0[c2]@[j]);
                }
            }
        }
        rule
    }

    /// Removes the first rule of `kind` on stream `key`, dropping the stream
    /// when it has no rule left; `NotFound` when there is none.
    #[verifier::rlimit(40)]
    pub fn unsubscribe(&mut self, key: CandleKey, kind: IndicatorRuleKind) -> (r: Result<IndicatorRule, IndicatorRuleError>)
        requires
            old(self).inv(),
        ensures
            final(self).inv(),
            final(self).next_id() == old(self).next_id(),
            forall|k: CandleKey| k != key ==> #[trigger] final(self).rules(k) == old(self).rules(k),
            (forall|i: int| 0 <= i < old(self).rules(key).len() ==> (#[trigger] old(self).rules(key)[i]).kind != kind) ==> {
                &&& r == Err::<IndicatorRule, IndicatorRuleError>(IndicatorRuleError::NotFound)
                &&& final(self).rules(key) == old(self).rules(key)
            },
            forall|i: int|
                0 <= i < old(self).rules(key).len() && (#[trigger] old(self).rules(key)[i]).kind == kind && (forall|j: int|
                    0 <= j < i ==> old(self).rules(key)[j].kind != kind) ==> {
                    &&& r == Ok::<IndicatorRule, IndicatorRuleError>(old(self).rules(key)[i])
                    &&& final(self).rules(key) == old(self).rules(key).remove(i)
                },
    {
        let code = key.code();
        let mut rules = match self.rules_by_key.remove(&code) {
            Some(v) => v,
            None => {
                return Err(IndicatorRuleError::NotFound);
            },
        };
        let ghost s = rules@;
        let mut index: usize = 0;
        while index < rules.len()
            invariant
                rules@ == s,
                index <= s.len(),
                forall|j: int| 0 <= j < index ==> s[j].kind != kind,
            ensures
                index <= s.len(),
                forall|j: int| 0 <= j < index ==> s[j].kind != kind,
                index < s.len() ==> s[index as int].kind == kind,
            decreases s.len() - index,
        {
            if rules[index].kind == kind {
                break;
            }
            index += 1;
        }
        if index == rules.len() {
            self.rules_by_key.insert(code, rules);
            proof {
                assert(self.rules_by_key@ =~= old(self).rules_by_key@);
            }
            return Err(IndicatorRuleError::NotFound);
        }
        let rule = rules.remove(index);
        if rules.len() > 0 {
            self.rules_by_key.insert(code, rules);
        }
        proof {
            let m0 = old(self).rules_by_key@;
            let m = self.rules_by_key@;
            assert(s == old(self).rules(key));
            assert(s[index as int].kind == kind);
            assert forall|i: int|
                0 <= i < s.len() && (#[trigger] s[i]).kind == kind && (forall|j: int| 0 <= j < i ==> s[j].kind != kind)
                    implies i == index by {
                if i < index {
                } else if i > index {
                    assert(s[index as int].kind != kind);
                }
            }
            assert(self.rules(key) =~= s.remove(index as int));
            assert forall|k: CandleKey| k != key implies #[trigger] self.rules(k) == old(self).rules(k) by {
                crate::types::lemma_stream_code_injective(k, key);
            }
            lemma_remove_keeps_wf(m0, m, code, index as int, self.next_id);
        }
        Ok(rule)
    }

    /// Subscribes one ATR rule with the given thresholds on each stream of
    /// `candle_keys`, in order; returns the new identifiers.
    pub fn subscribe_default_atr_rules(&mut self, candle_keys: &[CandleKey], breakout_ratio: u64, debug_ratio: u64) -> (r: Vec<IndicatorRuleId>)
        requires
            old(self).inv(),
            old(self).next_id() + candle_keys@.len() < u64::MAX,
        ensures
            final(self).inv(),
            final(self).next_id() == old(self).next_id() + candle_keys@.len(),
            final(self).rules_created() == old(self).rules_created() + candle_keys@.len(),
            r@.len() == candle_keys@.len(),
            forall|i: int| 0 <= i < r@.len() ==> #[trigger] r@[i] == IndicatorRuleId((old(self).next_id() + i) as u64),
            forall|k: CandleKey| #[trigger] final(self).rules(k) == old(self).rules(k) + rules_added(
                candle_keys@,
                k,
                old(self).next_id() as int,
                IndicatorRuleKind::Atr(AtrRule { breakout_ratio, debug_ratio }),
            ),
    {
        let kind = IndicatorRuleKind::Atr(AtrRule { breakout_ratio, debug_ratio });
        let ghost start = self.next_id() as int;
        let mut ids: Vec<IndicatorRuleId> = Vec::new();
        let mut i: usize = 0;
        while i < candle_keys.len()
            invariant
                i <= candle_keys@.len(),
                self.inv(),
                start == old(self).next_id(),
                self.next_id() == start + i,
                start + candle_keys@.len() < u64::MAX,
                ids@.len() == i,
                forall|j: int| 0 <= j < i ==> #[trigger] ids@[j] == IndicatorRuleId((start + j) as u64),
                forall|k: CandleKey| #[trigger] self.rules(k) == old(self).rules(k) + rules_added(candle_keys@.take(i as int), k, start, kind),
            decreases candle_keys@.len() - i,
        {
            let key = candle_keys[i];
            let ghost before = *self;
            let rule = self.subscribe(key, kind);
            ids.push(rule.id);
            i += 1;
            proof {
                let t = candle_keys@.take(i as int);
                assert(t.drop_last() =~= candle_keys@.take(i - 1));
                assert(t.last() == key);
                assert forall|k: CandleKey| #[trigger] self.rules(k) == old(self).rules(k) + rules_added(t, k, start, kind) by {
                    if k == key {
                        assert(self.rules(k) =~= old(self).rules(k) + rules_added(t, k, start, kind));
                    }
                }
            }
        }
        proof {
            assert(candle_keys@.take(candle_keys@.len() as int) =~= candle_keys@);
        }
        ids
    }

    /// The rules of a stream, in subscription order.
    pub fn rules_for_key(&self, key: &CandleKey) -> (r: Vec<IndicatorRule>)
        ensures
            r@ == self.rules(*key),
    {
        let code = key.code();
        match self.rules_by_key.get(&code) {
            Some(rules) => {
                let mut out: Vec<IndicatorRule> = Vec::new();
                let mut i: usize = 0;
                while i < rules.len()
                    invariant
                        i <= rules.len(),
                        out@ == rules@.take(i as int),
                    decreases rules.len() - i,
                {
                    out.push(rules[i]);
                    i += 1;
                    proof {
                        assert(out@ =~= rules@.take(i as int));
                    }
                }
                proof {
                    assert(rules@.take(rules@.len() as int) =~= rules@);
                }
                out
            },
            None => Vec::new(),
        }
    }
}

} // verus!

//! Alert rules and the evaluate-and-advance algorithm.
//!
//! A rule fires when the price moves, in either direction, at least its
//! threshold away from the reference price, measured in hundredths of a
//! percent. On a fire the reference advances to the triggering price, so
//! later alerts measure from the last alert point (a trailing threshold),
//! not from an ever-stale origin.

use vstd::prelude::*;

use vstd::arithmetic::div_mod::lemma_div_nonincreasing;
use vstd::arithmetic::mul::lemma_mul_upper_bound;

use crate::types::MonitorError;
use crate::types::PriceAlert;
use crate::types::RuleModel;

verus! {

/// Absolute difference of two integers.
pub open spec fn abs_diff(a: int, b: int) -> int {
    if a >= b {
        a - b
    } else {
        b - a
    }
}

/// The threshold test: the move from `reference` to `new_price` is at least
/// `threshold_bps` hundredths of a percent of `reference`. Phrased without
/// division, so it is exact:
/// `|new - ref| / ref * 10000 >= threshold  <==>  |new - ref| * 10000 >= threshold * ref`.
pub open spec fn crosses(reference: int, new_price: int, threshold_bps: int) -> bool {
    abs_diff(new_price, reference) * 10000 >= threshold_bps * reference
}

/// Signed change from `reference` to `new_price` in hundredths of a percent,
/// rounded towards zero.
pub open spec fn change_bps(reference: int, new_price: int) -> int {
    if new_price >= reference {
        (new_price - reference) * 10000 / reference
    } else {
        -((reference - new_price) * 10000 / reference)
    }
}

/// The product of two values of `u64` range fits in a `u128`.
proof fn lemma_u64_mul_fits_u128(a: int, b: int)
    requires
        0 <= a <= u64::MAX,
        0 <= b <= u64::MAX,
    ensures
        a * b <= u128::MAX,
{
    lemma_mul_upper_bound(a, u64::MAX as int, b, u64::MAX as int);
}

/// Exact fixed-point computation of [`change_bps`].
fn compute_change_bps(reference: u64, new_price: u64) -> (r: i128)
    requires
        reference > 0,
    ensures
        r as int == change_bps(reference as int, new_price as int),
{
    let diff: u64 = if new_price >= reference {
        new_price - reference
    } else {
        reference - new_price
    };
    proof {
        lemma_u64_mul_fits_u128(diff as int, 10000);
    }
    let num: u128 = (diff as u128) * 10000;
    let mag: u128 = num / (reference as u128);
    proof {
        lemma_div_nonincreasing(num as int, reference as int);
        assert(mag <= u64::MAX as int * 10000);
    }
    if new_price >= reference {
        mag as i128
    } else {
        -(mag as i128)
    }
}

/// Abstract value of a sequence of rules: later entries win, as in a map
/// built by inserting each entry in order.
pub open spec fn rules_map(s: Seq<PriceAlert>) -> Map<Seq<char>, RuleModel>
    decreases s.len(),
{
    if s.len() == 0 {
        Map::empty()
    } else {
        rules_map(s.drop_last()).insert(s.last()@.token, s.last()@)
    }
}

/// Entries carry pairwise distinct tokens.
pub open spec fn rules_distinct(s: Seq<PriceAlert>) -> bool {
    forall|i: int, j: int|
        0 <= i < j < s.len() ==> s[i]@.token != s[j]@.token
}

/// A key is in the map exactly when some entry carries it.
pub proof fn lemma_rules_map_contains(s: Seq<PriceAlert>, k: Seq<char>)
    ensures
        rules_map(s).contains_key(k) <==> exists|i: int|
            0 <= i < s.len() && s[i]@.token == k,
    decreases s.len(),
{
    if s.len() > 0 {
        lemma_rules_map_contains(s.drop_last(), k);
        if s.last()@.token == k {
            assert(s[s.len() - 1]@.token == k);
        } else if rules_map(s.drop_last()).contains_key(k) {
            let i = choose|i: int| 0 <= i < s.drop_last().len() && s.drop_last()[i]@.token == k;
            assert(s[i]@.token == k);
        } else if exists|i: int| 0 <= i < s.len() && s[i]@.token == k {
            let i = choose|i: int| 0 <= i < s.len() && s[i]@.token == k;
            assert(s.drop_last()[i]@.token == k);
        }
    }
}

/// With distinct tokens, the map agrees with every entry.
pub proof fn lemma_rules_map_get(s: Seq<PriceAlert>, i: int)
    requires
        rules_distinct(s),
        0 <= i < s.len(),
    ensures
        rules_map(s).contains_key(s[i]@.token),
        rules_map(s)[s[i]@.token] == s[i]@,
    decreases s.len(),
{
    lemma_rules_map_contains(s, s[i]@.token);
    if i < s.len() - 1 {
        assert(s[i]@.token != s.last()@.token);
        assert(s.drop_last()[i] == s[i]);
        lemma_rules_map_get(s.drop_last(), i);
    }
}

/// Replacing the entry at `i` by one with the same token updates the map at
/// that token alone.
pub proof fn lemma_rules_map_update(s: Seq<PriceAlert>, i: int, d: PriceAlert)
    requires
        rules_distinct(s),
        0 <= i < s.len(),
        d@.token == s[i]@.token,
    ensures
        rules_distinct(s.update(i, d)),
        rules_map(s.update(i, d)) == rules_map(s).insert(d@.token, d@),
{
    let s2 = s.update(i, d);
    let k = d@.token;
    assert forall|k2: Seq<char>|
        rules_map(s2).contains_key(k2) == rules_map(s).insert(k, d@).contains_key(k2) by {
        lemma_rules_map_contains(s2, k2);
        lemma_rules_map_contains(s, k2);
        if k2 == k {
            assert(s2[i]@.token == k2);
        } else {
            if exists|j: int| 0 <= j < s.len() && s[j]@.token == k2 {
                let j = choose|j: int| 0 <= j < s.len() && s[j]@.token == k2;
                assert(s2[j]@.token == k2);
            }
            if exists|j: int| 0 <= j < s2.len() && s2[j]@.token == k2 {
                let j = choose|j: int| 0 <= j < s2.len() && s2[j]@.token == k2;
                assert(s[j]@.token == k2);
            }
        }
    }
    assert forall|k2: Seq<char>| #[trigger]
        rules_map(s2).contains_key(k2) implies rules_map(s2)[k2] == rules_map(s).insert(
        k,
        d@,
    )[k2] by {
        lemma_rules_map_contains(s2, k2);
        let j = choose|j: int| 0 <= j < s2.len() && s2[j]@.token == k2;
        lemma_rules_map_get(s2, j);
        if k2 == k {
            assert(j == i);
        } else {
            assert(j != i);
            assert(s[j]@.token == k2);
            lemma_rules_map_get(s, j);
        }
    }
    assert(rules_map(s2) =~= rules_map(s).insert(k, d@));
}

/// Appending an entry inserts it into the map.
pub proof fn lemma_rules_map_push(s: Seq<PriceAlert>, d: PriceAlert)
    ensures
        rules_map(s.push(d)) == rules_map(s).insert(d@.token, d@),
{
    assert(s.push(d).drop_last() =~= s);
    assert(s.push(d).last() == d);
}

/// Removing the entry at `i` removes its token from the map.
pub proof fn lemma_rules_map_remove(s: Seq<PriceAlert>, i: int)
    requires
        rules_distinct(s),
        0 <= i < s.len(),
    ensures
        rules_distinct(s.remove(i)),
        rules_map(s.remove(i)) == rules_map(s).remove(s[i]@.token),
    decreases s.len(),
{
    let s2 = s.remove(i);
    let k = s[i]@.token;
    assert forall|k2: Seq<char>|
        rules_map(s2).contains_key(k2) == rules_map(s).remove(k).contains_key(k2) by {
        lemma_rules_map_contains(s2, k2);
        lemma_rules_map_contains(s, k2);
        if k2 == k {
            if exists|j: int| 0 <= j < s2.len() && s2[j]@.token == k2 {
                let j = choose|j: int| 0 <= j < s2.len() && s2[j]@.token == k2;
                if j < i {
                    assert(s[j]@.token == k2);
                } else {
                    assert(s[j + 1]@.token == k2);
                }
                assert(false);
            }
        } else {
            if exists|j: int| 0 <= j < s.len() && s[j]@.token == k2 {
                let j = choose|j: int| 0 <= j < s.len() && s[j]@.token == k2;
                assert(j != i);
                if j < i {
                    assert(s2[j]@.token == k2);
                } else {
                    assert(s2[j - 1]@.token == k2);
                }
            }
            if exists|j: int| 0 <= j < s2.len() && s2[j]@.token == k2 {
                let j = choose|j: int| 0 <= j < s2.len() && s2[j]@.token == k2;
                if j < i {
                    assert(s[j]@.token == k2);
                } else {
                    assert(s[j + 1]@.token == k2);
                }
            }
        }
    }
    assert forall|k2: Seq<char>| #[trigger]
        rules_map(s2).contains_key(k2) implies rules_map(s2)[k2] == rules_map(s).remove(
        k,
    )[k2] by {
        lemma_rules_map_contains(s2, k2);
        let j = choose|j: int| 0 <= j < s2.len() && s2[j]@.token == k2;
        lemma_rules_map_get(s2, j);
        if j < i {
            lemma_rules_map_get(s, j);
        } else {
            lemma_rules_map_get(s, j + 1);
        }
    }
    assert(rules_map(s2) =~= rules_map(s).remove(k));
}

/// The rule created by a registration: reference unset, rule active.
pub open spec fn fresh_rule(token: Seq<char>, threshold_bps: int) -> RuleModel {
    RuleModel { token: token, threshold_bps: threshold_bps, last_price: 0, active: true }
}

/// Registry after registering `token` with `threshold_bps`: the new rule
/// replaces any prior one.
pub open spec fn register_model(
    m: Map<Seq<char>, RuleModel>,
    token: Seq<char>,
    threshold_bps: int,
) -> Map<Seq<char>, RuleModel> {
    m.insert(token, fresh_rule(token, threshold_bps))
}

/// Whether an evaluation of `new_price` against the rule for `token` fires:
/// a rule exists, its reference is set, and the threshold is crossed.
pub open spec fn rule_fires(m: Map<Seq<char>, RuleModel>, token: Seq<char>, new_price: int) -> bool {
    &&& m.contains_key(token)
    &&& m[token].last_price > 0
    &&& crosses(m[token].last_price, new_price, m[token].threshold_bps)
}

/// The rule for `token` after its reference advanced to `new_price`.
pub open spec fn advanced_rule(rule: RuleModel, new_price: int) -> RuleModel {
    RuleModel {
        token: rule.token,
        threshold_bps: rule.threshold_bps,
        last_price: new_price,
        active: rule.active,
    }
}

/// Registry after one evaluation of `new_price` for `token`: the reference
/// advances on the first observation (seeding) and on a fire, and is left
/// alone otherwise; no other rule is touched.
pub open spec fn evaluate_model(
    m: Map<Seq<char>, RuleModel>,
    token: Seq<char>,
    new_price: int,
) -> Map<Seq<char>, RuleModel> {
    if !m.contains_key(token) {
        m
    } else if m[token].last_price == 0 || crosses(
        m[token].last_price,
        new_price,
        m[token].threshold_bps,
    ) {
        m.insert(token, advanced_rule(m[token], new_price))
    } else {
        m
    }
}

/// The change an evaluation reports: the signed move in hundredths of a
/// percent when the rule fires, and nothing otherwise.
pub open spec fn evaluate_outcome(
    m: Map<Seq<char>, RuleModel>,
    token: Seq<char>,
    new_price: int,
) -> Option<int> {
    if rule_fires(m, token, new_price) {
        Some(change_bps(m[token].last_price, new_price))
    } else {
        None
    }
}

/// What a fired evaluation hands back: the reference the change was
/// measured against, and the change itself in hundredths of a percent.
pub struct AlertFire {
    /// The reference price before the rule advanced.
    pub old_reference_price: u64,
    /// Signed change from that reference, rounded towards zero.
    pub change_bps: i128,
}

/// Mapping from token to its alert rule. Registration replaces the rule for
/// the token atomically; evaluation is serialized per registry value.
pub struct AlertRegistry {
    rules: Vec<PriceAlert>,
}

impl View for AlertRegistry {
    type V = Map<Seq<char>, RuleModel>;

    closed spec fn view(&self) -> Map<Seq<char>, RuleModel> {
        rules_map(self.rules@)
    }
}

impl AlertRegistry {
    /// Internal invariant: distinct tokens, strictly positive thresholds.
    pub closed spec fn wf(&self) -> bool {
        &&& rules_distinct(self.rules@)
        &&& forall|i: int| 0 <= i < self.rules@.len() ==> self.rules@[i]@.threshold_bps > 0
    }

    /// An empty registry.
    pub fn new() -> (r: Self)
        ensures
            r.wf(),
            r@ == Map::<Seq<char>, RuleModel>::empty(),
    {
        AlertRegistry { rules: Vec::new() }
    }

    /// Index of the rule for `token`, if one exists.
    fn find_index(&self, token: &String) -> (r: Option<usize>)
        ensures
            match r {
                Some(i) => 0 <= i < self.rules@.len() && self.rules@[i as int]@.token == token@,
                None => forall|i: int|
                    0 <= i < self.rules@.len() ==> self.rules@[i]@.token != token@,
            },
    {
        let n = self.rules.len();
        let mut i: usize = 0;
        while i < n
            invariant
                n == self.rules@.len(),
                0 <= i <= n,
                forall|j: int| 0 <= j < i ==> self.rules@[j]@.token != token@,
            decreases n - i,
        {
            if self.rules[i].token == *token {
                return Some(i);
            }
            i = i + 1;
        }
        None
    }

    /// Creates or replaces the rule for `token`, with the reference price
    /// reset to unset and the rule active. Rejected with `InvalidThreshold`
    /// exactly when `threshold_bps` is zero, leaving the registry untouched.
    pub fn register(&mut self, token: String, threshold_bps: u64) -> (r: Result<
        (),
        MonitorError,
    >)
        requires
            old(self).wf(),
        ensures
            final(self).wf(),
            threshold_bps == 0 ==> r == Err::<(), MonitorError>(MonitorError::InvalidThreshold)
                && final(self)@ == old(self)@,
            threshold_bps > 0 ==> r == Ok::<(), MonitorError>(()) && final(self)@
                == register_model(old(self)@, token@, threshold_bps as int),
    {
        if threshold_bps == 0 {
            return Err(MonitorError::InvalidThreshold);
        }
        let ghost s0 = self.rules@;
        let rule = PriceAlert { token, threshold_bps, last_price: 0, active: true };
        match self.find_index(&rule.token) {
            Some(i) => {
                proof {
                    lemma_rules_map_update(s0, i as int, rule);
                }
                self.rules.set(i, rule);
            },
            None => {
                proof {
                    lemma_rules_map_push(s0, rule);
                }
                self.rules.push(rule);
            },
        }
        Ok(())
    }

    /// Removes the rule for `token` if one exists; doing so for an unknown
    /// token is a no-op and never an error.
    pub fn unregister(&mut self, token: &String)
        requires
            old(self).wf(),
        ensures
            final(self).wf(),
            final(self)@ == old(self)@.remove(token@),
    {
        let ghost s0 = self.rules@;
        match self.find_index(token) {
            Some(i) => {
                proof {
                    lemma_rules_map_remove(s0, i as int);
                }
                self.rules.remove(i);
            },
            None => {
                proof {
                    lemma_rules_map_contains(s0, token@);
                    assert(rules_map(s0).remove(token@) =~= rules_map(s0));
                }
            },
        }
    }

    /// The core algorithm, atomic per registry value: seed the reference on
    /// the first observation, otherwise fire and advance the reference
    /// exactly when the threshold is crossed.
    pub fn evaluate_and_advance(&mut self, token: &String, new_price: u64) -> (r: Option<
        AlertFire,
    >)
        requires
            old(self).wf(),
            new_price > 0,
        ensures
            final(self).wf(),
            final(self)@ == evaluate_model(old(self)@, token@, new_price as int),
            r is Some <==> rule_fires(old(self)@, token@, new_price as int),
            r matches Some(f) ==> f.old_reference_price as int == old(self)@[token@].last_price
                && Some(f.change_bps as int) == evaluate_outcome(
                old(self)@,
                token@,
                new_price as int,
            ),
    {
        let ghost s0 = self.rules@;
        let i = match self.find_index(token) {
            Some(i) => i,
            None => {
                proof {
                    lemma_rules_map_contains(s0, token@);
                }
                return None;
            },
        };
        proof {
            lemma_rules_map_get(s0, i as int);
        }
        let reference = self.rules[i].last_price;
        let threshold = self.rules[i].threshold_bps;
        if reference == 0 {
            let advanced = PriceAlert {
                token: self.rules[i].token.clone(),
                threshold_bps: threshold,
                last_price: new_price,
                active: self.rules[i].active,
            };
            proof {
                lemma_rules_map_update(s0, i as int, advanced);
            }
            self.rules.set(i, advanced);
            None
        } else {
            let diff: u64 = if new_price >= reference {
                new_price - reference
            } else {
                reference - new_price
            };
            proof {
                lemma_u64_mul_fits_u128(diff as int, 10000);
                lemma_u64_mul_fits_u128(threshold as int, reference as int);
            }
            let fires = (diff as u128) * 10000 >= (threshold as u128) * (reference as u128);
            if fires {
                let change = compute_change_bps(reference, new_price);
                let advanced = PriceAlert {
                    token: self.rules[i].token.clone(),
                    threshold_bps: threshold,
                    last_price: new_price,
                    active: self.rules[i].active,
                };
                proof {
                    lemma_rules_map_update(s0, i as int, advanced);
                }
                self.rules.set(i, advanced);
                Some(AlertFire { old_reference_price: reference, change_bps: change })
            } else {
                None
            }
        }
    }

    /// The set of tokens with a rule, one copy each.
    pub fn list_tokens(&self) -> (r: Vec<String>)
        requires
            self.wf(),
        ensures
            forall|i: int| 0 <= i < r@.len() ==> self@.contains_key(#[trigger] r@[i]@),
            forall|k: Seq<char>| #[trigger]
                self@.contains_key(k) ==> exists|i: int| 0 <= i < r@.len() && r@[i]@ == k,
            forall|i: int, j: int| 0 <= i < j < r@.len() ==> r@[i]@ != r@[j]@,
    {
        let n = self.rules.len();
        let mut r: Vec<String> = Vec::new();
        let mut i: usize = 0;
        while i < n
            invariant
                n == self.rules@.len(),
                0 <= i <= n,
                self.wf(),
                r@.len() == i,
                forall|j: int| 0 <= j < i ==> r@[j]@ == self.rules@[j]@.token,
            decreases n - i,
        {
            r.push(self.rules[i].token.clone());
            i = i + 1;
        }
        proof {
            assert forall|j: int| 0 <= j < r@.len() implies self@.contains_key(
                #[trigger] r@[j]@,
            ) by {
                lemma_rules_map_contains(self.rules@, r@[j]@);
            }
            assert forall|k: Seq<char>| #[trigger]
                self@.contains_key(k) implies exists|j: int|
                0 <= j < r@.len() && r@[j]@ == k by {
                lemma_rules_map_contains(self.rules@, k);
                let j = choose|j: int| 0 <= j < self.rules@.len() && self.rules@[j]@.token == k;
                assert(r@[j]@ == k);
            }
        }
        r
    }
}

} // verus!

//! Laws of the alert semantics, stated over the registry model that the
//! executable contracts ensure.
//!
//! Each law speaks about `register_model`, `evaluate_model` and
//! `evaluate_outcome`, the transitions that `add_alert`, `update_price` and
//! `remove_alert` are proved to perform, so it holds of every run of the
//! engine.

use vstd::prelude::*;

use crate::alert_registry::crosses;
use crate::alert_registry::change_bps;
use crate::alert_registry::evaluate_model;
use crate::alert_registry::evaluate_outcome;
use crate::alert_registry::register_model;
use crate::types::RuleModel;

verus! {

/// The registry after a run of evaluations for `token`, one price at a
/// time, oldest first.
pub open spec fn evaluate_seq_model(
    m: Map<Seq<char>, RuleModel>,
    token: Seq<char>,
    prices: Seq<int>,
) -> Map<Seq<char>, RuleModel>
    decreases prices.len(),
{
    if prices.len() == 0 {
        m
    } else {
        evaluate_seq_model(evaluate_model(m, token, prices.first()), token, prices.drop_first())
    }
}

/// How many of a run of evaluations for `token` fire.
pub open spec fn alert_count(
    m: Map<Seq<char>, RuleModel>,
    token: Seq<char>,
    prices: Seq<int>,
) -> nat
    decreases prices.len(),
{
    if prices.len() == 0 {
        0
    } else {
        (if evaluate_outcome(m, token, prices.first()) is Some {
            1nat
        } else {
            0nat
        }) + alert_count(evaluate_model(m, token, prices.first()), token, prices.drop_first())
    }
}

/// A token is monitored from registration until it is unregistered:
/// registering adds it, no evaluation adds or removes a monitored token,
/// and unregistering removes it.
pub proof fn lemma_monitored_until_unregistered(
    m: Map<Seq<char>, RuleModel>,
    token: Seq<char>,
    threshold_bps: int,
    other: Seq<char>,
    price: int,
)
    ensures
        register_model(m, token, threshold_bps).contains_key(token),
        evaluate_model(m, other, price).dom() == m.dom(),
        !m.remove(token).contains_key(token),
{
    assert(evaluate_model(m, other, price).dom() =~= m.dom());
}

/// The first evaluation after a registration never fires, whatever the
/// price: it only seeds the reference, which registration left unset.
pub proof fn lemma_first_ingest_no_alert(
    m: Map<Seq<char>, RuleModel>,
    token: Seq<char>,
    threshold_bps: int,
    price: int,
)
    ensures
        evaluate_outcome(register_model(m, token, threshold_bps), token, price) is None,
        evaluate_model(register_model(m, token, threshold_bps), token, price)[token]
            == (RuleModel {
            token: token,
            threshold_bps: threshold_bps,
            last_price: price,
            active: true,
        }),
{
}

/// An evaluation that stays below the threshold neither fires nor moves
/// the reference: the registry is left exactly as it was.
pub proof fn lemma_below_threshold_no_alert(
    m: Map<Seq<char>, RuleModel>,
    token: Seq<char>,
    price: int,
)
    requires
        m.contains_key(token),
        m[token].last_price > 0,
        !crosses(m[token].last_price, price, m[token].threshold_bps),
    ensures
        evaluate_outcome(m, token, price) is None,
        evaluate_model(m, token, price) == m,
{
}

/// An evaluation that crosses the threshold fires with the exact change
/// from the reference and re-baselines to the triggering price; a following
/// evaluation below the threshold relative to that new baseline does not
/// fire.
pub proof fn lemma_crossing_fires_and_rebaselines(
    m: Map<Seq<char>, RuleModel>,
    token: Seq<char>,
    price: int,
    later_price: int,
)
    requires
        m.contains_key(token),
        m[token].last_price > 0,
        crosses(m[token].last_price, price, m[token].threshold_bps),
        price > 0,
        !crosses(price, later_price, m[token].threshold_bps),
    ensures
        evaluate_outcome(m, token, price) == Some(change_bps(m[token].last_price, price)),
        evaluate_model(m, token, price)[token].last_price == price,
        evaluate_outcome(evaluate_model(m, token, price), token, later_price) is None,
{
}

/// Unregistering a token that is not monitored changes nothing.
pub proof fn lemma_unregister_unknown_noop(m: Map<Seq<char>, RuleModel>, token: Seq<char>)
    requires
        !m.contains_key(token),
    ensures
        m.remove(token) == m,
{
    assert(m.remove(token) =~= m);
}

/// A run of evaluations none of which crosses the threshold relative to the
/// current reference fires nothing and leaves the registry as it was.
pub proof fn lemma_no_crossing_no_alerts(
    m: Map<Seq<char>, RuleModel>,
    token: Seq<char>,
    prices: Seq<int>,
)
    requires
        m.contains_key(token),
        m[token].last_price > 0,
        forall|i: int|
            0 <= i < prices.len() ==> !crosses(
                m[token].last_price,
                #[trigger] prices[i],
                m[token].threshold_bps,
            ),
    ensures
        alert_count(m, token, prices) == 0,
        evaluate_seq_model(m, token, prices) == m,
    decreases prices.len(),
{
    if prices.len() > 0 {
        assert(!crosses(m[token].last_price, prices[0], m[token].threshold_bps));
        assert(evaluate_model(m, token, prices.first()) == m);
        assert(forall|i: int|
            0 <= i < prices.drop_first().len() ==> prices.drop_first()[i] == prices[i + 1]);
        lemma_no_crossing_no_alerts(m, token, prices.drop_first());
    }
}

/// A serialized run of evaluations whose prices cross the threshold exactly
/// once — none of the first `j` crosses relative to the starting reference,
/// the one at `j` does, and none after it crosses relative to that
/// triggering price — fires exactly one alert, never zero and never two.
/// This is the per-token guarantee for concurrent ingestion: updates for
/// one token serialize, and the serialized run is such a run.
pub proof fn lemma_single_crossing_single_alert(
    m: Map<Seq<char>, RuleModel>,
    token: Seq<char>,
    prices: Seq<int>,
    j: int,
)
    requires
        m.contains_key(token),
        m[token].last_price > 0,
        0 <= j < prices.len(),
        forall|i: int|
            0 <= i < j ==> !crosses(
                m[token].last_price,
                #[trigger] prices[i],
                m[token].threshold_bps,
            ),
        crosses(m[token].last_price, prices[j], m[token].threshold_bps),
        prices[j] > 0,
        forall|i: int|
            j < i < prices.len() ==> !crosses(
                prices[j],
                #[trigger] prices[i],
                m[token].threshold_bps,
            ),
    ensures
        alert_count(m, token, prices) == 1,
    decreases j,
{
    assert(forall|i: int|
        0 <= i < prices.drop_first().len() ==> prices.drop_first()[i] == prices[i + 1]);
    if j == 0 {
        let fired = evaluate_model(m, token, prices.first());
        assert(evaluate_outcome(m, token, prices.first()) is Some);
        assert(fired[token].last_price == prices[0]);
        assert(fired[token].threshold_bps == m[token].threshold_bps);
        lemma_no_crossing_no_alerts(fired, token, prices.drop_first());
    } else {
        assert(!crosses(m[token].last_price, prices[0], m[token].threshold_bps));
        assert(evaluate_model(m, token, prices.first()) == m);
        assert(evaluate_outcome(m, token, prices.first()) is None);
        lemma_single_crossing_single_alert(m, token, prices.drop_first(), j - 1);
    }
}

} // verus!

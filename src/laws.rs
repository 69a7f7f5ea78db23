//! Properties that relate the engine's operations to one another.

use vstd::prelude::*;

use crate::action::Active;
use crate::amounts::ItemAmounts;
use crate::game::{lemma_settle_settled, settle, settled, GameState};
use crate::amounts::distinct_names;
use crate::ledger::{
    all_fit, delta_at, fits, lemma_delta_hit, lemma_entries_limit_attained, lemma_entries_limit_below, lemma_missing_none, lemma_missing_some, lemma_resolve_found, limit,
    entries_limit, missing, resolve, shifted, Funds,
};
use crate::item::Item;

verus! {

/// Buying or constructing on an item whose names all resolve, with a
/// multiplier that is not negative, is refused whenever the multiplier is
/// above what `max_activate` reports, and accepted whenever it is not and
/// the results stay representable. (A refused activation leaves the state
/// unchanged: see `Action::activate`.)
pub proof fn law_affordability(a: Active, g: GameState, name: Seq<char>, n: int)
    requires
        a is Buy || a is Construct,
        resolve(g.items@, name) >= 0,
        missing(g.items@, a.entries()) < 0,
        n >= 0,
    ensures
        n > a.max_activation(g, name) ==> a.activation(g, name, n) is Err,
        n <= a.max_activation(g, name) && a.representable(
            g.items@,
            g.funds(),
            resolve(g.items@, name),
            n,
        ) ==> a.activation(g, name, n) is Ok,
{
}

/// Buying `k` units of an item and then selling `k` units of it at the same
/// price gives back the wallet and the amounts that there were before, when
/// the item's amount was not negative and the purchase was accepted.
pub proof fn law_buy_sell_round_trip(price: i32, items: Seq<Item>, f: Funds, t: int, k: int)
    requires
        0 <= t < f.amounts.len(),
        f.amounts.len() == items.len(),
        all_fit(f.amounts),
        fits(f.currency),
        f.amounts[t] >= 0,
        (Active::Buy { buy_price: price }).outcome(items, f, t, k) is Ok,
    ensures
        (Active::Sell { sell_price: price }).outcome(
            items,
            (Active::Buy { buy_price: price }).outcome(items, f, t, k)->Ok_0,
            t,
            k,
        ) == Ok::<Funds, crate::action::Fault>(f),
{
    let buy = Active::Buy { buy_price: price };
    let sell = Active::Sell { sell_price: price };
    let g = buy.outcome(items, f, t, k)->Ok_0;
    let none = Seq::<(Seq<char>, int)>::empty();
    lemma_missing_none(items, none);
    assert(sell.entries() == none);
    assert forall|x: int| 0 <= x < items.len() implies delta_at(items, none, k, x) == 0 by {}
    let s = sell.target_step(g, t, k);
    assert(s.amounts =~= f.amounts);
    assert(shifted(items, s.amounts, none, k) =~= s.amounts);
    assert(sell.effect(items, g, t, k) == f);
}

/// An accepted purchase never takes a wallet that was not in debt into debt.
pub proof fn law_buy_stays_solvent(price: i32, items: Seq<Item>, f: Funds, t: int, n: int)
    requires
        0 <= t < f.amounts.len(),
        f.currency >= 0,
        (Active::Buy { buy_price: price }).outcome(items, f, t, n) is Ok,
    ensures
        (Active::Buy { buy_price: price }).outcome(items, f, t, n)->Ok_0.currency >= 0,
{
    let c = f.currency;
    let p = price as int;
    assert(0 <= n <= limit(c, p));
    assert((Active::Buy { buy_price: price }).outcome(items, f, t, n)->Ok_0.currency == c - p * n);
    if c <= 0 && p > 0 {
        assert(n == 0);
        assert(p * n == 0) by (nonlinear_arith)
            requires
                n == 0,
        ;
    }
    if p <= 0 {
        assert(p * n <= 0) by (nonlinear_arith)
            requires
                p <= 0,
                n >= 0,
        ;
    } else if c > 0 {
        assert(p * n <= c) by (nonlinear_arith)
            requires
                p > 0,
                c > 0,
                0 <= n <= c / p,
        ;
    }
}

/// An accepted construction never takes an amount it pays from below zero,
/// for a cost item other than the item constructed.
pub proof fn law_construct_stays_covered(
    cost: ItemAmounts,
    items: Seq<Item>,
    f: Funds,
    t: int,
    n: int,
    k: int,
)
    requires
        distinct_names(cost@),
        f.amounts.len() == items.len(),
        0 <= t < f.amounts.len(),
        0 <= k < cost@.len(),
        resolve(items, cost@[k].0) != t,
        f.amounts[resolve(items, cost@[k].0)] >= 0,
        (Active::Construct { build_cost: cost }).outcome(items, f, t, n) is Ok,
    ensures
        (Active::Construct { build_cost: cost }).outcome(items, f, t, n)->Ok_0.amounts[resolve(
            items,
            cost@[k].0,
        )] >= 0,
{
    let a = Active::Construct { build_cost: cost };
    let s = cost@;
    let x = resolve(items, s[k].0);
    assert(missing(items, s) < 0);
    if x < 0 {
        lemma_missing_some(items, s, k);
    }
    let g = a.target_step(f, t, n);
    assert(g.amounts[x] == f.amounts[x]);
    assert(a.entry_sign() * n == -n);
    lemma_delta_hit(items, s, -n, k);
    lemma_entries_limit_below(items, f.amounts, s, k);
    let have = f.amounts[x];
    let u = s[k].1;
    assert(a.effect(items, f, t, n).amounts[x] == have + (-n) * u);
    assert(0 <= n <= limit(have, u));
    if u <= 0 {
        assert((-n) * u >= 0) by (nonlinear_arith)
            requires
                u <= 0,
                n >= 0,
        ;
    } else if have > 0 {
        assert(n * u <= have) by (nonlinear_arith)
            requires
                u > 0,
                have > 0,
                0 <= n <= have / u,
        ;
        assert((-n) * u == -(n * u)) by (nonlinear_arith);
    }
}

/// Valuation sells and deconstructs in full: when its passes reach one that
/// accepts no activation (which only cycles of deconstruction can prevent
/// within the bound), every item with a positive amount refuses each of its
/// `Sell` and `Deconstruct` actions.
pub proof fn law_net_worth_liquidates_in_full(g: GameState)
    ensures
        settle(g.items@, g.funds(), (g.items@.len() + 1) as nat).1 ==> settled(
            g.items@,
            settle(g.items@, g.funds(), (g.items@.len() + 1) as nat).0,
        ),
{
    if settle(g.items@, g.funds(), (g.items@.len() + 1) as nat).1 {
        lemma_settle_settled(g.items@, g.funds(), (g.items@.len() + 1) as nat);
    }
}

/// The most units that a construction with costs affords is the smallest,
/// over its cost items, of how many units each one pays for.
pub proof fn law_construct_bound_is_minimum(cost: ItemAmounts, items: Seq<Item>, f: Funds, t: int)
    requires
        cost@.len() > 0,
        all_fit(f.amounts),
        f.amounts.len() == items.len(),
        forall|k: int| 0 <= k < cost@.len() ==> resolve(items, #[trigger] cost@[k].0) >= 0,
    ensures
        forall|k: int|
            0 <= k < cost@.len() ==> (Active::Construct { build_cost: cost }).bound(items, f, t)
                <= limit(f.amounts[resolve(items, #[trigger] cost@[k].0)], cost@[k].1),
        exists|k: int|
            0 <= k < cost@.len() && (Active::Construct { build_cost: cost }).bound(items, f, t)
                == limit(f.amounts[resolve(items, #[trigger] cost@[k].0)], cost@[k].1),
{
    assert forall|k: int| 0 <= k < cost@.len() implies entries_limit(items, f.amounts, cost@)
        <= limit(f.amounts[resolve(items, #[trigger] cost@[k].0)], cost@[k].1) by {
        lemma_entries_limit_below(items, f.amounts, cost@, k);
    }
    assert forall|k: int| 0 <= k < cost@.len() implies 0 <= resolve(items, #[trigger] cost@[k].0)
        < f.amounts.len() by {
        lemma_resolve_found(items, cost@[k].0);
    }
    lemma_entries_limit_attained(items, f.amounts, cost@);
}

} // verus!

//! The game state: the day counter, the wallet and the item registry.

use vstd::prelude::*;

use crate::action::{ActionError, Active, Fault};
use crate::item::Item;
use crate::ledger::{amounts_of, clamp0, find_item, ints, resolve, Funds, Ledger};

verus! {

/// `y` is `x` with at most its amount changed.
pub open spec fn same_but_amount(x: Item, y: Item) -> bool {
    &&& y.name == x.name
    &&& y.category == x.category
    &&& y.industries == x.industries
    &&& y.actions_active == x.actions_active
    &&& y.actions_passive == x.actions_passive
}

/// `b` holds the items of `a`, in the same order, with at most their amounts
/// changed.
pub open spec fn keeps_definitions(a: Seq<Item>, b: Seq<Item>) -> bool {
    &&& a.len() == b.len()
    &&& forall|j: int| 0 <= j < a.len() ==> same_but_amount(#[trigger] a[j], b[j])
}

/// The state after the first `k` passive actions of the item at `i` have
/// fired for `n` days.
pub open spec fn pass_item(items: Seq<Item>, f: Funds, i: int, k: int, n: int) -> Funds
    decreases k,
{
    if k <= 0 {
        f
    } else {
        items[i].actions_passive@[k - 1].daily(items, pass_item(items, f, i, k - 1, n), n)
    }
}

/// The state after the passive actions of the first `m` items, in registry
/// order, have fired for `n` days.
pub open spec fn pass_items(items: Seq<Item>, f: Funds, m: int, n: int) -> Funds
    decreases m,
{
    if m <= 0 {
        f
    } else {
        let g = pass_items(items, f, m - 1, n);
        pass_item(items, g, m - 1, items[m - 1].actions_passive@.len() as int, n)
    }
}

/// The action liquidates the item it stands on.
pub open spec fn liquidates(a: Active) -> bool {
    a is Sell || a is Deconstruct
}

/// Activates `a` one unit at a time on the item at `i`, at most `fuel` times,
/// until its amount is no longer positive or an activation is refused; also
/// tells whether any activation was accepted.
pub open spec fn drain(a: Active, items: Seq<Item>, f: Funds, i: int, fuel: nat) -> (Funds, bool)
    decreases fuel,
{
    if fuel == 0 || f.amounts[i] <= 0 {
        (f, false)
    } else {
        match a.outcome(items, f, i, 1) {
            Ok(g) => (drain(a, items, g, i, (fuel - 1) as nat).0, true),
            Err(_) => (f, false),
        }
    }
}

/// The state after the first `k` active actions of the item at `i` that
/// liquidate have each drained it, starting from the amount it then has;
/// also tells whether any activation was accepted.
pub open spec fn liquidate_item(items: Seq<Item>, f: Funds, i: int, k: int) -> (Funds, bool)
    decreases k,
{
    if k <= 0 {
        (f, false)
    } else {
        let g = liquidate_item(items, f, i, k - 1);
        let a = items[i].actions_active@[k - 1];
        if liquidates(a) {
            let h = drain(a, items, g.0, i, clamp0(g.0.amounts[i]) as nat);
            (h.0, g.1 || h.1)
        } else {
            g
        }
    }
}

/// One liquidation pass over the first `m` items, in registry order; also
/// tells whether any activation was accepted.
pub open spec fn liquidate(items: Seq<Item>, f: Funds, m: int) -> (Funds, bool)
    decreases m,
{
    if m <= 0 {
        (f, false)
    } else {
        let g = liquidate(items, f, m - 1);
        let h = liquidate_item(items, g.0, m - 1, items[m - 1].actions_active@.len() as int);
        (h.0, g.1 || h.1)
    }
}

/// Liquidation passes over the whole registry, at most `rounds` of them,
/// until a pass accepts no activation; also tells whether such a quiet pass
/// was reached.
pub open spec fn settle(items: Seq<Item>, f: Funds, rounds: nat) -> (Funds, bool)
    decreases rounds,
{
    if rounds == 0 {
        (f, false)
    } else {
        let g = liquidate(items, f, items.len() as int);
        if !g.1 {
            (g.0, true)
        } else {
            settle(items, g.0, (rounds - 1) as nat)
        }
    }
}

/// Nothing more can be liquidated: each item with a positive amount refuses
/// a one-unit activation of every action of it that liquidates.
pub open spec fn settled(items: Seq<Item>, f: Funds) -> bool {
    forall|i: int, k: int|
        0 <= i < items.len() && 0 <= k < items[i].actions_active@.len() && liquidates(
            #[trigger] items[i].actions_active@[k],
        ) && f.amounts[i] > 0 ==> items[i].actions_active@[k].outcome(items, f, i, 1) is Err
}

/// A drain of an item that accepts nothing changes nothing, and it refuses a
/// one-unit activation when the item's amount is positive.
pub proof fn lemma_drain_quiet(a: Active, items: Seq<Item>, f: Funds, i: int, fuel: nat)
    requires
        !drain(a, items, f, i, fuel).1,
    ensures
        drain(a, items, f, i, fuel).0 == f,
        fuel > 0 && f.amounts[i] > 0 ==> a.outcome(items, f, i, 1) is Err,
{
}

/// An item's liquidation that accepts nothing changes nothing, and each of
/// its liquidating actions is refused while its amount is positive.
pub proof fn lemma_item_quiet(items: Seq<Item>, f: Funds, i: int, k: int)
    requires
        !liquidate_item(items, f, i, k).1,
        k <= items[i].actions_active@.len(),
    ensures
        liquidate_item(items, f, i, k).0 == f,
        forall|j: int|
            0 <= j < k && liquidates(#[trigger] items[i].actions_active@[j]) && f.amounts[i] > 0
                ==> items[i].actions_active@[j].outcome(items, f, i, 1) is Err,
    decreases k,
{
    if k > 0 {
        lemma_item_quiet(items, f, i, k - 1);
        let a = items[i].actions_active@[k - 1];
        if liquidates(a) {
            lemma_drain_quiet(a, items, f, i, clamp0(f.amounts[i]) as nat);
        }
    }
}

/// A pass that accepts nothing changes nothing, and leaves the first `m`
/// items with nothing more to liquidate.
pub proof fn lemma_pass_quiet(items: Seq<Item>, f: Funds, m: int)
    requires
        !liquidate(items, f, m).1,
        m <= items.len(),
    ensures
        liquidate(items, f, m).0 == f,
        forall|i: int, k: int|
            0 <= i < m && 0 <= k < items[i].actions_active@.len() && liquidates(
                #[trigger] items[i].actions_active@[k],
            ) && f.amounts[i] > 0 ==> items[i].actions_active@[k].outcome(items, f, i, 1) is Err,
    decreases m,
{
    if m > 0 {
        lemma_pass_quiet(items, f, m - 1);
        lemma_item_quiet(items, f, m - 1, items[m - 1].actions_active@.len() as int);
    }
}

/// When the passes reach a quiet one, nothing more can be liquidated.
pub proof fn lemma_settle_settled(items: Seq<Item>, f: Funds, rounds: nat)
    requires
        settle(items, f, rounds).1,
    ensures
        settled(items, settle(items, f, rounds).0),
    decreases rounds,
{
    let g = liquidate(items, f, items.len() as int);
    if !g.1 {
        lemma_pass_quiet(items, f, items.len() as int);
    } else {
        lemma_settle_settled(items, g.0, (rounds - 1) as nat);
    }
}

/// No two items of `items` share a name.
pub open spec fn names_distinct(items: Seq<Item>) -> bool {
    forall|i: int, j: int|
        0 <= i < items.len() && 0 <= j < items.len() && i != j ==> #[trigger] items[i].name@
            != #[trigger] items[j].name@
}

/// Changing amounts alone keeps names distinct.
pub proof fn lemma_keeps_distinct(a: Seq<Item>, b: Seq<Item>)
    requires
        names_distinct(a),
        keeps_definitions(a, b),
    ensures
        names_distinct(b),
{
    assert forall|i: int, j: int|
        0 <= i < b.len() && 0 <= j < b.len() && i != j implies #[trigger] b[i].name@
        != #[trigger] b[j].name@ by {
        assert(same_but_amount(a[i], b[i]));
        assert(same_but_amount(a[j], b[j]));
    }
}

/// The whole state of a game. Items are looked up by name; in a well-formed
/// state ([`GameState::wf`]) no two items share a name, and the operations
/// that change a state keep it well formed.
#[derive(Debug)]
pub struct GameState {
    /// Days left; the game has ended once this is below zero.
    pub day: i32,
    pub currency: i32,
    pub items: Vec<Item>,
}

impl GameState {
    /// Item names are distinct.
    pub open spec fn wf(self) -> bool {
        names_distinct(self.items@)
    }

    /// Whether no two items share a name.
    pub fn well_formed(&self) -> (r: bool)
        ensures
            r == self.wf(),
    {
        let mut i: usize = 0;
        while i < self.items.len()
            invariant
                0 <= i <= self.items@.len(),
                forall|p: int, q: int|
                    0 <= p < i && 0 <= q < self.items@.len() && p != q ==> #[trigger] self.items@[p].name@
                        != #[trigger] self.items@[q].name@,
            decreases self.items@.len() - i,
        {
            let mut j: usize = 0;
            while j < self.items.len()
                invariant
                    0 <= i < self.items@.len(),
                    0 <= j <= self.items@.len(),
                    forall|p: int, q: int|
                        0 <= p < i && 0 <= q < self.items@.len() && p != q ==> #[trigger] self.items@[p].name@
                            != #[trigger] self.items@[q].name@,
                    forall|q: int|
                        0 <= q < j && q != i ==> self.items@[i as int].name@ != #[trigger] self.items@[q].name@,
                decreases self.items@.len() - j,
            {
                if j != i && self.items[i].name == self.items[j].name {
                    return false;
                }
                j = j + 1;
            }
            i = i + 1;
        }
        true
    }

    /// The wallet and the item amounts.
    pub open spec fn funds(self) -> Funds {
        Funds { currency: self.currency as int, amounts: amounts_of(self.items@) }
    }

    /// The item named `name`.
    pub fn item(&self, name: &String) -> (r: Result<&Item, ActionError>)
        ensures
            resolve(self.items@, name@) >= 0 ==> (r matches Ok(it) && *it == self.items@[resolve(
                self.items@,
                name@,
            )]),
            resolve(self.items@, name@) < 0 ==> (r matches Err(e) && e@ == Fault::Missing(name@)),
    {
        match find_item(&self.items, name) {
            Some(i) => Ok(&self.items[i]),
            None => Err(ActionError::ItemNotFound { name: name.clone() }),
        }
    }

    /// Sets the amount of the item named `name`.
    pub fn set_amount(&mut self, name: &String, amount: i32) -> (r: Result<(), ActionError>)
        requires
            old(self).wf(),
        ensures
            final(self).wf(),
            final(self).day == old(self).day,
            final(self).currency == old(self).currency,
            keeps_definitions(old(self).items@, final(self).items@),
            resolve(old(self).items@, name@) >= 0 ==> r is Ok && amounts_of(final(self).items@)
                == amounts_of(old(self).items@).update(
                resolve(old(self).items@, name@),
                amount as int,
            ),
            resolve(old(self).items@, name@) < 0 ==> (r matches Err(e) && e@ == Fault::Missing(
                name@,
            ) && *final(self) == *old(self)),
    {
        match find_item(&self.items, name) {
            Some(i) => {
                self.items[i].amount = amount;
                assert(amounts_of(self.items@) =~= amounts_of(old(self).items@).update(
                    i as int,
                    amount as int,
                ));
                proof {
                    lemma_keeps_distinct(old(self).items@, self.items@);
                }
                Ok(())
            },
            None => Err(ActionError::ItemNotFound { name: name.clone() }),
        }
    }

    /// A scratch copy of the wallet and the item amounts.
    pub fn ledger(&self) -> (r: Ledger)
        ensures
            r@ == self.funds(),
            r.amounts@.len() == self.items@.len(),
    {
        let mut amounts: Vec<i32> = Vec::new();
        let mut j: usize = 0;
        while j < self.items.len()
            invariant
                0 <= j <= self.items@.len(),
                amounts@.len() == j,
                forall|k: int| 0 <= k < j ==> #[trigger] amounts@[k] == self.items@[k].amount,
            decreases self.items@.len() - j,
        {
            amounts.push(self.items[j].amount);
            j = j + 1;
        }
        let r = Ledger { currency: self.currency, amounts };
        assert(ints(r.amounts@) =~= amounts_of(self.items@));
        r
    }

    /// Writes the wallet and the item amounts of `ledger` back.
    pub fn store(&mut self, ledger: &Ledger)
        requires
            ledger.amounts@.len() == old(self).items@.len(),
        ensures
            final(self).funds() == ledger@,
            final(self).day == old(self).day,
            keeps_definitions(old(self).items@, final(self).items@),
    {
        let mut j: usize = 0;
        while j < self.items.len()
            invariant
                0 <= j <= self.items@.len(),
                self.items@.len() == old(self).items@.len(),
                ledger.amounts@.len() == self.items@.len(),
                self.day == old(self).day,
                forall|k: int|
                    0 <= k < self.items@.len() ==> same_but_amount(
                        #[trigger] old(self).items@[k],
                        self.items@[k],
                    ),
                forall|k: int| 0 <= k < j ==> #[trigger] self.items@[k].amount == ledger.amounts@[k],
            decreases self.items@.len() - j,
        {
            self.items[j].amount = ledger.amounts[j];
            j = j + 1;
        }
        self.currency = ledger.currency;
        assert(amounts_of(self.items@) =~= ints(ledger.amounts@));
    }

    /// Lets `amount` days pass: the day counter drops by `amount`, then every
    /// item's passive actions fire once with multiplier `amount`, item by
    /// item in registry order. A reduction that the amounts at hand do not
    /// cover is lowered to what they cover; a firing that is refused (a name
    /// that resolves to no item, a value out of range) changes nothing.
    pub fn pass_day(&mut self, amount: i32)
        requires
            old(self).wf(),
            amount >= 0,
            old(self).day - amount >= i32::MIN,
        ensures
            final(self).wf(),
            final(self).day == old(self).day - amount,
            keeps_definitions(old(self).items@, final(self).items@),
            final(self).funds() == pass_items(
                old(self).items@,
                old(self).funds(),
                old(self).items@.len() as int,
                amount as int,
            ),
    {
        self.day = self.day - amount;
        let mut ledger = self.ledger();
        let ghost f0 = ledger@;
        let mut i: usize = 0;
        while i < self.items.len()
            invariant
                0 <= i <= self.items@.len(),
                self.items@ == old(self).items@,
                self.day == old(self).day - amount,
                ledger.amounts@.len() == self.items@.len(),
                f0 == old(self).funds(),
                ledger@ == pass_items(self.items@, f0, i as int, amount as int),
            decreases self.items@.len() - i,
        {
            let ghost g = ledger@;
            let mut k: usize = 0;
            while k < self.items[i].actions_passive.len()
                invariant
                    0 <= i < self.items@.len(),
                    0 <= k <= self.items@[i as int].actions_passive@.len(),
                    ledger.amounts@.len() == self.items@.len(),
                    g == pass_items(self.items@, f0, i as int, amount as int),
                    ledger@ == pass_item(self.items@, g, i as int, k as int, amount as int),
                decreases self.items@[i as int].actions_passive@.len() - k,
            {
                self.items[i].actions_passive[k].fire_daily(&self.items, &mut ledger, amount);
                k = k + 1;
            }
            i = i + 1;
        }
        self.store(&ledger);
        proof {
            lemma_keeps_distinct(old(self).items@, self.items@);
        }
    }

    /// The currency the player would hold after selling or deconstructing
    /// everything that can be. On a scratch copy of the wallet and amounts,
    /// a pass drains each item in registry order by each of its `Sell` and
    /// `Deconstruct` actions in turn, one unit at a time, until its amount is
    /// no longer positive, an activation is refused, or as many units as it
    /// held when that action began have been done. Passes repeat until one
    /// accepts no activation (then nothing more can be liquidated: see
    /// [`lemma_settle_settled`]), at most one more pass than there are
    /// items, which ends cycles of deconstruction. The live state is not
    /// changed.
    pub fn net_worth(&self) -> (r: i32)
        ensures
            r == settle(self.items@, self.funds(), (self.items@.len() + 1) as nat).0.currency,
    {
        let mut ledger = self.ledger();
        let ghost f0 = ledger@;
        let ghost total = (self.items@.len() + 1) as nat;
        let mut left: u128 = self.items.len() as u128 + 1;
        let mut quiet = false;
        while left > 0 && !quiet
            invariant
                ledger.amounts@.len() == self.items@.len(),
                f0 == self.funds(),
                quiet ==> settle(self.items@, f0, total).0 == ledger@,
                !quiet ==> settle(self.items@, f0, total) == settle(
                    self.items@,
                    ledger@,
                    left as nat,
                ),
            decreases left, if quiet {
                0int
            } else {
                1int
            },
        {
            let acted = self.liquidation_pass(&mut ledger);
            if acted {
                left = left - 1;
            } else {
                quiet = true;
            }
        }
        ledger.currency
    }

    /// One liquidation pass; see [`liquidate`].
    fn liquidation_pass(&self, ledger: &mut Ledger) -> (acted: bool)
        requires
            old(ledger).amounts@.len() == self.items@.len(),
        ensures
            final(ledger).amounts@.len() == self.items@.len(),
            (final(ledger)@, acted) == liquidate(
                self.items@,
                old(ledger)@,
                self.items@.len() as int,
            ),
    {
        let ghost f0 = ledger@;
        let mut acted = false;
        let mut i: usize = 0;
        while i < self.items.len()
            invariant
                0 <= i <= self.items@.len(),
                ledger.amounts@.len() == self.items@.len(),
                f0 == old(ledger)@,
                (ledger@, acted) == liquidate(self.items@, f0, i as int),
            decreases self.items@.len() - i,
        {
            let ghost g = ledger@;
            let ghost acted_before = acted;
            let mut acted_here = false;
            let mut k: usize = 0;
            while k < self.items[i].actions_active.len()
                invariant
                    0 <= i < self.items@.len(),
                    0 <= k <= self.items@[i as int].actions_active@.len(),
                    ledger.amounts@.len() == self.items@.len(),
                    (g, acted_before) == liquidate(self.items@, f0, i as int),
                    (ledger@, acted_here) == liquidate_item(self.items@, g, i as int, k as int),
                decreases self.items@[i as int].actions_active@.len() - k,
            {
                let a = &self.items[i].actions_active[k];
                let sells = match a {
                    Active::Sell { .. } | Active::Deconstruct { .. } => true,
                    _ => false,
                };
                if sells {
                    let ghost start = ledger@;
                    let count: i32 = if ledger.amounts[i] < 0 {
                        0
                    } else {
                        ledger.amounts[i]
                    };
                    let mut done: i32 = 0;
                    let mut refused = false;
                    while done < count && !refused && ledger.amounts[i] > 0
                        invariant
                            0 <= i < self.items@.len(),
                            0 <= done <= count,
                            ledger.amounts@.len() == self.items@.len(),
                            drain(*a, self.items@, start, i as int, count as nat).0 == drain(
                                *a,
                                self.items@,
                                ledger@,
                                i as int,
                                (count - done) as nat,
                            ).0,
                            drain(*a, self.items@, start, i as int, count as nat).1 == (done > 0
                                || drain(*a, self.items@, ledger@, i as int, (count - done) as nat).1),
                            refused ==> drain(
                                *a,
                                self.items@,
                                ledger@,
                                i as int,
                                (count - done) as nat,
                            ) == (ledger@, false),
                        decreases count - done, if refused {
                            0int
                        } else {
                            1int
                        },
                    {
                        match a.apply(&self.items, ledger, i, 1) {
                            Ok(()) => {
                                done = done + 1;
                            },
                            Err(_) => {
                                refused = true;
                            },
                        }
                    }
                    if done > 0 {
                        acted_here = true;
                    }
                }
                k = k + 1;
            }
            if acted_here {
                acted = true;
            }
            i = i + 1;
        }
        acted
    }
}

} // verus!
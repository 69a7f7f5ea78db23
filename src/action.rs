//! Actions: the manual (active) and daily (passive) transformations of
//! currency and item amounts.

use vstd::prelude::*;

use crate::amounts::ItemAmounts;
use crate::game::{keeps_definitions, lemma_keeps_distinct, GameState};
use crate::item::Item;
use crate::ledger::{find_item, resolve};
use crate::message::{
    active_description_string, active_description_text, active_done_string, active_done_text,
    active_name_text, fault_string, fault_text, passive_description_string,
    passive_description_text, passive_done_string, passive_done_text, passive_name_text,
};
use crate::ledger::{
    all_fit, clamp0, entries_limit, entries_limit_of, fits, limit, limit_of, missing, resolve_entries,
    shift_apply, shift_fits, shifted, times, ints, Funds, Ledger, lemma_ints_fit, lemma_limit_range,
    lemma_entries_limit_range,
};

verus! {

/// A manually triggered action on an item.
#[derive(Debug)]
pub enum Active {
    /// Pay `buy_price` per unit to increase the item's amount.
    Buy { buy_price: i32 },
    /// Receive `sell_price` per unit for decreasing the item's amount.
    Sell { sell_price: i32 },
    /// Consume the cost items, per unit, to increase the item's amount.
    Construct { build_cost: ItemAmounts },
    /// Decrease the item's amount to gain the listed items, per unit.
    Deconstruct { item_gain: ItemAmounts },
}

/// An action that fires once per day for each day that passes.
#[derive(Debug)]
pub enum Passive {
    /// Adds the listed amounts, per day, to the named items.
    Produce { item_production: ItemAmounts },
    /// Takes the listed amounts, per day, from the named items.
    Reduce { item_reduction: ItemAmounts },
}

/// Why an activation was refused. Nothing changes when one is.
#[derive(Debug)]
pub enum ActionError {
    /// A name that the action refers to names no item.
    ItemNotFound { name: String },
    /// The wallet pays for at most `max` units.
    InsufficientCurrency { max: i32 },
    /// The items at hand allow at most `max` units.
    InsufficientResources { max: i32 },
    /// The multiplier was below zero.
    NegativeMultiplier,
    /// An amount or the wallet would leave the range of `i32`.
    Overflow,
}

/// The meaning of an [`ActionError`].
pub enum Fault {
    Missing(Seq<char>),
    ShortOfCurrency(int),
    ShortOfResources(int),
    Negative,
    Overflow,
}

impl View for ActionError {
    type V = Fault;

    open spec fn view(&self) -> Fault {
        match self {
            ActionError::ItemNotFound { name } => Fault::Missing(name@),
            ActionError::InsufficientCurrency { max } => Fault::ShortOfCurrency(*max as int),
            ActionError::InsufficientResources { max } => Fault::ShortOfResources(*max as int),
            ActionError::NegativeMultiplier => Fault::Negative,
            ActionError::Overflow => Fault::Overflow,
        }
    }
}

impl Active {
    /// The per-unit entries of a construction or deconstruction; empty for
    /// buying and selling.
    pub open spec fn entries(self) -> Seq<(Seq<char>, int)> {
        match self {
            Active::Construct { build_cost } => build_cost@,
            Active::Deconstruct { item_gain } => item_gain@,
            _ => Seq::empty(),
        }
    }

    /// +1 when the entries are gained, -1 when they are paid.
    pub open spec fn entry_sign(self) -> int {
        match self {
            Active::Construct { .. } => -1,
            _ => 1,
        }
    }

    /// The largest multiplier that the state affords, for the item at `t`.
    pub open spec fn bound(self, items: Seq<Item>, f: Funds, t: int) -> int {
        match self {
            Active::Buy { buy_price } => limit(f.currency, buy_price as int),
            Active::Sell { .. } => clamp0(f.amounts[t]),
            Active::Construct { build_cost } => entries_limit(items, f.amounts, build_cost@),
            Active::Deconstruct { .. } => clamp0(f.amounts[t]),
        }
    }

    /// The first step of an activation: the change to the wallet and to the
    /// item at `t` itself.
    pub open spec fn target_step(self, f: Funds, t: int, n: int) -> Funds {
        match self {
            Active::Buy { buy_price } => Funds {
                currency: f.currency - buy_price * n,
                amounts: f.amounts.update(t, f.amounts[t] + n),
            },
            Active::Sell { sell_price } => Funds {
                currency: f.currency + sell_price * n,
                amounts: f.amounts.update(t, f.amounts[t] - n),
            },
            Active::Construct { .. } => Funds {
                currency: f.currency,
                amounts: f.amounts.update(t, f.amounts[t] + n),
            },
            Active::Deconstruct { .. } => Funds {
                currency: f.currency,
                amounts: f.amounts.update(t, f.amounts[t] - n),
            },
        }
    }

    /// The state after `n` units on the item at `t`: the target step, then
    /// each entry's amount times `n` paid or gained.
    pub open spec fn effect(self, items: Seq<Item>, f: Funds, t: int, n: int) -> Funds {
        let g = self.target_step(f, t, n);
        Funds {
            currency: g.currency,
            amounts: shifted(items, g.amounts, self.entries(), self.entry_sign() * n),
        }
    }

    /// Every value that the activation writes is representable.
    pub open spec fn representable(self, items: Seq<Item>, f: Funds, t: int, n: int) -> bool {
        let g = self.target_step(f, t, n);
        &&& fits(g.currency)
        &&& fits(g.amounts[t])
        &&& all_fit(self.effect(items, f, t, n).amounts)
    }

    /// What activating `n` units on the item at `t` gives: the new state, or
    /// why it is refused. Checks come in this order: names that resolve to
    /// no item, a negative multiplier, a multiplier above [`Active::bound`],
    /// and values out of range.
    pub open spec fn outcome(self, items: Seq<Item>, f: Funds, t: int, n: int) -> Result<
        Funds,
        Fault,
    > {
        let m = missing(items, self.entries());
        if m >= 0 {
            Err(Fault::Missing(self.entries()[m].0))
        } else if n < 0 {
            Err(Fault::Negative)
        } else if n > self.bound(items, f, t) {
            if self is Buy {
                Err(Fault::ShortOfCurrency(self.bound(items, f, t)))
            } else {
                Err(Fault::ShortOfResources(self.bound(items, f, t)))
            }
        } else if !self.representable(items, f, t, n) {
            Err(Fault::Overflow)
        } else {
            Ok(self.effect(items, f, t, n))
        }
    }

    /// Activates `n` units on the item at `t` against `ledger`, all or
    /// nothing.
    pub fn apply(&self, items: &Vec<Item>, ledger: &mut Ledger, t: usize, n: i32) -> (r: Result<
        (),
        ActionError,
    >)
        requires
            t < items@.len(),
            old(ledger).amounts@.len() == items@.len(),
        ensures
            final(ledger).amounts@.len() == items@.len(),
            match self.outcome(items@, old(ledger)@, t as int, n as int) {
                Ok(f) => r is Ok && final(ledger)@ == f,
                Err(e) => r matches Err(x) && x@ == e && final(ledger)@ == old(ledger)@,
            },
    {
        let none = ItemAmounts::new();
        let entries: &ItemAmounts = match self {
            Active::Construct { build_cost } => build_cost,
            Active::Deconstruct { item_gain } => item_gain,
            _ => &none,
        };
        assert(entries@ == self.entries());
        let idx = match resolve_entries(items, entries) {
            Ok(idx) => idx,
            Err(k) => {
                return Err(ActionError::ItemNotFound { name: entries.name_at(k).clone() });
            },
        };
        if n < 0 {
            return Err(ActionError::NegativeMultiplier);
        }
        let bound: i32 = match self {
            Active::Buy { buy_price } => limit_of(ledger.currency, *buy_price),
            Active::Sell { .. } | Active::Deconstruct { .. } => if ledger.amounts[t] < 0 {
                0
            } else {
                ledger.amounts[t]
            },
            Active::Construct { build_cost } => entries_limit_of(
                items,
                &ledger.amounts,
                build_cost,
                &idx,
            ),
        };
        if n > bound {
            return match self {
                Active::Buy { .. } => Err(ActionError::InsufficientCurrency { max: bound }),
                _ => Err(ActionError::InsufficientResources { max: bound }),
            };
        }
        let cur = ledger.currency as i64;
        let at = ledger.amounts[t] as i64;
        let wide = n as i64;
        let (next_currency, next_at): (i64, i64) = match self {
            Active::Buy { buy_price } => (cur - times(wide, *buy_price), at + wide),
            Active::Sell { sell_price } => (cur + times(wide, *sell_price), at - wide),
            Active::Construct { .. } => (cur, at + wide),
            Active::Deconstruct { .. } => (cur, at - wide),
        };
        proof {
            let g = self.target_step(ledger@, t as int, n as int);
            match self {
                Active::Buy { buy_price } => {
                    assert(wide * *buy_price == *buy_price * n) by (nonlinear_arith)
                        requires
                            wide == n,
                    ;
                },
                Active::Sell { sell_price } => {
                    assert(wide * *sell_price == *sell_price * n) by (nonlinear_arith)
                        requires
                            wide == n,
                    ;
                },
                _ => {},
            }
            assert(g.currency == next_currency);
            assert(g.amounts[t as int] == next_at);
        }
        if next_currency < i32::MIN as i64 || next_currency > i32::MAX as i64 || next_at < i32::MIN
            as i64 || next_at > i32::MAX as i64 {
            return Err(ActionError::Overflow);
        }
        let ghost before = ledger@;
        let scale: i64 = match self {
            Active::Construct { .. } => -wide,
            _ => wide,
        };
        ledger.amounts.set(t, next_at as i32);
        assert(ints(ledger.amounts@) =~= self.target_step(before, t as int, n as int).amounts);
        if !shift_fits(items, &ledger.amounts, entries, &idx, scale) {
            ledger.amounts.set(t, at as i32);
            assert(ints(ledger.amounts@) =~= before.amounts);
            return Err(ActionError::Overflow);
        }
        shift_apply(items, &mut ledger.amounts, entries, &idx, scale);
        ledger.currency = next_currency as i32;
        Ok(())
    }
}

impl Passive {
    /// The per-unit entries that the action adds or takes.
    pub open spec fn entries(self) -> Seq<(Seq<char>, int)> {
        match self {
            Passive::Produce { item_production } => item_production@,
            Passive::Reduce { item_reduction } => item_reduction@,
        }
    }

    /// +1 when the entries are added, -1 when they are taken.
    pub open spec fn entry_sign(self) -> int {
        match self {
            Passive::Produce { .. } => 1,
            Passive::Reduce { .. } => -1,
        }
    }

    /// The largest multiplier that the state affords: unbounded (the largest
    /// `i32`) for production, the limiting entry for a reduction.
    pub open spec fn bound(self, items: Seq<Item>, f: Funds) -> int {
        match self {
            Passive::Produce { .. } => i32::MAX as int,
            Passive::Reduce { item_reduction } => entries_limit(items, f.amounts, item_reduction@),
        }
    }

    /// The state after `n` units: each entry's amount times `n` added or
    /// taken.
    pub open spec fn effect(self, items: Seq<Item>, f: Funds, n: int) -> Funds {
        Funds {
            currency: f.currency,
            amounts: shifted(items, f.amounts, self.entries(), self.entry_sign() * n),
        }
    }

    /// What activating `n` units gives, checked in the same order as
    /// [`Active::outcome`].
    pub open spec fn outcome(self, items: Seq<Item>, f: Funds, n: int) -> Result<Funds, Fault> {
        let m = missing(items, self.entries());
        if m >= 0 {
            Err(Fault::Missing(self.entries()[m].0))
        } else if n < 0 {
            Err(Fault::Negative)
        } else if n > self.bound(items, f) {
            Err(Fault::ShortOfResources(self.bound(items, f)))
        } else if !all_fit(self.effect(items, f, n).amounts) {
            Err(Fault::Overflow)
        } else {
            Ok(self.effect(items, f, n))
        }
    }

    /// Activates `n` units against `ledger`, all or nothing.
    pub fn apply(&self, items: &Vec<Item>, ledger: &mut Ledger, n: i32) -> (r: Result<
        (),
        ActionError,
    >)
        requires
            old(ledger).amounts@.len() == items@.len(),
        ensures
            final(ledger).amounts@.len() == items@.len(),
            match self.outcome(items@, old(ledger)@, n as int) {
                Ok(f) => r is Ok && final(ledger)@ == f,
                Err(e) => r matches Err(x) && x@ == e && final(ledger)@ == old(ledger)@,
            },
    {
        let entries: &ItemAmounts = match self {
            Passive::Produce { item_production } => item_production,
            Passive::Reduce { item_reduction } => item_reduction,
        };
        let idx = match resolve_entries(items, entries) {
            Ok(idx) => idx,
            Err(k) => {
                return Err(ActionError::ItemNotFound { name: entries.name_at(k).clone() });
            },
        };
        if n < 0 {
            return Err(ActionError::NegativeMultiplier);
        }
        let bound: i32 = match self {
            Passive::Produce { .. } => i32::MAX,
            Passive::Reduce { item_reduction } => entries_limit_of(
                items,
                &ledger.amounts,
                item_reduction,
                &idx,
            ),
        };
        if n > bound {
            return Err(ActionError::InsufficientResources { max: bound });
        }
        let scale: i64 = match self {
            Passive::Produce { .. } => n as i64,
            Passive::Reduce { .. } => -(n as i64),
        };
        if !shift_fits(items, &ledger.amounts, entries, &idx, scale) {
            return Err(ActionError::Overflow);
        }
        shift_apply(items, &mut ledger.amounts, entries, &idx, scale);
        Ok(())
    }
}

/// The interface that the user interface drives: an action is activated a
/// number of times on an item, and says how many times it could be.
pub trait Action {
    /// The display name of the action.
    fn name(&self) -> &str;

    /// A description of the action's parameters.
    fn description(&self) -> String;

    /// Activates the action `amount` times on the item named `item_name`,
    /// all or nothing, and returns a message that says what happened.
    fn activate(&self, item_name: String, game: &mut GameState, amount: i32) -> (r: String)
        requires
            old(game).wf(),
        ensures
            final(game).wf(),
            final(game).day == old(game).day,
            keeps_definitions(old(game).items@, final(game).items@),
    ;

    /// The largest multiplier that [`Action::activate`] would accept for the
    /// item named `item_name`; zero when a name does not resolve.
    fn max_activate(&self, item_name: String, game: &mut GameState) -> (r: i32)
        ensures
            *final(game) == *old(game),
            r >= 0,
    ;
}

impl Active {
    /// What activating `n` units on the item named `name` gives.
    pub open spec fn named_outcome(self, items: Seq<Item>, f: Funds, name: Seq<char>, n: int) -> Result<
        Funds,
        Fault,
    > {
        let t = resolve(items, name);
        if t < 0 {
            Err(Fault::Missing(name))
        } else {
            self.outcome(items, f, t, n)
        }
    }

    /// What activating `n` units on the item named `name` in `g` gives.
    pub open spec fn activation(self, g: GameState, name: Seq<char>, n: int) -> Result<
        Funds,
        Fault,
    > {
        self.named_outcome(g.items@, g.funds(), name, n)
    }

    /// Activates `n` units on the item named `name` against `ledger`, all or
    /// nothing; returns the message and whether the activation was accepted.
    pub fn perform(&self, items: &Vec<Item>, ledger: &mut Ledger, name: &String, n: i32) -> (r: (
        String,
        bool,
    ))
        requires
            old(ledger).amounts@.len() == items@.len(),
        ensures
            final(ledger).amounts@.len() == items@.len(),
            r.0@ == self.report(name@, n as int, self.named_outcome(items@, old(ledger)@, name@, n as int)),
            r.1 == self.named_outcome(items@, old(ledger)@, name@, n as int) is Ok,
            match self.named_outcome(items@, old(ledger)@, name@, n as int) {
                Ok(f) => final(ledger)@ == f,
                Err(_) => final(ledger)@ == old(ledger)@,
            },
    {
        let t = match find_item(items, name) {
            Some(t) => t,
            None => {
                return (fault_string(&ActionError::ItemNotFound { name: name.clone() }), false);
            },
        };
        match self.apply(items, ledger, t, n) {
            Ok(()) => (active_done_string(self, name, n), true),
            Err(e) => (fault_string(&e), false),
        }
    }

    /// The largest multiplier accepted on the item named `name` in `g`.
    pub open spec fn max_activation(self, g: GameState, name: Seq<char>) -> int {
        let t = resolve(g.items@, name);
        if t < 0 || missing(g.items@, self.entries()) >= 0 {
            0
        } else {
            self.bound(g.items@, g.funds(), t)
        }
    }

    /// The message for an activation of `n` units on `name` that gave `o`.
    pub open spec fn report(self, name: Seq<char>, n: int, o: Result<Funds, Fault>) -> Seq<char> {
        match o {
            Ok(_) => active_done_text(self, name, n),
            Err(e) => fault_text(e),
        }
    }
}

impl Action for Active {
    fn name(&self) -> (r: &str)
        ensures
            r@ == active_name_text(*self),
    {
        match self {
            Active::Buy { .. } => "Buy",
            Active::Sell { .. } => "Sell",
            Active::Construct { .. } => "Construct",
            Active::Deconstruct { .. } => "Deconstruct",
        }
    }

    fn description(&self) -> (r: String)
        ensures
            r@ == active_description_text(*self),
    {
        active_description_string(self)
    }

    fn activate(&self, item_name: String, game: &mut GameState, amount: i32) -> (r: String)
        ensures
            match self.activation(*old(game), item_name@, amount as int) {
                Ok(f) => final(game).funds() == f,
                Err(_) => *final(game) == *old(game),
            },
            r@ == self.report(
                item_name@,
                amount as int,
                self.activation(*old(game), item_name@, amount as int),
            ),
    {
        let mut ledger = game.ledger();
        let (message, accepted) = self.perform(&game.items, &mut ledger, &item_name, amount);
        if accepted {
            game.store(&ledger);
            proof {
                lemma_keeps_distinct(old(game).items@, game.items@);
            }
        }
        message
    }

    fn max_activate(&self, item_name: String, game: &mut GameState) -> (r: i32)
        ensures
            r == self.max_activation(*old(game), item_name@),
    {
        let t = match find_item(&game.items, &item_name) {
            Some(t) => t,
            None => {
                return 0;
            },
        };
        let none = ItemAmounts::new();
        let entries: &ItemAmounts = match self {
            Active::Construct { build_cost } => build_cost,
            Active::Deconstruct { item_gain } => item_gain,
            _ => &none,
        };
        assert(entries@ == self.entries());
        let idx = match resolve_entries(&game.items, entries) {
            Ok(idx) => idx,
            Err(_) => {
                return 0;
            },
        };
        let ledger = game.ledger();
        proof {
            lemma_ints_fit(ledger.amounts@);
            lemma_limit_range(ledger.currency as int, self->Buy_buy_price as int);
            lemma_entries_limit_range(game.items@, ledger@.amounts, entries@, idx@);
        }
        match self {
            Active::Buy { buy_price } => limit_of(ledger.currency, *buy_price),
            Active::Sell { .. } | Active::Deconstruct { .. } => if ledger.amounts[t] < 0 {
                0
            } else {
                ledger.amounts[t]
            },
            Active::Construct { build_cost } => entries_limit_of(
                &game.items,
                &ledger.amounts,
                build_cost,
                &idx,
            ),
        }
    }
}

impl Passive {
    /// What activating `n` units, on behalf of the item named `owner` in
    /// `g`, gives.
    pub open spec fn activation(self, g: GameState, owner: Seq<char>, n: int) -> Result<
        Funds,
        Fault,
    > {
        if resolve(g.items@, owner) < 0 {
            Err(Fault::Missing(owner))
        } else {
            self.outcome(g.items@, g.funds(), n)
        }
    }

    /// The largest multiplier accepted on behalf of the item named `owner`.
    pub open spec fn max_activation(self, g: GameState, owner: Seq<char>) -> int {
        if resolve(g.items@, owner) < 0 || missing(g.items@, self.entries()) >= 0 {
            0
        } else {
            self.bound(g.items@, g.funds())
        }
    }

    /// The message for an activation of `n` units that gave `o`.
    pub open spec fn report(self, n: int, o: Result<Funds, Fault>) -> Seq<char> {
        match o {
            Ok(_) => passive_done_text(self, n),
            Err(e) => fault_text(e),
        }
    }
}

impl Passive {
    /// A daily firing with multiplier `n`, lowered to [`Passive::bound`] when
    /// the state affords fewer units; a refused firing changes nothing.
    pub open spec fn daily(self, items: Seq<Item>, f: Funds, n: int) -> Funds {
        let b = self.bound(items, f);
        let m = if n < b {
            n
        } else {
            b
        };
        match self.outcome(items, f, m) {
            Ok(g) => g,
            Err(_) => f,
        }
    }

    /// See [`Passive::daily`].
    pub fn fire_daily(&self, items: &Vec<Item>, ledger: &mut Ledger, n: i32)
        requires
            old(ledger).amounts@.len() == items@.len(),
        ensures
            final(ledger).amounts@.len() == items@.len(),
            final(ledger)@ == self.daily(items@, old(ledger)@, n as int),
    {
        let entries: &ItemAmounts = match self {
            Passive::Produce { item_production } => item_production,
            Passive::Reduce { item_reduction } => item_reduction,
        };
        let idx = match resolve_entries(items, entries) {
            Ok(idx) => idx,
            Err(_) => {
                return;
            },
        };
        let bound: i32 = match self {
            Passive::Produce { .. } => i32::MAX,
            Passive::Reduce { item_reduction } => entries_limit_of(
                items,
                &ledger.amounts,
                item_reduction,
                &idx,
            ),
        };
        let m = if n < bound {
            n
        } else {
            bound
        };
        let _ = self.apply(items, ledger, m);
    }
}

impl Action for Passive {
    fn name(&self) -> (r: &str)
        ensures
            r@ == passive_name_text(*self),
    {
        match self {
            Passive::Produce { .. } => "Produce",
            Passive::Reduce { .. } => "Reduce",
        }
    }

    fn description(&self) -> (r: String)
        ensures
            r@ == passive_description_text(*self),
    {
        passive_description_string(self)
    }

    fn activate(&self, item_name: String, game: &mut GameState, amount: i32) -> (r: String)
        ensures
            match self.activation(*old(game), item_name@, amount as int) {
                Ok(f) => final(game).funds() == f,
                Err(_) => *final(game) == *old(game),
            },
            r@ == self.report(amount as int, self.activation(*old(game), item_name@, amount as int)),
    {
        if find_item(&game.items, &item_name).is_none() {
            return fault_string(&ActionError::ItemNotFound { name: item_name });
        }
        let mut ledger = game.ledger();
        match self.apply(&game.items, &mut ledger, amount) {
            Ok(()) => {
                game.store(&ledger);
                proof {
                    lemma_keeps_distinct(old(game).items@, game.items@);
                }
                passive_done_string(self, amount)
            },
            Err(e) => fault_string(&e),
        }
    }

    fn max_activate(&self, item_name: String, game: &mut GameState) -> (r: i32)
        ensures
            r == self.max_activation(*old(game), item_name@),
    {
        if find_item(&game.items, &item_name).is_none() {
            return 0;
        }
        let entries: &ItemAmounts = match self {
            Passive::Produce { item_production } => item_production,
            Passive::Reduce { item_reduction } => item_reduction,
        };
        let idx = match resolve_entries(&game.items, entries) {
            Ok(idx) => idx,
            Err(_) => {
                return 0;
            },
        };
        match self {
            Passive::Produce { .. } => i32::MAX,
            Passive::Reduce { item_reduction } => {
                let ledger = game.ledger();
                proof {
                    lemma_ints_fit(ledger.amounts@);
                    lemma_entries_limit_range(game.items@, ledger@.amounts, item_reduction@, idx@);
                }
                entries_limit_of(&game.items, &ledger.amounts, item_reduction, &idx)
            },
        }
    }
}

} // verus!

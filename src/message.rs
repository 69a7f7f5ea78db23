//! The texts that actions return and display.

use vstd::prelude::*;

use crate::action::{ActionError, Active, Fault, Passive};
use crate::amounts::ItemAmounts;
use crate::ledger::times;
use crate::text::{decimal, decimal_string};

verus! {

/// Each entry as `name: amount * n ` in order, for a log line.
pub open spec fn entries_text(s: Seq<(Seq<char>, int)>, n: int) -> Seq<char>
    decreases s.len(),
{
    if s.len() == 0 {
        Seq::empty()
    } else {
        entries_text(s.drop_last(), n) + s.last().0 + ": "@ + decimal(s.last().1 * n) + " "@
    }
}

/// Each entry as `name: amount` on a line of its own, for a description.
pub open spec fn lines_text(s: Seq<(Seq<char>, int)>) -> Seq<char>
    decreases s.len(),
{
    if s.len() == 0 {
        Seq::empty()
    } else {
        lines_text(s.drop_last()) + s.last().0 + ": "@ + decimal(s.last().1) + "\n"@
    }
}

/// The text for a refused activation.
pub open spec fn fault_text(e: Fault) -> Seq<char> {
    match e {
        Fault::Missing(name) => "Could not find item "@ + name,
        Fault::ShortOfCurrency(max) => "Can only afford "@ + decimal(max) + " more"@,
        Fault::ShortOfResources(max) => "Can only be called "@ + decimal(max) + " more times"@,
        Fault::Negative => "Cannot activate a negative number of times"@,
        Fault::Overflow => "Amounts would leave the representable range"@,
    }
}

/// The text for `n` units of `a` done on the item named `name`.
pub open spec fn active_done_text(a: Active, name: Seq<char>, n: int) -> Seq<char> {
    match a {
        Active::Buy { buy_price } => "Purchased "@ + decimal(n) + " "@ + name + " for "@ + decimal(
            buy_price * n,
        ),
        Active::Sell { sell_price } => "Sold "@ + decimal(n) + " "@ + name + " for "@ + decimal(
            sell_price * n,
        ),
        Active::Construct { build_cost } => "Constructed "@ + decimal(n) + " "@ + name
            + " for: { "@ + entries_text(build_cost@, n) + "}"@,
        Active::Deconstruct { item_gain } => "Deconstructed "@ + decimal(n) + " "@ + name
            + " into: { "@ + entries_text(item_gain@, n) + "}"@,
    }
}

/// The text for `n` units of `p` done.
pub open spec fn passive_done_text(p: Passive, n: int) -> Seq<char> {
    match p {
        Passive::Produce { item_production } => "Produced { "@ + entries_text(item_production@, n)
            + "}"@,
        Passive::Reduce { item_reduction } => "Reduced { "@ + entries_text(item_reduction@, n)
            + "}"@,
    }
}

/// The display name of an active action.
pub open spec fn active_name_text(a: Active) -> Seq<char> {
    match a {
        Active::Buy { .. } => "Buy"@,
        Active::Sell { .. } => "Sell"@,
        Active::Construct { .. } => "Construct"@,
        Active::Deconstruct { .. } => "Deconstruct"@,
    }
}

/// The display name of a passive action.
pub open spec fn passive_name_text(p: Passive) -> Seq<char> {
    match p {
        Passive::Produce { .. } => "Produce"@,
        Passive::Reduce { .. } => "Reduce"@,
    }
}

/// The description of an active action's parameters.
pub open spec fn active_description_text(a: Active) -> Seq<char> {
    match a {
        Active::Buy { buy_price } => "Buy Price: "@ + decimal(buy_price as int),
        Active::Sell { sell_price } => "Sell Price: "@ + decimal(sell_price as int),
        Active::Construct { build_cost } => "Construction Cost:\n"@ + lines_text(build_cost@),
        Active::Deconstruct { item_gain } => "Deconstruction Gain:\n"@ + lines_text(item_gain@),
    }
}

/// The description of a passive action's parameters.
pub open spec fn passive_description_text(p: Passive) -> Seq<char> {
    match p {
        Passive::Produce { item_production } => "Produces daily:\n"@ + lines_text(
            item_production@,
        ),
        Passive::Reduce { item_reduction } => "Reduces daily:\n"@ + lines_text(item_reduction@),
    }
}

/// See [`entries_text`].
pub fn entries_string(entries: &ItemAmounts, n: i32) -> (r: String)
    requires
        n >= 0,
    ensures
        r@ == entries_text(entries@, n as int),
{
    let ghost s = entries@;
    let mut out = String::new();
    let mut k: usize = 0;
    while k < entries.len()
        invariant
            0 <= k <= s.len(),
            s == entries@,
            n >= 0,
            out@ == entries_text(s.take(k as int), n as int),
        decreases s.len() - k,
    {
        out.append(entries.name_at(k).as_str());
        out.append(": ");
        let d = decimal_string(times(n as i64, entries.amount_at(k)));
        out.append(d.as_str());
        out.append(" ");
        proof {
            assert(s.take(k + 1).drop_last() =~= s.take(k as int));
            assert(s.take(k + 1).last() == s[k as int]);
            assert(n * s[k as int].1 == s[k as int].1 * n) by (nonlinear_arith);
        }
        k = k + 1;
    }
    proof {
        assert(s.take(s.len() as int) =~= s);
    }
    out
}

/// See [`lines_text`].
pub fn lines_string(entries: &ItemAmounts) -> (r: String)
    ensures
        r@ == lines_text(entries@),
{
    let ghost s = entries@;
    let mut out = String::new();
    let mut k: usize = 0;
    while k < entries.len()
        invariant
            0 <= k <= s.len(),
            s == entries@,
            out@ == lines_text(s.take(k as int)),
        decreases s.len() - k,
    {
        out.append(entries.name_at(k).as_str());
        out.append(": ");
        let d = decimal_string(entries.amount_at(k) as i64);
        out.append(d.as_str());
        out.append("\n");
        proof {
            assert(s.take(k + 1).drop_last() =~= s.take(k as int));
            assert(s.take(k + 1).last() == s[k as int]);
        }
        k = k + 1;
    }
    proof {
        assert(s.take(s.len() as int) =~= s);
    }
    out
}

/// See [`fault_text`].
pub fn fault_string(e: &ActionError) -> (r: String)
    ensures
        r@ == fault_text(e@),
{
    match e {
        ActionError::ItemNotFound { name } => {
            let mut s = String::from_str("Could not find item ");
            s.append(name.as_str());
            s
        },
        ActionError::InsufficientCurrency { max } => {
            let mut s = String::from_str("Can only afford ");
            let d = decimal_string(*max as i64);
            s.append(d.as_str());
            s.append(" more");
            s
        },
        ActionError::InsufficientResources { max } => {
            let mut s = String::from_str("Can only be called ");
            let d = decimal_string(*max as i64);
            s.append(d.as_str());
            s.append(" more times");
            s
        },
        ActionError::NegativeMultiplier => String::from_str(
            "Cannot activate a negative number of times",
        ),
        ActionError::Overflow => String::from_str("Amounts would leave the representable range"),
    }
}

/// `head`, the count, the item name, then `middle`.
fn headed(head: &str, n: i32, name: &String, middle: &str) -> (r: String)
    requires
        n >= 0,
    ensures
        r@ == head@ + decimal(n as int) + " "@ + name@ + middle@,
{
    let mut s = String::from_str(head);
    let d = decimal_string(n as i64);
    s.append(d.as_str());
    s.append(" ");
    s.append(name.as_str());
    s.append(middle);
    s
}

/// See [`active_done_text`].
pub fn active_done_string(a: &Active, name: &String, n: i32) -> (r: String)
    requires
        n >= 0,
    ensures
        r@ == active_done_text(*a, name@, n as int),
{
    match a {
        Active::Buy { buy_price } => {
            let mut s = headed("Purchased ", n, name, " for ");
            let d = decimal_string(times(n as i64, *buy_price));
            s.append(d.as_str());
            assert(n * *buy_price == *buy_price * n) by (nonlinear_arith);
            s
        },
        Active::Sell { sell_price } => {
            let mut s = headed("Sold ", n, name, " for ");
            let d = decimal_string(times(n as i64, *sell_price));
            s.append(d.as_str());
            assert(n * *sell_price == *sell_price * n) by (nonlinear_arith);
            s
        },
        Active::Construct { build_cost } => {
            let mut s = headed("Constructed ", n, name, " for: { ");
            let e = entries_string(build_cost, n);
            s.append(e.as_str());
            s.append("}");
            s
        },
        Active::Deconstruct { item_gain } => {
            let mut s = headed("Deconstructed ", n, name, " into: { ");
            let e = entries_string(item_gain, n);
            s.append(e.as_str());
            s.append("}");
            s
        },
    }
}

/// See [`passive_done_text`].
pub fn passive_done_string(p: &Passive, n: i32) -> (r: String)
    requires
        n >= 0,
    ensures
        r@ == passive_done_text(*p, n as int),
{
    let (head, entries) = match p {
        Passive::Produce { item_production } => ("Produced { ", item_production),
        Passive::Reduce { item_reduction } => ("Reduced { ", item_reduction),
    };
    let mut s = String::from_str(head);
    let e = entries_string(entries, n);
    s.append(e.as_str());
    s.append("}");
    s
}

/// See [`active_description_text`].
pub fn active_description_string(a: &Active) -> (r: String)
    ensures
        r@ == active_description_text(*a),
{
    match a {
        Active::Buy { buy_price } => {
            let mut s = String::from_str("Buy Price: ");
            let d = decimal_string(*buy_price as i64);
            s.append(d.as_str());
            s
        },
        Active::Sell { sell_price } => {
            let mut s = String::from_str("Sell Price: ");
            let d = decimal_string(*sell_price as i64);
            s.append(d.as_str());
            s
        },
        Active::Construct { build_cost } => {
            let mut s = String::from_str("Construction Cost:\n");
            let e = lines_string(build_cost);
            s.append(e.as_str());
            s
        },
        Active::Deconstruct { item_gain } => {
            let mut s = String::from_str("Deconstruction Gain:\n");
            let e = lines_string(item_gain);
            s.append(e.as_str());
            s
        },
    }
}

/// See [`passive_description_text`].
pub fn passive_description_string(p: &Passive) -> (r: String)
    ensures
        r@ == passive_description_text(*p),
{
    let (head, entries) = match p {
        Passive::Produce { item_production } => ("Produces daily:\n", item_production),
        Passive::Reduce { item_reduction } => ("Reduces daily:\n", item_reduction),
    };
    let mut s = String::from_str(head);
    let e = lines_string(entries);
    s.append(e.as_str());
    s
}

} // verus!

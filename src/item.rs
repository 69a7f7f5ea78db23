//! Items: named, quantity-tracked game objects.

use vstd::prelude::*;

use crate::action::{Active, Passive};
use crate::text::{decimal, decimal_string};

verus! {

/// How an item is grouped for display; it has no effect on the engine.
#[derive(Clone, Copy, Debug, PartialEq, Eq, Structural)]
pub enum ItemCategory {
    Resource,
    Building,
}

/// A named quantity together with the actions it offers.
#[derive(Debug)]
pub struct Item {
    pub name: String,
    pub amount: i32,
    pub category: ItemCategory,
    pub industries: Vec<String>,
    pub actions_active: Vec<Active>,
    pub actions_passive: Vec<Passive>,
}

/// The text that [`Item::information`] returns.
pub open spec fn information_text(name: Seq<char>, amount: int) -> Seq<char> {
    "Name: "@ + name + "\nAmount: "@ + decimal(amount) + "\n\n"@
}

impl Item {
    /// A short summary of the item: its name and amount.
    pub fn information(&self) -> (r: String)
        ensures
            r@ == information_text(self.name@, self.amount as int),
    {
        let mut s = String::from_str("Name: ");
        s.append(self.name.as_str());
        s.append("\nAmount: ");
        let a = decimal_string(self.amount as i64);
        s.append(a.as_str());
        s.append("\n\n");
        s
    }
}

} // verus!

//! A mapping from item names to per-unit amounts, kept in insertion order.

use vstd::prelude::*;

verus! {

/// No two entries of `s` carry the same name.
pub open spec fn distinct_names(s: Seq<(Seq<char>, int)>) -> bool {
    forall|i: int, j: int|
        0 <= i < s.len() && 0 <= j < s.len() && i != j ==> #[trigger] s[i].0 != #[trigger] s[j].0
}

/// The position of the entry named `name`, or -1.
pub open spec fn position_of(s: Seq<(Seq<char>, int)>, name: Seq<char>) -> int
    decreases s.len(),
{
    if s.len() == 0 {
        -1
    } else if s.last().0 == name {
        s.len() - 1
    } else {
        position_of(s.drop_last(), name)
    }
}

/// In a mapping with distinct names, the entry named `name` is found where it
/// stands.
pub proof fn lemma_position_unique(s: Seq<(Seq<char>, int)>, name: Seq<char>, i: int)
    requires
        distinct_names(s),
        0 <= i < s.len(),
        s[i].0 == name,
    ensures
        position_of(s, name) == i,
    decreases s.len(),
{
    if i != s.len() - 1 {
        assert(s.last().0 != name);
        assert(distinct_names(s.drop_last()));
        lemma_position_unique(s.drop_last(), name, i);
    }
}

/// A name that no entry carries has no position.
pub proof fn lemma_position_absent(s: Seq<(Seq<char>, int)>, name: Seq<char>)
    requires
        forall|k: int| 0 <= k < s.len() ==> #[trigger] s[k].0 != name,
    ensures
        position_of(s, name) == -1,
    decreases s.len(),
{
    if s.len() > 0 {
        assert(s.last().0 != name);
        lemma_position_absent(s.drop_last(), name);
    }
}

/// A mapping from item name to an amount per unit of activation, such as a
/// build cost or a daily production. Each name occurs at most once, and the
/// entries keep the order in which they were first inserted.
#[derive(Debug)]
pub struct ItemAmounts {
    entries: Vec<(String, i32)>,
}

spec fn entries_view(v: Seq<(String, i32)>) -> Seq<(Seq<char>, int)> {
    v.map_values(|e: (String, i32)| (e.0@, e.1 as int))
}

impl View for ItemAmounts {
    type V = Seq<(Seq<char>, int)>;

    closed spec fn view(&self) -> Seq<(Seq<char>, int)> {
        entries_view(self.entries@)
    }
}

impl ItemAmounts {
    #[verifier::type_invariant]
    pub open spec fn well_formed(&self) -> bool {
        distinct_names(self@)
    }

    /// The empty mapping.
    pub fn new() -> (r: ItemAmounts)
        ensures
            r@ == Seq::<(Seq<char>, int)>::empty(),
    {
        let entries: Vec<(String, i32)> = Vec::new();
        assert(entries_view(entries@) =~= Seq::<(Seq<char>, int)>::empty());
        ItemAmounts { entries }
    }

    /// Number of entries.
    pub fn len(&self) -> (r: usize)
        ensures
            r == self@.len(),
    {
        self.entries.len()
    }

    /// The name of the entry at position `i`.
    pub fn name_at(&self, i: usize) -> (r: &String)
        requires
            i < self@.len(),
        ensures
            r@ == self@[i as int].0,
    {
        &self.entries[i].0
    }

    /// The amount of the entry at position `i`.
    pub fn amount_at(&self, i: usize) -> (r: i32)
        requires
            i < self@.len(),
        ensures
            r == self@[i as int].1,
    {
        self.entries[i].1
    }

    /// The mapping with `name` set to `amount`: an existing entry keeps its
    /// place and takes the new amount, a new name is appended.
    pub fn with_amount(self, name: String, amount: i32) -> (r: ItemAmounts)
        ensures
            position_of(self@, name@) >= 0 ==> r@ == self@.update(
                position_of(self@, name@),
                (name@, amount as int),
            ),
            position_of(self@, name@) < 0 ==> r@ == self@.push((name@, amount as int)),
    {
        proof {
            use_type_invariant(&self);
        }
        let ghost before = self@;
        let mut entries = self.entries;
        let mut i: usize = 0;
        while i < entries.len()
            invariant
                0 <= i <= entries@.len(),
                entries_view(entries@) == before,
                distinct_names(before),
                before == self@,
                forall|k: int| 0 <= k < i ==> #[trigger] before[k].0 != name@,
            decreases entries@.len() - i,
        {
            if entries[i].0 == name {
                proof {
                    lemma_position_unique(before, name@, i as int);
                }
                let ghost old_entries = entries@;
                entries[i].1 = amount;
                assert(entries@ == old_entries.update(i as int, (old_entries[i as int].0, amount)));
                assert(before[i as int].0 == name@);
                let ghost after = before.update(i as int, (name@, amount as int));
                assert(entries_view(entries@) =~= after);
                assert(distinct_names(after)) by {
                    assert forall|p: int, q: int|
                        0 <= p < after.len() && 0 <= q < after.len() && p != q implies
                        #[trigger] after[p].0 != #[trigger] after[q].0 by {
                        assert(after[p].0 == before[p].0);
                        assert(after[q].0 == before[q].0);
                    }
                }
                let r = ItemAmounts { entries };
                assert(r@ == after);
                assert(position_of(before, name@) == i);
                return r;
            }
            i = i + 1;
        }
        proof {
            lemma_position_absent(before, name@);
        }
        let ghost after = before.push((name@, amount as int));
        entries.push((name, amount));
        assert(entries_view(entries@) =~= after);
        assert(distinct_names(after)) by {
            assert forall|p: int, q: int|
                0 <= p < after.len() && 0 <= q < after.len() && p != q implies
                #[trigger] after[p].0 != #[trigger] after[q].0 by {
                if p < before.len() && q < before.len() {
                    assert(after[p].0 == before[p].0);
                    assert(after[q].0 == before[q].0);
                } else if p < before.len() {
                    assert(after[p].0 == before[p].0);
                } else {
                    assert(after[q].0 == before[q].0);
                }
            }
        }
        ItemAmounts { entries }
    }
}

} // verus!

//! The mutable part of the economy (currency and item amounts), name
//! resolution against the item registry, and the per-unit shifts that
//! actions apply to amounts.

use vstd::prelude::*;

use crate::amounts::{distinct_names, ItemAmounts};
use crate::item::Item;

verus! {

/// `x` is representable as an `i32`.
pub open spec fn fits(x: int) -> bool {
    i32::MIN <= x <= i32::MAX
}

/// Every element of `s` is representable as an `i32`.
pub open spec fn all_fit(s: Seq<int>) -> bool {
    forall|x: int| 0 <= x < s.len() ==> fits(#[trigger] s[x])
}

/// `x` clamped below at zero.
pub open spec fn clamp0(x: int) -> int {
    if x < 0 {
        0
    } else {
        x
    }
}

/// The economic state that actions change: the wallet and, index for index
/// with the registry, the amount of every item.
pub struct Funds {
    pub currency: int,
    pub amounts: Seq<int>,
}

/// The amounts held by `items`, in registry order.
pub open spec fn amounts_of(items: Seq<Item>) -> Seq<int> {
    items.map_values(|i: Item| i.amount as int)
}

/// The integers of `s`.
pub open spec fn ints(s: Seq<i32>) -> Seq<int> {
    s.map_values(|a: i32| a as int)
}

/// `i` is the first position in `items` whose name is `name`.
pub open spec fn is_first(items: Seq<Item>, name: Seq<char>, i: int) -> bool {
    &&& 0 <= i < items.len()
    &&& items[i].name@ == name
    &&& forall|k: int| 0 <= k < i ==> #[trigger] items[k].name@ != name
}

/// The position of the first item named `name`, or -1 when there is none.
pub open spec fn resolve(items: Seq<Item>, name: Seq<char>) -> int {
    if exists|i: int| is_first(items, name, i) {
        choose|i: int| is_first(items, name, i)
    } else {
        -1
    }
}

/// `k` is the first entry of `s` whose name names no item.
pub open spec fn is_first_missing(items: Seq<Item>, s: Seq<(Seq<char>, int)>, k: int) -> bool {
    &&& 0 <= k < s.len()
    &&& resolve(items, s[k].0) < 0
    &&& forall|j: int| 0 <= j < k ==> resolve(items, #[trigger] s[j].0) >= 0
}

/// The position of the first entry of `s` that names no item, or -1 when
/// every entry resolves.
pub open spec fn missing(items: Seq<Item>, s: Seq<(Seq<char>, int)>) -> int {
    if exists|k: int| is_first_missing(items, s, k) {
        choose|k: int| is_first_missing(items, s, k)
    } else {
        -1
    }
}

/// What the entries of `s`, each scaled by `scale`, add to the item at
/// position `x`.
pub open spec fn delta_at(items: Seq<Item>, s: Seq<(Seq<char>, int)>, scale: int, x: int) -> int
    decreases s.len(),
{
    if s.len() == 0 {
        0
    } else {
        delta_at(items, s.drop_last(), scale, x) + if resolve(items, s.last().0) == x {
            scale * s.last().1
        } else {
            0
        }
    }
}

/// `amounts` after each entry of `s` has added `scale` times its amount to
/// the item it names.
pub open spec fn shifted(
    items: Seq<Item>,
    amounts: Seq<int>,
    s: Seq<(Seq<char>, int)>,
    scale: int,
) -> Seq<int> {
    Seq::new(amounts.len(), |x: int| amounts[x] + delta_at(items, s, scale, x))
}

/// How many units can be paid from `have` at `unit` each: unbounded (the
/// largest `i32`) when a unit costs nothing, and never below zero.
pub open spec fn limit(have: int, unit: int) -> int {
    if unit <= 0 {
        i32::MAX as int
    } else if have <= 0 {
        0
    } else {
        have / unit
    }
}

/// The smallest of the limits that the entries of `s` set on the amounts
/// they name, or the largest `i32` when `s` is empty.
pub open spec fn entries_limit(items: Seq<Item>, amounts: Seq<int>, s: Seq<(Seq<char>, int)>) -> int
    decreases s.len(),
{
    if s.len() == 0 {
        i32::MAX as int
    } else {
        let rest = entries_limit(items, amounts, s.drop_last());
        let here = limit(amounts[resolve(items, s.last().0)], s.last().1);
        if here < rest {
            here
        } else {
            rest
        }
    }
}

/// The first item that carries `name` is the one it resolves to.
pub proof fn lemma_resolve_is(items: Seq<Item>, name: Seq<char>, i: int)
    requires
        is_first(items, name, i),
    ensures
        resolve(items, name) == i,
{
    let j = choose|j: int| is_first(items, name, j);
    assert(is_first(items, name, j));
    if j < i {
        assert(items[j].name@ != name);
    } else if i < j {
        assert(items[i].name@ != name);
    }
}

/// A name that no item carries resolves to nothing.
pub proof fn lemma_resolve_none(items: Seq<Item>, name: Seq<char>)
    requires
        forall|k: int| 0 <= k < items.len() ==> #[trigger] items[k].name@ != name,
    ensures
        resolve(items, name) == -1,
{
    if exists|i: int| is_first(items, name, i) {
        let i = choose|i: int| is_first(items, name, i);
        assert(items[i].name@ != name);
    }
}

/// A name that resolves names the item it resolves to, the first such.
pub proof fn lemma_resolve_found(items: Seq<Item>, name: Seq<char>)
    ensures
        resolve(items, name) >= 0 ==> is_first(items, name, resolve(items, name)),
        -1 <= resolve(items, name) < items.len(),
{
}

/// Two names that resolve to one item are the same name.
pub proof fn lemma_resolve_injective(items: Seq<Item>, a: Seq<char>, b: Seq<char>)
    requires
        resolve(items, a) >= 0,
        resolve(items, a) == resolve(items, b),
    ensures
        a == b,
{
    lemma_resolve_found(items, a);
    lemma_resolve_found(items, b);
}

/// The first entry that resolves to no item is the missing one.
pub proof fn lemma_missing_is(items: Seq<Item>, s: Seq<(Seq<char>, int)>, k: int)
    requires
        is_first_missing(items, s, k),
    ensures
        missing(items, s) == k,
{
    let j = choose|j: int| is_first_missing(items, s, j);
    assert(is_first_missing(items, s, j));
    if j < k {
        assert(resolve(items, s[j].0) >= 0);
    } else if k < j {
        assert(resolve(items, s[k].0) >= 0);
    }
}

/// When every entry resolves, none is missing.
pub proof fn lemma_missing_none(items: Seq<Item>, s: Seq<(Seq<char>, int)>)
    requires
        forall|k: int| 0 <= k < s.len() ==> resolve(items, #[trigger] s[k].0) >= 0,
    ensures
        missing(items, s) == -1,
{
    if exists|k: int| is_first_missing(items, s, k) {
        let k = choose|k: int| is_first_missing(items, s, k);
        assert(resolve(items, s[k].0) >= 0);
    }
}

/// When some entry resolves to no item, one of them is the missing one.
pub proof fn lemma_missing_some(items: Seq<Item>, s: Seq<(Seq<char>, int)>, k: int)
    requires
        0 <= k < s.len(),
        resolve(items, s[k].0) < 0,
    ensures
        missing(items, s) >= 0,
    decreases k,
{
    if forall|j: int| 0 <= j < k ==> resolve(items, #[trigger] s[j].0) >= 0 {
        assert(is_first_missing(items, s, k));
        lemma_missing_is(items, s, k);
    } else {
        let j = choose|j: int| 0 <= j < k && resolve(items, #[trigger] s[j].0) < 0;
        lemma_missing_some(items, s, j);
    }
}

/// An item that no entry names is not shifted.
pub proof fn lemma_delta_miss(items: Seq<Item>, s: Seq<(Seq<char>, int)>, scale: int, x: int)
    requires
        forall|k: int| 0 <= k < s.len() ==> resolve(items, #[trigger] s[k].0) != x,
    ensures
        delta_at(items, s, scale, x) == 0,
    decreases s.len(),
{
    if s.len() > 0 {
        assert(resolve(items, s[s.len() - 1].0) != x);
        let d = s.drop_last();
        assert forall|k: int| 0 <= k < d.len() implies resolve(items, #[trigger] d[k].0) != x by {
            assert(d[k] == s[k]);
        }
        lemma_delta_miss(items, d, scale, x);
    }
}

/// With distinct names, the item that entry `k` names is shifted by that
/// entry alone.
pub proof fn lemma_delta_hit(items: Seq<Item>, s: Seq<(Seq<char>, int)>, scale: int, k: int)
    requires
        distinct_names(s),
        0 <= k < s.len(),
        resolve(items, s[k].0) >= 0,
    ensures
        delta_at(items, s, scale, resolve(items, s[k].0)) == scale * s[k].1,
    decreases s.len(),
{
    let x = resolve(items, s[k].0);
    let d = s.drop_last();
    assert(distinct_names(d)) by {
        assert forall|p: int, q: int|
            0 <= p < d.len() && 0 <= q < d.len() && p != q implies #[trigger] d[p].0
            != #[trigger] d[q].0 by {
            assert(d[p] == s[p]);
            assert(d[q] == s[q]);
        }
    }
    if k == s.len() - 1 {
        assert forall|j: int| 0 <= j < d.len() implies resolve(items, #[trigger] d[j].0) != x by {
            assert(d[j] == s[j]);
            if resolve(items, s[j].0) == x {
                lemma_resolve_injective(items, s[k].0, s[j].0);
            }
        }
        lemma_delta_miss(items, d, scale, x);
    } else {
        if resolve(items, s.last().0) == x {
            lemma_resolve_injective(items, s[k].0, s.last().0);
            assert(s[k].0 != s[s.len() - 1].0);
        }
        assert(d[k] == s[k]);
        lemma_delta_hit(items, d, scale, k);
    }
}

/// With distinct names, each item is shifted by at most one entry.
pub proof fn lemma_delta_cases(items: Seq<Item>, s: Seq<(Seq<char>, int)>, scale: int, x: int)
    requires
        distinct_names(s),
    ensures
        (exists|k: int| 0 <= k < s.len() && resolve(items, s[k].0) == x) || delta_at(
            items,
            s,
            scale,
            x,
        ) == 0,
{
    if !(exists|k: int| 0 <= k < s.len() && resolve(items, s[k].0) == x) {
        lemma_delta_miss(items, s, scale, x);
    }
}

/// The entries of `s` whose names all resolve, at the positions `idx`.
pub open spec fn resolved_at(items: Seq<Item>, s: Seq<(Seq<char>, int)>, idx: Seq<usize>) -> bool {
    &&& idx.len() == s.len()
    &&& forall|k: int|
        0 <= k < idx.len() ==> #[trigger] idx[k] as int == resolve(items, s[k].0) && idx[k]
            < items.len()
}

/// A limit is never negative and fits in an `i32`.
pub proof fn lemma_limit_range(have: int, unit: int)
    requires
        have <= i32::MAX,
    ensures
        0 <= limit(have, unit) <= i32::MAX,
{
    if unit > 0 && have > 0 {
        assert(have / unit <= have) by (nonlinear_arith)
            requires
                unit > 0,
                have > 0,
        ;
    }
}

/// The limit that resolved entries set is never negative and fits in an
/// `i32`.
pub proof fn lemma_entries_limit_range(
    items: Seq<Item>,
    amounts: Seq<int>,
    s: Seq<(Seq<char>, int)>,
    idx: Seq<usize>,
)
    requires
        all_fit(amounts),
        amounts.len() == items.len(),
        resolved_at(items, s, idx),
    ensures
        0 <= entries_limit(items, amounts, s) <= i32::MAX,
    decreases s.len(),
{
    if s.len() > 0 {
        let d = s.drop_last();
        let di = idx.drop_last();
        assert forall|k: int| 0 <= k < di.len() implies #[trigger] di[k] as int == resolve(
            items,
            d[k].0,
        ) && di[k] < items.len() by {
            assert(d[k] == s[k]);
            assert(di[k] == idx[k]);
        }
        lemma_entries_limit_range(items, amounts, d, di);
        let x = resolve(items, s[s.len() - 1].0);
        assert(idx[s.len() - 1] as int == x);
        assert(fits(amounts[x]));
        lemma_limit_range(amounts[x], s.last().1);
    }
}

/// The integers of `i32`s are representable.
pub proof fn lemma_ints_fit(s: Seq<i32>)
    ensures
        all_fit(ints(s)),
        ints(s).len() == s.len(),
{
    assert forall|x: int| 0 <= x < ints(s).len() implies fits(#[trigger] ints(s)[x]) by {
        assert(ints(s)[x] == s[x] as int);
    }
}

/// The limit that entries set is at most the limit of any one of them.
pub proof fn lemma_entries_limit_below(
    items: Seq<Item>,
    amounts: Seq<int>,
    s: Seq<(Seq<char>, int)>,
    k: int,
)
    requires
        0 <= k < s.len(),
    ensures
        entries_limit(items, amounts, s) <= limit(amounts[resolve(items, s[k].0)], s[k].1),
    decreases s.len(),
{
    if k < s.len() - 1 {
        let d = s.drop_last();
        assert(d[k] == s[k]);
        lemma_entries_limit_below(items, amounts, d, k);
    }
}

/// The limit that a non-empty list of entries sets is the limit of one of
/// them.
pub proof fn lemma_entries_limit_attained(
    items: Seq<Item>,
    amounts: Seq<int>,
    s: Seq<(Seq<char>, int)>,
)
    requires
        s.len() > 0,
        all_fit(amounts),
        forall|k: int| 0 <= k < s.len() ==> 0 <= resolve(items, #[trigger] s[k].0) < amounts.len(),
    ensures
        exists|k: int|
            0 <= k < s.len() && entries_limit(items, amounts, s) == limit(
                amounts[resolve(items, #[trigger] s[k].0)],
                s[k].1,
            ),
    decreases s.len(),
{
    let last = s.len() - 1;
    let x = resolve(items, s[last].0);
    let here = limit(amounts[x], s[last].1);
    assert(fits(amounts[x]));
    lemma_limit_range(amounts[x], s[last].1);
    assert(s.len() == 1 ==> entries_limit(items, amounts, s.drop_last()) == i32::MAX);
    if entries_limit(items, amounts, s) != here {
        let d = s.drop_last();
        assert forall|k: int| 0 <= k < d.len() implies 0 <= resolve(items, #[trigger] d[k].0)
            < amounts.len() by {
            assert(d[k] == s[k]);
        }
        lemma_entries_limit_attained(items, amounts, d);
        let k = choose|k: int|
            0 <= k < d.len() && entries_limit(items, amounts, d) == limit(
                amounts[resolve(items, #[trigger] d[k].0)],
                d[k].1,
            );
        assert(d[k] == s[k]);
    }
}

/// The executable counterpart of [`Funds`].
pub struct Ledger {
    pub currency: i32,
    pub amounts: Vec<i32>,
}

impl View for Ledger {
    type V = Funds;

    open spec fn view(&self) -> Funds {
        Funds { currency: self.currency as int, amounts: ints(self.amounts@) }
    }
}

/// The position of the first item named `name`.
pub fn find_item(items: &Vec<Item>, name: &String) -> (r: Option<usize>)
    ensures
        match r {
            Some(i) => i as int == resolve(items@, name@),
            None => resolve(items@, name@) == -1,
        },
{
    let mut i: usize = 0;
    while i < items.len()
        invariant
            0 <= i <= items@.len(),
            forall|k: int| 0 <= k < i ==> #[trigger] items@[k].name@ != name@,
        decreases items@.len() - i,
    {
        if items[i].name == *name {
            proof {
                lemma_resolve_is(items@, name@, i as int);
            }
            return Some(i);
        }
        i = i + 1;
    }
    proof {
        lemma_resolve_none(items@, name@);
    }
    None
}

/// The positions of the items that the entries name, or the position of the
/// first entry that names no item.
pub fn resolve_entries(items: &Vec<Item>, entries: &ItemAmounts) -> (r: Result<Vec<usize>, usize>)
    ensures
        match r {
            Ok(idx) => missing(items@, entries@) == -1 && resolved_at(items@, entries@, idx@),
            Err(k) => k as int == missing(items@, entries@) && 0 <= k < entries@.len(),
        },
{
    let mut idx: Vec<usize> = Vec::new();
    let mut k: usize = 0;
    while k < entries.len()
        invariant
            0 <= k <= entries@.len(),
            idx@.len() == k,
            forall|j: int|
                0 <= j < k ==> #[trigger] idx@[j] as int == resolve(items@, entries@[j].0)
                    && idx@[j] < items@.len(),
        decreases entries@.len() - k,
    {
        match find_item(items, entries.name_at(k)) {
            Some(i) => {
                idx.push(i);
            },
            None => {
                proof {
                    assert forall|j: int| 0 <= j < k implies resolve(
                        items@,
                        #[trigger] entries@[j].0,
                    ) >= 0 by {
                        assert(idx@[j] as int == resolve(items@, entries@[j].0));
                    }
                    lemma_missing_is(items@, entries@, k as int);
                }
                return Err(k);
            },
        }
        k = k + 1;
    }
    proof {
        assert forall|j: int| 0 <= j < entries@.len() implies resolve(
            items@,
            #[trigger] entries@[j].0,
        ) >= 0 by {
            assert(idx@[j] as int == resolve(items@, entries@[j].0));
        }
        lemma_missing_none(items@, entries@);
    }
    Ok(idx)
}

/// See [`limit`].
pub fn limit_of(have: i32, unit: i32) -> (r: i32)
    ensures
        r == limit(have as int, unit as int),
{
    if unit <= 0 {
        i32::MAX
    } else if have <= 0 {
        0
    } else {
        have / unit
    }
}

/// See [`entries_limit`].
pub fn entries_limit_of(
    items: &Vec<Item>,
    amounts: &Vec<i32>,
    entries: &ItemAmounts,
    idx: &Vec<usize>,
) -> (r: i32)
    requires
        amounts@.len() == items@.len(),
        resolved_at(items@, entries@, idx@),
    ensures
        r == entries_limit(items@, ints(amounts@), entries@),
{
    let ghost s = entries@;
    let mut cur: i32 = i32::MAX;
    let mut k: usize = 0;
    while k < entries.len()
        invariant
            0 <= k <= s.len(),
            s == entries@,
            amounts@.len() == items@.len(),
            resolved_at(items@, s, idx@),
            cur == entries_limit(items@, ints(amounts@), s.take(k as int)),
        decreases s.len() - k,
    {
        let here = limit_of(amounts[idx[k]], entries.amount_at(k));
        proof {
            assert(s.take(k + 1).drop_last() =~= s.take(k as int));
            assert(s.take(k + 1).last() == s[k as int]);
            assert(idx@[k as int] as int == resolve(items@, s[k as int].0));
        }
        if here < cur {
            cur = here;
        }
        k = k + 1;
    }
    proof {
        assert(s.take(s.len() as int) =~= s);
    }
    cur
}

/// `scale * unit`, which cannot overflow an `i64` for these ranges.
pub fn times(scale: i64, unit: i32) -> (r: i64)
    requires
        -i32::MAX <= scale <= i32::MAX,
    ensures
        r == scale * unit,
        -0x4000_0000_0000_0000 <= r <= 0x4000_0000_0000_0000,
{
    proof {
        let u = unit as int;
        let c = scale as int;
        assert(-0x4000_0000_0000_0000 <= c * u <= 0x4000_0000_0000_0000) by (nonlinear_arith)
            requires
                -0x7fff_ffff <= c <= 0x7fff_ffff,
                -0x8000_0000 <= u <= 0x7fff_ffff,
        ;
    }
    scale * (unit as i64)
}

/// Whether every amount stays representable when each entry adds `scale`
/// times its amount to the item it names.
pub fn shift_fits(
    items: &Vec<Item>,
    amounts: &Vec<i32>,
    entries: &ItemAmounts,
    idx: &Vec<usize>,
    scale: i64,
) -> (r: bool)
    requires
        amounts@.len() == items@.len(),
        resolved_at(items@, entries@, idx@),
        -i32::MAX <= scale <= i32::MAX,
    ensures
        r == all_fit(shifted(items@, ints(amounts@), entries@, scale as int)),
{
    proof {
        use_type_invariant(entries);
    }
    let ghost s = entries@;
    let ghost a = ints(amounts@);
    let ghost res = shifted(items@, a, s, scale as int);
    let mut k: usize = 0;
    while k < entries.len()
        invariant
            0 <= k <= s.len(),
            s == entries@,
            distinct_names(s),
            a == ints(amounts@),
            res == shifted(items@, a, s, scale as int),
            amounts@.len() == items@.len(),
            resolved_at(items@, s, idx@),
            -i32::MAX <= scale <= i32::MAX,
            forall|j: int| 0 <= j < k ==> fits(a[#[trigger] idx@[j] as int] + scale * s[j].1),
        decreases s.len() - k,
    {
        let v = amounts[idx[k]] as i64 + times(scale, entries.amount_at(k));
        if v < i32::MIN as i64 || v > i32::MAX as i64 {
            proof {
                lemma_delta_hit(items@, s, scale as int, k as int);
                assert(!fits(res[idx@[k as int] as int]));
            }
            return false;
        }
        k = k + 1;
    }
    proof {
        assert forall|x: int| 0 <= x < res.len() implies fits(#[trigger] res[x]) by {
            lemma_delta_cases(items@, s, scale as int, x);
            if exists|j: int| 0 <= j < s.len() && resolve(items@, s[j].0) == x {
                let j = choose|j: int| 0 <= j < s.len() && resolve(items@, s[j].0) == x;
                lemma_delta_hit(items@, s, scale as int, j);
                assert(idx@[j] as int == x);
            }
        }
    }
    true
}

/// Adds, for each entry, `scale` times its amount to the item it names.
pub fn shift_apply(
    items: &Vec<Item>,
    amounts: &mut Vec<i32>,
    entries: &ItemAmounts,
    idx: &Vec<usize>,
    scale: i64,
)
    requires
        old(amounts)@.len() == items@.len(),
        resolved_at(items@, entries@, idx@),
        -i32::MAX <= scale <= i32::MAX,
        all_fit(shifted(items@, ints(old(amounts)@), entries@, scale as int)),
    ensures
        final(amounts)@.len() == old(amounts)@.len(),
        ints(final(amounts)@) == shifted(items@, ints(old(amounts)@), entries@, scale as int),
{
    proof {
        use_type_invariant(entries);
    }
    let ghost s = entries@;
    let ghost a = ints(amounts@);
    let ghost res = shifted(items@, a, s, scale as int);
    let mut k: usize = 0;
    while k < entries.len()
        invariant
            0 <= k <= s.len(),
            s == entries@,
            distinct_names(s),
            res == shifted(items@, a, s, scale as int),
            all_fit(res),
            amounts@.len() == items@.len(),
            a.len() == items@.len(),
            resolved_at(items@, s, idx@),
            -i32::MAX <= scale <= i32::MAX,
            forall|x: int|
                0 <= x < amounts@.len() ==> #[trigger] amounts@[x] as int == a[x] + delta_at(
                    items@,
                    s.take(k as int),
                    scale as int,
                    x,
                ),
        decreases s.len() - k,
    {
        let x = idx[k];
        proof {
            let t = s.take(k as int);
            assert forall|j: int| 0 <= j < t.len() implies resolve(items@, #[trigger] t[j].0)
                != x as int by {
                assert(t[j] == s[j]);
                if resolve(items@, s[j].0) == x as int {
                    lemma_resolve_injective(items@, s[k as int].0, s[j].0);
                }
            }
            lemma_delta_miss(items@, t, scale as int, x as int);
            lemma_delta_hit(items@, s, scale as int, k as int);
            assert(fits(res[x as int]));
        }
        let v = amounts[x] as i64 + times(scale, entries.amount_at(k));
        amounts.set(x, v as i32);
        proof {
            assert(s.take(k + 1).drop_last() =~= s.take(k as int));
            assert(s.take(k + 1).last() == s[k as int]);
        }
        k = k + 1;
    }
    proof {
        assert(s.take(s.len() as int) =~= s);
        assert(ints(amounts@) =~= res);
    }
}

} // verus!

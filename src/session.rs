//! The state of a play session as the user interface sees it: which table
//! and entry are selected, how many times an action is activated at once,
//! and a short history of messages. Key presses arrive as [`Input`]s.

use vstd::prelude::*;

use crate::game::{keeps_definitions, lemma_keeps_distinct, pass_items, GameState};
use crate::item::{Item, ItemCategory};
use crate::ledger::{find_item, resolve};

verus! {

/// A list of item names shown in a table.
pub struct List {
    pub items: Vec<String>,
}

impl Default for List {
    fn default() -> (r: List)
        ensures
            r.items@.len() == 0,
    {
        List { items: Vec::new() }
    }
}

/// A message in the history, with how many times it was repeated (or how
/// many units it concerned, summed over repeats).
pub struct HistoryItem {
    pub description: String,
    pub amount: i32,
}

impl HistoryItem {
    pub fn new(description: String, amount: i32) -> (r: HistoryItem)
        ensures
            r.description == description,
            r.amount == amount,
    {
        HistoryItem { description, amount }
    }
}

/// The tables that can be selected.
#[derive(Clone, Copy, Debug, PartialEq, Eq, Structural)]
pub enum Table {
    Resources,
    Buildings,
    Actions,
}

/// A direction of navigation.
#[derive(Clone, Copy, Debug, PartialEq, Eq, Structural)]
pub enum Direction {
    Up,
    Down,
    Left,
    Right,
}

/// What the user asked for.
#[derive(Clone, Copy, Debug, PartialEq, Eq, Structural)]
pub enum Input {
    Exit,
    Left,
    Right,
    Up,
    Down,
    Back,
    IncreaseActionActivation,
    DecreaseActionActivation,
    ActivateOrGoToActions,
    PassDay,
}

/// The session state.
pub struct App {
    pub resource_table: List,
    pub building_table: List,
    pub selection_index: usize,
    pub history_limit: usize,
    pub history: Vec<HistoryItem>,
    /// How many times an action is activated at once.
    pub activation_amount: i32,
    pub selected_table: Table,
    /// The name of the item last selected.
    pub selected_item: String,
    pub game_state: GameState,
}

/// The texts of `v`.
pub open spec fn texts(v: Seq<String>) -> Seq<Seq<char>> {
    v.map_values(|s: String| s@)
}

/// The names of the items of category `c`, in registry order.
pub open spec fn names_in(items: Seq<Item>, c: ItemCategory) -> Seq<Seq<char>>
    decreases items.len(),
{
    if items.len() == 0 {
        Seq::empty()
    } else {
        let rest = names_in(items.drop_last(), c);
        if items.last().category == c {
            rest.push(items.last().name@)
        } else {
            rest
        }
    }
}

/// The messages and counts of a history.
pub open spec fn history_view(h: Seq<HistoryItem>) -> Seq<(Seq<char>, int)> {
    h.map_values(|x: HistoryItem| (x.description@, x.amount as int))
}

/// `x` clamped to the range of `i32`.
pub open spec fn saturate(x: int) -> int {
    if x > i32::MAX {
        i32::MAX as int
    } else if x < i32::MIN {
        i32::MIN as int
    } else {
        x
    }
}

/// The history after `item` is added: into an empty history it goes alone;
/// a repeat of the newest message adds its count to it (saturating);
/// anything else goes in front. Then the oldest entries beyond `limit` are
/// dropped, unless the history was empty.
pub open spec fn history_after(
    h: Seq<(Seq<char>, int)>,
    item: (Seq<char>, int),
    limit: int,
) -> Seq<(Seq<char>, int)> {
    if h.len() == 0 {
        seq![item]
    } else {
        let merged = if h[0].0 == item.0 {
            h.update(0, (h[0].0, saturate(h[0].1 + item.1)))
        } else {
            seq![item] + h
        };
        if merged.len() > limit {
            merged.take(limit)
        } else {
            merged
        }
    }
}

/// The selection index after a step of `step` in a table of `max` entries,
/// wrapping around at both ends.
pub open spec fn wrapped(index: int, step: int, max: int) -> int {
    let added = index + step;
    if 0 <= added < max {
        added
    } else if added > 0 {
        0
    } else if max > 0 {
        max - 1
    } else {
        0
    }
}

/// The name of the entry under the selection, in the item tables.
pub open spec fn current_name(app: App) -> Option<String> {
    let i = app.selection_index as int;
    match app.selected_table {
        Table::Resources => if i < app.resource_table.items@.len() {
            Some(app.resource_table.items@[i])
        } else {
            None
        },
        Table::Buildings => if i < app.building_table.items@.len() {
            Some(app.building_table.items@[i])
        } else {
            None
        },
        Table::Actions => None,
    }
}

/// `app` with the item under the selection, if any, as the selected item.
pub open spec fn follow_selection(app: App) -> App {
    match current_name(app) {
        Some(s) => App { selected_item: s, ..app },
        None => app,
    }
}

/// The number of entries in the selected table; none when the actions
/// table is selected and the selected item does not exist.
pub open spec fn table_len(app: App) -> Option<int> {
    match app.selected_table {
        Table::Resources => Some(app.resource_table.items@.len() as int),
        Table::Buildings => Some(app.building_table.items@.len() as int),
        Table::Actions => {
            let i = resolve(app.game_state.items@, app.selected_item@);
            if i < 0 {
                None
            } else {
                Some(app.game_state.items@[i].actions_active@.len() as int)
            }
        },
    }
}

/// `app` after switching to `t`.
pub open spec fn tab_changed(app: App, t: Table) -> App {
    let a = App { selected_table: t, selection_index: 0, ..app };
    if t == Table::Resources || t == Table::Buildings {
        follow_selection(a)
    } else {
        a
    }
}

/// `app` after moving the selection by `step` within the selected table.
pub open spec fn stepped(app: App, step: int) -> App {
    match table_len(app) {
        Some(max) => App {
            selection_index: wrapped(app.selection_index as int, step, max) as usize,
            ..app
        },
        None => app,
    }
}

/// The table to the left of `t`, cyclically.
pub open spec fn left_of(t: Table) -> Table {
    match t {
        Table::Actions => Table::Buildings,
        Table::Buildings => Table::Resources,
        Table::Resources => Table::Actions,
    }
}

/// The table to the right of `t`, cyclically.
pub open spec fn right_of(t: Table) -> Table {
    match t {
        Table::Buildings => Table::Actions,
        Table::Resources => Table::Buildings,
        Table::Actions => Table::Resources,
    }
}

/// `app` after navigating in direction `d`.
pub open spec fn navigated(app: App, d: Direction) -> App {
    let moved = match d {
        Direction::Up => stepped(app, -1),
        Direction::Down => stepped(app, 1),
        Direction::Left => tab_changed(app, left_of(app.selected_table)),
        Direction::Right => tab_changed(app, right_of(app.selected_table)),
    };
    follow_selection(moved)
}

/// The positions (item, action) of the selected action, if it exists.
pub open spec fn selected_action(app: App) -> Option<(int, int)> {
    let i = resolve(app.game_state.items@, app.selected_item@);
    if i < 0 || app.selection_index >= app.game_state.items@[i].actions_active@.len() {
        None
    } else {
        Some((i, app.selection_index as int))
    }
}

/// `new` is `old` after the selected action was activated
/// `activation_amount` times and its message recorded, or, where there is
/// no such action, after a note of that was recorded.
pub open spec fn called_selected(old: App, new: App) -> bool {
    &&& new == App { history: new.history, game_state: new.game_state, ..old }
    &&& match selected_action(old) {
        None => {
            &&& new.game_state == old.game_state
            &&& history_view(new.history@) == history_after(
                history_view(old.history@),
                ("Could not find action"@, 1),
                old.history_limit as int,
            )
        },
        Some((i, k)) => {
            let a = old.game_state.items@[i].actions_active@[k];
            let o = a.activation(old.game_state, old.selected_item@, old.activation_amount as int);
            &&& new.game_state.day == old.game_state.day
            &&& keeps_definitions(old.game_state.items@, new.game_state.items@)
            &&& new.game_state.funds() == match o {
                Ok(f) => f,
                Err(_) => old.game_state.funds(),
            }
            &&& history_view(new.history@) == history_after(
                history_view(old.history@),
                (
                    a.report(old.selected_item@, old.activation_amount as int, o),
                    old.activation_amount as int,
                ),
                old.history_limit as int,
            )
        },
    }
}

/// `new` is `old` after `activation_amount` days passed, where that amount
/// is not negative; otherwise nothing changed.
pub open spec fn passed_days(old: App, new: App) -> bool {
    let n = old.activation_amount as int;
    if n < 0 {
        new == old
    } else {
        &&& new == App { game_state: new.game_state, ..old }
        &&& new.game_state.day == old.game_state.day - n
        &&& keeps_definitions(old.game_state.items@, new.game_state.items@)
        &&& new.game_state.funds() == pass_items(
            old.game_state.items@,
            old.game_state.funds(),
            old.game_state.items@.len() as int,
            n,
        )
    }
}

/// The next activation amount up: 1, 10, 100, then 1 again.
pub open spec fn cycled_up(a: i32) -> i32 {
    if a == 1 {
        10
    } else if a == 10 {
        100
    } else {
        1
    }
}

/// The next activation amount down: 100, 10, 1, then 100 again.
pub open spec fn cycled_down(a: i32) -> i32 {
    if a == 1 {
        100
    } else if a == 10 {
        1
    } else if a == 100 {
        10
    } else {
        100
    }
}

/// The names of the items of category `c`, in registry order.
fn names_of(items: &Vec<Item>, c: ItemCategory) -> (r: Vec<String>)
    ensures
        texts(r@) == names_in(items@, c),
{
    let mut r: Vec<String> = Vec::new();
    let mut j: usize = 0;
    while j < items.len()
        invariant
            0 <= j <= items@.len(),
            texts(r@) == names_in(items@.take(j as int), c),
        decreases items@.len() - j,
    {
        proof {
            assert(items@.take(j + 1).drop_last() =~= items@.take(j as int));
            assert(items@.take(j + 1).last() == items@[j as int]);
        }
        if items[j].category == c {
            let ghost before = r@;
            r.push(items[j].name.clone());
            proof {
                assert(texts(r@) =~= texts(before).push(items@[j as int].name@));
            }
        }
        j = j + 1;
    }
    proof {
        assert(items@.take(items@.len() as int) =~= items@);
    }
    r
}

impl App {
    /// A session on `game_state`: the resources table selected, its first
    /// entry (if any) as the selected item, activation amount 1, and room
    /// for three history entries.
    pub fn new(game_state: GameState) -> (r: App)
        requires
            game_state.wf(),
        ensures
            r.game_state == game_state,
            texts(r.resource_table.items@) == names_in(game_state.items@, ItemCategory::Resource),
            texts(r.building_table.items@) == names_in(game_state.items@, ItemCategory::Building),
            r.selected_item@ == if names_in(game_state.items@, ItemCategory::Resource).len() > 0 {
                names_in(game_state.items@, ItemCategory::Resource)[0]
            } else {
                Seq::empty()
            },
            r.selection_index == 0,
            r.history_limit == 3,
            r.history@.len() == 0,
            r.activation_amount == 1,
            r.selected_table == Table::Resources,
    {
        let mut app = App {
            resource_table: List::default(),
            building_table: List::default(),
            selection_index: 0,
            activation_amount: 1,
            selected_table: Table::Resources,
            selected_item: String::new(),
            game_state,
            history_limit: 3,
            history: Vec::new(),
        };
        app.update_building_list();
        app.update_resources_list();
        if app.resource_table.items.len() > 0 {
            app.selected_item = app.resource_table.items[0].clone();
        }
        app
    }

    fn update_resources_list(&mut self)
        ensures
            texts(final(self).resource_table.items@) == names_in(
                old(self).game_state.items@,
                ItemCategory::Resource,
            ),
            *final(self) == (App { resource_table: final(self).resource_table, ..*old(self) }),
    {
        self.resource_table.items = names_of(&self.game_state.items, ItemCategory::Resource);
    }

    fn update_building_list(&mut self)
        ensures
            texts(final(self).building_table.items@) == names_in(
                old(self).game_state.items@,
                ItemCategory::Building,
            ),
            *final(self) == (App { building_table: final(self).building_table, ..*old(self) }),
    {
        self.building_table.items = names_of(&self.game_state.items, ItemCategory::Building);
    }

    /// The name of the entry under the selection, when an item table is
    /// selected and the selection is within it.
    pub fn currently_selected_item_name(&self) -> (r: Option<String>)
        ensures
            r == current_name(*self),
    {
        match self.selected_table {
            Table::Resources => if self.selection_index < self.resource_table.items.len() {
                Some(self.resource_table.items[self.selection_index].clone())
            } else {
                None
            },
            Table::Buildings => if self.selection_index < self.building_table.items.len() {
                Some(self.building_table.items[self.selection_index].clone())
            } else {
                None
            },
            Table::Actions => None,
        }
    }

    fn select_current(&mut self)
        ensures
            *final(self) == follow_selection(*old(self)),
    {
        if let Some(name) = self.currently_selected_item_name() {
            self.selected_item = name;
        }
    }

    /// Switches to `new_table` with the selection at its top; in an item
    /// table, the entry there becomes the selected item.
    pub fn change_tab(&mut self, new_table: Table)
        ensures
            *final(self) == tab_changed(*old(self), new_table),
    {
        self.selected_table = new_table;
        self.selection_index = 0;
        if self.selected_table == Table::Resources || self.selected_table == Table::Buildings {
            self.select_current();
        }
    }

    fn step_selection(&mut self, down: bool)
        ensures
            *final(self) == stepped(*old(self), (if down { 1 } else { -1 })),
    {
        let max: usize = match self.selected_table {
            Table::Resources => self.resource_table.items.len(),
            Table::Buildings => self.building_table.items.len(),
            Table::Actions => match find_item(&self.game_state.items, &self.selected_item) {
                Some(i) => self.game_state.items[i].actions_active.len(),
                None => {
                    return;
                },
            },
        };
        let index = self.selection_index;
        self.selection_index = if down {
            if index < max && index + 1 < max {
                index + 1
            } else {
                0
            }
        } else if index >= 1 {
            if index - 1 < max {
                index - 1
            } else if index - 1 > 0 {
                0
            } else if max > 0 {
                max - 1
            } else {
                0
            }
        } else if max > 0 {
            max - 1
        } else {
            0
        };
    }

    /// Moves the selection up or down within the selected table (wrapping
    /// around), or to the table on the left or right; then the entry under
    /// the selection, in an item table, becomes the selected item.
    pub fn navigate(&mut self, direction: Direction)
        ensures
            *final(self) == navigated(*old(self), direction),
    {
        match direction {
            Direction::Up => self.step_selection(false),
            Direction::Down => self.step_selection(true),
            Direction::Left => {
                let t = match self.selected_table {
                    Table::Actions => Table::Buildings,
                    Table::Buildings => Table::Resources,
                    Table::Resources => Table::Actions,
                };
                self.change_tab(t);
            },
            Direction::Right => {
                let t = match self.selected_table {
                    Table::Buildings => Table::Actions,
                    Table::Resources => Table::Buildings,
                    Table::Actions => Table::Resources,
                };
                self.change_tab(t);
            },
        }
        self.select_current();
    }

    /// Adds `history_item` to the history; see [`history_after`].
    pub fn add_history_item(&mut self, history_item: HistoryItem)
        ensures
            history_view(final(self).history@) == history_after(
                history_view(old(self).history@),
                (history_item.description@, history_item.amount as int),
                old(self).history_limit as int,
            ),
            *final(self) == (App { history: final(self).history, ..*old(self) }),
    {
        let ghost h = history_view(self.history@);
        let ghost entry = (history_item.description@, history_item.amount as int);
        if self.history.len() == 0 {
            self.history.push(history_item);
            assert(history_view(self.history@) =~= seq![entry]);
            return;
        }
        let ghost merged = if h[0].0 == entry.0 {
            h.update(0, (h[0].0, saturate(h[0].1 + entry.1)))
        } else {
            seq![entry] + h
        };
        if self.history[0].description == history_item.description {
            let sum = self.history[0].amount as i64 + history_item.amount as i64;
            self.history[0].amount = if sum > i32::MAX as i64 {
                i32::MAX
            } else if sum < i32::MIN as i64 {
                i32::MIN
            } else {
                sum as i32
            };
        } else {
            self.history.insert(0, history_item);
        }
        assert(history_view(self.history@) =~= merged);
        while self.history.len() > self.history_limit
            invariant
                self.history@.len() <= merged.len(),
                merged.len() <= self.history_limit ==> self.history@.len() == merged.len(),
                merged.len() > self.history_limit ==> self.history@.len() >= self.history_limit,
                history_view(self.history@) == merged.take(self.history@.len() as int),
                *self == (App { history: self.history, ..*old(self) }),
            decreases self.history@.len(),
        {
            self.history.pop();
            assert(history_view(self.history@) =~= merged.take(self.history@.len() as int));
        }
        assert(merged.len() > self.history_limit ==> history_view(self.history@) =~= merged.take(
            self.history_limit as int,
        ));
        assert(merged.len() <= self.history_limit ==> history_view(self.history@) =~= merged);
    }

    /// Activates the selected action `activation_amount` times on the
    /// selected item and records its message, with the activation amount,
    /// in the history; see [`called_selected`].
    pub fn call_selected_action(&mut self)
        requires
            old(self).game_state.wf(),
        ensures
            final(self).game_state.wf(),
            called_selected(*old(self), *final(self)),
    {
        let found = find_item(&self.game_state.items, &self.selected_item);
        let i = match found {
            Some(i) => i,
            None => {
                self.add_history_item(
                    HistoryItem::new(String::from_str("Could not find action"), 1),
                );
                return;
            },
        };
        if self.selection_index >= self.game_state.items[i].actions_active.len() {
            self.add_history_item(HistoryItem::new(String::from_str("Could not find action"), 1));
            return;
        }
        let amount = self.activation_amount;
        let mut ledger = self.game_state.ledger();
        let (message, accepted) = self.game_state.items[i].actions_active[self.selection_index].perform(
            &self.game_state.items,
            &mut ledger,
            &self.selected_item,
            amount,
        );
        if accepted {
            self.game_state.store(&ledger);
            proof {
                lemma_keeps_distinct(old(self).game_state.items@, self.game_state.items@);
            }
        }
        self.add_history_item(HistoryItem::new(message, amount));
    }

    /// Acts on `input` and tells whether the session goes on. Once the game
    /// has ended (the day is below zero) only [`Input::Exit`] is acted on.
    pub fn handle_input(&mut self, input: Input) -> (r: bool)
        requires
            old(self).game_state.wf(),
        ensures
            final(self).game_state.wf(),
            r == (input != Input::Exit),
            input == Input::Exit || old(self).game_state.day < 0 ==> *final(self) == *old(self),
            old(self).game_state.day >= 0 ==> match input {
                Input::Left => *final(self) == navigated(*old(self), Direction::Left),
                Input::Right => *final(self) == navigated(*old(self), Direction::Right),
                Input::Up => *final(self) == navigated(*old(self), Direction::Up),
                Input::Down => *final(self) == navigated(*old(self), Direction::Down),
                Input::Back => {
                    let i = resolve(old(self).game_state.items@, old(self).selected_item@);
                    if i < 0 {
                        *final(self) == *old(self)
                    } else if old(self).game_state.items@[i].category == ItemCategory::Resource {
                        *final(self) == tab_changed(*old(self), Table::Resources)
                    } else {
                        *final(self) == tab_changed(*old(self), Table::Buildings)
                    }
                },
                Input::IncreaseActionActivation => *final(self) == (App {
                    activation_amount: cycled_up(old(self).activation_amount),
                    ..*old(self)
                }),
                Input::DecreaseActionActivation => *final(self) == (App {
                    activation_amount: cycled_down(old(self).activation_amount),
                    ..*old(self)
                }),
                Input::ActivateOrGoToActions => if old(self).selected_table != Table::Actions {
                    *final(self) == tab_changed(*old(self), Table::Actions)
                } else {
                    called_selected(*old(self), *final(self))
                },
                Input::PassDay => passed_days(*old(self), *final(self)),
                Input::Exit => true,
            },
    {
        if input == Input::Exit {
            return false;
        }
        if self.game_state.day < 0 {
            return true;
        }
        match input {
            Input::Left => self.navigate(Direction::Left),
            Input::Right => self.navigate(Direction::Right),
            Input::Up => self.navigate(Direction::Up),
            Input::Down => self.navigate(Direction::Down),
            Input::Back => {
                if let Some(i) = find_item(&self.game_state.items, &self.selected_item) {
                    match self.game_state.items[i].category {
                        ItemCategory::Resource => self.change_tab(Table::Resources),
                        ItemCategory::Building => self.change_tab(Table::Buildings),
                    }
                }
            },
            Input::IncreaseActionActivation => {
                self.activation_amount = match self.activation_amount {
                    1 => 10,
                    10 => 100,
                    _ => 1,
                };
            },
            Input::DecreaseActionActivation => {
                self.activation_amount = match self.activation_amount {
                    1 => 100,
                    10 => 1,
                    100 => 10,
                    _ => 100,
                };
            },
            Input::ActivateOrGoToActions => {
                if self.selected_table != Table::Actions {
                    self.change_tab(Table::Actions);
                } else {
                    self.call_selected_action();
                }
            },
            Input::PassDay => {
                if self.activation_amount >= 0 {
                    let amount = self.activation_amount;
                    self.game_state.pass_day(amount);
                }
            },
            Input::Exit => {},
        }
        true
    }
}

} // verus!

use hundred_days::{
    Active, App, Direction, GameState, HistoryItem, Input, Item, ItemAmounts, ItemCategory, Table,
};

fn item(name: &str, amount: i32, category: ItemCategory, active: Vec<Active>) -> Item {
    Item {
        name: name.to_string(),
        amount,
        category,
        industries: Vec::new(),
        actions_active: active,
        actions_passive: Vec::new(),
    }
}

fn game() -> GameState {
    GameState {
        day: 3,
        currency: 100,
        items: vec![
            item("Hut", 0, ItemCategory::Building, vec![]),
            item(
                "Wood",
                0,
                ItemCategory::Resource,
                vec![Active::Buy { buy_price: 5 }, Active::Sell { sell_price: 4 }],
            ),
            item("Stone", 0, ItemCategory::Resource, vec![Active::Buy { buy_price: 9 }]),
            item(
                "Mill",
                0,
                ItemCategory::Building,
                vec![Active::Construct { build_cost: ItemAmounts::new().with_amount("Wood".to_string(), 2) }],
            ),
        ],
    }
}

fn amount_of(app: &App, name: &str) -> i32 {
    app.game_state.items.iter().find(|i| i.name == name).unwrap().amount
}

#[test]
fn new_session_lists_items() {
    let app = App::new(game());
    assert_eq!(app.resource_table.items, vec!["Wood".to_string(), "Stone".to_string()]);
    assert_eq!(app.building_table.items, vec!["Hut".to_string(), "Mill".to_string()]);
    assert_eq!(app.selected_item, "Wood");
    assert_eq!(app.selected_table, Table::Resources);
    assert_eq!(app.selection_index, 0);
    assert_eq!(app.activation_amount, 1);
    assert_eq!(app.history_limit, 3);
    assert!(app.history.is_empty());
}

#[test]
fn history_item_new_keeps_fields() {
    let h = HistoryItem::new("Sold".to_string(), 4);
    assert_eq!(h.description, "Sold");
    assert_eq!(h.amount, 4);
}

#[test]
fn navigation_wraps_within_a_table() {
    let mut app = App::new(game());
    app.navigate(Direction::Down);
    assert_eq!(app.selection_index, 1);
    assert_eq!(app.selected_item, "Stone");
    app.navigate(Direction::Down);
    assert_eq!(app.selection_index, 0);
    assert_eq!(app.selected_item, "Wood");
    app.navigate(Direction::Up);
    assert_eq!(app.selection_index, 1);
    assert_eq!(app.selected_item, "Stone");
}

#[test]
fn navigation_between_tables() {
    let mut app = App::new(game());
    app.navigate(Direction::Right);
    assert_eq!(app.selected_table, Table::Buildings);
    assert_eq!(app.selected_item, "Hut");
    app.navigate(Direction::Right);
    assert_eq!(app.selected_table, Table::Actions);
    assert_eq!(app.selected_item, "Hut");
    assert_eq!(app.currently_selected_item_name(), None);
    app.navigate(Direction::Left);
    assert_eq!(app.selected_table, Table::Buildings);
    app.navigate(Direction::Left);
    assert_eq!(app.selected_table, Table::Resources);
    app.navigate(Direction::Left);
    assert_eq!(app.selected_table, Table::Actions);
    assert_eq!(app.selected_item, "Wood");
}

#[test]
fn change_tab_selects_top_entry() {
    let mut app = App::new(game());
    app.navigate(Direction::Down);
    app.change_tab(Table::Buildings);
    assert_eq!(app.selection_index, 0);
    assert_eq!(app.selected_item, "Hut");
    assert_eq!(app.currently_selected_item_name(), Some("Hut".to_string()));
    app.change_tab(Table::Actions);
    assert_eq!(app.selected_item, "Hut");
}

#[test]
fn actions_table_navigation_uses_the_items_actions() {
    let mut app = App::new(game());
    app.change_tab(Table::Actions);
    app.navigate(Direction::Down);
    assert_eq!(app.selection_index, 1);
    app.navigate(Direction::Down);
    assert_eq!(app.selection_index, 0);
    app.navigate(Direction::Up);
    assert_eq!(app.selection_index, 1);
}

#[test]
fn call_selected_action_records_history() {
    let mut app = App::new(game());
    app.change_tab(Table::Actions);
    app.activation_amount = 10;
    app.call_selected_action();
    assert_eq!(app.game_state.currency, 50);
    assert_eq!(amount_of(&app, "Wood"), 10);
    assert_eq!(app.history.len(), 1);
    assert_eq!(app.history[0].description, "Purchased 10 Wood for 50");
    assert_eq!(app.history[0].amount, 10);
    app.call_selected_action();
    app.call_selected_action();
    assert_eq!(app.game_state.currency, 0);
    assert_eq!(app.history[0].description, "Can only afford 0 more");
    assert_eq!(app.history[1].description, "Purchased 10 Wood for 50");
    assert_eq!(app.history[1].amount, 20);
}

#[test]
fn call_selected_action_without_action() {
    let mut app = App::new(game());
    app.selected_item = "Nothing".to_string();
    app.call_selected_action();
    assert_eq!(app.history[0].description, "Could not find action");
    assert_eq!(app.history[0].amount, 1);
    assert_eq!(app.game_state.currency, 100);
}

#[test]
fn history_merges_repeats_and_keeps_limit() {
    let mut app = App::new(game());
    app.add_history_item(HistoryItem::new("a".to_string(), 1));
    app.add_history_item(HistoryItem::new("a".to_string(), 2));
    assert_eq!(app.history.len(), 1);
    assert_eq!(app.history[0].amount, 3);
    app.add_history_item(HistoryItem::new("b".to_string(), 1));
    app.add_history_item(HistoryItem::new("c".to_string(), 1));
    app.add_history_item(HistoryItem::new("d".to_string(), 1));
    let texts: Vec<&str> = app.history.iter().map(|h| h.description.as_str()).collect();
    assert_eq!(texts, vec!["d", "c", "b"]);
    app.add_history_item(HistoryItem::new("d".to_string(), i32::MAX));
    assert_eq!(app.history[0].amount, i32::MAX);
}

#[test]
fn input_cycles_activation_amount() {
    let mut app = App::new(game());
    assert!(app.handle_input(Input::IncreaseActionActivation));
    assert_eq!(app.activation_amount, 10);
    app.handle_input(Input::IncreaseActionActivation);
    assert_eq!(app.activation_amount, 100);
    app.handle_input(Input::IncreaseActionActivation);
    assert_eq!(app.activation_amount, 1);
    app.handle_input(Input::DecreaseActionActivation);
    assert_eq!(app.activation_amount, 100);
    app.handle_input(Input::DecreaseActionActivation);
    assert_eq!(app.activation_amount, 10);
    app.handle_input(Input::DecreaseActionActivation);
    assert_eq!(app.activation_amount, 1);
}

#[test]
fn input_activates_and_passes_days() {
    let mut app = App::new(game());
    app.handle_input(Input::ActivateOrGoToActions);
    assert_eq!(app.selected_table, Table::Actions);
    app.handle_input(Input::ActivateOrGoToActions);
    assert_eq!(amount_of(&app, "Wood"), 1);
    assert_eq!(app.game_state.currency, 95);
    app.handle_input(Input::Back);
    assert_eq!(app.selected_table, Table::Resources);
    assert!(app.handle_input(Input::PassDay));
    assert_eq!(app.game_state.day, 2);
    assert!(!app.handle_input(Input::Exit));
}

#[test]
fn ended_game_only_accepts_exit() {
    let mut app = App::new(game());
    app.game_state.day = -1;
    assert!(app.handle_input(Input::Down));
    assert_eq!(app.selection_index, 0);
    assert!(app.handle_input(Input::PassDay));
    assert_eq!(app.game_state.day, -1);
    assert!(!app.handle_input(Input::Exit));
}

#[test]
fn default_list_is_empty() {
    let list = hundred_days::List::default();
    assert!(list.items.is_empty());
}

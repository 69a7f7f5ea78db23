use hundred_days::{Action, Active, GameState, Item, ItemAmounts, ItemCategory, Passive};

fn item(name: &str, amount: i32, category: ItemCategory, active: Vec<Active>, passive: Vec<Passive>) -> Item {
    Item {
        name: name.to_string(),
        amount,
        category,
        industries: Vec::new(),
        actions_active: active,
        actions_passive: passive,
    }
}

fn amounts(pairs: &[(&str, i32)]) -> ItemAmounts {
    let mut m = ItemAmounts::new();
    for (name, amount) in pairs {
        m = m.with_amount(name.to_string(), *amount);
    }
    m
}

fn amount_of(game: &GameState, name: &str) -> i32 {
    game.items.iter().find(|i| i.name == name).unwrap().amount
}

fn wood_game(currency: i32) -> GameState {
    GameState {
        day: 100,
        currency,
        items: vec![item(
            "Wood",
            0,
            ItemCategory::Resource,
            vec![Active::Buy { buy_price: 5 }, Active::Sell { sell_price: 5 }],
            vec![],
        )],
    }
}

#[test]
fn buy_scenario() {
    let mut game = wood_game(100);
    let buy = Active::Buy { buy_price: 5 };
    let msg = buy.activate("Wood".to_string(), &mut game, 10);
    assert_eq!(game.currency, 50);
    assert_eq!(amount_of(&game, "Wood"), 10);
    assert_eq!(msg, "Purchased 10 Wood for 50");

    let msg = buy.activate("Wood".to_string(), &mut game, 30);
    assert_eq!(game.currency, 50);
    assert_eq!(amount_of(&game, "Wood"), 10);
    assert_eq!(msg, "Can only afford 10 more");
}

#[test]
fn buy_beyond_means_reports_maximum() {
    let mut game = wood_game(100);
    let buy = Active::Buy { buy_price: 5 };
    assert_eq!(buy.max_activate("Wood".to_string(), &mut game), 20);
    let msg = buy.activate("Wood".to_string(), &mut game, 30);
    assert_eq!(msg, "Can only afford 20 more");
    assert_eq!(game.currency, 100);
    assert_eq!(amount_of(&game, "Wood"), 0);
    let msg = buy.activate("Wood".to_string(), &mut game, 20);
    assert_eq!(msg, "Purchased 20 Wood for 100");
    assert_eq!(game.currency, 0);
}

#[test]
fn affordability_boundary() {
    for n in 0..30 {
        let mut game = wood_game(100);
        let buy = Active::Buy { buy_price: 5 };
        let max = buy.max_activate("Wood".to_string(), &mut game);
        buy.activate("Wood".to_string(), &mut game, n);
        if n <= max {
            assert_eq!(game.currency, 100 - 5 * n);
            assert_eq!(amount_of(&game, "Wood"), n);
        } else {
            assert_eq!(game.currency, 100);
            assert_eq!(amount_of(&game, "Wood"), 0);
        }
    }
}

#[test]
fn buy_then_sell_round_trip() {
    let mut game = wood_game(100);
    game.items[0].amount = 3;
    let buy = Active::Buy { buy_price: 7 };
    let sell = Active::Sell { sell_price: 7 };
    buy.activate("Wood".to_string(), &mut game, 4);
    assert_eq!(game.currency, 72);
    assert_eq!(amount_of(&game, "Wood"), 7);
    let msg = sell.activate("Wood".to_string(), &mut game, 4);
    assert_eq!(msg, "Sold 4 Wood for 28");
    assert_eq!(game.currency, 100);
    assert_eq!(amount_of(&game, "Wood"), 3);
}

#[test]
fn sell_more_than_owned_is_refused() {
    let mut game = wood_game(0);
    game.items[0].amount = 2;
    let sell = Active::Sell { sell_price: 5 };
    let msg = sell.activate("Wood".to_string(), &mut game, 3);
    assert_eq!(msg, "Can only be called 2 more times");
    assert_eq!(game.currency, 0);
    assert_eq!(amount_of(&game, "Wood"), 2);
}

fn workshop_game(a: i32, b: i32) -> (GameState, Active) {
    let construct = Active::Construct { build_cost: amounts(&[("A", 2), ("B", 3)]) };
    let game = GameState {
        day: 10,
        currency: 0,
        items: vec![
            item("A", a, ItemCategory::Resource, vec![], vec![]),
            item("B", b, ItemCategory::Resource, vec![], vec![]),
            item("Workshop", 0, ItemCategory::Building, vec![], vec![]),
        ],
    };
    (game, construct)
}

#[test]
fn construct_limiting_reagent() {
    let (mut game, construct) = workshop_game(10, 9);
    assert_eq!(construct.max_activate("Workshop".to_string(), &mut game), 3);
    let msg = construct.activate("Workshop".to_string(), &mut game, 4);
    assert_eq!(msg, "Can only be called 3 more times");
    assert_eq!(amount_of(&game, "A"), 10);
    assert_eq!(amount_of(&game, "B"), 9);
    let msg = construct.activate("Workshop".to_string(), &mut game, 3);
    assert_eq!(msg, "Constructed 3 Workshop for: { A: 6 B: 9 }");
    assert_eq!(amount_of(&game, "A"), 4);
    assert_eq!(amount_of(&game, "B"), 0);
    assert_eq!(amount_of(&game, "Workshop"), 3);
}

#[test]
fn construct_with_no_cost_is_unbounded() {
    let (mut game, _) = workshop_game(0, 0);
    let free = Active::Construct { build_cost: ItemAmounts::new() };
    assert_eq!(free.max_activate("Workshop".to_string(), &mut game), i32::MAX);
}

#[test]
fn deconstruct_recovers_gains() {
    let (mut game, _) = workshop_game(0, 0);
    game.items[2].amount = 2;
    let take_apart = Active::Deconstruct { item_gain: amounts(&[("A", 1), ("B", 2)]) };
    assert_eq!(take_apart.max_activate("Workshop".to_string(), &mut game), 2);
    let msg = take_apart.activate("Workshop".to_string(), &mut game, 2);
    assert_eq!(msg, "Deconstructed 2 Workshop into: { A: 2 B: 4 }");
    assert_eq!(amount_of(&game, "Workshop"), 0);
    assert_eq!(amount_of(&game, "A"), 2);
    assert_eq!(amount_of(&game, "B"), 4);
}

#[test]
fn missing_target_is_reported() {
    let mut game = wood_game(100);
    let buy = Active::Buy { buy_price: 5 };
    let msg = buy.activate("Stone".to_string(), &mut game, 1);
    assert_eq!(msg, "Could not find item Stone");
    assert_eq!(game.currency, 100);
    assert_eq!(buy.max_activate("Stone".to_string(), &mut game), 0);
}

#[test]
fn missing_cost_item_is_reported() {
    let (mut game, _) = workshop_game(10, 10);
    let construct = Active::Construct { build_cost: amounts(&[("A", 1), ("Clay", 1)]) };
    let msg = construct.activate("Workshop".to_string(), &mut game, 1);
    assert_eq!(msg, "Could not find item Clay");
    assert_eq!(amount_of(&game, "A"), 10);
    assert_eq!(construct.max_activate("Workshop".to_string(), &mut game), 0);
}

#[test]
fn negative_multiplier_is_refused() {
    let mut game = wood_game(100);
    let buy = Active::Buy { buy_price: 5 };
    let msg = buy.activate("Wood".to_string(), &mut game, -2);
    assert_eq!(msg, "Cannot activate a negative number of times");
    assert_eq!(game.currency, 100);
}

#[test]
fn overflow_is_refused() {
    let mut game = wood_game(100);
    game.items[0].amount = i32::MAX;
    let free = Active::Buy { buy_price: 0 };
    assert_eq!(free.max_activate("Wood".to_string(), &mut game), i32::MAX);
    let msg = free.activate("Wood".to_string(), &mut game, 1);
    assert_eq!(msg, "Amounts would leave the representable range");
    assert_eq!(amount_of(&game, "Wood"), i32::MAX);
}

#[test]
fn names_and_descriptions() {
    let buy = Active::Buy { buy_price: -3 };
    assert_eq!(buy.name(), "Buy");
    assert_eq!(buy.description(), "Buy Price: -3");
    assert_eq!(Active::Sell { sell_price: 12 }.description(), "Sell Price: 12");
    let construct = Active::Construct { build_cost: amounts(&[("A", 2), ("B", 3)]) };
    assert_eq!(construct.name(), "Construct");
    assert_eq!(construct.description(), "Construction Cost:\nA: 2\nB: 3\n");
    let produce = Passive::Produce { item_production: amounts(&[("Wood", 4)]) };
    assert_eq!(produce.name(), "Produce");
    assert_eq!(produce.description(), "Produces daily:\nWood: 4\n");
    let reduce = Passive::Reduce { item_reduction: amounts(&[("Food", 1)]) };
    assert_eq!(reduce.name(), "Reduce");
    assert_eq!(reduce.description(), "Reduces daily:\nFood: 1\n");
}

#[test]
fn item_information() {
    let wood = item("Wood", 10, ItemCategory::Resource, vec![], vec![]);
    assert_eq!(wood.information(), "Name: Wood\nAmount: 10\n\n");
    let debt = item("Debt", -250, ItemCategory::Resource, vec![], vec![]);
    assert_eq!(debt.information(), "Name: Debt\nAmount: -250\n\n");
}

#[test]
fn amounts_keep_one_entry_per_name() {
    let m = amounts(&[("A", 2), ("B", 3), ("A", 5)]);
    assert_eq!(m.len(), 2);
    assert_eq!(m.name_at(0), "A");
    assert_eq!(m.amount_at(0), 5);
    assert_eq!(m.name_at(1), "B");
    assert_eq!(m.amount_at(1), 3);
}

fn farm_game() -> GameState {
    GameState {
        day: 10,
        currency: 0,
        items: vec![
            item("Wood", 1, ItemCategory::Resource, vec![], vec![]),
            item("Food", 12, ItemCategory::Resource, vec![], vec![]),
            item(
                "Camp",
                1,
                ItemCategory::Building,
                vec![],
                vec![
                    Passive::Produce { item_production: amounts(&[("Wood", 2)]) },
                    Passive::Reduce { item_reduction: amounts(&[("Food", 5)]) },
                ],
            ),
        ],
    }
}

#[test]
fn pass_day_decreases_day_and_fires_passives() {
    let mut game = farm_game();
    game.pass_day(3);
    assert_eq!(game.day, 7);
    assert_eq!(amount_of(&game, "Wood"), 7);
    // The reduction of 15 food is lowered to the 2 days that 12 food covers.
    assert_eq!(amount_of(&game, "Food"), 2);
}

#[test]
fn pass_day_with_dangling_reference_still_counts_down() {
    let mut game = farm_game();
    game.items[2].actions_passive = vec![Passive::Produce { item_production: amounts(&[("Iron", 1)]) }];
    game.pass_day(2);
    assert_eq!(game.day, 8);
    assert_eq!(amount_of(&game, "Wood"), 1);
    game.pass_day(0);
    assert_eq!(game.day, 8);
}

#[test]
fn passive_activation_is_all_or_nothing() {
    let mut game = farm_game();
    let reduce = Passive::Reduce { item_reduction: amounts(&[("Food", 5)]) };
    assert_eq!(reduce.max_activate("Camp".to_string(), &mut game), 2);
    let msg = reduce.activate("Camp".to_string(), &mut game, 3);
    assert_eq!(msg, "Can only be called 2 more times");
    assert_eq!(amount_of(&game, "Food"), 12);
    let msg = reduce.activate("Camp".to_string(), &mut game, 2);
    assert_eq!(msg, "Reduced { Food: 10 }");
    assert_eq!(amount_of(&game, "Food"), 2);
    let produce = Passive::Produce { item_production: amounts(&[("Wood", 2)]) };
    assert_eq!(produce.max_activate("Camp".to_string(), &mut game), i32::MAX);
    let msg = produce.activate("Camp".to_string(), &mut game, 4);
    assert_eq!(msg, "Produced { Wood: 8 }");
    assert_eq!(amount_of(&game, "Wood"), 9);
}

fn market_game() -> GameState {
    GameState {
        day: 5,
        currency: 40,
        items: vec![
            item(
                "Mill",
                2,
                ItemCategory::Building,
                vec![
                    Active::Construct { build_cost: amounts(&[("Wood", 5)]) },
                    Active::Deconstruct { item_gain: amounts(&[("Wood", 5)]) },
                ],
                vec![],
            ),
            item(
                "Wood",
                10,
                ItemCategory::Resource,
                vec![Active::Buy { buy_price: 4 }, Active::Sell { sell_price: 3 }],
                vec![],
            ),
        ],
    }
}

#[test]
fn net_worth_liquidates_in_registry_order() {
    let game = market_game();
    // 2 mills become 10 wood; 20 wood sell for 60.
    assert_eq!(game.net_worth(), 100);
}

#[test]
fn net_worth_is_a_pure_read() {
    let game = market_game();
    let first = game.net_worth();
    let second = game.net_worth();
    assert_eq!(first, second);
    assert_eq!(game.currency, 40);
    assert_eq!(amount_of(&game, "Mill"), 2);
    assert_eq!(amount_of(&game, "Wood"), 10);
}

#[test]
fn net_worth_does_not_depend_on_registry_order() {
    let mut game = market_game();
    game.items.reverse();
    // Wood is sold first; a later pass sells the wood that the mills yield.
    assert_eq!(game.net_worth(), 100);
    assert_eq!(amount_of(&game, "Wood"), 10);
}

#[test]
fn net_worth_sells_yields_of_later_items() {
    let game = GameState {
        day: 1,
        currency: 0,
        items: vec![
            item("Wood", 1, ItemCategory::Resource, vec![Active::Sell { sell_price: 5 }], vec![]),
            item(
                "Sawmill",
                2,
                ItemCategory::Building,
                vec![Active::Deconstruct { item_gain: amounts(&[("Wood", 3)]) }],
                vec![],
            ),
        ],
    };
    assert_eq!(game.net_worth(), 35);
}

#[test]
fn net_worth_chain_in_reverse_order() {
    let game = GameState {
        day: 1,
        currency: 0,
        items: vec![
            item("Plank", 0, ItemCategory::Resource, vec![Active::Sell { sell_price: 2 }], vec![]),
            item(
                "Log",
                0,
                ItemCategory::Resource,
                vec![Active::Deconstruct { item_gain: amounts(&[("Plank", 4)]) }],
                vec![],
            ),
            item(
                "Tree",
                3,
                ItemCategory::Resource,
                vec![Active::Deconstruct { item_gain: amounts(&[("Log", 2)]) }],
                vec![],
            ),
        ],
    };
    // 3 trees, 6 logs, 24 planks at 2 each.
    assert_eq!(game.net_worth(), 48);
}

#[test]
fn net_worth_ends_on_deconstruction_cycles() {
    let game = GameState {
        day: 1,
        currency: 7,
        items: vec![
            item(
                "Egg",
                1,
                ItemCategory::Resource,
                vec![Active::Deconstruct { item_gain: amounts(&[("Hen", 1)]) }],
                vec![],
            ),
            item(
                "Hen",
                0,
                ItemCategory::Resource,
                vec![Active::Deconstruct { item_gain: amounts(&[("Egg", 1)]) }],
                vec![],
            ),
        ],
    };
    assert_eq!(game.net_worth(), 7);
}

#[test]
fn lookup_by_name() {
    let mut game = wood_game(10);
    assert_eq!(game.item(&"Wood".to_string()).unwrap().amount, 0);
    match game.item(&"Iron".to_string()) {
        Err(hundred_days::ActionError::ItemNotFound { name }) => assert_eq!(name, "Iron"),
        _ => panic!("expected a missing item"),
    }
    assert!(game.set_amount(&"Wood".to_string(), 42).is_ok());
    assert_eq!(amount_of(&game, "Wood"), 42);
    assert!(game.set_amount(&"Iron".to_string(), 1).is_err());
    assert_eq!(game.currency, 10);
}

#[test]
fn duplicate_names_are_not_well_formed() {
    let mut game = wood_game(10);
    assert!(game.well_formed());
    game.items.push(item("Wood", 3, ItemCategory::Resource, vec![], vec![]));
    assert!(!game.well_formed());
    game.items[1].name = "Oak".to_string();
    assert!(game.well_formed());
}

//! An economic simulation engine: items with quantities, a wallet, actions
//! that trade currency for items or items for items, a daily production
//! cycle and a liquidation-based valuation.

pub mod amounts;
pub mod text;
pub mod item;
pub mod ledger;
pub mod action;
pub mod game;
pub mod message;
pub mod laws;
pub mod session;

pub use action::{Action, ActionError, Active, Passive};
pub use amounts::ItemAmounts;
pub use game::GameState;
pub use item::{Item, ItemCategory};
pub use session::{App, Direction, HistoryItem, Input, List, Table};

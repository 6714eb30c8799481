use inventory_scanner::command::{Action, MenuItems};
use inventory_scanner::dispatch::{Description, Outcome, RejectReason};
use inventory_scanner::inventory::InventoryApp;
use inventory_scanner::product::{Product, TransactionType};

fn product(sku: &str, name: &str, stock: i32, sold: i32) -> Product {
    Product {
        name: name.to_string(),
        sku: sku.to_string(),
        stock,
        sold,
        released: "02/03/2024".to_string(),
        retired: false,
    }
}

fn catalog() -> InventoryApp {
    InventoryApp::new(vec![product("ABC", "Widget", 5, 0), product("XYZ", "Gadget", 1, 4)])
}

fn stock_or_sell(sku: &str, quantity: i32) -> Action {
    Action::StockOrSell { sku: sku.to_string(), quantity }
}

fn set_retired(sku: &str, retired: bool) -> Action {
    Action::SetRetired { sku: sku.to_string(), retired }
}

fn rejected(reason: RejectReason) -> Outcome {
    Outcome::Rejected { reason }
}

#[test]
fn restock_adds_to_stock_and_to_the_weekly_count() {
    let mut app = catalog();
    let out = app.dispatch(stock_or_sell("ABC", 3), "05/06/2024");
    assert_eq!(
        out,
        Outcome::Applied {
            description: Description::Transaction {
                kind: TransactionType::Stock,
                product: product("ABC", "Widget", 8, 0)
            }
        }
    );
    assert_eq!(app.product_list, vec![product("ABC", "Widget", 8, 0), product("XYZ", "Gadget", 1, 4)]);
    assert_eq!((app.weekly_produced, app.weekly_sold), (3, 0));
}

#[test]
fn sale_moves_units_to_sold_and_to_the_weekly_count() {
    let mut app = catalog();
    let out = app.dispatch(stock_or_sell("ABC", -2), "05/06/2024");
    assert_eq!(
        out,
        Outcome::Applied {
            description: Description::Transaction {
                kind: TransactionType::Sell,
                product: product("ABC", "Widget", 3, 2)
            }
        }
    );
    assert_eq!(app.product_list[0], product("ABC", "Widget", 3, 2));
    assert_eq!(app.product_list[1], product("XYZ", "Gadget", 1, 4));
    assert_eq!((app.weekly_produced, app.weekly_sold), (0, 2));
}

#[test]
fn zero_quantity_gives_one_unit_away() {
    let mut app = catalog();
    let out = app.dispatch(stock_or_sell("XYZ", 0), "05/06/2024");
    assert_eq!(
        out,
        Outcome::Applied {
            description: Description::Transaction {
                kind: TransactionType::Gift,
                product: product("XYZ", "Gadget", 0, 4)
            }
        }
    );
    assert_eq!(app.product_list[1], product("XYZ", "Gadget", 0, 4));
    assert_eq!((app.weekly_produced, app.weekly_sold), (0, 0));
}

#[test]
fn stock_may_go_below_zero() {
    let mut app = catalog();
    app.dispatch(stock_or_sell("XYZ", -3), "05/06/2024");
    assert_eq!(app.product_list[1], product("XYZ", "Gadget", -2, 7));
    app.dispatch(stock_or_sell("XYZ", 0), "05/06/2024");
    assert_eq!(app.product_list[1], product("XYZ", "Gadget", -3, 7));
}

#[test]
fn retired_product_can_still_be_moved() {
    let mut app = catalog();
    app.dispatch(set_retired("ABC", true), "05/06/2024");
    let out = app.dispatch(stock_or_sell("ABC", -1), "05/06/2024");
    assert!(matches!(out, Outcome::Applied { .. }));
    assert_eq!((app.product_list[0].stock, app.product_list[0].sold), (4, 1));
    assert_eq!(app.product_list[0].retired, true);
}

#[test]
fn unknown_sku_is_refused_and_nothing_changes() {
    let mut app = catalog();
    assert_eq!(app.dispatch(stock_or_sell("NOPE", 3), "d"), rejected(RejectReason::NotAProduct));
    assert_eq!(app.dispatch(stock_or_sell("NOPE", -3), "d"), rejected(RejectReason::NotAProduct));
    assert_eq!(app.dispatch(stock_or_sell("NOPE", 0), "d"), rejected(RejectReason::NotAProduct));
    assert_eq!(
        app.dispatch(Action::Inspect { sku: "NOPE".to_string() }, "d"),
        rejected(RejectReason::NotAProduct)
    );
    assert_eq!(app.dispatch(set_retired("NOPE", true), "d"), rejected(RejectReason::NotAProduct));
    assert_eq!(app.dispatch(set_retired("abc", false), "d"), rejected(RejectReason::NotAProduct));
    assert_eq!(app.product_list, catalog().product_list);
    assert_eq!((app.weekly_produced, app.weekly_sold), (0, 0));
}

#[test]
fn create_enters_a_new_product_released_today() {
    let mut app = InventoryApp::new(Vec::new());
    let out = app.dispatch(
        Action::CreateProduct {
            sku: "ABC".to_string(),
            name: "Widget".to_string(),
            initial_quantity: 5,
        },
        "05/06/2024",
    );
    let expected = Product {
        name: "Widget".to_string(),
        sku: "ABC".to_string(),
        stock: 5,
        sold: 0,
        released: "05/06/2024".to_string(),
        retired: false,
    };
    assert_eq!(out, Outcome::Applied { description: Description::Created { product: expected.clone() } });
    assert_eq!(app.product_list, vec![expected]);
    assert_eq!((app.weekly_produced, app.weekly_sold), (5, 0));
}

#[test]
fn create_of_a_known_sku_is_refused() {
    let mut app = catalog();
    let out = app.dispatch(
        Action::CreateProduct {
            sku: "XYZ".to_string(),
            name: "Other".to_string(),
            initial_quantity: 9,
        },
        "05/06/2024",
    );
    assert_eq!(out, rejected(RejectReason::AlreadyExists));
    assert_eq!(app.product_list, catalog().product_list);
    assert_eq!(app.weekly_produced, 0);
}

#[test]
fn create_keeps_the_other_products() {
    let mut app = catalog();
    app.dispatch(
        Action::CreateProduct { sku: "NEW".to_string(), name: "N".to_string(), initial_quantity: 0 },
        "05/06/2024",
    );
    assert_eq!(app.product_list.len(), 3);
    assert_eq!(app.product_list[0], product("ABC", "Widget", 5, 0));
    assert_eq!(app.product_list[1], product("XYZ", "Gadget", 1, 4));
    assert_eq!(app.product_list[2].sku, "NEW");
}

#[test]
fn inspect_shows_the_product_and_changes_nothing() {
    let mut app = catalog();
    let out = app.dispatch(Action::Inspect { sku: "XYZ".to_string() }, "05/06/2024");
    assert_eq!(
        out,
        Outcome::Applied {
            description: Description::Inspected { product: product("XYZ", "Gadget", 1, 4) }
        }
    );
    assert_eq!(out.needs_save(), false);
    assert_eq!(app.product_list, catalog().product_list);
}

#[test]
fn retire_then_retire_again() {
    let mut app = catalog();
    let first = app.dispatch(set_retired("ABC", true), "05/06/2024");
    let mut retired = product("ABC", "Widget", 5, 0);
    retired.retired = true;
    assert_eq!(
        first,
        Outcome::Applied { description: Description::RetirementSet { product: retired.clone() } }
    );
    assert_eq!(app.product_list[0], retired);
    let second = app.dispatch(set_retired("ABC", true), "05/06/2024");
    assert_eq!(second, rejected(RejectReason::AlreadyRetired));
    assert_eq!(app.product_list[0], retired);
}

#[test]
fn restore_of_an_active_product_is_refused() {
    let mut app = catalog();
    assert_eq!(
        app.dispatch(set_retired("ABC", false), "05/06/2024"),
        rejected(RejectReason::AlreadyActive)
    );
    assert_eq!(app.product_list, catalog().product_list);
}

#[test]
fn restore_brings_a_retired_product_back() {
    let mut app = catalog();
    app.dispatch(set_retired("XYZ", true), "05/06/2024");
    let out = app.dispatch(set_retired("XYZ", false), "05/06/2024");
    assert_eq!(
        out,
        Outcome::Applied {
            description: Description::RetirementSet { product: product("XYZ", "Gadget", 1, 4) }
        }
    );
    assert_eq!(app.product_list, catalog().product_list);
}

#[test]
fn menu_commands_are_applied_without_change() {
    let mut app = catalog();
    for kind in [MenuItems::Report, MenuItems::Email, MenuItems::Help, MenuItems::Quit] {
        let out = app.dispatch(Action::MenuCommand { kind }, "05/06/2024");
        assert_eq!(out, Outcome::Applied { description: Description::Menu { item: kind } });
        assert_eq!(out.needs_save(), false);
        assert_eq!(out.is_quit(), kind == MenuItems::Quit);
    }
    assert_eq!(app.product_list, catalog().product_list);
}

#[test]
fn what_is_no_action_is_refused() {
    let mut app = catalog();
    assert_eq!(
        app.dispatch(Action::Rejected { raw_text: "nonsense".to_string() }, "05/06/2024"),
        rejected(RejectReason::NotAnAction)
    );
    assert_eq!(
        app.dispatch(Action::MenuCommand { kind: MenuItems::Invalid }, "05/06/2024"),
        rejected(RejectReason::NotAnAction)
    );
    assert_eq!(app.product_list, catalog().product_list);
}

#[test]
fn unread_quantity_is_refused_for_its_sku_first() {
    let mut app = catalog();
    let unread = |sku: &str, create: bool| Action::UnreadQuantity { sku: sku.to_string(), create };
    assert_eq!(app.dispatch(unread("NOPE", false), "d"), rejected(RejectReason::NotAProduct));
    assert_eq!(app.dispatch(unread("ABC", false), "d"), rejected(RejectReason::NotAnAction));
    assert_eq!(app.dispatch(unread("ABC", true), "d"), rejected(RejectReason::AlreadyExists));
    assert_eq!(app.dispatch(unread("NOPE", true), "d"), rejected(RejectReason::NotAnAction));
    assert_eq!(app.admits(&unread("ABC", false)), true);
    assert_eq!(app.admits(&unread("NOPE", true)), true);
    assert_eq!(app.product_list, catalog().product_list);
    assert_eq!((app.weekly_produced, app.weekly_sold), (0, 0));
}

#[test]
fn only_changes_ask_for_a_save() {
    let mut app = catalog();
    assert_eq!(app.dispatch(stock_or_sell("ABC", 1), "d").needs_save(), true);
    assert_eq!(app.dispatch(stock_or_sell("ABC", -1), "d").needs_save(), true);
    assert_eq!(app.dispatch(stock_or_sell("ABC", 0), "d").needs_save(), true);
    assert_eq!(app.dispatch(set_retired("ABC", true), "d").needs_save(), true);
    assert_eq!(app.dispatch(set_retired("ABC", true), "d").needs_save(), false);
    assert_eq!(app.dispatch(stock_or_sell("NOPE", 1), "d").needs_save(), false);
    assert_eq!(rejected(RejectReason::NotAnAction).is_quit(), false);
}

#[test]
fn admits_tells_when_a_quantity_would_leave_i32() {
    let mut app = InventoryApp::new(vec![
        product("MAX", "Full", i32::MAX, i32::MAX),
        product("MIN", "Void", i32::MIN, 0),
        product("ABC", "Widget", 5, 0),
    ]);
    assert_eq!(app.admits(&stock_or_sell("MAX", 1)), false);
    assert_eq!(app.admits(&stock_or_sell("MAX", -1)), false);
    assert_eq!(app.admits(&stock_or_sell("MAX", 0)), true);
    assert_eq!(app.admits(&stock_or_sell("MIN", 0)), false);
    assert_eq!(app.admits(&stock_or_sell("MIN", -1)), false);
    assert_eq!(app.admits(&stock_or_sell("MIN", 1)), true);
    assert_eq!(app.admits(&stock_or_sell("ABC", i32::MAX - 5)), true);
    assert_eq!(app.admits(&stock_or_sell("ABC", i32::MAX - 4)), false);
    assert_eq!(app.admits(&stock_or_sell("ABC", i32::MIN)), false);
    assert_eq!(app.admits(&stock_or_sell("NOPE", i32::MAX)), true);
    assert_eq!(app.admits(&Action::Inspect { sku: "MAX".to_string() }), true);
    assert_eq!(app.admits(&set_retired("MAX", true)), true);
    app.weekly_produced = i32::MAX - 1;
    assert_eq!(app.admits(&stock_or_sell("ABC", 1)), true);
    assert_eq!(app.admits(&stock_or_sell("ABC", 2)), false);
    let create = |initial_quantity: i32| Action::CreateProduct {
        sku: "NEW".to_string(),
        name: "N".to_string(),
        initial_quantity,
    };
    assert_eq!(app.admits(&create(1)), true);
    assert_eq!(app.admits(&create(2)), false);
    assert_eq!(app.admits(&create(-5)), true);
    app.weekly_sold = i32::MAX;
    assert_eq!(app.admits(&stock_or_sell("ABC", -1)), false);
    assert_eq!(app.admits(&stock_or_sell("ABC", 0)), true);
}

#[test]
fn reset_weekly_clears_both_counters() {
    let mut app = catalog();
    app.dispatch(stock_or_sell("ABC", 3), "d");
    app.dispatch(stock_or_sell("ABC", -2), "d");
    assert_eq!((app.weekly_produced, app.weekly_sold), (3, 2));
    app.reset_weekly();
    assert_eq!((app.weekly_produced, app.weekly_sold), (0, 0));
    assert_eq!(app.product_list[0], product("ABC", "Widget", 6, 2));
}

#[test]
fn reasons_in_words() {
    assert_eq!(RejectReason::NotAProduct.message(), "not a product");
    assert_eq!(RejectReason::AlreadyExists.message(), "already exists");
    assert_eq!(RejectReason::AlreadyRetired.message(), "already retired");
    assert_eq!(RejectReason::AlreadyActive.message(), "already active");
    assert_eq!(RejectReason::NotAnAction.message(), "not an action");
}

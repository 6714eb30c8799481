use inventory_scanner::inventory::{find_sku, InventoryApp};
use inventory_scanner::product::{Product, ProductError};

fn product(sku: &str, name: &str, stock: i32, sold: i32) -> Product {
    Product {
        name: name.to_string(),
        sku: sku.to_string(),
        stock,
        sold,
        released: "02/03/2024".to_string(),
        retired: false,
    }
}

#[test]
fn test_invalid_product() {
    let mut test_app = InventoryApp::new(vec![Product::new()]);
    assert_eq!(test_app.product_by_sku("NOT_REAL"), None);
}

#[test]
fn test_valid_product() {
    let mut test_app = InventoryApp::new(vec![Product::new()]);
    assert_eq!(test_app.product_by_sku("NOSKU").is_some(), true);
}

#[test]
fn placeholder_product_has_the_documented_fields() {
    let p = Product::new();
    assert_eq!(p.name, "Default product");
    assert_eq!(p.sku, "NOSKU");
    assert_eq!(p.stock, 0);
    assert_eq!(p.sold, 0);
    assert_eq!(p.released, "01/01/1900");
    assert_eq!(p.retired, false);
}

#[test]
fn default_product_is_empty() {
    let expected = Product {
        name: String::new(),
        sku: String::new(),
        stock: 0,
        sold: 0,
        released: String::new(),
        retired: false,
    };
    assert_eq!(Product::default(), expected);
}

#[test]
fn clone_keeps_every_field() {
    let mut p = product("ABC", "Widget", 5, 2);
    p.retired = true;
    assert_eq!(p.clone(), p);
}

#[test]
fn stock_adds_a_positive_quantity() {
    let mut p = product("ABC", "Widget", 5, 2);
    assert_eq!(p.stock_product(3), Ok(()));
    assert_eq!((p.stock, p.sold), (8, 2));
}

#[test]
fn stock_refuses_zero_and_negative_quantities() {
    let mut p = product("ABC", "Widget", 5, 2);
    assert_eq!(p.stock_product(0), Err(ProductError::InvalidQuantity));
    assert_eq!(p.stock_product(-4), Err(ProductError::InvalidQuantity));
    assert_eq!(p, product("ABC", "Widget", 5, 2));
}

#[test]
fn sell_moves_units_from_stock_to_sold() {
    let mut p = product("ABC", "Widget", 5, 0);
    assert_eq!(p.sell_product(-2), Ok(()));
    assert_eq!((p.stock, p.sold), (3, 2));
}

#[test]
fn sell_refuses_zero_and_positive_quantities() {
    let mut p = product("ABC", "Widget", 5, 2);
    assert_eq!(p.sell_product(0), Err(ProductError::InvalidQuantity));
    assert_eq!(p.sell_product(7), Err(ProductError::InvalidQuantity));
    assert_eq!(p, product("ABC", "Widget", 5, 2));
}

#[test]
fn sell_may_drive_stock_below_zero() {
    let mut p = product("ABC", "Widget", 1, 0);
    assert_eq!(p.sell_product(-4), Ok(()));
    assert_eq!((p.stock, p.sold), (-3, 4));
}

#[test]
fn gift_takes_one_unit_and_leaves_sold() {
    let mut p = product("ABC", "Widget", 0, 6);
    p.gift_product();
    assert_eq!((p.stock, p.sold), (-1, 6));
}

#[test]
fn set_retired_flips_the_flag_once() {
    let mut p = product("ABC", "Widget", 1, 0);
    assert_eq!(p.set_retired(true), Ok(()));
    assert_eq!(p.retired, true);
    assert_eq!(p.set_retired(true), Err(ProductError::AlreadyInState));
    assert_eq!(p.retired, true);
    assert_eq!(p.set_retired(false), Ok(()));
    assert_eq!(p.set_retired(false), Err(ProductError::AlreadyInState));
    assert_eq!(p.retired, false);
}

#[test]
fn new_catalog_starts_the_week_at_zero() {
    let app = InventoryApp::new(vec![product("B", "Bolt", 4, 1), product("A", "Axle", 2, 0)]);
    assert_eq!(app.weekly_produced, 0);
    assert_eq!(app.weekly_sold, 0);
    assert_eq!(app.product_list, vec![product("B", "Bolt", 4, 1), product("A", "Axle", 2, 0)]);
}

#[test]
fn later_record_replaces_earlier_with_same_sku() {
    let app = InventoryApp::new(vec![
        product("A", "Axle", 2, 0),
        product("B", "Bolt", 4, 1),
        product("A", "Anvil", 9, 9),
    ]);
    assert_eq!(app.product_list, vec![product("A", "Anvil", 9, 9), product("B", "Bolt", 4, 1)]);
}

#[test]
fn empty_list_gives_empty_catalog() {
    let mut app = InventoryApp::new(Vec::new());
    assert_eq!(app.product_list.len(), 0);
    assert_eq!(app.product_by_sku("A"), None);
}

#[test]
fn reload_in_another_order_gives_the_same_products() {
    let app = InventoryApp::new(vec![
        product("A", "Axle", 2, 0),
        product("B", "Bolt", 4, 1),
        product("C", "Cog", -1, 7),
    ]);
    let mut saved = app.product_list.clone();
    saved.reverse();
    let mut again = InventoryApp::new(saved);
    assert_eq!(again.product_list.len(), 3);
    for original in app.product_list.iter() {
        assert_eq!(again.product_by_sku(&original.sku), Some(&mut original.clone()));
    }
}

#[test]
fn product_by_sku_hands_out_the_stored_product() {
    let mut app = InventoryApp::new(vec![product("A", "Axle", 2, 0), product("B", "Bolt", 4, 1)]);
    let found = app.product_by_sku("B").unwrap();
    assert_eq!(*found, product("B", "Bolt", 4, 1));
    found.stock_product(6).unwrap();
    assert_eq!(app.product_list[1].stock, 10);
    assert_eq!(app.product_list[0], product("A", "Axle", 2, 0));
}

#[test]
fn find_sku_gives_the_first_place() {
    let list = vec![product("A", "Axle", 2, 0), product("B", "Bolt", 4, 1), product("B", "Bis", 0, 0)];
    assert_eq!(find_sku(&list, "A"), Some(0));
    assert_eq!(find_sku(&list, "B"), Some(1));
    assert_eq!(find_sku(&list, "b"), None);
    assert_eq!(find_sku(&list, ""), None);
}

use inventory_scanner::inventory::InventoryApp;
use inventory_scanner::log::LogType;
use inventory_scanner::product::Product;
use inventory_scanner::report::{bytes_le, Tally};

fn product(sku: &str, name: &str, stock: i32, sold: i32) -> Product {
    Product {
        name: name.to_string(),
        sku: sku.to_string(),
        stock,
        sold,
        released: "02/03/2024".to_string(),
        retired: false,
    }
}

fn catalog() -> InventoryApp {
    InventoryApp::new(vec![
        product("b2", "Bolt", 4, 1),
        product("B10", "Bar", -3, 10),
        product("a", "Axle", 2, 0),
        product("B1", "Bit", 0, 5),
    ])
}

#[test]
fn totals_over_the_catalog() {
    let app = catalog();
    assert_eq!(app.total_sold(), 16);
    assert_eq!(app.currently_stocked(), 3);
    assert_eq!(app.total_produced(), 19);
    assert_eq!(app.checked_total(Tally::Sold), Some(16));
    assert_eq!(app.checked_total(Tally::Stocked), Some(3));
    assert_eq!(app.checked_total(Tally::Produced), Some(19));
    assert_eq!(app.totals_in_range(), true);
}

#[test]
fn totals_of_an_empty_catalog_are_zero() {
    let app = InventoryApp::new(Vec::new());
    assert_eq!(app.total_sold(), 0);
    assert_eq!(app.total_produced(), 0);
    assert_eq!(app.currently_stocked(), 0);
}

#[test]
fn total_outside_i32_is_none() {
    let app = InventoryApp::new(vec![
        product("A", "a", i32::MAX, 1),
        product("B", "b", 1, i32::MAX),
    ]);
    assert_eq!(app.checked_total(Tally::Stocked), None);
    assert_eq!(app.checked_total(Tally::Sold), None);
    assert_eq!(app.checked_total(Tally::Produced), None);
    assert_eq!(app.totals_in_range(), false);
    let app = InventoryApp::new(vec![
        product("A", "a", i32::MAX, 0),
        product("B", "b", i32::MIN, 0),
        product("C", "c", 1, 0),
    ]);
    assert_eq!(app.checked_total(Tally::Stocked), Some(0));
    assert_eq!(app.currently_stocked(), 0);
    let app = InventoryApp::new(vec![product("A", "a", i32::MAX, 1)]);
    assert_eq!(app.checked_total(Tally::Stocked), Some(i32::MAX));
    assert_eq!(app.checked_total(Tally::Sold), Some(1));
    assert_eq!(app.checked_total(Tally::Produced), None);
    let app = InventoryApp::new(vec![product("A", "a", i32::MIN, -1)]);
    assert_eq!(app.checked_total(Tally::Produced), None);
    assert_eq!(app.checked_total(Tally::Stocked), Some(i32::MIN));
}

#[test]
fn products_come_sorted_by_sku() {
    let app = catalog();
    let sorted = app.sorted_products();
    let skus: Vec<&str> = sorted.iter().map(|p| p.sku.as_str()).collect();
    assert_eq!(skus, vec!["B1", "B10", "a", "b2"]);
    assert_eq!(sorted[1], product("B10", "Bar", -3, 10));
    assert_eq!(app.product_list[0], product("b2", "Bolt", 4, 1));
}

#[test]
fn sorting_orders_as_str_does() {
    let skus = ["z", "é", "Z", "", "a", "ab", "aB", "10", "9", "_", "日本", "zz"];
    let app = InventoryApp::new(skus.iter().map(|s| product(s, "n", 0, 0)).collect());
    let sorted: Vec<String> = app.sorted_products().into_iter().map(|p| p.sku).collect();
    let mut expected: Vec<String> = skus.iter().map(|s| s.to_string()).collect();
    expected.sort();
    assert_eq!(sorted, expected);
}

#[test]
fn byte_order() {
    assert_eq!(bytes_le(b"", b""), true);
    assert_eq!(bytes_le(b"", b"a"), true);
    assert_eq!(bytes_le(b"a", b""), false);
    assert_eq!(bytes_le(b"abc", b"abc"), true);
    assert_eq!(bytes_le(b"ab", b"abc"), true);
    assert_eq!(bytes_le(b"abc", b"ab"), false);
    assert_eq!(bytes_le(b"abd", b"abc"), false);
    assert_eq!(bytes_le(b"abc", b"abd"), true);
    assert_eq!(bytes_le(b"B", b"a"), true);
    assert_eq!(bytes_le(&[255], &[0, 0]), false);
}

#[test]
fn report_holds_products_totals_counters_and_log() {
    let mut app = catalog();
    app.weekly_produced = 7;
    app.weekly_sold = 2;
    let log = vec![LogType::Info("one".to_string()), LogType::Error("two".to_string())];
    let report = app.build_server_report(log.clone());
    let skus: Vec<&str> = report.report_product_list.iter().map(|p| p.sku.as_str()).collect();
    assert_eq!(skus, vec!["B1", "B10", "a", "b2"]);
    assert_eq!(report.report_weekly_sold, 2);
    assert_eq!(report.report_weekly_produced, 7);
    assert_eq!(report.report_total_sold, 16);
    assert_eq!(report.report_total_produced, 19);
    assert_eq!(report.report_currently_stocked, 3);
    assert_eq!(report.report_terminal_log, log);
}

#[test]
fn report_of_an_empty_catalog() {
    let app = InventoryApp::new(Vec::new());
    let report = app.build_server_report(Vec::new());
    assert_eq!(report.report_product_list, Vec::new());
    assert_eq!(report.report_total_sold, 0);
    assert_eq!(report.report_total_produced, 0);
    assert_eq!(report.report_currently_stocked, 0);
    assert_eq!(report.report_terminal_log, Vec::new());
}

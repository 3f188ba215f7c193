use store_inventory::clock::Timestamp;
use store_inventory::error::{StoreError, Violation};
use store_inventory::inventory::{Inventory, Product};
use store_inventory::purchase::{
    check_purchase, has_room, lot_price, total_cost, Purchase, Purchases,
};
use store_inventory::sales::{check_sale, lot_profit, Sale, Sales};

fn noon() -> Timestamp {
    Timestamp { seconds: 1431648000, nanos: 0 }
}

fn stocked() -> Vec<Product> {
    let mut catalog: Vec<Product> = Vec::new();
    catalog.add_item("widget", 1000, 5, "desc").unwrap();
    catalog
}

#[test]
fn sale_from_an_empty_catalog_is_not_found() {
    let mut catalog: Vec<Product> = Vec::new();
    let mut sales: Vec<Sale> = Vec::new();
    let refused = sales.record_sale("widget", 1, 500, &mut catalog);
    assert!(matches!(refused, Err(StoreError::NotFound)));
    assert!(sales.is_empty());
    assert!(catalog.is_empty());
}

#[test]
fn purchase_restocks_and_keeps_the_price() {
    let mut catalog = stocked();
    let mut purchases: Vec<Purchase> = Vec::new();
    let recorded = purchases.record_purchase("widget", 3, 900, "desc", &mut catalog).unwrap();
    assert_eq!(recorded.total_cost, 2700);
    let widget = catalog.get_item("widget").unwrap();
    assert_eq!(widget.quantity, 8);
    assert_eq!(widget.price, 1000);
    assert_eq!(widget.description, "desc");
    assert_eq!(catalog.len(), 1);
    assert_eq!(purchases.len(), 1);
}

#[test]
fn sale_after_purchase_books_profit_on_the_catalog_price() {
    let mut catalog = stocked();
    let mut purchases: Vec<Purchase> = Vec::new();
    let mut sales: Vec<Sale> = Vec::new();
    purchases.record_purchase("widget", 3, 900, "desc", &mut catalog).unwrap();
    let sale = sales.record_sale("widget", 2, 1200, &mut catalog).unwrap();
    assert_eq!(sale.profit, 400);
    assert_eq!(sale.total, 2400);
    assert_eq!(sale.product_name, "widget");
    assert_eq!(sale.quantity, 2);
    assert_eq!(sale.sale_price, 1200);
    assert_eq!(catalog.get_item("widget").unwrap().quantity, 6);
    assert_eq!(catalog.get_item("widget").unwrap().price, 1000);
    assert_eq!(sales.len(), 1);
    assert_eq!(sales[0].profit, 400);
}

#[test]
fn purchase_of_an_unknown_product_creates_it() {
    let mut catalog = stocked();
    let mut purchases: Vec<Purchase> = Vec::new();
    let recorded =
        purchases.record_purchase_at("gadget", 4, 250, "a gadget", noon(), &mut catalog).unwrap();
    assert_eq!(recorded.product_name, "gadget");
    assert_eq!(recorded.quantity, 4);
    assert_eq!(recorded.purchase_price, 250);
    assert_eq!(recorded.total_cost, 1000);
    assert_eq!(recorded.timestamp, noon());
    assert_eq!(catalog.len(), 2);
    let gadget = catalog.get_item("gadget").unwrap();
    assert_eq!(gadget.price, 250);
    assert_eq!(gadget.quantity, 4);
    assert_eq!(gadget.description, "a gadget");
    assert_eq!(purchases.len(), 1);
    assert_eq!(purchases[0].total_cost, 1000);
    assert_eq!(purchases[0].timestamp, noon());
}

#[test]
fn invalid_purchase_changes_nothing() {
    let mut catalog = stocked();
    let mut purchases: Vec<Purchase> = Vec::new();
    match purchases.record_purchase_at("widget", 0, 0, "desc", noon(), &mut catalog) {
        Err(StoreError::Validation(list)) => {
            assert_eq!(list, vec![Violation::PurchaseQuantity, Violation::PurchasePrice])
        }
        other => panic!("unexpected result: {:?}", other),
    }
    assert!(purchases.is_empty());
    assert_eq!(catalog.get_item("widget").unwrap().quantity, 5);
}

#[test]
fn purchase_that_would_create_an_invalid_product_changes_nothing() {
    let mut catalog = stocked();
    let mut purchases: Vec<Purchase> = Vec::new();
    match purchases.record_purchase_at("gadget", 1, 100, "", noon(), &mut catalog) {
        Err(StoreError::Validation(list)) => {
            assert_eq!(list, vec![Violation::ProductDescription])
        }
        other => panic!("unexpected result: {:?}", other),
    }
    let long_name = "n".repeat(51);
    match purchases.record_purchase_at(&long_name, 1, 100, "d", noon(), &mut catalog) {
        Err(StoreError::Validation(list)) => assert_eq!(list, vec![Violation::ProductName]),
        other => panic!("unexpected result: {:?}", other),
    }
    assert!(purchases.is_empty());
    assert_eq!(catalog.len(), 1);
}

#[test]
fn purchase_restock_ignores_the_description() {
    let mut catalog = stocked();
    let mut purchases: Vec<Purchase> = Vec::new();
    assert!(purchases.record_purchase_at("widget", 1, 100, "", noon(), &mut catalog).is_ok());
    assert_eq!(catalog.get_item("widget").unwrap().quantity, 6);
    assert_eq!(catalog.get_item("widget").unwrap().description, "desc");
}

#[test]
fn check_purchase_lists_violations() {
    assert_eq!(check_purchase("widget", 1, 1), vec![]);
    assert_eq!(
        check_purchase("", 0, 0),
        vec![
            Violation::PurchaseProductName,
            Violation::PurchaseQuantity,
            Violation::PurchasePrice
        ]
    );
    assert_eq!(check_purchase(&"n".repeat(300), 1, 1), vec![]);
}

#[test]
fn check_sale_lists_violations() {
    assert_eq!(check_sale("widget", 1, 1), vec![]);
    assert_eq!(
        check_sale("", 0, 0),
        vec![Violation::SaleProductName, Violation::SaleQuantity, Violation::SalePrice]
    );
}

#[test]
fn sale_draws_the_stock_down() {
    let mut catalog = stocked();
    let mut sales: Vec<Sale> = Vec::new();
    let sale = sales.record_sale_at("widget", 5, 1000, noon(), &mut catalog).unwrap();
    assert_eq!(sale.profit, 0);
    assert_eq!(sale.timestamp, noon());
    assert_eq!(catalog.get_item("widget").unwrap().quantity, 0);
}

#[test]
fn sale_beyond_the_stock_is_refused() {
    let mut catalog = stocked();
    let mut sales: Vec<Sale> = Vec::new();
    match sales.record_sale_at("widget", 6, 1200, noon(), &mut catalog) {
        Err(StoreError::InsufficientStock { available, requested }) => {
            assert_eq!(available, 5);
            assert_eq!(requested, 6);
        }
        other => panic!("unexpected result: {:?}", other),
    }
    assert!(sales.is_empty());
    assert_eq!(catalog.get_item("widget").unwrap().quantity, 5);
}

#[test]
fn lack_of_stock_comes_before_validation() {
    let mut catalog = stocked();
    let mut sales: Vec<Sale> = Vec::new();
    let refused = sales.record_sale_at("widget", 6, 0, noon(), &mut catalog);
    assert!(matches!(refused, Err(StoreError::InsufficientStock { available: 5, requested: 6 })));
}

#[test]
fn invalid_sale_changes_nothing() {
    let mut catalog = stocked();
    let mut sales: Vec<Sale> = Vec::new();
    match sales.record_sale_at("widget", 1, 0, noon(), &mut catalog) {
        Err(StoreError::Validation(list)) => assert_eq!(list, vec![Violation::SalePrice]),
        other => panic!("unexpected result: {:?}", other),
    }
    match sales.record_sale_at("widget", 0, 100, noon(), &mut catalog) {
        Err(StoreError::Validation(list)) => assert_eq!(list, vec![Violation::SaleQuantity]),
        other => panic!("unexpected result: {:?}", other),
    }
    assert!(sales.is_empty());
    assert_eq!(catalog.get_item("widget").unwrap().quantity, 5);
}

#[test]
fn sale_at_a_loss_has_a_negative_profit() {
    let mut catalog = stocked();
    let mut sales: Vec<Sale> = Vec::new();
    let sale = sales.record_sale_at("widget", 3, 750, noon(), &mut catalog).unwrap();
    assert_eq!(sale.profit, -750);
    assert_eq!(sale.total, 2250);
}

#[test]
fn lot_price_and_profit_are_exact() {
    assert_eq!(lot_price(900, 3), 2700);
    assert_eq!(lot_price(u64::MAX, u32::MAX), (u64::MAX as u128) * (u32::MAX as u128));
    assert_eq!(lot_profit(1200, 1000, 2), 400);
    assert_eq!(lot_profit(0, u64::MAX, u32::MAX), -((u64::MAX as i128) * (u32::MAX as i128)));
}

#[test]
fn records_are_stamped_with_the_current_time() {
    let mut catalog = stocked();
    let mut purchases: Vec<Purchase> = Vec::new();
    let mut sales: Vec<Sale> = Vec::new();
    let bought = purchases.record_purchase("widget", 1, 900, "desc", &mut catalog).unwrap();
    let sold = sales.record_sale("widget", 1, 1200, &mut catalog).unwrap();
    assert!(bought.timestamp.seconds > 1_600_000_000);
    assert!(sold.timestamp.seconds >= bought.timestamp.seconds);
    assert_eq!(purchases[0].timestamp, bought.timestamp);
    assert_eq!(sales[0].timestamp, sold.timestamp);
}

#[test]
fn total_of_purchases_adds_the_lots_up() {
    let mut catalog = stocked();
    let mut purchases: Vec<Purchase> = Vec::new();
    assert_eq!(purchases.get_total_purchases(), Some(0));
    purchases.record_purchase_at("widget", 3, 900, "desc", noon(), &mut catalog).unwrap();
    purchases.record_purchase_at("gadget", 4, 250, "g", noon(), &mut catalog).unwrap();
    assert_eq!(purchases.get_total_purchases(), Some(3700));
    assert_eq!(total_cost(&purchases), Some(3700));
}

#[test]
fn total_of_purchases_is_none_beyond_the_largest_amount() {
    let huge = Purchase {
        product_name: "widget".to_string(),
        quantity: 1,
        purchase_price: 1,
        timestamp: noon(),
        total_cost: u128::MAX,
    };
    let purchases = vec![huge.clone(), huge];
    assert_eq!(purchases.get_total_purchases(), None);
}

#[test]
fn purchases_of_one_product_are_picked_in_order() {
    let mut catalog = stocked();
    let mut purchases: Vec<Purchase> = Vec::new();
    purchases.record_purchase_at("widget", 3, 900, "desc", noon(), &mut catalog).unwrap();
    purchases.record_purchase_at("gadget", 4, 250, "g", noon(), &mut catalog).unwrap();
    purchases.record_purchase_at("widget", 1, 950, "desc", noon(), &mut catalog).unwrap();
    let found = purchases.get_purchases("widget").unwrap();
    assert_eq!(found.len(), 2);
    assert_eq!(found[0].quantity, 3);
    assert_eq!(found[0].total_cost, 2700);
    assert_eq!(found[1].quantity, 1);
    assert_eq!(found[1].purchase_price, 950);
    assert!(purchases.get_purchases("gizmo").is_none());
    assert_eq!(purchases.len(), 3);
}

#[test]
fn stock_has_room_up_to_the_largest_quantity() {
    let mut catalog = stocked();
    assert!(has_room(&catalog, "widget", u32::MAX - 5));
    assert!(!has_room(&catalog, "widget", u32::MAX - 4));
    assert!(has_room(&catalog, "gadget", u32::MAX));
    let mut purchases: Vec<Purchase> = Vec::new();
    purchases.record_purchase_at("widget", u32::MAX - 5, 1, "desc", noon(), &mut catalog).unwrap();
    assert_eq!(catalog.get_item("widget").unwrap().quantity, u32::MAX);
    assert!(!has_room(&catalog, "widget", 1));
    assert!(has_room(&catalog, "widget", 0));
}

use store_inventory::auth::Auth;
use store_inventory::clock::Timestamp;
use store_inventory::inventory::{Inventory, Product};
use store_inventory::purchase::{Purchase, Purchases};
use store_inventory::report::{
    checked_total, push_product_line, push_purchase_line, push_sale_line, shown_date_text, Reporter,
};
use store_inventory::sales::{Sale, Sales};
use store_inventory::text::{balance_text, decimal_text, digit_text, money_text, signed_money_text};

fn may_2015() -> Timestamp {
    Timestamp { seconds: 1431648000, nanos: 0 }
}

#[test]
fn empty_reports_say_so() {
    assert_eq!(
        Reporter::generate_inventory_report(&[]),
        "INVENTORY REPORT\n================\nNo products in inventory.\n"
    );
    assert_eq!(
        Reporter::generate_sales_report(&[]),
        "SALES REPORT\n============\nNo sales recorded.\n"
    );
    assert_eq!(
        Reporter::generate_purchase_report(&[]),
        "PURCHASE REPORT\n===============\nNo purchases recorded.\n"
    );
}

#[test]
fn inventory_report_lists_products_and_totals() {
    let mut catalog: Vec<Product> = Vec::new();
    catalog.add_item("widget", 1000, 6, "desc").unwrap();
    catalog.add_item("gadget", 255, 3, "a gadget").unwrap();
    assert_eq!(
        Reporter::generate_inventory_report(&catalog),
        "INVENTORY REPORT\n================\n\
         Product: widget | Price: $10.00 | Qty: 6 | Description: desc\n\
         Product: gadget | Price: $2.55 | Qty: 3 | Description: a gadget\n\
         \nTotal Items: 9 | Total Value: $67.65\n"
    );
    assert_eq!(Reporter::inventory_totals(&catalog), Some((9, 6765)));
}

#[test]
fn sales_report_lists_sales_and_totals() {
    let mut catalog: Vec<Product> = Vec::new();
    catalog.add_item("widget", 1000, 8, "desc").unwrap();
    let mut sales: Vec<Sale> = Vec::new();
    sales.record_sale_at("widget", 2, 1200, may_2015(), &mut catalog).unwrap();
    sales.record_sale_at("widget", 3, 750, may_2015(), &mut catalog).unwrap();
    assert_eq!(
        Reporter::generate_sales_report(&sales),
        "SALES REPORT\n============\n\
         Product: widget | Qty: 2 | Price: $12.00 | Total: $24.00 | Profit: $4.00 | Date: 2015-05-15 00:00:00 UTC\n\
         Product: widget | Qty: 3 | Price: $7.50 | Total: $22.50 | Profit: $-7.50 | Date: 2015-05-15 00:00:00 UTC\n\
         \nTotal Sales: $46.50 | Total Profit: $-3.50\n"
    );
    let totals = Reporter::sales_totals(&sales).unwrap();
    assert_eq!(totals.revenue, 4650);
    assert_eq!(totals.gains, 400);
    assert_eq!(totals.losses, 750);
}

#[test]
fn purchase_report_lists_purchases_and_total() {
    let mut catalog: Vec<Product> = Vec::new();
    let mut purchases: Vec<Purchase> = Vec::new();
    let later = Timestamp { seconds: 1431648000 + 86_400 + 3_723, nanos: 5 };
    purchases.record_purchase_at("widget", 3, 900, "desc", may_2015(), &mut catalog).unwrap();
    purchases.record_purchase_at("gadget", 4, 205, "g", later, &mut catalog).unwrap();
    assert_eq!(
        Reporter::generate_purchase_report(&purchases),
        "PURCHASE REPORT\n===============\n\
         Product: widget | Qty: 3 | Unit Price: $9.00 | Total: $27.00 | Date: 2015-05-15 00:00:00 UTC\n\
         Product: gadget | Qty: 4 | Unit Price: $2.05 | Total: $8.20 | Date: 2015-05-16 01:02:03 UTC\n\
         \nTotal Purchase Cost: $35.20\n"
    );
}

#[test]
fn a_time_without_a_date_is_shown_as_unknown() {
    let sale = Sale {
        product_name: "widget".to_string(),
        quantity: 1,
        sale_price: 100,
        profit: 0,
        total: 100,
        timestamp: Timestamp { seconds: i64::MAX, nanos: 0 },
    };
    assert_eq!(
        Reporter::generate_sales_report(&[sale]),
        "SALES REPORT\n============\n\
         Product: widget | Qty: 1 | Price: $1.00 | Total: $1.00 | Profit: $0.00 | Date: unknown\n\
         \nTotal Sales: $1.00 | Total Profit: $0.00\n"
    );
}

#[test]
fn totals_are_none_beyond_the_largest_amount() {
    assert_eq!(checked_total(&vec![]), Some(0));
    assert_eq!(checked_total(&vec![1, 2, 3]), Some(6));
    assert_eq!(checked_total(&vec![u128::MAX, 0]), Some(u128::MAX));
    assert_eq!(checked_total(&vec![u128::MAX, 1]), None);
    let sale = Sale {
        product_name: "widget".to_string(),
        quantity: 1,
        sale_price: 100,
        profit: 0,
        total: u128::MAX,
        timestamp: may_2015(),
    };
    assert!(Reporter::sales_totals(&[sale.clone(), sale]).is_none());
}

#[test]
fn numbers_are_written_in_decimal() {
    assert_eq!(digit_text(0), "0");
    assert_eq!(digit_text(9), "9");
    assert_eq!(decimal_text(0), "0");
    assert_eq!(decimal_text(7), "7");
    assert_eq!(decimal_text(10), "10");
    assert_eq!(decimal_text(1234567890), "1234567890");
    assert_eq!(decimal_text(u128::MAX), "340282366920938463463374607431768211455");
}

#[test]
fn money_is_written_in_units_and_hundredths() {
    assert_eq!(money_text(0), "0.00");
    assert_eq!(money_text(5), "0.05");
    assert_eq!(money_text(50), "0.50");
    assert_eq!(money_text(1000), "10.00");
    assert_eq!(money_text(123456), "1234.56");
    assert_eq!(signed_money_text(400), "4.00");
    assert_eq!(signed_money_text(-750), "-7.50");
    assert_eq!(signed_money_text(-1), "-0.01");
    assert_eq!(
        signed_money_text(i128::MIN),
        "-1701411834604692317316873037158841057.28"
    );
    assert_eq!(balance_text(400, 750), "-3.50");
    assert_eq!(balance_text(750, 400), "3.50");
    assert_eq!(balance_text(0, 0), "0.00");
}

#[test]
fn only_the_store_manager_logs_in() {
    assert!(Auth::authenticate("store_manager", "pass1234").is_ok());
    assert_eq!(
        Auth::authenticate("store_manager", "wrong"),
        Err("Invalid username or password".to_string())
    );
    assert_eq!(
        Auth::authenticate("someone", "pass1234"),
        Err("Invalid username or password".to_string())
    );
    assert!(Auth::authenticate("", "").is_err());
    assert!(Auth::authenticate("pass1234", "store_manager").is_err());
}

#[test]
fn lines_are_appended_with_the_date_given() {
    let sale = Sale {
        product_name: "widget".to_string(),
        quantity: 2,
        sale_price: 1200,
        profit: 400,
        total: 2400,
        timestamp: may_2015(),
    };
    let mut text = String::from("head\n");
    push_sale_line(&mut text, &sale, "yesterday");
    assert_eq!(
        text,
        "head\nProduct: widget | Qty: 2 | Price: $12.00 | Total: $24.00 | Profit: $4.00 | Date: yesterday\n"
    );
    let purchase = Purchase {
        product_name: "gadget".to_string(),
        quantity: 4,
        purchase_price: 205,
        timestamp: may_2015(),
        total_cost: 820,
    };
    let mut text = String::new();
    push_purchase_line(&mut text, &purchase, "today");
    assert_eq!(
        text,
        "Product: gadget | Qty: 4 | Unit Price: $2.05 | Total: $8.20 | Date: today\n"
    );
    let product =
        Product { name: "gizmo".to_string(), price: 99, quantity: 0, description: "g".to_string() };
    let mut text = String::from("> ");
    push_product_line(&mut text, &product);
    assert_eq!(text, "> Product: gizmo | Price: $0.99 | Qty: 0 | Description: g\n");
}

#[test]
fn a_missing_date_is_shown_as_unknown() {
    assert_eq!(shown_date_text(Some("2015-05-15 00:00:00 UTC".to_string())), "2015-05-15 00:00:00 UTC");
    assert_eq!(shown_date_text(None), "unknown");
}

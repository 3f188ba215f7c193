use store_inventory::error::{StoreError, Violation};
use store_inventory::inventory::{check_product, find_index, set_quantity, Inventory, Product};

fn widget_catalog() -> Vec<Product> {
    let mut catalog: Vec<Product> = Vec::new();
    catalog.add_item("widget", 1000, 5, "desc").unwrap();
    catalog
}

#[test]
fn add_then_get_returns_the_supplied_fields() {
    let mut catalog: Vec<Product> = Vec::new();
    assert!(catalog.add_item("widget", 1000, 5, "a small widget").is_ok());
    let found = catalog.get_item("widget").unwrap();
    assert_eq!(found.name, "widget");
    assert_eq!(found.price, 1000);
    assert_eq!(found.quantity, 5);
    assert_eq!(found.description, "a small widget");
    assert_eq!(catalog.len(), 1);
}

#[test]
fn add_accepts_a_quantity_of_zero() {
    let mut catalog: Vec<Product> = Vec::new();
    assert!(catalog.add_item("widget", 1, 0, "d").is_ok());
    assert_eq!(catalog.get_item("widget").unwrap().quantity, 0);
}

#[test]
fn add_duplicate_is_refused_and_changes_nothing() {
    let mut catalog = widget_catalog();
    let refused = catalog.add_item("widget", 2000, 9, "other");
    assert!(matches!(refused, Err(StoreError::DuplicateProduct)));
    assert_eq!(catalog.len(), 1);
    let kept = catalog.get_item("widget").unwrap();
    assert_eq!(kept.price, 1000);
    assert_eq!(kept.quantity, 5);
    assert_eq!(kept.description, "desc");
}

#[test]
fn add_duplicate_comes_before_validation() {
    let mut catalog = widget_catalog();
    let refused = catalog.add_item("widget", 0, 9, "");
    assert!(matches!(refused, Err(StoreError::DuplicateProduct)));
}

#[test]
fn add_lists_every_violation_in_field_order() {
    let mut catalog: Vec<Product> = Vec::new();
    match catalog.add_item("", 0, 1, "") {
        Err(StoreError::Validation(list)) => assert_eq!(
            list,
            vec![Violation::ProductName, Violation::ProductPrice, Violation::ProductDescription]
        ),
        other => panic!("unexpected result: {:?}", other),
    }
    assert!(catalog.is_empty());
}

#[test]
fn add_refuses_a_price_of_zero() {
    let mut catalog: Vec<Product> = Vec::new();
    match catalog.add_item("widget", 0, 1, "desc") {
        Err(StoreError::Validation(list)) => assert_eq!(list, vec![Violation::ProductPrice]),
        other => panic!("unexpected result: {:?}", other),
    }
    assert!(catalog.is_empty());
}

#[test]
fn name_length_is_counted_in_characters() {
    let fifty = "é".repeat(50);
    let fifty_one = "é".repeat(51);
    assert_eq!(check_product(&fifty, 1, "d"), vec![]);
    assert_eq!(check_product(&fifty_one, 1, "d"), vec![Violation::ProductName]);
    assert_eq!(check_product("a", 1, "d"), vec![]);
    assert_eq!(check_product("", 1, "d"), vec![Violation::ProductName]);
}

#[test]
fn description_length_is_bounded() {
    let full = "x".repeat(255);
    let over = "x".repeat(256);
    assert_eq!(check_product("a", 1, &full), vec![]);
    assert_eq!(check_product("a", 1, &over), vec![Violation::ProductDescription]);
    assert_eq!(check_product("a", 1, ""), vec![Violation::ProductDescription]);
}

#[test]
fn product_validate_reports_its_fields() {
    let good = Product { name: "a".to_string(), price: 1, quantity: 0, description: "d".to_string() };
    assert!(good.validate().is_ok());
    let bad = Product { name: "a".to_string(), price: 0, quantity: 0, description: "d".to_string() };
    match bad.validate() {
        Err(StoreError::Validation(list)) => assert_eq!(list, vec![Violation::ProductPrice]),
        other => panic!("unexpected result: {:?}", other),
    }
}

#[test]
fn remove_takes_the_product_out() {
    let mut catalog = widget_catalog();
    catalog.add_item("gadget", 250, 1, "g").unwrap();
    assert!(catalog.remove_item("widget").is_ok());
    assert!(catalog.get_item("widget").is_none());
    assert_eq!(catalog.len(), 1);
    assert_eq!(catalog[0].name, "gadget");
}

#[test]
fn remove_unknown_is_not_found() {
    let mut catalog = widget_catalog();
    assert!(matches!(catalog.remove_item("gadget"), Err(StoreError::NotFound)));
    assert_eq!(catalog.len(), 1);
}

#[test]
fn update_overwrites_all_but_the_name() {
    let mut catalog = widget_catalog();
    catalog.add_item("gadget", 250, 1, "g").unwrap();
    assert!(catalog.update_item("widget", 1500, 7, "better").is_ok());
    let found = catalog.get_item("widget").unwrap();
    assert_eq!(found.name, "widget");
    assert_eq!(found.price, 1500);
    assert_eq!(found.quantity, 7);
    assert_eq!(found.description, "better");
    assert_eq!(catalog[0].name, "widget");
    assert_eq!(catalog[1].price, 250);
}

#[test]
fn update_validates_before_it_looks_up() {
    let mut catalog = widget_catalog();
    match catalog.update_item("gadget", 0, 7, "better") {
        Err(StoreError::Validation(list)) => assert_eq!(list, vec![Violation::ProductPrice]),
        other => panic!("unexpected result: {:?}", other),
    }
    assert!(matches!(catalog.update_item("gadget", 1, 7, "better"), Err(StoreError::NotFound)));
    assert_eq!(catalog.get_item("widget").unwrap().price, 1000);
}

#[test]
fn get_unknown_is_none() {
    let catalog = widget_catalog();
    assert!(catalog.get_item("gadget").is_none());
    assert!(catalog.get_item("Widget").is_none());
}

#[test]
fn find_index_gives_the_first_place() {
    let mut catalog = widget_catalog();
    catalog.add_item("gadget", 250, 1, "g").unwrap();
    assert_eq!(find_index(&catalog, "widget"), Some(0));
    assert_eq!(find_index(&catalog, "gadget"), Some(1));
    assert_eq!(find_index(&catalog, "gizmo"), None);
}

#[test]
fn set_quantity_changes_only_the_quantity() {
    let mut catalog = widget_catalog();
    set_quantity(&mut catalog, 0, 42);
    assert_eq!(catalog[0].quantity, 42);
    assert_eq!(catalog[0].name, "widget");
    assert_eq!(catalog[0].price, 1000);
    assert_eq!(catalog[0].description, "desc");
}

#[test]
fn violations_name_their_field_and_reason() {
    assert_eq!(Violation::ProductName.field(), "name");
    assert_eq!(Violation::ProductName.reason(), "Product name must be 1-50 characters");
    assert_eq!(Violation::ProductPrice.reason(), "Price must be greater than 0");
    assert_eq!(Violation::ProductDescription.reason(), "Description must be 1-255 characters");
    assert_eq!(Violation::PurchaseProductName.reason(), "Product name cannot be empty");
    assert_eq!(Violation::PurchaseQuantity.field(), "quantity");
    assert_eq!(Violation::PurchasePrice.reason(), "Purchase price must be at least 0.01");
    assert_eq!(Violation::SaleProductName.field(), "product_name");
    assert_eq!(Violation::SaleQuantity.reason(), "Quantity must be at least 1");
    assert_eq!(Violation::SalePrice.field(), "sale_price");
}

#[test]
fn errors_are_put_into_words() {
    assert_eq!(StoreError::DuplicateProduct.message("widget"), "Product widget already exists");
    assert_eq!(StoreError::NotFound.message("widget"), "Product widget not found");
    assert_eq!(
        StoreError::InsufficientStock { available: 5, requested: 16 }.message("widget"),
        "Insufficient stock for 'widget'. Available: 5, Requested: 16"
    );
    assert_eq!(
        StoreError::Validation(vec![Violation::ProductName, Violation::ProductPrice])
            .message("widget"),
        "Validation errors:\n  name: Product name must be 1-50 characters\n  price: Price must be greater than 0"
    );
    assert_eq!(StoreError::Validation(vec![]).message("widget"), "Validation errors:");
}

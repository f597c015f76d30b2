use shopify_inventory_manager::models::{Amount, Product};
use shopify_inventory_manager::services::mock_shopify_service::{
    summarize, MockEntry, MockProduct, MockShopifyService, Moment,
};

fn amount(text: &str, fixed: &str) -> Amount {
    Amount { text: text.to_string(), fixed: fixed.to_string() }
}

fn product(sku: &str, title: &str, quantity: i32) -> Product {
    Product {
        sku: sku.to_string(),
        title: title.to_string(),
        handle: "".to_string(),
        price: amount("12.5", "12.50"),
        inventory_quantity: quantity,
        barcode: "b".to_string(),
        weight: amount("1.5", "1.50"),
        description: "d".to_string(),
        cost: amount("8", "8.00"),
        compare_at_price: amount("20", "20.00"),
        oem: "".to_string(),
    }
}

fn moment(seconds: i64) -> Moment {
    Moment { seconds, nanos: 0 }
}

fn empty() -> MockShopifyService {
    MockShopifyService::new("u".to_string(), "t".to_string())
}

#[test]
fn written_products_are_read() {
    let mut service = empty();
    assert_eq!(service.get_product_count(), 0);
    assert!(service.get_product_by_sku("a").is_none());
    service.create_product(&product("a", "A", 3), moment(10));
    service.create_product(&product("b", "B", 4), moment(10));
    assert_eq!(service.get_product_count(), 2);
    let listing = service.get_product_by_sku("a").unwrap();
    assert_eq!(listing.id, Some(12345));
    assert_eq!(listing.title, "A");
    assert_eq!(listing.body_html.as_deref(), Some("d"));
    assert_eq!(listing.vendor, None);
    assert_eq!(listing.variants.len(), 1);
    let variant = &listing.variants[0];
    assert_eq!((variant.id, variant.inventory_item_id), (Some(67890), Some(99999)));
    assert_eq!((variant.sku.as_str(), variant.price.as_str()), ("a", "12.5"));
    assert_eq!(variant.compare_at_price.as_deref(), Some("20"));
    assert_eq!(variant.inventory_quantity, Some(3));
    assert_eq!(variant.weight.as_ref().map(|w| w.text.as_str()), Some("1.5"));
}

#[test]
fn products_written_again_keep_their_texts() {
    let mut service = empty();
    service.create_product(&product("a", "A", 3), moment(10));
    let mut again = product("a", "Other", 9);
    again.price = amount("1", "1.00");
    again.barcode = "other".to_string();
    service.update_inventory(&again, moment(20));
    assert_eq!(service.get_product_count(), 1);
    let kept = &service.save_to_file()[0].product;
    assert_eq!((kept.title.as_str(), kept.barcode.as_str()), ("A", "b"));
    assert_eq!((kept.inventory_quantity, kept.price.text.as_str()), (9, "1"));
    assert_eq!((kept.created_at, kept.updated_at), (moment(10), moment(20)));
}

#[test]
fn updates_say_what_would_be_sent() {
    let mut service = empty();
    let sent = service.update_product_on_shopify(&product("a", "A", 3), moment(1));
    assert_eq!(sent.variant.id, Some(123456789));
    assert_eq!(sent.variant.price, "12.50");
    assert_eq!(sent.variant.compare_at_price.as_deref(), Some("20.00"));
    assert_eq!(sent.variant.inventory_item_id, Some(999999999));
    assert_eq!(sent.inventory.location_id, 88888888);
    assert_eq!(sent.inventory.inventory_item_id, 999999999);
    assert_eq!(sent.inventory.available, 3);
    assert_eq!(service.get_product_count(), 1);
}

fn copy(entry: &MockEntry) -> MockEntry {
    let p = &entry.product;
    MockEntry {
        key: entry.key.clone(),
        product: MockProduct {
            sku: p.sku.clone(),
            title: p.title.clone(),
            price: p.price.clone(),
            inventory_quantity: p.inventory_quantity,
            barcode: p.barcode.clone(),
            weight: p.weight.clone(),
            description: p.description.clone(),
            cost: p.cost.clone(),
            compare_at_price: p.compare_at_price.clone(),
            created_at: p.created_at,
            updated_at: p.updated_at,
        },
    }
}

#[test]
fn saved_state_is_loaded() {
    let mut service = empty();
    service.create_product(&product("a", "A", 3), moment(10));
    service.create_product(&product("b", "B", 4), moment(11));
    let mut saved: Vec<MockEntry> = service.save_to_file().iter().map(copy).collect();
    let mut other = empty();
    other.create_product(&product("gone", "G", 1), moment(1));
    let mut later = copy(&saved[0]);
    later.product.inventory_quantity = 30;
    saved.push(later);
    other.load_from_file(saved);
    assert_eq!(other.get_product_count(), 2);
    assert!(other.get_product_by_sku("gone").is_none());
    assert_eq!(
        other.get_product_by_sku("a").unwrap().variants[0].inventory_quantity,
        Some(30)
    );
    assert_eq!(other.get_product_by_sku("b").unwrap().title, "B");
}

#[test]
fn saved_entries_load_in_any_order() {
    let mut service = empty();
    service.create_product(&product("a", "A", 3), moment(10));
    service.create_product(&product("b", "B", 4), moment(11));
    service.create_product(&product("c", "C", 5), moment(12));
    let mut other = empty();
    other.load_from_file(service.save_to_file().iter().rev().map(copy).collect());
    assert_eq!(other.get_product_count(), service.get_product_count());
    assert_eq!(other.print_inventory_summary(), service.print_inventory_summary());
}

#[test]
fn summary_is_in_the_order_of_the_skus() {
    let mut service = empty();
    service.create_product(&product("b", "B", 4), moment(1_000_000_000));
    service.create_product(&product("B", "Capital", 1), moment(0));
    service.create_product(&product("a", "A", -3), moment(1));
    let rule = "=".repeat(60);
    let expected: Vec<String> = vec![
        "",
        rule.as_str(),
        "MOCK INVENTORY SUMMARY",
        rule.as_str(),
        "SKU: B",
        "  Title: Capital",
        "  Sell: $12.50 | List: $20.00 | Cost: $8.00",
        "  Qty: 1 | Updated: 1970-01-01 00:00:00",
        "",
        "SKU: a",
        "  Title: A",
        "  Sell: $12.50 | List: $20.00 | Cost: $8.00",
        "  Qty: -3 | Updated: 1970-01-01 00:00:01",
        "",
        "SKU: b",
        "  Title: B",
        "  Sell: $12.50 | List: $20.00 | Cost: $8.00",
        "  Qty: 4 | Updated: 2001-09-09 01:46:40",
        "",
        rule.as_str(),
        "",
    ]
    .into_iter()
    .map(String::from)
    .collect();
    assert_eq!(service.print_inventory_summary(), Some(expected));
}

#[test]
fn empty_summary_says_so() {
    let lines = empty().print_inventory_summary().unwrap();
    assert_eq!(lines.len(), 7);
    assert_eq!(lines[4], "No products in inventory");
    assert_eq!(summarize(&vec![], &vec![]), lines);
}

#[test]
fn moments_out_of_range_have_no_summary() {
    let mut service = empty();
    service.create_product(&product("a", "A", 3), moment(i64::MAX));
    assert_eq!(service.print_inventory_summary(), None);
}

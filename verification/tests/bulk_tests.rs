use shopify_inventory_manager::exchange::{decode, Action, RawReply, Reply, Request};
use shopify_inventory_manager::json::text_at;
use shopify_inventory_manager::json::at;
use shopify_inventory_manager::models::{Amount, Product};
use shopify_inventory_manager::services::bulk_run::{describe_change, run_bulk_sync, PushRun, RunStage};
use shopify_inventory_manager::services::bulk_sync::{
    plan_bulk_sync, plan_sync, product_keys, stored_prices, PendingChange, PriceCheck,
};
use shopify_inventory_manager::services::product_session::Target;
use shopify_inventory_manager::services::stock_fetch::{FetchError, FetchStage, StockFetch};

const BASE: &str = "https://shop.example/admin/api/2024-01";

fn amount(text: &str, fixed: &str) -> Amount {
    Amount { text: text.to_string(), fixed: fixed.to_string() }
}

fn product(sku: &str, price: &str, quantity: i32) -> Product {
    Product {
        sku: sku.to_string(),
        title: "T".to_string(),
        handle: "".to_string(),
        price: amount(price, price),
        inventory_quantity: quantity,
        barcode: "".to_string(),
        weight: amount("0", "0.00"),
        description: "".to_string(),
        cost: amount("1", "1.00"),
        compare_at_price: amount("0", "0.00"),
        oem: "".to_string(),
    }
}

fn check(changed: bool, current: &str) -> PriceCheck {
    PriceCheck { changed, current: current.to_string() }
}

fn bytes(text: &str) -> Reply {
    decode(RawReply::Bytes(text.as_bytes().to_vec()))
}

fn body(text: &str) -> Reply {
    decode(RawReply::Text(text.to_string()))
}

fn sent(action: Action) -> Request {
    match action {
        Action::Send(request) => request,
        other => panic!("{:?}", other),
    }
}

fn node(id: u32, sku: &str, price: &str, quantity: i64, location: &str) -> String {
    format!(
        "{{\"node\":{{\"id\":\"gid://shopify/ProductVariant/{}\",\"sku\":\"{}\",\"price\":\"{}\",\"inventoryQuantity\":{},\"inventoryItem\":{{\"id\":\"gid://shopify/InventoryItem/{}\",\"tracked\":true,\"inventoryLevels\":{{\"edges\":[{}]}}}}}}}}",
        id,
        sku,
        price,
        quantity,
        id + 100,
        location
    )
}

fn at_location(id: u32) -> String {
    format!("{{\"node\":{{\"location\":{{\"id\":\"gid://shopify/Location/{}\"}}}}}}", id)
}

fn page(edges: &[String], next: &str) -> String {
    format!(
        "{{\"data\":{{\"productVariants\":{{\"pageInfo\":{},\"edges\":[{}]}}}}}}",
        next,
        edges.join(",")
    )
}

fn fetched() -> StockFetch<'static> {
    let mut fetch = StockFetch::fetch_all_variants(BASE);
    fetch.step(Reply::Ready);
    let edges = vec![
        node(1, " same-1 ", "5.00", 3, at_location(9).as_str()),
        node(2, "price-2", "5.00", 3, at_location(9).as_str()),
        node(3, "qty-3", "5.00", 3, ""),
        node(4, "  ", "5.00", 3, ""),
    ];
    let done = page(&edges, "{\"hasNextPage\":false}");
    assert!(matches!(fetch.step(bytes(done.as_str())), Action::Finish));
    fetch
}

#[test]
fn fetch_collects_pages() {
    let mut fetch = StockFetch::fetch_all_variants(BASE);
    let first = sent(fetch.step(Reply::Ready));
    assert_eq!(first.url, format!("{}/graphql.json", BASE));
    let query = text_at(at(first.body.as_ref(), "query")).unwrap().to_string();
    assert!(query.starts_with("{\n                productVariants(first: 250) {"));
    let one = page(
        &[node(1, "a", "5.00", 3, "")],
        "{\"hasNextPage\":true,\"endCursor\":\"CUR\"}",
    );
    assert!(matches!(fetch.step(bytes(one.as_str())), Action::Wait(500)));
    let second = sent(fetch.step(Reply::Ready));
    let query = text_at(at(second.body.as_ref(), "query")).unwrap().to_string();
    assert!(query.starts_with("{\n                productVariants(first: 250, after: \"CUR\") {"));
    let two = page(&[node(2, "A", "6.00", 4294967299, at_location(7).as_str())], "{}");
    assert!(matches!(fetch.step(bytes(two.as_str())), Action::Finish));
    assert_eq!(fetch.stage, FetchStage::Closed);
    assert_eq!(fetch.page, 2);
    assert!(fetch.failure.is_none());
    assert_eq!(fetch.catalog.len(), 1);
    let a = fetch.catalog.get("A").unwrap();
    assert_eq!((a.variant_id, a.inv_item_id, a.location_id), (2, 102, 7));
    assert_eq!(a.current_qty, 3);
    assert_eq!(a.current_price.as_deref(), Some("6.00"));
    assert!(a.follows_stock);
}

#[test]
fn fetch_fails_on_errors() {
    let fail = |text: &str| {
        let mut fetch = StockFetch::fetch_all_variants(BASE);
        fetch.step(Reply::Ready);
        let reply = bytes(text);
        assert!(fetch.accepts(&reply));
        assert!(matches!(fetch.step(reply), Action::Finish));
        fetch.failure.unwrap().message()
    };
    assert_eq!(fail("{\"errors\":[{\"message\":\"denied\"}]}"), "GraphQL error: denied");
    assert_eq!(fail("{\"errors\":[1]}"), "GraphQL error: unknown");
    assert_eq!(
        fail("{\"data\": {\"b\":1,\"a\":[]}}"),
        "Unexpected GraphQL response on page 1. Full response: {\n  \"data\": {\n    \"a\": [],\n    \"b\": 1\n  }\n}"
    );
    assert_eq!(fail("nope"), "error decoding response body");
    let mut down = StockFetch::fetch_all_variants(BASE);
    down.step(Reply::Ready);
    down.step(Reply::Failed("down".to_string()));
    assert_eq!(down.failure.unwrap().message(), "down");
    assert_eq!(FetchError::UnexpectedReply.message(), "unexpected reply");
    assert_eq!(
        FetchError::UnexpectedAnswer(4, vec![]).describe("X"),
        "Unexpected GraphQL response on page 4. Full response: X"
    );
}

#[test]
fn fetch_does_not_take_an_empty_list_of_errors() {
    let mut fetch = StockFetch::fetch_all_variants(BASE);
    fetch.step(Reply::Ready);
    assert!(!fetch.accepts(&bytes("{\"errors\":[]}")));
    assert!(fetch.accepts(&bytes("{}")));
}

#[test]
fn plan_compares_prices_and_quantities() {
    let fetch = fetched();
    let products = vec![
        product("SAME-1", "5.00", 3),
        product("Price-2", "6.00", 3),
        product("qty-3", "5.00", 8),
        product("new-4", "7.00", 1),
    ];
    let keys = product_keys(&products);
    assert_eq!(keys, vec!["SAME-1", "PRICE-2", "QTY-3", "NEW-4"]);
    let prices = stored_prices(&keys, &fetch.catalog);
    assert_eq!(prices[0], Some(Some("5.00".to_string())));
    assert_eq!(prices[3], None);
    let checks = vec![
        check(false, "5.00"),
        check(true, "5.00"),
        check(false, "5.00"),
        check(false, "0.00"),
    ];
    let plan = plan_bulk_sync(&products, &fetch.catalog, &checks, "upsert");
    assert_eq!(plan.already_current, 1);
    assert_eq!(plan.to_create, vec![3]);
    let positions: Vec<usize> = plan.to_update.iter().map(|c| c.product).collect();
    assert_eq!(positions, vec![1, 2]);
    assert_eq!(plan.to_update[0].target.location, 9);
    assert_eq!(plan.to_update[1].target.location, 0);
    assert_eq!(plan.to_update[1].old_qty, 3);
    let update_only = plan_bulk_sync(&products, &fetch.catalog, &checks, "update");
    assert_eq!(update_only.already_current, 2);
    assert!(update_only.to_create.is_empty());
    let by_keys = plan_sync(&products, &keys, &fetch.catalog, &checks, true);
    assert_eq!(by_keys.to_create, vec![3]);
}

#[test]
fn synced_store_needs_nothing() {
    let fetch = fetched();
    let products = vec![product("same-1", "5.00", 3), product("qty-3", "5.00", 3)];
    let checks = vec![check(false, "5.00"), check(false, "5.00")];
    for mode in ["upsert", "update"] {
        let mut run = run_bulk_sync(BASE, &products, &fetch.catalog, &checks, mode, 0);
        assert!(matches!(run.step(Reply::Ready), Action::Finish));
        assert_eq!(run.stage, RunStage::Closed);
        assert!(!run.saves_report());
        assert_eq!(
            run.outcome("2024-01-02 03:04"),
            (0, 0, 2, "Everything already up to date.".to_string())
        );
    }
}

#[test]
fn changes_in_words() {
    let change = |price_changed: bool, old_qty: i32| PendingChange {
        product: 0,
        target: Target { variant: 1, item: 2, location: 3 },
        follows_stock: true,
        price_changed,
        old_price: "4.00".to_string(),
        old_qty,
    };
    let p = product("x", "5.00", -3);
    assert_eq!(
        describe_change(&change(true, 2), &p),
        "qty 2 \u{2192} -3  |  price $4.00 \u{2192} $5.00"
    );
    assert_eq!(describe_change(&change(false, 2), &p), "qty 2 \u{2192} -3");
    assert_eq!(describe_change(&change(true, -3), &p), "price $4.00 \u{2192} $5.00");
    assert_eq!(describe_change(&change(false, -3), &p), "");
}

fn finish_update(run: &mut PushRun, accepted: bool) -> Action {
    sent(run.step(Reply::Ready));
    if !accepted {
        return run.step(body("{\"errors\":\"no\"}"));
    }
    assert!(matches!(run.step(body("{}")), Action::Wait(500)));
    sent(run.step(Reply::Ready));
    run.step(Reply::Success)
}

#[test]
fn run_sends_and_reports() {
    let fetch = fetched();
    let products = vec![
        product("SAME-1", "5.00", 3),
        product("Price-2", "6.00", 3),
        product("SAME-1", "5.00", 4),
        product("new-4", "7.00", 1),
        product("new-5", "8.00", 2),
    ];
    let checks = vec![
        check(false, "5.00"),
        check(true, "5.00"),
        check(false, "5.00"),
        check(false, "0.00"),
        check(false, "0.00"),
    ];
    let mut run = run_bulk_sync(BASE, &products, &fetch.catalog, &checks, "upsert", 0);
    assert!(matches!(run.step(Reply::Ready), Action::Wait(500)));
    assert!(matches!(finish_update(&mut run, true), Action::Wait(500)));
    assert_eq!(
        run.notice.as_deref(),
        Some("  OK  Price-2 -- price $5.00 \u{2192} $6.00")
    );
    assert!(matches!(finish_update(&mut run, false), Action::Wait(600)));
    assert_eq!(
        run.notice.as_deref(),
        Some("  XX  SAME-1 -- error: Inventory update failed: \"no\"")
    );
    assert!(matches!(run.step(Reply::Ready), Action::Wait(600)));
    assert_eq!(sent(run.step(Reply::Ready)).url, format!("{}/products.json", BASE));
    assert!(matches!(run.step(bytes("{}")), Action::Wait(600)));
    assert_eq!(
        run.notice.as_deref(),
        Some("  +  new-4 -- created as DRAFT (price $7.00, qty 1)")
    );
    assert!(matches!(run.step(Reply::Ready), Action::Wait(600)));
    sent(run.step(Reply::Ready));
    assert!(matches!(run.step(Reply::ErrorText("dup".to_string())), Action::Finish));
    assert_eq!((run.updated, run.created, run.failed), (1, 1, 2));
    assert_eq!(
        run.updated + run.created + run.failed + run.plan.already_current,
        products.len() as u32
    );
    assert!(run.saves_report());
    let expected = [
        "Shopify Bulk Sync Report -- NOW",
        "=================================================================",
        "",
        "  Updated : 1",
        "  Created : 1 (as drafts)",
        "  Skipped : 1 (no change)",
        "  Failed  : 2",
        "",
        "CHANGES (1):",
        "    SKU                     PRICE                     QTY",
        "    -----------------------------------------------------------------",
        "    Price-2                 $5.00 -> $6.00            no change",
        "",
        "NEW ITEMS (1) -- entered as drafts, action required:",
        "    new-4                   $7.00  qty 1  [DRAFT -- review before publishing]",
        "",
        "FAILURES (2):",
        "    SAME-1 -- Inventory update failed: \"no\"",
        "    new-5 -- CREATE FAILED: Failed to create product new-5: dup",
        "",
    ]
    .join("\n");
    assert_eq!(run.report("NOW"), expected);
    let (updated, created, current, report) = run.outcome("NOW");
    assert_eq!((updated, created, current), (1, 1, 1));
    assert_eq!(report, expected);
    let rows: Vec<String> = run.records("NOW").iter().map(|r| r.join("|")).collect();
    assert_eq!(
        rows,
        vec![
            "Shopify Bulk Sync Report|NOW||",
            "|||",
            "Updated|1||",
            "Created (as drafts)|1||",
            "Skipped (no change)|1||",
            "Failed|2||",
            "|||",
            "SKU|PRICE|QTY|STATUS",
            "Price-2|$5.00 -> $6.00|no change|Updated",
            "SAME-1|no change|3 -> 4|FAILED: Inventory update failed: \"no\"",
            "|||",
            "NEW ITEMS|PRICE|QTY|STATUS",
            "new-4|$7.00|1|DRAFT - review before publishing",
            "new-5|$8.00|2|DRAFT - review before publishing",
            "|||",
            "FAILURES|PRICE|QTY|ERROR",
            "SAME-1|no change|3 -> 4|Inventory update failed: \"no\"",
        ]
    );
}

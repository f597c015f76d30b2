use shopify_inventory_manager::exchange::{decode, Action, Method, RawReply, ReadMode, Reply, Request};
use shopify_inventory_manager::json::{at, first_at, integer_at, parse_text, text_at, true_at, Json};
use shopify_inventory_manager::models::{
    Amount, Product, ShopifyLocation, ShopifyLocationsResponse, ShopifyProduct,
    ShopifyProductWrapper, ShopifyResponse,
};
use shopify_inventory_manager::services::product_session::{
    describe_failure, failure_text, Outcome, Procedure, ProductSession, Stage, SyncError, Target,
};
use shopify_inventory_manager::services::shopify_service::{
    created_item_id, find_variant_by_sku, id_number, level_location, location_setting,
    matching_variant, normalize_sku_for_comparison, token_from, update_env_file, NoLocation,
    ShopifyService, TokenError,
};

fn amount(text: &str, fixed: &str) -> Amount {
    Amount { text: text.to_string(), fixed: fixed.to_string() }
}

fn product(sku: &str) -> Product {
    Product {
        sku: sku.to_string(),
        title: "Brake pad".to_string(),
        handle: "Parts".to_string(),
        price: amount("12.5", "12.50"),
        inventory_quantity: 7,
        barcode: "000".to_string(),
        weight: amount("1.5", "1.50"),
        description: "A pad".to_string(),
        cost: amount("8", "8.00"),
        compare_at_price: amount("20", "20.00"),
        oem: "AMS".to_string(),
    }
}

fn store() -> ShopifyService {
    ShopifyService::new("shop.example".to_string(), "tok".to_string())
}

const BASE: &str = "https://shop.example/admin/api/2024-01";

fn bytes(text: &str) -> Reply {
    decode(RawReply::Bytes(text.as_bytes().to_vec()))
}

fn body(text: &str) -> Reply {
    decode(RawReply::Text(text.to_string()))
}

fn sent(action: Action) -> Request {
    match action {
        Action::Send(request) => request,
        other => panic!("{:?}", other),
    }
}

fn waits(action: Action, milliseconds: u64) {
    assert!(matches!(action, Action::Wait(n) if n == milliseconds));
}

fn field<'a>(request: &'a Request, path: &[&str]) -> Option<&'a Json> {
    let mut place = request.body.as_ref();
    for key in path {
        place = at(place, key);
    }
    place
}

const FOUND: &str = "{\"data\":{\"productVariants\":{\"edges\":[{\"node\":{\"id\":\"gid://shopify/ProductVariant/11\",\"sku\":\"ams001\",\"price\":\"9.99\",\"inventoryItem\":{\"id\":\"gid://shopify/InventoryItem/22\"}}}]}}}";
const NOT_FOUND: &str = "{\"data\":{\"productVariants\":{\"edges\":[]}}}";

#[test]
fn skus_are_compared_without_case_and_punctuation() {
    assert_eq!(normalize_sku_for_comparison("ams-00 1/b"), "AMS001B");
    assert_eq!(normalize_sku_for_comparison("stra\u{df}e"), "STRASSE");
    assert_eq!(normalize_sku_for_comparison("\u{2160}-x"), "\u{2160}X");
    assert_eq!(
        normalize_sku_for_comparison("A.B"),
        normalize_sku_for_comparison("A B")
    );
    assert_eq!(
        normalize_sku_for_comparison("ams\u{2014} -001"),
        normalize_sku_for_comparison("ams001")
    );
    assert_eq!(
        normalize_sku_for_comparison("\u{e9}-\u{df}1"),
        format!(
            "{}{}",
            normalize_sku_for_comparison("\u{e9}-"),
            normalize_sku_for_comparison("\u{df}1")
        )
    );
    assert_eq!(normalize_sku_for_comparison(" -\u{2014}/"), "");
    let once = normalize_sku_for_comparison("aMs-1.b");
    assert_eq!(normalize_sku_for_comparison(once.as_str()), once);
    assert_eq!(normalize_sku_for_comparison("ams-1.b"), once);
}

#[test]
fn identifiers_end_in_numbers() {
    assert_eq!(id_number("gid://shopify/ProductVariant/42"), 42);
    assert_eq!(id_number("gid://shopify/ProductVariant/x"), 0);
    assert_eq!(id_number(""), 0);
    assert_eq!(location_setting("55"), 55);
    assert_eq!(location_setting(" 55"), 0);
}

#[test]
fn lookup_takes_the_first_variant_with_the_same_sku() {
    let json = parse_text(FOUND).unwrap();
    let found = find_variant_by_sku(&json, "AMS-001").unwrap();
    assert_eq!((found.id, found.inventory_item_id), (11, 22));
    assert_eq!((found.price.as_str(), found.sku.as_str()), ("9.99", "ams001"));
    assert!(find_variant_by_sku(&json, "AMS-0011").is_none());
    assert!(find_variant_by_sku(&parse_text(NOT_FOUND).unwrap(), "AMS-001").is_none());
    let bare = Json::object();
    let plain = matching_variant(Some(&bare), "S", "K", "K").unwrap();
    assert_eq!((plain.price.as_str(), plain.sku.as_str(), plain.id), ("0.00", "S", 0));
    assert!(matching_variant(Some(&bare), "S", "K", "L").is_none());
}

#[test]
fn stock_levels_and_created_items() {
    let levels = parse_text("{\"inventory_levels\":[{\"location_id\":5},{\"location_id\":6}]}");
    assert_eq!(level_location(&levels.unwrap()), 5);
    assert_eq!(level_location(&Json::object()), 0);
    let made = parse_text("{\"product\":{\"variants\":[{\"inventory_item_id\":77}]}}").unwrap();
    assert_eq!(created_item_id(&made), Some(77));
    assert_eq!(created_item_id(&Json::Null), None);
}

#[test]
fn service_knows_its_address_and_headers() {
    let service = store();
    assert_eq!(service.api_base_url(), BASE);
    assert_eq!(
        service.headers(),
        vec![
            ("X-Shopify-Access-Token".to_string(), "tok".to_string()),
            ("content-type".to_string(), "application/json".to_string()),
        ]
    );
    let copy = service.clone();
    assert_eq!(copy.access_token, "tok");
}

#[test]
fn token_is_asked_for_and_taken() {
    let mut service = store();
    let request = service.refresh_daily_token("shop.example", "id", "SECRET-REDACTED");
    assert_eq!(request.url, "https://shop.example/admin/oauth/access_token");
    assert_eq!(request.method, Method::Post);
    assert_eq!(request.read, ReadMode::JsonOrErrorText);
    assert_eq!(text_at(field(&request, &["grant_type"])), Some("client_credentials"));
    assert_eq!(text_at(field(&request, &["client_id"])), Some("id"));
    assert_eq!(text_at(field(&request, &["client_secret"])), Some("SECRET-REDACTED"));
    let token = token_from(bytes("{\"access_token\":\"new\"}")).unwrap();
    assert_eq!(token, "new");
    service.use_token(token);
    assert_eq!(service.access_token, "new");
    assert_eq!(service.api_base_url(), BASE);
}

#[test]
fn token_failures() {
    let message = |reply: Reply| token_from(reply).err().unwrap().message();
    assert_eq!(message(bytes("{}")), "No access token in response");
    assert_eq!(message(bytes("oops")), "error decoding response body");
    assert_eq!(message(Reply::ErrorText("no".to_string())), "Token refresh failed: no");
    assert_eq!(message(Reply::Failed("down".to_string())), "down");
    assert!(matches!(token_from(Reply::Ready), Err(TokenError::UnexpectedReply)));
}

#[test]
fn settings_file_gets_the_token() {
    assert_eq!(
        update_env_file("A=1\nACCESS_TOKEN=old\r\nB=2", "new"),
        "A=1\nSHOPIFY_ACCESS_TOKEN=new\nB=2\n"
    );
    assert_eq!(update_env_file("", "new"), "SHOPIFY_ACCESS_TOKEN=new\n");
    assert_eq!(
        update_env_file("X_ACCESS_TOKEN=1\n", "new"),
        "X_ACCESS_TOKEN=1\nSHOPIFY_ACCESS_TOKEN=new\n"
    );
    assert_eq!(
        update_env_file("ACCESS_TOKEN=a\r\r\nB=2\n", "new"),
        "SHOPIFY_ACCESS_TOKEN=new\nB=2\n"
    );
    let first = update_env_file("A=1\nACCESS_TOKEN=x\n", "t\r");
    assert_eq!(
        update_env_file(first.as_str(), "u"),
        update_env_file("A=1\nACCESS_TOKEN=x\n", "u")
    );
    let once = update_env_file("A=1\nSHOPIFY_ACCESS_TOKEN=a\n", "b");
    assert_eq!(update_env_file(once.as_str(), "b"), once);
}

#[test]
fn location_is_remembered() {
    let mut service = store();
    assert_eq!(service.get_location_id(Some("x")), None);
    assert_eq!(service.get_location_id(None), None);
    assert_eq!(service.locations_request().url, format!("{}/locations.json", BASE));
    let none = ShopifyLocationsResponse { locations: vec![] };
    assert_eq!(service.choose_location(&none), Err(NoLocation));
    assert_eq!(service.location_id, None);
    assert_eq!(NoLocation.message(), "No locations found");
    let some = ShopifyLocationsResponse {
        locations: vec![
            ShopifyLocation { id: 3, name: "A".to_string() },
            ShopifyLocation { id: 4, name: "B".to_string() },
        ],
    };
    assert_eq!(service.choose_location(&some), Ok(3));
    assert_eq!(service.get_location_id(Some("9")), Some(3));
    let mut other = store();
    assert_eq!(other.get_location_id(Some("9")), Some(9));
    assert_eq!(other.location_id, Some(9));
}

#[test]
fn answers_hold_one_product_or_several() {
    let listed = ShopifyProduct {
        id: None,
        title: "t".to_string(),
        body_html: None,
        vendor: None,
        product_type: None,
        variants: vec![],
    };
    let wrapper = ShopifyProductWrapper { product: listed };
    let response = ShopifyResponse { product: Some(wrapper.product), products: None };
    assert_eq!(response.product.map(|p| p.title), Some("t".to_string()));
    assert!(response.products.is_none());
}

#[test]
fn existing_product_is_updated() {
    let service = store();
    let p = product("AMS-001");
    let mut session = service.update_existing_product(&p, "33");
    waits(session.step(Reply::Ready), 2500);
    let lookup = sent(session.step(Reply::Ready));
    assert_eq!(lookup.url, format!("{}/graphql.json", BASE));
    assert_eq!(text_at(field(&lookup, &["variables", "sku"])), Some("sku:AMS-001"));
    let levels = sent(session.step(bytes(FOUND)));
    assert_eq!(
        levels.url,
        format!("{}/inventory_levels.json?inventory_item_ids=22", BASE)
    );
    assert_eq!(levels.method, Method::Get);
    let set = sent(session.step(bytes("{\"inventory_levels\":[{\"location_id\":5}]}")));
    assert_eq!(set.url, format!("{}/inventory_levels/set.json", BASE));
    assert_eq!(integer_at(field(&set, &["location_id"])), Some(5));
    assert_eq!(integer_at(field(&set, &["inventory_item_id"])), Some(22));
    assert_eq!(integer_at(field(&set, &["available"])), Some(7));
    assert!(true_at(field(&set, &["disconnect_if_necessary"])));
    waits(session.step(body("{\"inventory_level\":{}}")), 500);
    let price = sent(session.step(Reply::Ready));
    assert_eq!(price.url, format!("{}/variants/11.json", BASE));
    assert_eq!(price.method, Method::Put);
    assert_eq!(text_at(field(&price, &["variant", "price"])), Some("12.5"));
    assert_eq!(text_at(field(&price, &["variant", "compare_at_price"])), Some("20"));
    assert!(matches!(session.step(Reply::Success), Action::Finish));
    assert!(matches!(session.outcome, Some(Ok(Outcome::Updated(5)))));
    assert!(matches!(session.step(Reply::Ready), Action::Finish));
}

#[test]
fn unknown_product_is_skipped_by_an_update() {
    let service = store();
    let p = product("AMS-001");
    let mut session = service.update_inventory(&p, "");
    session.step(Reply::Ready);
    session.step(Reply::Ready);
    assert!(matches!(session.step(bytes(NOT_FOUND)), Action::Finish));
    assert!(matches!(session.outcome, Some(Ok(Outcome::Skipped))));
}

#[test]
fn item_without_a_location_is_connected_first() {
    let service = store();
    let p = product("AMS-001");
    let mut session = service.update_existing_product(&p, "33");
    session.step(Reply::Ready);
    session.step(Reply::Ready);
    session.step(bytes(FOUND));
    let connect = sent(session.step(bytes("{}")));
    assert_eq!(connect.url, format!("{}/inventory_levels/connect.json", BASE));
    assert_eq!(connect.read, ReadMode::Ignore);
    assert_eq!(integer_at(field(&connect, &["location_id"])), Some(33));
    waits(session.step(Reply::Ignored), 500);
    let set = sent(session.step(Reply::Ready));
    assert_eq!(integer_at(field(&set, &["location_id"])), Some(33));
}

#[test]
fn quantity_is_sent_again_once_when_too_fast() {
    let service = store();
    let p = product("AMS-001");
    let mut session = service.update_existing_product(&p, "");
    session.step(Reply::Ready);
    session.step(Reply::Ready);
    session.step(bytes(FOUND));
    session.step(bytes("{\"inventory_levels\":[{\"location_id\":5}]}"));
    let slow = "{\"errors\":\"Exceeded 2 calls per second\"}";
    waits(session.step(body(slow)), 4000);
    let again = sent(session.step(Reply::Ready));
    assert_eq!(again.url, format!("{}/inventory_levels/set.json", BASE));
    assert!(matches!(session.step(body(slow)), Action::Finish));
    let error = session.outcome.unwrap().err().unwrap();
    assert_eq!(
        failure_text(Procedure::UpdateExisting, "AMS-001", &error),
        "Inventory update failed: \"Exceeded 2 calls per second\""
    );
}

#[test]
fn refused_quantity_stops_before_the_price() {
    let service = store();
    let p = product("AMS-001");
    let mut session = service.update_existing_product(&p, "");
    session.step(Reply::Ready);
    session.step(Reply::Ready);
    session.step(bytes(FOUND));
    session.step(bytes("{\"inventory_levels\":[{\"location_id\":5}]}"));
    assert!(matches!(
        session.step(body("{\"errors\": {\"b\": [1, 2], \"a\": null}}")),
        Action::Finish
    ));
    let error = session.outcome.unwrap().err().unwrap();
    assert_eq!(
        failure_text(Procedure::UpdateExisting, "AMS-001", &error),
        "Inventory update failed: {\"a\":null,\"b\":[1,2]}"
    );
}

#[test]
fn session_failures_have_their_messages() {
    let say = |procedure: Procedure, error: SyncError| failure_text(procedure, "S", &error);
    assert_eq!(say(Procedure::Upsert, SyncError::Transport("t".to_string())), "t");
    assert_eq!(
        say(Procedure::Upsert, SyncError::Undecodable("x".to_string())),
        "error decoding response body"
    );
    assert_eq!(say(Procedure::Upsert, SyncError::InvalidJson("bad".to_string())), "bad");
    assert_eq!(
        say(Procedure::Upsert, SyncError::PriceRejected("p".to_string())),
        "Price update failed"
    );
    assert_eq!(
        say(Procedure::BulkUpdate, SyncError::PriceRejected("p".to_string())),
        "Price update failed for S: p"
    );
    assert_eq!(
        say(Procedure::Create, SyncError::CreateRejected("c".to_string())),
        "Failed to create product: c"
    );
    assert_eq!(
        say(Procedure::BulkCreate, SyncError::CreateRejected("c".to_string())),
        "Failed to create product S: c"
    );
    assert_eq!(say(Procedure::Create, SyncError::UnexpectedReply), "unexpected reply");
    let refused = SyncError::InventoryRejected("{}".to_string());
    assert_eq!(
        describe_failure(Procedure::Create, "S", &refused, "why"),
        "Inventory update failed: why"
    );
}

#[test]
fn lookup_refreshes_the_token_once() {
    let service = store();
    let p = product("AMS-001");
    let mut session = service.upsert_product(&p, "");
    waits(session.step(Reply::Ready), 500);
    session.step(Reply::Ready);
    assert!(matches!(
        session.step(Reply::Failed("UNAUTHORIZED".to_string())),
        Action::RefreshToken
    ));
    let again = sent(session.step(Reply::Ready));
    assert_eq!(again.url, format!("{}/graphql.json", BASE));
    assert!(matches!(
        session.step(Reply::Failed("UNAUTHORIZED".to_string())),
        Action::Finish
    ));
    assert!(matches!(session.outcome, Some(Err(SyncError::Transport(m))) if m == "UNAUTHORIZED"));
}

#[test]
fn upsert_turns_tracking_on_and_creates_what_is_missing() {
    let service = store();
    let p = product("AMS-001");
    let mut known = service.upsert_product(&p, "");
    known.step(Reply::Ready);
    known.step(Reply::Ready);
    let track = sent(known.step(bytes(FOUND)));
    assert_eq!(track.url, format!("{}/inventory_items/22.json", BASE));
    assert!(true_at(field(&track, &["inventory_item", "tracked"])));
    waits(known.step(Reply::Ignored), 500);
    assert_eq!(sent(known.step(Reply::Ready)).method, Method::Get);

    let mut missing = service.upsert_product(&p, "");
    missing.step(Reply::Ready);
    missing.step(Reply::Ready);
    waits(missing.step(bytes(NOT_FOUND)), 600);
    let create = sent(missing.step(Reply::Ready));
    assert_eq!(create.url, format!("{}/products.json", BASE));
    assert_eq!(text_at(field(&create, &["product", "status"])), Some("draft"));
}

#[test]
fn new_products_enter_as_drafts_with_their_cost() {
    let service = store();
    let p = product("AMS-001");
    let mut session = service.create_product(&p);
    waits(session.step(Reply::Ready), 600);
    let create = sent(session.step(Reply::Ready));
    assert_eq!(create.read, ReadMode::JsonOrErrorText);
    assert_eq!(text_at(field(&create, &["product", "title"])), Some("Brake pad"));
    assert_eq!(text_at(field(&create, &["product", "vendor"])), Some("AMS"));
    assert_eq!(text_at(field(&create, &["product", "body_html"])), Some("A pad"));
    assert_eq!(text_at(field(&create, &["product", "handle"])), Some("Parts"));
    assert_eq!(text_at(field(&create, &["product", "status"])), Some("draft"));
    let variant = first_at(field(&create, &["product", "variants"]));
    assert_eq!(text_at(at(variant, "sku")), Some("AMS-001"));
    assert_eq!(text_at(at(variant, "price")), Some("12.5"));
    assert_eq!(text_at(at(variant, "inventory_management")), Some("shopify"));
    assert_eq!(integer_at(at(variant, "inventory_quantity")), Some(7));
    assert!(matches!(at(variant, "weight"), Some(Json::Decimal(t)) if t == "1.5"));
    let cost = sent(session.step(bytes(
        "{\"product\":{\"variants\":[{\"inventory_item_id\":77}]}}",
    )));
    assert_eq!(cost.url, format!("{}/inventory_items/77.json", BASE));
    assert_eq!(text_at(field(&cost, &["inventory_item", "cost"])), Some("8"));
    assert!(matches!(session.step(Reply::Ignored), Action::Finish));
    assert!(matches!(session.outcome, Some(Ok(Outcome::Created))));
}

#[test]
fn refused_creation_fails() {
    let service = store();
    let p = product("AMS-001");
    let mut session = service.create_product(&p);
    session.step(Reply::Ready);
    session.step(Reply::Ready);
    session.step(Reply::ErrorText("taken".to_string()));
    assert!(matches!(
        session.outcome,
        Some(Err(SyncError::CreateRejected(t))) if t == "taken"
    ));
}

#[test]
fn answers_that_cannot_be_read_fail() {
    let service = store();
    let p = product("AMS-001");
    let mut session = service.update_existing_product(&p, "");
    session.step(Reply::Ready);
    session.step(Reply::Ready);
    session.step(bytes("<html>"));
    assert!(matches!(session.outcome, Some(Err(SyncError::Undecodable(_)))));
    let mut odd = service.update_existing_product(&p, "");
    odd.step(Reply::Ignored);
    assert!(matches!(odd.outcome, Some(Err(SyncError::UnexpectedReply))));
}

#[test]
fn bulk_update_of_a_known_variant() {
    let p = product("AMS-001");
    let target = Target { variant: 11, item: 22, location: 0 };
    let mut session = ProductSession::update_variant(BASE, &p, target, false, 0);
    let track = sent(session.step(Reply::Ready));
    assert_eq!(track.url, format!("{}/inventory_items/22.json", BASE));
    waits(session.step(Reply::Ignored), 500);
    let set = sent(session.step(Reply::Ready));
    assert_eq!(integer_at(field(&set, &["location_id"])), Some(0));
    assert!(matches!(session.stage, Stage::Setting(_)));

    let mut followed = ProductSession::update_variant(BASE, &p, target, true, 9);
    let connect = sent(followed.step(Reply::Ready));
    assert_eq!(connect.url, format!("{}/inventory_levels/connect.json", BASE));
    assert_eq!(integer_at(field(&connect, &["location_id"])), Some(9));
}

#[test]
fn every_session_is_over_after_nineteen_replies() {
    let service = store();
    let p = product("AMS-001");
    let mut session = service.upsert_product(&p, "1");
    for _ in 0..19 {
        session.step(Reply::Ready);
    }
    assert_eq!(session.stage, Stage::Closed);
}

#[test]
fn found_products_are_not_created() {
    let service = store();
    let p = product("AMS-001");
    let answers: Vec<fn() -> Reply> = vec![
        || Reply::Ready,
        || Reply::Ignored,
        || Reply::Success,
        || Reply::Failed("UNAUTHORIZED".to_string()),
        || Reply::ErrorText("no".to_string()),
        || bytes("{}"),
        || bytes(NOT_FOUND),
        || body("{\"errors\":\"Exceeded 2 calls per second\"}"),
        || bytes("{\"inventory_levels\":[{\"location_id\":5}]}"),
    ];
    for first in 0..answers.len() {
        for second in 0..answers.len() {
            for third in 0..answers.len() {
                let mut session = service.upsert_product(&p, "33");
                session.step(Reply::Ready);
                session.step(Reply::Ready);
                session.step(bytes(FOUND));
                let order = [first, second, third];
                for turn in 0..16 {
                    if let Action::Send(request) = session.step(answers[order[turn % 3]]()) {
                        assert_ne!(request.url, format!("{}/products.json", BASE));
                    }
                }
                assert!(!matches!(session.outcome, Some(Ok(Outcome::Created))));
            }
        }
    }
}

#[test]
fn quantity_and_price_of_an_upsert_have_one_target() {
    let service = store();
    let p = product("AMS-001");
    let mut session = service.upsert_product(&p, "33");
    session.step(Reply::Ready);
    session.step(Reply::Ready);
    session.step(bytes(FOUND));
    session.step(Reply::Ignored);
    session.step(Reply::Ready);
    let set = sent(session.step(bytes("{\"inventory_levels\":[{\"location_id\":5}]}")));
    assert_eq!(integer_at(field(&set, &["inventory_item_id"])), Some(22));
    assert_eq!(integer_at(field(&set, &["location_id"])), Some(5));
    session.step(body("{}"));
    let price = sent(session.step(Reply::Ready));
    assert_eq!(price.url, format!("{}/variants/11.json", BASE));
    session.step(Reply::Success);
    assert!(matches!(session.outcome, Some(Ok(Outcome::Updated(5)))));
}

//! The requests that are sent to the store.
use vstd::prelude::*;
use vstd::string::*;

use crate::exchange::{Method, ReadMode, Request, RequestView};
use crate::json::{
    empty_object, law_absent_field_is_null, law_first_field_is_read, Json, JsonView,
};
use crate::models::Product;
use crate::numbers::{signed_decimal, signed_decimal_of};
use crate::text::{holds_text, stands_at};

verus! {

/// The query that looks a variant up by its SKU.
pub const LOOKUP_QUERY: &'static str = r#"
                query($sku: String!) {
                    productVariants(first: 1, query: $sku) {
                        edges {
                            node {
                                id
                                sku
                                price
                                inventoryItem {
                                    id
                                }
                            }
                        }
                    }
                }
            "#;

/// The start of the query for a page of variants, up to the place of the cursor.
pub const PAGE_QUERY_HEAD: &'static str = r#"{
                productVariants(first: 250"#;

/// The rest of the query for a page of variants with their stock.
pub const STOCK_QUERY_TAIL: &'static str = r#") {
                    pageInfo { hasNextPage endCursor }
                    edges {
                        node {
                            id
                            sku
                            price
                            inventoryQuantity
                            inventoryItem {
                                id
                                tracked 
                                inventoryLevels(first: 1) {
                                    edges {
                                        node {
                                            location { id }
                                        }
                                    }
                                }
                            }
                        }
                    }
                }
            }"#;

/// The rest of the query for a page of variants with their titles.
pub const TITLE_QUERY_TAIL: &'static str = r#") {
                    pageInfo { hasNextPage endCursor }
                    edges {
                        node {
                            id
                            sku
                            product { title }
                        }
                    }
                }
            }"#;

/// The address of the store's programming interface.
pub open spec fn base_address(store_url: Seq<char>) -> Seq<char> {
    "https://"@ + store_url + "/admin/api/2024-01"@
}

/// The address of the store's programming interface.
pub fn base_url(store_url: &str) -> (url: String)
    ensures
        url@ == base_address(store_url@),
{
    let mut url = "https://".to_owned();
    url.append(store_url);
    url.append("/admin/api/2024-01");
    url
}

/// A fixed address below the base address.
fn address(base: &str, path: &str) -> (url: String)
    ensures
        url@ == base@ + path@,
{
    let mut url = base.to_owned();
    url.append(path);
    url
}

/// The address of the document of a numbered item.
pub open spec fn item_address(base: Seq<char>, path: Seq<char>, id: int) -> Seq<char> {
    base + path + signed_decimal(id) + ".json"@
}

/// The address of the document of a numbered item.
fn item_url(base: &str, path: &str, id: i64) -> (url: String)
    ensures
        url@ == item_address(base@, path@, id as int),
{
    let mut url = address(base, path);
    let number = signed_decimal_of(id);
    url.append(number.as_str());
    url.append(".json");
    url
}

/// Asks for the variant that the store finds for a SKU.
pub open spec fn lookup(base: Seq<char>, sku: Seq<char>) -> RequestView {
    RequestView {
        method: Method::Post,
        url: base + "/graphql.json"@,
        body: Some(
            empty_object().with("query"@, JsonView::Text(LOOKUP_QUERY@)).with(
                "variables"@,
                empty_object().with("sku"@, JsonView::Text("sku:"@ + sku)),
            ),
        ),
        read: ReadMode::Json,
    }
}

/// Asks for the variant that the store finds for a SKU.
pub fn lookup_request(base: &str, sku: &str) -> (request: Request)
    ensures
        request@ == lookup(base@, sku@),
{
    let term = address("sku:", sku);
    Request {
        method: Method::Post,
        url: address(base, "/graphql.json"),
        body: Some(
            Json::object().with("query", Json::text(LOOKUP_QUERY)).with(
                "variables",
                Json::object().with("sku", Json::Text(term)),
            ),
        ),
        read: ReadMode::Json,
    }
}

/// Turns stock tracking on for an item.
pub open spec fn track(base: Seq<char>, item: int) -> RequestView {
    RequestView {
        method: Method::Put,
        url: item_address(base, "/inventory_items/"@, item),
        body: Some(
            empty_object().with(
                "inventory_item"@,
                empty_object().with("id"@, JsonView::Integer(item)).with(
                    "tracked"@,
                    JsonView::Bool(true),
                ),
            ),
        ),
        read: ReadMode::Ignore,
    }
}

/// Turns stock tracking on for an item.
pub fn track_request(base: &str, item: i64) -> (request: Request)
    ensures
        request@ == track(base@, item as int),
{
    Request {
        method: Method::Put,
        url: item_url(base, "/inventory_items/", item),
        body: Some(
            Json::object().with(
                "inventory_item",
                Json::object().with("id", Json::Integer(item)).with("tracked", Json::Bool(true)),
            ),
        ),
        read: ReadMode::Ignore,
    }
}

/// Asks at which locations an item is stocked.
pub open spec fn levels(base: Seq<char>, item: int) -> RequestView {
    RequestView {
        method: Method::Get,
        url: base + "/inventory_levels.json?inventory_item_ids="@ + signed_decimal(item),
        body: None,
        read: ReadMode::Json,
    }
}

/// Asks at which locations an item is stocked.
pub fn levels_request(base: &str, item: i64) -> (request: Request)
    ensures
        request@ == levels(base@, item as int),
{
    let mut url = address(base, "/inventory_levels.json?inventory_item_ids=");
    let number = signed_decimal_of(item);
    url.append(number.as_str());
    Request { method: Method::Get, url, body: None, read: ReadMode::Json }
}

/// Stocks an item at a location.
pub open spec fn connect(base: Seq<char>, location: int, item: int) -> RequestView {
    RequestView {
        method: Method::Post,
        url: base + "/inventory_levels/connect.json"@,
        body: Some(
            empty_object().with("location_id"@, JsonView::Integer(location)).with(
                "inventory_item_id"@,
                JsonView::Integer(item),
            ),
        ),
        read: ReadMode::Ignore,
    }
}

/// Stocks an item at a location.
pub fn connect_request(base: &str, location: i64, item: i64) -> (request: Request)
    ensures
        request@ == connect(base@, location as int, item as int),
{
    Request {
        method: Method::Post,
        url: address(base, "/inventory_levels/connect.json"),
        body: Some(
            Json::object().with("location_id", Json::Integer(location)).with(
                "inventory_item_id",
                Json::Integer(item),
            ),
        ),
        read: ReadMode::Ignore,
    }
}

/// Sets the quantity of an item at a location.
pub open spec fn set_quantity(
    base: Seq<char>,
    location: int,
    item: int,
    quantity: int,
) -> RequestView {
    RequestView {
        method: Method::Post,
        url: base + "/inventory_levels/set.json"@,
        body: Some(
            empty_object().with("location_id"@, JsonView::Integer(location)).with(
                "inventory_item_id"@,
                JsonView::Integer(item),
            ).with("available"@, JsonView::Integer(quantity)).with(
                "disconnect_if_necessary"@,
                JsonView::Bool(true),
            ),
        ),
        read: ReadMode::Text,
    }
}

/// Sets the quantity of an item at a location.
pub fn set_quantity_request(base: &str, location: i64, item: i64, quantity: i32) -> (request:
    Request)
    ensures
        request@ == set_quantity(base@, location as int, item as int, quantity as int),
{
    Request {
        method: Method::Post,
        url: address(base, "/inventory_levels/set.json"),
        body: Some(
            Json::object().with("location_id", Json::Integer(location)).with(
                "inventory_item_id",
                Json::Integer(item),
            ).with("available", Json::Integer(quantity as i64)).with(
                "disconnect_if_necessary",
                Json::Bool(true),
            ),
        ),
        read: ReadMode::Text,
    }
}

/// Sets the prices of a variant.
pub open spec fn set_price(base: Seq<char>, variant: int, product: Product) -> RequestView {
    RequestView {
        method: Method::Put,
        url: item_address(base, "/variants/"@, variant),
        body: Some(
            empty_object().with(
                "variant"@,
                empty_object().with("id"@, JsonView::Integer(variant)).with(
                    "price"@,
                    JsonView::Text(product.price.text@),
                ).with("compare_at_price"@, JsonView::Text(product.compare_at_price.text@)),
            ),
        ),
        read: ReadMode::ErrorText,
    }
}

/// Sets the prices of a variant.
pub fn set_price_request(base: &str, variant: i64, product: &Product) -> (request: Request)
    ensures
        request@ == set_price(base@, variant as int, *product),
{
    Request {
        method: Method::Put,
        url: item_url(base, "/variants/", variant),
        body: Some(
            Json::object().with(
                "variant",
                Json::object().with("id", Json::Integer(variant)).with(
                    "price",
                    Json::text(product.price.text.as_str()),
                ).with(
                    "compare_at_price",
                    Json::text(product.compare_at_price.text.as_str()),
                ),
            ),
        ),
        read: ReadMode::ErrorText,
    }
}

/// The only variant of a new product.
pub open spec fn new_variant(product: Product) -> JsonView {
    empty_object().with("sku"@, JsonView::Text(product.sku@)).with(
        "price"@,
        JsonView::Text(product.price.text@),
    ).with("compare_at_price"@, JsonView::Text(product.compare_at_price.text@)).with(
        "inventory_management"@,
        JsonView::Text("shopify"@),
    ).with("inventory_quantity"@, JsonView::Integer(product.inventory_quantity as int)).with(
        "barcode"@,
        JsonView::Text(product.barcode@),
    ).with("weight"@, JsonView::Decimal(product.weight.text@))
}

/// A new product, which enters the store as a draft.
pub open spec fn new_product(product: Product) -> JsonView {
    empty_object().with("title"@, JsonView::Text(product.title@)).with(
        "vendor"@,
        JsonView::Text(product.oem@),
    ).with("body_html"@, JsonView::Text(product.description@)).with(
        "handle"@,
        JsonView::Text(product.handle@),
    ).with("status"@, JsonView::Text("draft"@)).with(
        "variants"@,
        JsonView::Array(seq![new_variant(product)]),
    )
}

/// Adds a product to the store.
pub open spec fn create(base: Seq<char>, product: Product) -> RequestView {
    RequestView {
        method: Method::Post,
        url: base + "/products.json"@,
        body: Some(empty_object().with("product"@, new_product(product))),
        read: ReadMode::JsonOrErrorText,
    }
}

/// Adds a product to the store.
pub fn create_request(base: &str, product: &Product) -> (request: Request)
    ensures
        request@ == create(base@, *product),
{
    let variant = Json::object().with("sku", Json::text(product.sku.as_str())).with(
        "price",
        Json::text(product.price.text.as_str()),
    ).with("compare_at_price", Json::text(product.compare_at_price.text.as_str())).with(
        "inventory_management",
        Json::text("shopify"),
    ).with("inventory_quantity", Json::Integer(product.inventory_quantity as i64)).with(
        "barcode",
        Json::text(product.barcode.as_str()),
    ).with("weight", Json::Decimal(product.weight.text.clone()));
    let entry = Json::object().with("title", Json::text(product.title.as_str())).with(
        "vendor",
        Json::text(product.oem.as_str()),
    ).with("body_html", Json::text(product.description.as_str())).with(
        "handle",
        Json::text(product.handle.as_str()),
    ).with("status", Json::text("draft")).with("variants", Json::single(variant));
    Request {
        method: Method::Post,
        url: address(base, "/products.json"),
        body: Some(Json::object().with("product", entry)),
        read: ReadMode::JsonOrErrorText,
    }
}

/// Sets the cost of an item and turns stock tracking on for it.
pub open spec fn set_cost(base: Seq<char>, item: int, product: Product) -> RequestView {
    RequestView {
        method: Method::Put,
        url: item_address(base, "/inventory_items/"@, item),
        body: Some(
            empty_object().with(
                "inventory_item"@,
                empty_object().with("id"@, JsonView::Integer(item)).with(
                    "cost"@,
                    JsonView::Text(product.cost.text@),
                ).with("tracked"@, JsonView::Bool(true)),
            ),
        ),
        read: ReadMode::Ignore,
    }
}

/// Sets the cost of an item and turns stock tracking on for it.
pub fn set_cost_request(base: &str, item: i64, product: &Product) -> (request: Request)
    ensures
        request@ == set_cost(base@, item as int, *product),
{
    Request {
        method: Method::Put,
        url: item_url(base, "/inventory_items/", item),
        body: Some(
            Json::object().with(
                "inventory_item",
                Json::object().with("id", Json::Integer(item)).with(
                    "cost",
                    Json::text(product.cost.text.as_str()),
                ).with("tracked", Json::Bool(true)),
            ),
        ),
        read: ReadMode::Ignore,
    }
}

/// Gives a variant another SKU.
pub open spec fn set_sku(base: Seq<char>, variant: int, sku: Seq<char>) -> RequestView {
    RequestView {
        method: Method::Put,
        url: item_address(base, "/variants/"@, variant),
        body: Some(
            empty_object().with(
                "variant"@,
                empty_object().with("id"@, JsonView::Integer(variant)).with(
                    "sku"@,
                    JsonView::Text(sku),
                ),
            ),
        ),
        read: ReadMode::ErrorText,
    }
}

/// Gives a variant another SKU.
pub fn set_sku_request(base: &str, variant: i64, sku: &str) -> (request: Request)
    ensures
        request@ == set_sku(base@, variant as int, sku@),
{
    Request {
        method: Method::Put,
        url: item_url(base, "/variants/", variant),
        body: Some(
            Json::object().with(
                "variant",
                Json::object().with("id", Json::Integer(variant)).with("sku", Json::text(sku)),
            ),
        ),
        read: ReadMode::ErrorText,
    }
}

/// The query for the page of variants behind `cursor`, with the rest `tail`.
pub open spec fn page_query(cursor: Option<Seq<char>>, tail: Seq<char>) -> Seq<char> {
    PAGE_QUERY_HEAD@ + match cursor {
        Some(c) => ", after: \""@ + c + "\""@,
        None => Seq::<char>::empty(),
    } + tail
}

/// Asks for the page of variants behind `cursor`, with the rest `tail` of the query.
pub open spec fn page(base: Seq<char>, cursor: Option<Seq<char>>, tail: Seq<char>) -> RequestView {
    RequestView {
        method: Method::Post,
        url: base + "/graphql.json"@,
        body: Some(empty_object().with("query"@, JsonView::Text(page_query(cursor, tail)))),
        read: ReadMode::Json,
    }
}

/// Asks for the page of variants behind `cursor`, with the rest `tail` of the query.
pub fn page_request(base: &str, cursor: &Option<String>, tail: &str) -> (request: Request)
    ensures
        request@ == page(base@, crate::text::optional(*cursor), tail@),
{
    let mut query = PAGE_QUERY_HEAD.to_owned();
    match cursor {
        Some(c) => {
            query.append(", after: \"");
            query.append(c.as_str());
            query.append("\"");
            assert(query@ =~= PAGE_QUERY_HEAD@ + (", after: \""@ + c@ + "\""@));
        },
        None => {
            assert(query@ =~= PAGE_QUERY_HEAD@ + Seq::<char>::empty());
        },
    }
    query.append(tail);
    Request {
        method: Method::Post,
        url: address(base, "/graphql.json"),
        body: Some(Json::object().with("query", Json::Text(query))),
        read: ReadMode::Json,
    }
}

/// Asks for an access token.
pub open spec fn token(store_url: Seq<char>, id: Seq<char>, secret: Seq<char>) -> RequestView {
    RequestView {
        method: Method::Post,
        url: "https://"@ + store_url + "/admin/oauth/access_token"@,
        body: Some(
            empty_object().with("client_id"@, JsonView::Text(id)).with(
                "client_secret"@,
                JsonView::Text(secret),
            ).with("grant_type"@, JsonView::Text("client_credentials"@)),
        ),
        read: ReadMode::JsonOrErrorText,
    }
}

/// Asks for an access token.
pub fn token_request(store_url: &str, id: &str, secret: &str) -> (request: Request)
    ensures
        request@ == token(store_url@, id@, secret@),
{
    let mut url = address("https://", store_url);
    url.append("/admin/oauth/access_token");
    Request {
        method: Method::Post,
        url,
        body: Some(
            Json::object().with("client_id", Json::text(id)).with(
                "client_secret",
                Json::text(secret),
            ).with("grant_type", Json::text("client_credentials")),
        ),
        read: ReadMode::JsonOrErrorText,
    }
}

/// The field at a place of a small object is read by its name, where the names
/// before it are others.
proof fn lemma_read(json: JsonView, i: int, key: Seq<char>)
    requires
        json is Object,
        0 <= i < json->Object_0.len(),
        i <= 6,
        json->Object_0[i].0 == key,
        i > 0 ==> json->Object_0[0].0 != key,
        i > 1 ==> json->Object_0[1].0 != key,
        i > 2 ==> json->Object_0[2].0 != key,
        i > 3 ==> json->Object_0[3].0 != key,
        i > 4 ==> json->Object_0[4].0 != key,
        i > 5 ==> json->Object_0[5].0 != key,
    ensures
        json.has_field(key),
        json.field(key) == json->Object_0[i].1,
{
    law_first_field_is_read(json, i);
}

/// The request that adds a product carries the product's own data, as a draft
/// with one variant.
pub proof fn law_created_product_carries_its_data(base: Seq<char>, product: Product)
    ensures
        ({
            let request = create(base, product);
            let entry = request.body->0.field("product"@);
            let variants = entry.field("variants"@);
            let variant = variants->Array_0[0];
            &&& request.method == Method::Post
            &&& request.url == base + "/products.json"@
            &&& request.read == ReadMode::JsonOrErrorText
            &&& request.body is Some
            &&& entry.field("title"@) == JsonView::Text(product.title@)
            &&& entry.field("vendor"@) == JsonView::Text(product.oem@)
            &&& entry.field("body_html"@) == JsonView::Text(product.description@)
            &&& entry.field("handle"@) == JsonView::Text(product.handle@)
            &&& entry.field("status"@) == JsonView::Text("draft"@)
            &&& variants is Array
            &&& variants->Array_0.len() == 1
            &&& variant.field("sku"@) == JsonView::Text(product.sku@)
            &&& variant.field("price"@) == JsonView::Text(product.price.text@)
            &&& variant.field("compare_at_price"@) == JsonView::Text(
                product.compare_at_price.text@,
            )
            &&& variant.field("inventory_management"@) == JsonView::Text("shopify"@)
            &&& variant.field("inventory_quantity"@) == JsonView::Integer(
                product.inventory_quantity as int,
            )
            &&& variant.field("barcode"@) == JsonView::Text(product.barcode@)
            &&& variant.field("weight"@) == JsonView::Decimal(product.weight.text@)
        }),
{
    reveal_strlit("product");
    reveal_strlit("title");
    reveal_strlit("vendor");
    reveal_strlit("body_html");
    reveal_strlit("handle");
    reveal_strlit("status");
    reveal_strlit("variants");
    reveal_strlit("sku");
    reveal_strlit("price");
    reveal_strlit("compare_at_price");
    reveal_strlit("inventory_management");
    reveal_strlit("inventory_quantity");
    reveal_strlit("barcode");
    reveal_strlit("weight");
    assert("title"@.len() != "vendor"@.len());
    assert("title"@.len() != "body_html"@.len());
    assert("title"@.len() != "handle"@.len());
    assert("title"@.len() != "status"@.len());
    assert("title"@.len() != "variants"@.len());
    assert("vendor"@.len() != "body_html"@.len());
    assert("vendor"@[0] != "handle"@[0]);
    assert("vendor"@[0] != "status"@[0]);
    assert("vendor"@.len() != "variants"@.len());
    assert("body_html"@.len() != "handle"@.len());
    assert("body_html"@.len() != "status"@.len());
    assert("body_html"@.len() != "variants"@.len());
    assert("handle"@[0] != "status"@[0]);
    assert("handle"@.len() != "variants"@.len());
    assert("status"@.len() != "variants"@.len());
    let body = create(base, product).body->0;
    lemma_read(body, 0, "product"@);
    let entry = new_product(product);
    lemma_read(entry, 0, "title"@);
    lemma_read(entry, 1, "vendor"@);
    lemma_read(entry, 2, "body_html"@);
    lemma_read(entry, 3, "handle"@);
    lemma_read(entry, 4, "status"@);
    lemma_read(entry, 5, "variants"@);
    assert("sku"@.len() != "price"@.len());
    assert("sku"@.len() != "compare_at_price"@.len());
    assert("sku"@.len() != "inventory_management"@.len());
    assert("sku"@.len() != "inventory_quantity"@.len());
    assert("sku"@.len() != "barcode"@.len());
    assert("sku"@.len() != "weight"@.len());
    assert("price"@.len() != "compare_at_price"@.len());
    assert("price"@.len() != "inventory_management"@.len());
    assert("price"@.len() != "inventory_quantity"@.len());
    assert("price"@.len() != "barcode"@.len());
    assert("price"@.len() != "weight"@.len());
    assert("compare_at_price"@.len() != "inventory_management"@.len());
    assert("compare_at_price"@.len() != "inventory_quantity"@.len());
    assert("compare_at_price"@.len() != "barcode"@.len());
    assert("compare_at_price"@.len() != "weight"@.len());
    assert("inventory_management"@.len() != "inventory_quantity"@.len());
    assert("inventory_management"@.len() != "barcode"@.len());
    assert("inventory_management"@.len() != "weight"@.len());
    assert("inventory_quantity"@.len() != "barcode"@.len());
    assert("inventory_quantity"@.len() != "weight"@.len());
    assert("barcode"@.len() != "weight"@.len());
    let variant = new_variant(product);
    lemma_read(variant, 0, "sku"@);
    lemma_read(variant, 1, "price"@);
    lemma_read(variant, 2, "compare_at_price"@);
    lemma_read(variant, 3, "inventory_management"@);
    lemma_read(variant, 4, "inventory_quantity"@);
    lemma_read(variant, 5, "barcode"@);
    lemma_read(variant, 6, "weight"@);
}

/// The request for a new quantity names the location and the item, and makes
/// the quantity the available one.
pub proof fn law_quantity_request_carries_its_data(
    base: Seq<char>,
    location: int,
    item: int,
    quantity: int,
)
    ensures
        ({
            let request = set_quantity(base, location, item, quantity);
            let body = request.body->0;
            &&& request.method == Method::Post
            &&& request.url == base + "/inventory_levels/set.json"@
            &&& request.read == ReadMode::Text
            &&& request.body is Some
            &&& body.field("location_id"@) == JsonView::Integer(location)
            &&& body.field("inventory_item_id"@) == JsonView::Integer(item)
            &&& body.field("available"@) == JsonView::Integer(quantity)
            &&& body.field("disconnect_if_necessary"@) == JsonView::Bool(true)
        }),
{
    reveal_strlit("location_id");
    reveal_strlit("inventory_item_id");
    reveal_strlit("available");
    reveal_strlit("disconnect_if_necessary");
    assert("location_id"@.len() != "inventory_item_id"@.len());
    assert("location_id"@.len() != "available"@.len());
    assert("location_id"@.len() != "disconnect_if_necessary"@.len());
    assert("inventory_item_id"@.len() != "available"@.len());
    assert("inventory_item_id"@.len() != "disconnect_if_necessary"@.len());
    assert("available"@.len() != "disconnect_if_necessary"@.len());
    let body = set_quantity(base, location, item, quantity).body->0;
    lemma_read(body, 0, "location_id"@);
    lemma_read(body, 1, "inventory_item_id"@);
    lemma_read(body, 2, "available"@);
    lemma_read(body, 3, "disconnect_if_necessary"@);
}

/// The request that stocks an item at a location names the two.
pub proof fn law_connect_request_carries_its_data(base: Seq<char>, location: int, item: int)
    ensures
        ({
            let request = connect(base, location, item);
            let body = request.body->0;
            &&& request.method == Method::Post
            &&& request.url == base + "/inventory_levels/connect.json"@
            &&& request.read == ReadMode::Ignore
            &&& request.body is Some
            &&& body.field("location_id"@) == JsonView::Integer(location)
            &&& body.field("inventory_item_id"@) == JsonView::Integer(item)
        }),
{
    reveal_strlit("location_id");
    reveal_strlit("inventory_item_id");
    assert("location_id"@.len() != "inventory_item_id"@.len());
    let body = connect(base, location, item).body->0;
    lemma_read(body, 0, "location_id"@);
    lemma_read(body, 1, "inventory_item_id"@);
}

/// The request for new prices goes to the variant and carries the sell price
/// and the list price of the product.
pub proof fn law_price_request_carries_its_data(base: Seq<char>, variant: int, product: Product)
    ensures
        ({
            let request = set_price(base, variant, product);
            let entry = request.body->0.field("variant"@);
            &&& request.method == Method::Put
            &&& request.url == base + "/variants/"@ + signed_decimal(variant) + ".json"@
            &&& request.read == ReadMode::ErrorText
            &&& request.body is Some
            &&& entry.field("id"@) == JsonView::Integer(variant)
            &&& entry.field("price"@) == JsonView::Text(product.price.text@)
            &&& entry.field("compare_at_price"@) == JsonView::Text(product.compare_at_price.text@)
        }),
{
    reveal_strlit("variant");
    reveal_strlit("id");
    reveal_strlit("price");
    reveal_strlit("compare_at_price");
    assert("id"@.len() != "price"@.len());
    assert("id"@.len() != "compare_at_price"@.len());
    assert("price"@.len() != "compare_at_price"@.len());
    let body = set_price(base, variant, product).body->0;
    lemma_read(body, 0, "variant"@);
    let entry = body.field("variant"@);
    lemma_read(entry, 0, "id"@);
    lemma_read(entry, 1, "price"@);
    lemma_read(entry, 2, "compare_at_price"@);
}

/// The request for the cost of an item goes to the item, carries the cost of
/// the product, and turns stock tracking on.
pub proof fn law_cost_request_carries_its_data(base: Seq<char>, item: int, product: Product)
    ensures
        ({
            let request = set_cost(base, item, product);
            let entry = request.body->0.field("inventory_item"@);
            &&& request.method == Method::Put
            &&& request.url == base + "/inventory_items/"@ + signed_decimal(item) + ".json"@
            &&& request.read == ReadMode::Ignore
            &&& request.body is Some
            &&& entry.field("id"@) == JsonView::Integer(item)
            &&& entry.field("cost"@) == JsonView::Text(product.cost.text@)
            &&& entry.field("tracked"@) == JsonView::Bool(true)
        }),
{
    reveal_strlit("inventory_item");
    reveal_strlit("id");
    reveal_strlit("cost");
    reveal_strlit("tracked");
    assert("id"@.len() != "cost"@.len());
    assert("id"@.len() != "tracked"@.len());
    assert("cost"@.len() != "tracked"@.len());
    let body = set_cost(base, item, product).body->0;
    lemma_read(body, 0, "inventory_item"@);
    let entry = body.field("inventory_item"@);
    lemma_read(entry, 0, "id"@);
    lemma_read(entry, 1, "cost"@);
    lemma_read(entry, 2, "tracked"@);
}

/// The request that turns stock tracking on goes to the item.
pub proof fn law_track_request_carries_its_data(base: Seq<char>, item: int)
    ensures
        ({
            let request = track(base, item);
            let entry = request.body->0.field("inventory_item"@);
            &&& request.method == Method::Put
            &&& request.url == base + "/inventory_items/"@ + signed_decimal(item) + ".json"@
            &&& request.read == ReadMode::Ignore
            &&& request.body is Some
            &&& entry.field("id"@) == JsonView::Integer(item)
            &&& entry.field("tracked"@) == JsonView::Bool(true)
            &&& !entry.has_field("cost"@)
        }),
{
    reveal_strlit("inventory_item");
    reveal_strlit("id");
    reveal_strlit("cost");
    reveal_strlit("tracked");
    assert("id"@.len() != "cost"@.len());
    assert("id"@.len() != "tracked"@.len());
    assert("cost"@.len() != "tracked"@.len());
    let body = track(base, item).body->0;
    lemma_read(body, 0, "inventory_item"@);
    let entry = body.field("inventory_item"@);
    lemma_read(entry, 0, "id"@);
    lemma_read(entry, 1, "tracked"@);
    law_absent_field_is_null(entry, "cost"@);
}

/// The request for another SKU goes to the variant, carries the SKU, and leaves
/// the prices of the variant alone.
pub proof fn law_sku_request_carries_its_data(base: Seq<char>, variant: int, sku: Seq<char>)
    ensures
        ({
            let request = set_sku(base, variant, sku);
            let entry = request.body->0.field("variant"@);
            &&& request.method == Method::Put
            &&& request.url == base + "/variants/"@ + signed_decimal(variant) + ".json"@
            &&& request.read == ReadMode::ErrorText
            &&& request.body is Some
            &&& entry.field("id"@) == JsonView::Integer(variant)
            &&& entry.field("sku"@) == JsonView::Text(sku)
            &&& !entry.has_field("price"@)
        }),
{
    reveal_strlit("variant");
    reveal_strlit("id");
    reveal_strlit("sku");
    reveal_strlit("price");
    assert("id"@.len() != "sku"@.len());
    assert("id"@.len() != "price"@.len());
    assert("sku"@.len() != "price"@.len());
    let body = set_sku(base, variant, sku).body->0;
    lemma_read(body, 0, "variant"@);
    let entry = body.field("variant"@);
    lemma_read(entry, 0, "id"@);
    lemma_read(entry, 1, "sku"@);
    law_absent_field_is_null(entry, "price"@);
}

/// The look-up asks for the SKU as it is.
pub proof fn law_lookup_request_carries_its_data(base: Seq<char>, sku: Seq<char>)
    ensures
        ({
            let request = lookup(base, sku);
            let body = request.body->0;
            &&& request.method == Method::Post
            &&& request.url == base + "/graphql.json"@
            &&& request.read == ReadMode::Json
            &&& request.body is Some
            &&& body.field("query"@) == JsonView::Text(LOOKUP_QUERY@)
            &&& body.field("variables"@).field("sku"@) == JsonView::Text("sku:"@ + sku)
        }),
{
    reveal_strlit("query");
    reveal_strlit("variables");
    reveal_strlit("sku");
    assert("query"@.len() != "variables"@.len());
    let body = lookup(base, sku).body->0;
    lemma_read(body, 0, "query"@);
    lemma_read(body, 1, "variables"@);
    lemma_read(body.field("variables"@), 0, "sku"@);
}

/// The question for the locations of an item names the item alone.
pub proof fn law_levels_request_names_its_item(base: Seq<char>, item: int)
    ensures
        levels(base, item).method == Method::Get,
        levels(base, item).url == base + "/inventory_levels.json?inventory_item_ids="@
            + signed_decimal(item),
        levels(base, item).body is None,
        levels(base, item).read == ReadMode::Json,
{
}

/// The question for a page of variants holds the cursor between quotation
/// marks behind the head of the query, and no cursor where there is none.
pub proof fn law_page_request_carries_its_cursor(base: Seq<char>, cursor: Seq<char>, tail: Seq<char>)
    ensures
        ({
            let first = page(base, None, tail);
            let next = page(base, Some(cursor), tail);
            let head = PAGE_QUERY_HEAD@;
            &&& first.method == Method::Post && next.method == Method::Post
            &&& first.url == base + "/graphql.json"@ && next.url == base + "/graphql.json"@
            &&& first.read == ReadMode::Json && next.read == ReadMode::Json
            &&& first.body is Some && next.body is Some
            &&& first.body->0.field("query"@) == JsonView::Text(head + tail)
            &&& next.body->0.field("query"@) == JsonView::Text(
                head + ", after: \""@ + cursor + "\""@ + tail,
            )
        }),
{
    reveal_strlit("query");
    lemma_read(page(base, None, tail).body->0, 0, "query"@);
    lemma_read(page(base, Some(cursor), tail).body->0, 0, "query"@);
    assert(page_query(None, tail) =~= PAGE_QUERY_HEAD@ + tail);
    assert(page_query(Some(cursor), tail) =~= PAGE_QUERY_HEAD@ + ", after: \""@ + cursor + "\""@
        + tail);
}

/// The request for a token goes to the store and carries the credentials.
pub proof fn law_token_request_carries_its_data(
    store_url: Seq<char>,
    id: Seq<char>,
    secret: Seq<char>,
)
    ensures
        ({
            let request = token(store_url, id, secret);
            let body = request.body->0;
            &&& request.method == Method::Post
            &&& request.url == "https://"@ + store_url + "/admin/oauth/access_token"@
            &&& request.read == ReadMode::JsonOrErrorText
            &&& request.body is Some
            &&& body.field("client_id"@) == JsonView::Text(id)
            &&& body.field("client_secret"@) == JsonView::Text(secret)
            &&& body.field("grant_type"@) == JsonView::Text("client_credentials"@)
        }),
{
    reveal_strlit("client_id");
    reveal_strlit("client_secret");
    reveal_strlit("grant_type");
    assert("client_id"@.len() != "client_secret"@.len());
    assert("client_id"@.len() != "grant_type"@.len());
    assert("client_secret"@.len() != "grant_type"@.len());
    let body = token(store_url, id, secret).body->0;
    lemma_read(body, 0, "client_id"@);
    lemma_read(body, 1, "client_secret"@);
    lemma_read(body, 2, "grant_type"@);
}

/// The base address is that of the store, with its interface of January 2024.
pub proof fn law_base_address(store_url: Seq<char>)
    ensures
        base_address(store_url) == "https://"@ + store_url + "/admin/api/2024-01"@,
{
}

/// The look-up asks for one variant by the given SKU, with its identifier, its SKU,
/// its price and its item.
pub proof fn law_lookup_asks_for_what_is_read()
    ensures
        holds_text(LOOKUP_QUERY@, "query($sku: String!)"@),
        holds_text(LOOKUP_QUERY@, "productVariants(first: 1, query: $sku)"@),
        holds_text(LOOKUP_QUERY@, "id"@),
        holds_text(LOOKUP_QUERY@, "price"@),
        holds_text(LOOKUP_QUERY@, "inventoryItem {"@),
{
    reveal_strlit(
        r#"
                query($sku: String!) {
                    productVariants(first: 1, query: $sku) {
                        edges {
                            node {
                                id
                                sku
                                price
                                inventoryItem {
                                    id
                                }
                            }
                        }
                    }
                }
            "#,
    );
    reveal_strlit("query($sku: String!)");
    assert(LOOKUP_QUERY@.subrange(17, 37) =~= "query($sku: String!)"@);
    assert(stands_at(LOOKUP_QUERY@, "query($sku: String!)"@, 17));
    reveal_strlit("productVariants(first: 1, query: $sku)");
    assert(LOOKUP_QUERY@.subrange(60, 98) =~= "productVariants(first: 1, query: $sku)"@);
    assert(stands_at(LOOKUP_QUERY@, "productVariants(first: 1, query: $sku)"@, 60));
    reveal_strlit("id");
    assert(LOOKUP_QUERY@.subrange(200, 202) =~= "id"@);
    assert(stands_at(LOOKUP_QUERY@, "id"@, 200));
    reveal_strlit("price");
    assert(LOOKUP_QUERY@.subrange(271, 276) =~= "price"@);
    assert(stands_at(LOOKUP_QUERY@, "price"@, 271));
    reveal_strlit("inventoryItem {");
    assert(LOOKUP_QUERY@.subrange(309, 324) =~= "inventoryItem {"@);
    assert(stands_at(LOOKUP_QUERY@, "inventoryItem {"@, 309));
}

/// A page of stock asks, for each variant, for all that the comparison needs, and
/// for what leads to the next page.
pub proof fn law_stock_pages_ask_for_what_is_read()
    ensures
        holds_text(PAGE_QUERY_HEAD@, "productVariants(first: 250"@),
        holds_text(STOCK_QUERY_TAIL@, "pageInfo { hasNextPage endCursor }"@),
        holds_text(STOCK_QUERY_TAIL@, "id"@),
        holds_text(STOCK_QUERY_TAIL@, "sku"@),
        holds_text(STOCK_QUERY_TAIL@, "price"@),
        holds_text(STOCK_QUERY_TAIL@, "inventoryQuantity"@),
        holds_text(STOCK_QUERY_TAIL@, "inventoryItem {"@),
        holds_text(STOCK_QUERY_TAIL@, "tracked"@),
        holds_text(STOCK_QUERY_TAIL@, "inventoryLevels(first: 1)"@),
        holds_text(STOCK_QUERY_TAIL@, "location { id }"@),
{
    reveal_strlit(
        r#"{
                productVariants(first: 250"#,
    );
    reveal_strlit("productVariants(first: 250");
    assert(PAGE_QUERY_HEAD@.subrange(18, 44) =~= "productVariants(first: 250"@);
    assert(stands_at(PAGE_QUERY_HEAD@, "productVariants(first: 250"@, 18));
    reveal_strlit(
        r#") {
                    pageInfo { hasNextPage endCursor }
                    edges {
                        node {
                            id
                            sku
                            price
                            inventoryQuantity
                            inventoryItem {
                                id
                                tracked 
                                inventoryLevels(first: 1) {
                                    edges {
                                        node {
                                            location { id }
                                        }
                                    }
                                }
                            }
                        }
                    }
                }
            }"#,
    );
    reveal_strlit("pageInfo { hasNextPage endCursor }");
    assert(STOCK_QUERY_TAIL@.subrange(24, 58) =~= "pageInfo { hasNextPage endCursor }"@);
    assert(stands_at(STOCK_QUERY_TAIL@, "pageInfo { hasNextPage endCursor }"@, 24));
    reveal_strlit("id");
    assert(STOCK_QUERY_TAIL@.subrange(146, 148) =~= "id"@);
    assert(stands_at(STOCK_QUERY_TAIL@, "id"@, 146));
    reveal_strlit("sku");
    assert(STOCK_QUERY_TAIL@.subrange(177, 180) =~= "sku"@);
    assert(stands_at(STOCK_QUERY_TAIL@, "sku"@, 177));
    reveal_strlit("price");
    assert(STOCK_QUERY_TAIL@.subrange(209, 214) =~= "price"@);
    assert(stands_at(STOCK_QUERY_TAIL@, "price"@, 209));
    reveal_strlit("inventoryQuantity");
    assert(STOCK_QUERY_TAIL@.subrange(243, 260) =~= "inventoryQuantity"@);
    assert(stands_at(STOCK_QUERY_TAIL@, "inventoryQuantity"@, 243));
    reveal_strlit("inventoryItem {");
    assert(STOCK_QUERY_TAIL@.subrange(289, 304) =~= "inventoryItem {"@);
    assert(stands_at(STOCK_QUERY_TAIL@, "inventoryItem {"@, 289));
    reveal_strlit("tracked");
    assert(STOCK_QUERY_TAIL@.subrange(372, 379) =~= "tracked"@);
    assert(stands_at(STOCK_QUERY_TAIL@, "tracked"@, 372));
    reveal_strlit("inventoryLevels(first: 1)");
    assert(STOCK_QUERY_TAIL@.subrange(413, 438) =~= "inventoryLevels(first: 1)"@);
    assert(stands_at(STOCK_QUERY_TAIL@, "inventoryLevels(first: 1)"@, 413));
    reveal_strlit("location { id }");
    assert(STOCK_QUERY_TAIL@.subrange(576, 591) =~= "location { id }"@);
    assert(stands_at(STOCK_QUERY_TAIL@, "location { id }"@, 576));
}

/// A page of titles asks, for each variant, for its identifier, its SKU and the
/// title of its product, and for what leads to the next page.
pub proof fn law_title_pages_ask_for_what_is_read()
    ensures
        holds_text(TITLE_QUERY_TAIL@, "pageInfo { hasNextPage endCursor }"@),
        holds_text(TITLE_QUERY_TAIL@, "id"@),
        holds_text(TITLE_QUERY_TAIL@, "sku"@),
        holds_text(TITLE_QUERY_TAIL@, "product { title }"@),
{
    reveal_strlit(
        r#") {
                    pageInfo { hasNextPage endCursor }
                    edges {
                        node {
                            id
                            sku
                            product { title }
                        }
                    }
                }
            }"#,
    );
    reveal_strlit("pageInfo { hasNextPage endCursor }");
    assert(TITLE_QUERY_TAIL@.subrange(24, 58) =~= "pageInfo { hasNextPage endCursor }"@);
    assert(stands_at(TITLE_QUERY_TAIL@, "pageInfo { hasNextPage endCursor }"@, 24));
    reveal_strlit("id");
    assert(TITLE_QUERY_TAIL@.subrange(146, 148) =~= "id"@);
    assert(stands_at(TITLE_QUERY_TAIL@, "id"@, 146));
    reveal_strlit("sku");
    assert(TITLE_QUERY_TAIL@.subrange(177, 180) =~= "sku"@);
    assert(stands_at(TITLE_QUERY_TAIL@, "sku"@, 177));
    reveal_strlit("product { title }");
    assert(TITLE_QUERY_TAIL@.subrange(209, 226) =~= "product { title }"@);
    assert(stands_at(TITLE_QUERY_TAIL@, "product { title }"@, 209));
}

} // verus!

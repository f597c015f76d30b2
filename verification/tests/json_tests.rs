use shopify_inventory_manager::exchange::{decode, is_rate_limited, RawReply, Reply};
use shopify_inventory_manager::json::{
    at, compact_text, first_at, integer_at, items_at, parse_bytes, parse_text, pretty_text, text_at,
    text_or_empty, true_at, Json,
};

fn doc(text: &str) -> Json {
    match parse_text(text) {
        Ok(json) => json,
        Err(message) => panic!("{}", message),
    }
}

#[test]
fn documents_are_read_as_plain_values() {
    let json = doc(
        "{\"b\": [1, -2.5, true, null, \"x\", {}], \"a\": 18446744073709551615, \"b2\": 1e3}",
    );
    let root = Some(&json);
    let items = items_at(at(root, "b")).unwrap();
    assert_eq!(items.len(), 6);
    assert!(matches!(&items[0], Json::Integer(1)));
    assert!(matches!(&items[1], Json::Decimal(t) if t == "-2.5"));
    assert!(true_at(Some(&items[2])));
    assert!(matches!(&items[3], Json::Null));
    assert_eq!(text_at(Some(&items[4])), Some("x"));
    assert!(matches!(&items[5], Json::Object(fields) if fields.is_empty()));
    assert!(matches!(at(root, "a"), Some(Json::Decimal(t)) if t == "18446744073709551615"));
    assert!(matches!(at(root, "b2"), Some(Json::Decimal(t)) if t == "1000.0"));
}

#[test]
fn faulty_documents_are_refused() {
    assert!(parse_text("{").is_err());
    assert_eq!(
        parse_text("").err(),
        Some("EOF while parsing a value at line 1 column 0".to_string())
    );
    assert!(parse_bytes(&vec![0xff, 0xfe]).is_err());
    assert!(matches!(parse_bytes(&b"[7]".to_vec()), Ok(Json::Array(items)) if items.len() == 1));
}

#[test]
fn deep_documents_are_read_up_to_the_limit() {
    let nested = |n: usize| format!("{}{}", "[".repeat(n), "]".repeat(n));
    assert!(parse_text(nested(100).as_str()).is_ok());
    assert!(parse_text(nested(127).as_str()).is_ok());
    assert!(parse_text(nested(200).as_str()).is_err());
}

#[test]
fn missing_places_hold_nothing() {
    let json = doc("{\"data\": {\"n\": \"5\", \"list\": []}}");
    let data = at(Some(&json), "data");
    assert!(at(at(data, "gone"), "further").is_none());
    assert!(at(Some(&Json::Integer(1)), "data").is_none());
    assert_eq!(integer_at(at(data, "n")), None);
    assert_eq!(text_or_empty(at(data, "n")), "5");
    assert_eq!(text_or_empty(at(data, "gone")), "");
    assert!(first_at(at(data, "list")).is_none());
    assert!(!true_at(at(data, "n")));
}

#[test]
fn added_field_is_read_and_others_stay() {
    let json = Json::object().with("a", Json::Integer(1)).with("b", Json::text("two"));
    let root = Some(&json);
    assert_eq!(integer_at(at(root, "a")), Some(1));
    assert_eq!(text_at(at(root, "b")), Some("two"));
    assert!(at(root, "c").is_none());
    let one = Json::single(Json::Bool(true));
    assert!(true_at(first_at(Some(&one))));
}

#[test]
fn replies_are_decoded() {
    assert!(matches!(decode(RawReply::Ready), Reply::Ready));
    assert!(matches!(decode(RawReply::Ignored), Reply::Ignored));
    assert!(matches!(decode(RawReply::Success), Reply::Success));
    assert!(matches!(
        decode(RawReply::Bytes(b"{\"a\":1}".to_vec())),
        Reply::Json(Json::Object(_), bytes) if bytes == b"{\"a\":1}".to_vec()
    ));
    assert!(matches!(decode(RawReply::Bytes(b"<html>".to_vec())), Reply::Undecodable(_)));
    assert!(matches!(
        decode(RawReply::Text("[]".to_string())),
        Reply::Text(text, Ok(Json::Array(_))) if text == "[]"
    ));
    assert!(matches!(
        decode(RawReply::Text("no".to_string())),
        Reply::Text(_, Err(_))
    ));
    assert!(matches!(
        decode(RawReply::ErrorText("e".to_string())),
        Reply::ErrorText(t) if t == "e"
    ));
    assert!(matches!(decode(RawReply::Failed("f".to_string())), Reply::Failed(t) if t == "f"));
}

#[test]
fn rate_limit_is_recognized() {
    assert!(is_rate_limited("{\"errors\":\"Exceeded 2 calls per second for api client.\"}"));
    assert!(!is_rate_limited("exceeded 2 calls per second"));
}

#[test]
fn documents_are_written() {
    let text = "{ \"b\": [ 1, 2.50, \"\\u00e9\\n\" ], \"a\": null }";
    assert_eq!(compact_text(text, "b").as_deref(), Some("[1,2.5,\"\u{e9}\\n\"]"));
    assert_eq!(compact_text(text, "a").as_deref(), Some("null"));
    assert_eq!(compact_text(text, "c"), None);
    assert_eq!(compact_text("[1]", "a"), None);
    assert_eq!(compact_text("{", "a"), None);
    assert_eq!(
        pretty_text(&b"{\"b\":[1],\"a\":{}}".to_vec()).as_deref(),
        Some("{\n  \"a\": {},\n  \"b\": [\n    1\n  ]\n}")
    );
    assert_eq!(pretty_text(&b"nope".to_vec()), None);
}

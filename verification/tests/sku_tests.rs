use shopify_inventory_manager::exchange::{decode, Action, RawReply, Reply};
use shopify_inventory_manager::json::{at, integer_at, text_at};
use shopify_inventory_manager::services::price_file::{
    load_price_file, price_records, CsvTable, PriceFileError, PriceFileRecord,
};
use shopify_inventory_manager::services::sku_api_fixer::{
    correction_table, file_suffix_of, find_corrections, keys_of_file, keys_of_store, match_skus,
    store_suffix_of, SkuCorrection,
};
use shopify_inventory_manager::services::sku_selection::{
    parse_selection, read_choice, Choice, SelectionError,
};
use shopify_inventory_manager::services::sku_update::{
    begin_fix, run_api_sku_fix, update_variant_sku, FixStage, FixStart, SkuUpdateError,
    UpdateStage, UpdateTurn,
};
use shopify_inventory_manager::services::stock_fetch::FetchStage;
use shopify_inventory_manager::services::title_fetch::{ShopifyVariantRecord, TitleFetch};

const BASE: &str = "https://shop.example/admin/api/2024-01";

fn bytes(text: &str) -> Reply {
    decode(RawReply::Bytes(text.as_bytes().to_vec()))
}

fn variant(id: i64, sku: &str) -> ShopifyVariantRecord {
    ShopifyVariantRecord { variant_id: id, sku: sku.to_string(), title: format!("T{}", id) }
}

fn line(sku: &str, description: &str) -> PriceFileRecord {
    PriceFileRecord { sku: sku.to_string(), description: description.to_string() }
}

fn correction(id: i64, old: &str, new: &str) -> SkuCorrection {
    SkuCorrection {
        variant_id: id,
        old_sku: old.to_string(),
        old_description: "old".to_string(),
        new_sku: new.to_string(),
        new_description: "new".to_string(),
    }
}

#[test]
fn titles_are_fetched_page_by_page() {
    let mut fetch = TitleFetch::fetch_all_variants(BASE);
    let first = fetch.step(Reply::Ready);
    assert!(matches!(&first, Action::Send(r)
        if text_at(at(r.body.as_ref(), "query")).unwrap().contains("product { title }")));
    let one = "{\"data\":{\"productVariants\":{\"pageInfo\":{\"hasNextPage\":true,\"endCursor\":\"C\"},\"edges\":[{\"node\":{\"id\":\"gid://x/7\",\"sku\":\" s1 \",\"product\":{\"title\":\" One \"}}},{\"node\":{\"id\":\"gid://x/8\",\"sku\":\" \"}}]}}}";
    assert!(matches!(fetch.step(bytes(one)), Action::Wait(500)));
    let second = fetch.step(Reply::Ready);
    assert!(matches!(&second, Action::Send(r)
        if text_at(at(r.body.as_ref(), "query")).unwrap().contains(", after: \"C\"")));
    let two = "{\"data\":{\"productVariants\":{\"edges\":[{\"node\":{\"id\":\"\",\"sku\":\"s2\"}}]}}}";
    assert!(matches!(fetch.step(bytes(two)), Action::Finish));
    assert_eq!(fetch.stage, FetchStage::Closed);
    let found: Vec<(i64, &str, &str)> = fetch
        .variants
        .iter()
        .map(|v| (v.variant_id, v.sku.as_str(), v.title.as_str()))
        .collect();
    assert_eq!(found, vec![(7, "s1", "One"), (0, "s2", "")]);
}

#[test]
fn title_fetch_fails_on_another_form() {
    let mut fetch = TitleFetch::fetch_all_variants(BASE);
    fetch.step(Reply::Ready);
    fetch.step(bytes("{\"errors\":[]}"));
    assert_eq!(
        fetch.failure.unwrap().message(),
        "Unexpected GraphQL response shape"
    );
}

#[test]
fn price_file_is_read() {
    let text = "\u{feff}OEM, Item No. ,Description\n\"A\", ams-1 ,\"Pad, front\"\nB,,none\n C ,ams-2, x \n";
    let records = load_price_file(text).unwrap();
    let found: Vec<(&str, &str)> =
        records.iter().map(|r| (r.sku.as_str(), r.description.as_str())).collect();
    assert_eq!(found, vec![("ams-1", "Pad, front"), ("ams-2", "x")]);
    let plain = load_price_file("sku\nx-1\n").unwrap();
    assert_eq!(plain[0].description, "x-1");
    let titled = load_price_file("TITLE,SKU\nt,s\n").unwrap();
    assert_eq!((titled[0].sku.as_str(), titled[0].description.as_str()), ("s", "t"));
}

#[test]
fn faulty_price_files_are_refused() {
    let missing = load_price_file("a,b\n1,2\n").err().unwrap();
    assert_eq!(missing.message("f.csv"), "'Item No.' column not found in f.csv");
    let uneven = load_price_file("SKU,b\n1,2\n1\n").err().unwrap();
    assert!(matches!(&uneven, PriceFileError::Csv(m)
        if m == "CSV error: record 2 (line: 3, byte: 10): found record with 1 fields, but the previous record has 2 fields"));
    let table = CsvTable {
        headers: Ok(vec!["SKU".to_string()]),
        records: vec![Ok(vec!["a".to_string()]), Err("bad".to_string())],
    };
    assert!(matches!(price_records(table), Err(PriceFileError::Csv(m)) if m == "bad"));
}

#[test]
fn suffixes_stand_behind_prefixes() {
    assert_eq!(file_suffix_of("AMS-12-3"), Some("12-3"));
    assert_eq!(file_suffix_of("AMS12"), None);
    assert_eq!(store_suffix_of("AMS-12"), Some("12"));
    assert_eq!(store_suffix_of("12"), Some("12"));
    assert_eq!(store_suffix_of("AM-12"), None);
    assert_eq!(store_suffix_of("\u{20ac}-12"), Some("12"));
    assert_eq!(store_suffix_of("\u{e9}\u{e9}\u{e9}-12"), None);
}

#[test]
fn corrections_are_found() {
    let file = vec![
        line("AMS-100", "first"),
        line("BRP-100", "last wins"),
        line("AMS-200", "two"),
        line("PLAIN", "no hyphen"),
        line("AMS-abc", "letters"),
    ];
    let variants = vec![
        variant(1, "ams-200"),
        variant(2, "100"),
        variant(3, "XYZ-200"),
        variant(4, "XY-200"),
        variant(5, "999"),
        variant(6, "ABC"),
        variant(7, "plain"),
    ];
    let found = find_corrections(&variants, &file);
    let short: Vec<(i64, &str, &str, &str)> = found
        .iter()
        .map(|c| {
            (c.variant_id, c.old_sku.as_str(), c.new_sku.as_str(), c.new_description.as_str())
        })
        .collect();
    assert_eq!(
        short,
        vec![
            (2, "100", "BRP-100", "last wins"),
            (3, "XYZ-200", "AMS-200", "two"),
            (6, "ABC", "AMS-abc", "letters"),
        ]
    );
    assert_eq!(found[0].old_description, "T2");
}

#[test]
fn corrected_variants_need_no_correction() {
    let file = vec![line("AMS-100", "x")];
    let fixed = find_corrections(&vec![variant(1, "100")], &file);
    assert_eq!(fixed.len(), 1);
    let again = find_corrections(&vec![variant(1, fixed[0].new_sku.as_str())], &file);
    assert!(again.is_empty());
}

#[test]
fn skus_are_matched_by_given_keys() {
    let file = vec![line("AMS-1", "x")];
    let variants = vec![variant(1, "1")];
    let keys = keys_of_file(&file);
    assert_eq!(keys[0].full, "AMS-1");
    assert_eq!(keys[0].suffix.as_deref(), Some("1"));
    let own = keys_of_store(&variants);
    assert_eq!(own[0].suffix.as_deref(), Some("1"));
    assert_eq!(match_skus(&variants, &own, &file, &keys).len(), 1);
    let small = keys_of_store(&vec![variant(2, "b\u{df}")]);
    assert_eq!(small[0].full, "BSS");
}

#[test]
fn corrections_are_shown_in_a_table() {
    let list = vec![correction(1, "100", "AMS-100")];
    assert_eq!(
        correction_table(&list),
        vec![
            "  #      CURRENT SKU                    CORRECTED SKU".to_string(),
            "         Current Description            Price File Description".to_string(),
            format!("  {}", "-".repeat(80)),
            "  1      100                            AMS-100".to_string(),
            "         old                            new".to_string(),
            "".to_string(),
            "  Total matches: 1".to_string(),
        ]
    );
}

#[test]
fn selections_are_read() {
    assert_eq!(parse_selection("1-3, 7,2 , 9-12", 10).unwrap(), vec![0, 1, 2, 6, 8, 9]);
    assert_eq!(parse_selection("5,5,4-6", 10).unwrap(), vec![4, 3, 5]);
    assert_eq!(parse_selection("0,11", 10).unwrap(), Vec::<usize>::new());
    assert_eq!(parse_selection("18446744073709551615", 2).unwrap(), Vec::<usize>::new());
    assert_eq!(parse_selection("1 - 2", 10).unwrap(), vec![0, 1]);
}

#[test]
fn shorter_lists_cut_selections_down() {
    let input = "9, 2-6,1,3";
    let long = parse_selection(input, 10).unwrap();
    assert_eq!(long, vec![8, 1, 2, 3, 4, 5, 0]);
    for m in 0..10 {
        let cut: Vec<usize> = long.iter().copied().filter(|i| *i < m).collect();
        assert_eq!(parse_selection(input, m).unwrap(), cut);
    }
    assert_eq!(parse_selection("1,x", 0).err().unwrap().message(), "Invalid number: 'x'");
}

#[test]
fn faulty_selections_are_refused() {
    let say = |text: &str| parse_selection(text, 10).err().unwrap().message();
    assert_eq!(say("1, 3-2"), "Invalid range: '3-2'");
    assert_eq!(say("0-2"), "Invalid range: '0-2'");
    assert_eq!(say("1-2-3"), "Invalid range: '1-2-3'");
    assert_eq!(say(" -5 "), "Invalid range: '-5'");
    assert_eq!(say("x"), "Invalid number: 'x'");
    assert_eq!(say("1,,2"), "Invalid number: ''");
    assert!(matches!(parse_selection("y,1-0", 3), Err(SelectionError::InvalidNumber(p)) if p == "y"));
}

#[test]
fn answers_are_choices() {
    assert!(matches!(read_choice(" NONE \n", 3), Choice::Abort));
    assert!(matches!(read_choice("\n", 3), Choice::Abort));
    assert!(matches!(read_choice("All", 3), Choice::Apply(list) if list == vec![0, 1, 2]));
    assert!(matches!(read_choice("2\n", 3), Choice::Apply(list) if list == vec![1]));
    assert!(matches!(read_choice("two", 3), Choice::Faulty(_)));
}

#[test]
fn sku_is_written_and_retried_once() {
    let start = update_variant_sku(BASE, 5, "AMS-1", UpdateStage::Begin, Reply::Ready);
    match start {
        UpdateTurn::Continue(UpdateStage::Asked, Action::Send(request)) => {
            assert_eq!(request.url, format!("{}/variants/5.json", BASE));
            let variant = at(request.body.as_ref(), "variant");
            assert_eq!(integer_at(at(variant, "id")), Some(5));
            assert_eq!(text_at(at(variant, "sku")), Some("AMS-1"));
        }
        other => panic!("{:?}", other),
    }
    let slow = || Reply::ErrorText("Exceeded 2 calls per second".to_string());
    let step = |stage: UpdateStage, reply: Reply| update_variant_sku(BASE, 5, "AMS-1", stage, reply);
    assert!(matches!(
        step(UpdateStage::Asked, slow()),
        UpdateTurn::Continue(UpdateStage::Pausing, Action::Wait(4000))
    ));
    assert!(matches!(
        step(UpdateStage::Pausing, Reply::Ready),
        UpdateTurn::Continue(UpdateStage::AskedAgain, Action::Send(_))
    ));
    assert!(matches!(step(UpdateStage::Asked, Reply::Success), UpdateTurn::End(Ok(()))));
    assert!(matches!(step(UpdateStage::AskedAgain, Reply::Success), UpdateTurn::End(Ok(()))));
    let end = |turn: UpdateTurn| match turn {
        UpdateTurn::End(Err(error)) => error.message(),
        other => panic!("{:?}", other),
    };
    assert_eq!(
        end(step(UpdateStage::AskedAgain, slow())),
        "SKU update failed after retry: Exceeded 2 calls per second"
    );
    assert_eq!(
        end(step(UpdateStage::Asked, Reply::ErrorText("no".to_string()))),
        "SKU update failed: no"
    );
    assert_eq!(end(step(UpdateStage::Asked, Reply::Failed("down".to_string()))), "down");
    assert!(matches!(
        step(UpdateStage::Asked, Reply::Ignored),
        UpdateTurn::End(Err(SkuUpdateError::UnexpectedReply))
    ));
}

#[test]
fn selected_corrections_are_applied() {
    let list = vec![
        correction(1, "100", "AMS-100"),
        correction(2, "200", "AMS-200"),
        correction(3, "300", "AMS-300"),
    ];
    let mut run = match begin_fix(BASE, &list, "3,1") {
        FixStart::Run(run) => run,
        other => panic!("{:?}", other),
    };
    assert_eq!(run.selected, vec![2, 0]);
    assert!(matches!(run.step(Reply::Ready), Action::Wait(500)));
    let first = run.step(Reply::Ready);
    assert!(matches!(&first, Action::Send(r) if r.url == format!("{}/variants/3.json", BASE)));
    assert!(matches!(run.step(Reply::Success), Action::Wait(500)));
    assert_eq!(run.notice.as_deref(), Some("  \u{2714}  300 \u{2192} AMS-300"));
    run.step(Reply::Ready);
    assert!(run.notice.is_none());
    assert!(matches!(run.step(Reply::Failed("down".to_string())), Action::Finish));
    assert_eq!(run.notice.as_deref(), Some("  \u{2717}  100 \u{2014} error: down"));
    assert_eq!(run.stage, FixStage::Closed);
    assert_eq!(run.success + run.failed, 2);
    assert_eq!(run.summary(), "  Done. 1 corrected, 1 failed.");
}

#[test]
fn nothing_selected_applies_nothing() {
    let list = vec![correction(1, "100", "AMS-100")];
    assert!(matches!(begin_fix(BASE, &list, "none"), FixStart::Aborted));
    assert!(matches!(begin_fix(BASE, &list, "2"), FixStart::NothingSelected));
    assert!(matches!(begin_fix(BASE, &list, "a"), FixStart::Faulty(_)));
    let mut run = run_api_sku_fix(BASE, &list, vec![]);
    assert!(matches!(run.step(Reply::Ready), Action::Finish));
    assert_eq!(run.summary(), "  Done. 0 corrected, 0 failed.");
}

//! Finding SKUs of the store that lack the prefix they have in the price file.
use vstd::hash_map::StringHashMap;
use vstd::hash_set::StringHashSet;
use vstd::prelude::*;
use vstd::string::*;

use crate::numbers::{decimal, decimal_of};
use crate::services::price_file::{price_views, PriceFileRecord, PriceFileRecordView};
use crate::services::title_fetch::{record_views, ShopifyVariantRecord, ShopifyVariantRecordView};
use crate::text::{
    find_char, law_utf8_length, lemma_position, lemma_position_is, optional, pad_right, padded,
    position, prefix_takes, repeat_char, repeated, texts, to_upper, upper, utf8_length,
};

verus! {

/// A SKU of the store that is to be replaced by one of the price file.
#[derive(Debug)]
pub struct SkuCorrection {
    pub variant_id: i64,
    pub old_sku: String,
    pub old_description: String,
    pub new_sku: String,
    pub new_description: String,
}

/// The model of a correction.
pub struct SkuCorrectionView {
    pub variant_id: int,
    pub old_sku: Seq<char>,
    pub old_description: Seq<char>,
    pub new_sku: Seq<char>,
    pub new_description: Seq<char>,
}

impl View for SkuCorrection {
    type V = SkuCorrectionView;

    open spec fn view(&self) -> SkuCorrectionView {
        SkuCorrectionView {
            variant_id: self.variant_id as int,
            old_sku: self.old_sku@,
            old_description: self.old_description@,
            new_sku: self.new_sku@,
            new_description: self.new_description@,
        }
    }
}

/// The models of a list of corrections.
pub open spec fn correction_views(list: Seq<SkuCorrection>) -> Seq<SkuCorrectionView> {
    list.map_values(|c: SkuCorrection| c@)
}

/// The keys by which SKUs are compared.
#[derive(Debug)]
pub struct SkuKeys {
    /// The SKU in upper case.
    pub full: String,
    /// The part of the SKU that is compared with other parts, in upper case.
    pub suffix: Option<String>,
}

/// The model of the keys of a SKU.
pub struct SkuKeysView {
    pub full: Seq<char>,
    pub suffix: Option<Seq<char>>,
}

impl View for SkuKeys {
    type V = SkuKeysView;

    open spec fn view(&self) -> SkuKeysView {
        SkuKeysView { full: self.full@, suffix: optional(self.suffix) }
    }
}

/// The models of a list of keys.
pub open spec fn key_views(keys: Seq<SkuKeys>) -> Seq<SkuKeysView> {
    keys.map_values(|k: SkuKeys| k@)
}

/// The part of a SKU of the price file behind its prefix: behind the first hyphen.
pub open spec fn file_suffix(sku: Seq<char>) -> Option<Seq<char>> {
    match position(sku, '-') {
        Some(p) => Some(sku.skip(p + 1)),
        None => None,
    }
}

/// The part of a SKU of the store behind its prefix: the whole SKU where it has
/// no hyphen, and what is behind a prefix of three bytes. A SKU with another
/// prefix is left alone.
pub open spec fn store_suffix(sku: Seq<char>) -> Option<Seq<char>> {
    match position(sku, '-') {
        Some(p) => if utf8_length(sku.take(p)) == 3 {
            Some(sku.skip(p + 1))
        } else {
            None
        },
        None => Some(sku),
    }
}

/// The keys of a SKU with a suffix.
pub open spec fn keyed(sku: Seq<char>, suffix: Option<Seq<char>>) -> SkuKeysView {
    SkuKeysView {
        full: upper(sku),
        suffix: match suffix {
            Some(part) => Some(upper(part)),
            None => None,
        },
    }
}

/// The keys of the lines of a price file.
pub open spec fn file_keys(records: Seq<PriceFileRecordView>) -> Seq<SkuKeysView> {
    records.map_values(|r: PriceFileRecordView| keyed(r.sku, file_suffix(r.sku)))
}

/// The keys of the variants of the store.
pub open spec fn store_keys(variants: Seq<ShopifyVariantRecordView>) -> Seq<SkuKeysView> {
    variants.map_values(|v: ShopifyVariantRecordView| keyed(v.sku, store_suffix(v.sku)))
}

/// The part of a SKU of the price file behind its prefix.
pub fn file_suffix_of<'a>(sku: &'a str) -> (suffix: Option<&'a str>)
    ensures
        match suffix {
            Some(part) => file_suffix(sku@) == Some(part@),
            None => file_suffix(sku@) is None,
        },
{
    match find_char(sku, '-') {
        Some(p) => {
            let length = sku.unicode_len();
            let part = sku.substring_char(p + 1, length);
            assert(part@ =~= sku@.skip(p + 1));
            Some(part)
        },
        None => None,
    }
}

/// The part of a SKU of the store behind its prefix.
pub fn store_suffix_of<'a>(sku: &'a str) -> (suffix: Option<&'a str>)
    ensures
        match suffix {
            Some(part) => store_suffix(sku@) == Some(part@),
            None => store_suffix(sku@) is None,
        },
{
    match find_char(sku, '-') {
        Some(p) => if prefix_takes(sku, p, 3) {
            let length = sku.unicode_len();
            let part = sku.substring_char(p + 1, length);
            assert(part@ =~= sku@.skip(p + 1));
            Some(part)
        } else {
            None
        },
        None => Some(sku),
    }
}

/// The keys of the lines of a price file.
pub fn keys_of_file(records: &Vec<PriceFileRecord>) -> (keys: Vec<SkuKeys>)
    ensures
        key_views(keys@) == file_keys(price_views(records@)),
{
    let mut keys: Vec<SkuKeys> = Vec::new();
    let ghost model = file_keys(price_views(records@));
    for i in 0..records.len()
        invariant
            model == file_keys(price_views(records@)),
            key_views(keys@) == model.take(i as int),
    {
        let ghost before = keys@;
        let sku = records[i].sku.as_str();
        let suffix = match file_suffix_of(sku) {
            Some(part) => Some(to_upper(part)),
            None => None,
        };
        let key = SkuKeys { full: to_upper(sku), suffix };
        keys.push(key);
        proof {
            assert(key@ == model[i as int]);
            assert(key_views(keys@) =~= key_views(before).push(key@));
            assert(model.take(i + 1) =~= model.take(i as int).push(model[i as int]));
        }
    }
    assert(model.take(records.len() as int) =~= model);
    keys
}

/// The keys of the variants of the store.
pub fn keys_of_store(variants: &Vec<ShopifyVariantRecord>) -> (keys: Vec<SkuKeys>)
    ensures
        key_views(keys@) == store_keys(record_views(variants@)),
{
    let mut keys: Vec<SkuKeys> = Vec::new();
    let ghost model = store_keys(record_views(variants@));
    for i in 0..variants.len()
        invariant
            model == store_keys(record_views(variants@)),
            key_views(keys@) == model.take(i as int),
    {
        let ghost before = keys@;
        let sku = variants[i].sku.as_str();
        let suffix = match store_suffix_of(sku) {
            Some(part) => Some(to_upper(part)),
            None => None,
        };
        let key = SkuKeys { full: to_upper(sku), suffix };
        keys.push(key);
        proof {
            assert(key@ == model[i as int]);
            assert(key_views(keys@) =~= key_views(before).push(key@));
            assert(model.take(i + 1) =~= model.take(i as int).push(model[i as int]));
        }
    }
    assert(model.take(variants.len() as int) =~= model);
    keys
}

/// The SKUs of the price file, by their keys.
pub open spec fn known_skus(keys: Seq<SkuKeysView>) -> Set<Seq<char>>
    decreases keys.len(),
{
    if keys.len() == 0 {
        Set::empty()
    } else {
        known_skus(keys.drop_last()).insert(keys.last().full)
    }
}

/// The line of the price file for each suffix: the last one that has it.
pub open spec fn suffix_lines(keys: Seq<SkuKeysView>) -> Map<Seq<char>, int>
    decreases keys.len(),
{
    if keys.len() == 0 {
        Map::empty()
    } else {
        let before = suffix_lines(keys.drop_last());
        match keys.last().suffix {
            Some(suffix) => before.insert(suffix, keys.len() - 1),
            None => before,
        }
    }
}

/// The price file, indexed by SKU and by suffix.
pub struct FileIndex {
    pub suffix_map: StringHashMap<usize>,
    pub exact_set: StringHashSet,
}

impl FileIndex {
    /// The index is that of a price file with these keys.
    pub open spec fn indexes(self, keys: Seq<SkuKeysView>) -> bool {
        &&& self.exact_set@ == known_skus(keys)
        &&& self.suffix_map@.map_values(|i: usize| i as int) == suffix_lines(keys)
    }

    /// The index of a price file with these keys.
    pub fn build(keys: &Vec<SkuKeys>) -> (index: Self)
        ensures
            index.indexes(key_views(keys@)),
    {
        let mut suffix_map: StringHashMap<usize> = StringHashMap::new();
        let mut exact_set = StringHashSet::new();
        let ghost model = key_views(keys@);
        assert(suffix_map@.map_values(|i: usize| i as int) =~= suffix_lines(model.take(0)));
        for i in 0..keys.len()
            invariant
                model == key_views(keys@),
                exact_set@ == known_skus(model.take(i as int)),
                suffix_map@.map_values(|i: usize| i as int) == suffix_lines(model.take(i as int)),
        {
            assert(model.take(i + 1).drop_last() =~= model.take(i as int));
            assert(model.take(i + 1).last() == keys@[i as int]@);
            exact_set.insert(keys[i].full.clone());
            let ghost before = suffix_map@;
            if let Some(suffix) = &keys[i].suffix {
                suffix_map.insert(suffix.clone(), i);
                assert(suffix_map@.map_values(|i: usize| i as int) =~= before.map_values(
                    |i: usize| i as int,
                ).insert(suffix@, i as int));
            }
        }
        assert(model.take(keys.len() as int) =~= model);
        FileIndex { suffix_map, exact_set }
    }
}

/// The correction for a variant of the store. There is none for a SKU that the
/// price file has; else the line with its suffix gives the right SKU.
pub open spec fn correction_for(
    variant: ShopifyVariantRecordView,
    key: SkuKeysView,
    records: Seq<PriceFileRecordView>,
    keys: Seq<SkuKeysView>,
) -> Option<SkuCorrectionView> {
    if known_skus(keys).contains(key.full) {
        None
    } else {
        match key.suffix {
            None => None,
            Some(suffix) => if suffix_lines(keys).contains_key(suffix) {
                let line = suffix_lines(keys)[suffix];
                if keys[line].full != key.full {
                    Some(
                        SkuCorrectionView {
                            variant_id: variant.variant_id,
                            old_sku: variant.sku,
                            old_description: variant.title,
                            new_sku: records[line].sku,
                            new_description: records[line].description,
                        },
                    )
                } else {
                    None
                }
            } else {
                None
            },
        }
    }
}

/// The corrections for some variants of the store, in their order.
pub open spec fn corrections(
    variants: Seq<ShopifyVariantRecordView>,
    variant_keys: Seq<SkuKeysView>,
    records: Seq<PriceFileRecordView>,
    keys: Seq<SkuKeysView>,
    n: nat,
) -> Seq<SkuCorrectionView>
    decreases n,
{
    if n == 0 {
        seq![]
    } else {
        let before = corrections(variants, variant_keys, records, keys, (n - 1) as nat);
        match correction_for(variants[n - 1], variant_keys[n - 1], records, keys) {
            Some(correction) => before.push(correction),
            None => before,
        }
    }
}

proof fn lemma_suffix_lines_in_bounds(keys: Seq<SkuKeysView>)
    ensures
        forall|suffix: Seq<char>| #[trigger]
            suffix_lines(keys).contains_key(suffix) ==> 0 <= suffix_lines(keys)[suffix]
                < keys.len() && keys[suffix_lines(keys)[suffix]].suffix == Some(suffix),
    decreases keys.len(),
{
    if keys.len() > 0 {
        let before = keys.drop_last();
        lemma_suffix_lines_in_bounds(before);
        assert forall|suffix: Seq<char>| #[trigger]
            suffix_lines(keys).contains_key(suffix) implies 0 <= suffix_lines(keys)[suffix]
            < keys.len() && keys[suffix_lines(keys)[suffix]].suffix == Some(suffix) by {
            if keys.last().suffix != Some(suffix) {
                assert(suffix_lines(before).contains_key(suffix));
                assert(before[suffix_lines(before)[suffix]]
                    == keys[suffix_lines(before)[suffix]]);
            }
        }
    }
}

proof fn lemma_known_skus(keys: Seq<SkuKeysView>, i: int)
    requires
        0 <= i < keys.len(),
    ensures
        known_skus(keys).contains(keys[i].full),
    decreases keys.len(),
{
    if i < keys.len() - 1 {
        lemma_known_skus(keys.drop_last(), i);
    }
}

/// Finds the corrections for the variants of the store, where the keys of the
/// variants and of the lines of the price file are given.
pub fn match_skus(
    variants: &Vec<ShopifyVariantRecord>,
    variant_keys: &Vec<SkuKeys>,
    records: &Vec<PriceFileRecord>,
    keys: &Vec<SkuKeys>,
) -> (results: Vec<SkuCorrection>)
    requires
        variant_keys@.len() == variants@.len(),
        keys@.len() == records@.len(),
    ensures
        correction_views(results@) == corrections(
            record_views(variants@),
            key_views(variant_keys@),
            price_views(records@),
            key_views(keys@),
            variants@.len(),
        ),
{
    let index = FileIndex::build(keys);
    let mut results: Vec<SkuCorrection> = Vec::new();
    let ghost lines = suffix_lines(key_views(keys@));
    proof {
        lemma_suffix_lines_in_bounds(key_views(keys@));
        assert(correction_views(results@) =~= seq![]);
    }
    for i in 0..variants.len()
        invariant
            variant_keys@.len() == variants@.len(),
            keys@.len() == records@.len(),
            index.indexes(key_views(keys@)),
            lines == suffix_lines(key_views(keys@)),
            forall|suffix: Seq<char>| #[trigger]
                lines.contains_key(suffix) ==> 0 <= lines[suffix] < keys@.len(),
            correction_views(results@) == corrections(
                record_views(variants@),
                key_views(variant_keys@),
                price_views(records@),
                key_views(keys@),
                i as nat,
            ),
    {
        let variant = &variants[i];
        let key = &variant_keys[i];
        let ghost before = results@;
        let ghost wanted = correction_for(
            variant@,
            key@,
            price_views(records@),
            key_views(keys@),
        );
        assert(record_views(variants@)[i as int] == variant@);
        assert(key_views(variant_keys@)[i as int] == key@);
        if !index.exact_set.contains(key.full.as_str()) {
            if let Some(suffix) = &key.suffix {
                let ghost found = index.suffix_map@.map_values(|i: usize| i as int);
                if let Some(line) = index.suffix_map.get(suffix.as_str()) {
                    let line: usize = *line;
                    assert(found.contains_key(suffix@));
                    assert(lines[suffix@] == line);
                    assert(key_views(keys@)[line as int] == keys@[line as int]@);
                    assert(price_views(records@)[line as int] == records@[line as int]@);
                    if !(keys[line].full == key.full) {
                        let correction = SkuCorrection {
                            variant_id: variant.variant_id,
                            old_sku: variant.sku.clone(),
                            old_description: variant.title.clone(),
                            new_sku: records[line].sku.clone(),
                            new_description: records[line].description.clone(),
                        };
                        results.push(correction);
                        assert(wanted == Some(correction@));
                        assert(correction_views(results@) =~= correction_views(before).push(
                            correction@,
                        ));
                    } else {
                        assert(wanted is None);
                    }
                } else {
                    assert(!found.contains_key(suffix@));
                    assert(wanted is None);
                }
            }
        }
    }
    results
}

/// Finds the corrections for the variants of the store.
pub fn find_corrections(
    shopify: &Vec<ShopifyVariantRecord>,
    records: &Vec<PriceFileRecord>,
) -> (results: Vec<SkuCorrection>)
    ensures
        correction_views(results@) == corrections(
            record_views(shopify@),
            store_keys(record_views(shopify@)),
            price_views(records@),
            file_keys(price_views(records@)),
            shopify@.len(),
        ),
{
    let variant_keys = keys_of_store(shopify);
    let keys = keys_of_file(records);
    assert(key_views(variant_keys@).len() == shopify@.len());
    assert(key_views(keys@).len() == records@.len());
    match_skus(shopify, &variant_keys, records, &keys)
}

/// A correction never touches a SKU that the price file has, and puts in its
/// place the SKU of a line of the price file with the same suffix.
pub proof fn law_corrections_are_sound(
    variant: ShopifyVariantRecordView,
    key: SkuKeysView,
    records: Seq<PriceFileRecordView>,
    keys: Seq<SkuKeysView>,
)
    requires
        keys.len() == records.len(),
    ensures
        match correction_for(variant, key, records, keys) {
            Some(correction) => {
                &&& correction.variant_id == variant.variant_id
                &&& correction.old_sku == variant.sku
                &&& forall|i: int| 0 <= i < keys.len() ==> #[trigger] keys[i].full != key.full
                &&& exists|line: int|
                    0 <= line < keys.len() && key.suffix is Some && #[trigger] keys[line].suffix
                        == key.suffix && correction.new_sku == records[line].sku
                        && correction.new_description == records[line].description
            },
            None => true,
        },
{
    lemma_suffix_lines_in_bounds(keys);
    assert forall|i: int|
        0 <= i < keys.len() && !known_skus(keys).contains(
            key.full,
        ) implies #[trigger] keys[i].full != key.full by {
        lemma_known_skus(keys, i);
    }
    if let Some(correction) = correction_for(variant, key, records, keys) {
        let line = suffix_lines(keys)[key.suffix->0];
        assert(suffix_lines(keys).contains_key(key.suffix->0));
        assert(keys[line].suffix == key.suffix);
    }
}

/// Once a correction is applied, the variant needs none.
pub proof fn law_corrected_variant_is_settled(
    variant: ShopifyVariantRecordView,
    records: Seq<PriceFileRecordView>,
)
    ensures
        match correction_for(
            variant,
            keyed(variant.sku, store_suffix(variant.sku)),
            records,
            file_keys(records),
        ) {
            Some(correction) => correction_for(
                ShopifyVariantRecordView { sku: correction.new_sku, ..variant },
                keyed(correction.new_sku, store_suffix(correction.new_sku)),
                records,
                file_keys(records),
            ) is None,
            None => true,
        },
{
    let keys = file_keys(records);
    let key = keyed(variant.sku, store_suffix(variant.sku));
    lemma_suffix_lines_in_bounds(keys);
    if let Some(correction) = correction_for(variant, key, records, keys) {
        let line = suffix_lines(keys)[key.suffix->0];
        assert(suffix_lines(keys).contains_key(key.suffix->0));
        assert(keys[line].full == upper(records[line].sku));
        lemma_known_skus(keys, line);
    }
}

/// A line of the table of corrections.
pub open spec fn table_line(first: Seq<char>, second: Seq<char>, third: Seq<char>) -> Seq<char> {
    "  "@ + padded(first, 6) + " "@ + padded(second, 30) + " "@ + third
}

fn table_line_of(first: &str, second: &str, third: &str) -> (line: String)
    ensures
        line@ == table_line(first@, second@, third@),
{
    let mut line = "  ".to_owned();
    let left = pad_right(first, 6);
    let middle = pad_right(second, 30);
    line.append(left.as_str());
    line.append(" ");
    line.append(middle.as_str());
    line.append(" ");
    line.append(third);
    line
}

/// The lines of the table for the first `n` corrections: three for each.
pub open spec fn table_body(list: Seq<SkuCorrectionView>, n: nat) -> Seq<Seq<char>>
    decreases n,
{
    if n == 0 {
        seq![]
    } else {
        let c = list[n - 1];
        table_body(list, (n - 1) as nat).push(table_line(decimal(n), c.old_sku, c.new_sku)).push(
            table_line(seq![], c.old_description, c.new_description),
        ).push(seq![])
    }
}

/// The table in which corrections are shown: a header, the numbered
/// corrections, and how many they are.
pub open spec fn table_lines(list: Seq<SkuCorrectionView>) -> Seq<Seq<char>> {
    seq![
        table_line("#"@, "CURRENT SKU"@, "CORRECTED SKU"@),
        table_line(""@, "Current Description"@, "Price File Description"@),
        "  "@ + repeated('-', 80),
    ] + table_body(list, list.len()) + seq!["  Total matches: "@ + decimal(list.len())]
}

/// The table in which corrections are shown.
pub fn correction_table(list: &Vec<SkuCorrection>) -> (lines: Vec<String>)
    ensures
        texts(lines@) == table_lines(correction_views(list@)),
{
    let mut lines: Vec<String> = Vec::new();
    lines.push(table_line_of("#", "CURRENT SKU", "CORRECTED SKU"));
    lines.push(table_line_of("", "Current Description", "Price File Description"));
    let mut rule = "  ".to_owned();
    let dashes = repeat_char('-', 80);
    rule.append(dashes.as_str());
    lines.push(rule);
    let ghost head = texts(lines@);
    let ghost model = correction_views(list@);
    assert(head =~= seq![
        table_line("#"@, "CURRENT SKU"@, "CORRECTED SKU"@),
        table_line(""@, "Current Description"@, "Price File Description"@),
        "  "@ + repeated('-', 80),
    ]);
    assert(texts(lines@) =~= head + table_body(model, 0));
    for i in 0..list.len()
        invariant
            model == correction_views(list@),
            texts(lines@) == head + table_body(model, i as nat),
    {
        let c = &list[i];
        let ghost before = texts(lines@);
        assert(model[i as int] == c@);
        let number = decimal_of(i as u64 + 1);
        let first = table_line_of(number.as_str(), c.old_sku.as_str(), c.new_sku.as_str());
        let nothing = String::new();
        assert(nothing@ =~= Seq::<char>::empty());
        let second = table_line_of(
            nothing.as_str(),
            c.old_description.as_str(),
            c.new_description.as_str(),
        );
        lines.push(first);
        lines.push(second);
        lines.push(nothing);
        proof {
            let added = before.push(first@).push(second@).push(nothing@);
            assert(texts(lines@) =~= added);
            assert(added =~= head + table_body(model, (i + 1) as nat));
        }
    }
    let count = decimal_of(list.len() as u64);
    let mut total = "  Total matches: ".to_owned();
    total.append(count.as_str());
    let ghost before = texts(lines@);
    lines.push(total);
    assert(texts(lines@) =~= before.push(total@));
    assert(texts(lines@) =~= table_lines(model));
    lines
}

/// No line of the price file has the SKU.
pub open spec fn is_unknown(keys: Seq<SkuKeysView>, full: Seq<char>) -> bool {
    forall|i: int| 0 <= i < keys.len() ==> #[trigger] keys[i].full != full
}

/// The line is the last one with this suffix.
pub open spec fn is_last_with(keys: Seq<SkuKeysView>, suffix: Seq<char>, line: int) -> bool {
    &&& 0 <= line < keys.len()
    &&& keys[line].suffix == Some(suffix)
    &&& forall|i: int| line < i < keys.len() ==> (#[trigger] keys[i]).suffix != Some(suffix)
}

proof fn lemma_unknown(keys: Seq<SkuKeysView>, full: Seq<char>)
    ensures
        known_skus(keys).contains(full) <==> !is_unknown(keys, full),
    decreases keys.len(),
{
    if keys.len() > 0 {
        let before = keys.drop_last();
        lemma_unknown(before, full);
        if is_unknown(keys, full) {
            assert forall|i: int| 0 <= i < before.len() implies #[trigger] before[i].full != full by {
                assert(before[i] == keys[i]);
            }
            assert(keys[keys.len() - 1].full != full);
        } else {
            let i = choose|i: int| 0 <= i < keys.len() && #[trigger] keys[i].full == full;
            lemma_known_skus(keys, i);
        }
    }
}

proof fn lemma_last_line(keys: Seq<SkuKeysView>, suffix: Seq<char>, line: int)
    requires
        is_last_with(keys, suffix, line),
    ensures
        suffix_lines(keys).contains_key(suffix),
        suffix_lines(keys)[suffix] == line,
    decreases keys.len(),
{
    if line < keys.len() - 1 {
        let before = keys.drop_last();
        assert(keys[keys.len() - 1].suffix != Some(suffix));
        assert forall|i: int| line < i < before.len() implies (#[trigger] before[i]).suffix
            != Some(suffix) by {
            assert(before[i] == keys[i]);
        }
        lemma_last_line(before, suffix, line);
    }
}

/// No SKU that lacks its prefix is passed over: where the price file does not
/// have the SKU of a variant, but has a line with its suffix, the variant is
/// corrected, to the SKU of the last such line.
pub proof fn law_corrections_are_complete(
    variant: ShopifyVariantRecordView,
    key: SkuKeysView,
    records: Seq<PriceFileRecordView>,
    keys: Seq<SkuKeysView>,
    suffix: Seq<char>,
    line: int,
)
    requires
        is_unknown(keys, key.full),
        key.suffix == Some(suffix),
        is_last_with(keys, suffix, line),
    ensures
        correction_for(variant, key, records, keys) == Some(
            SkuCorrectionView {
                variant_id: variant.variant_id,
                old_sku: variant.sku,
                old_description: variant.title,
                new_sku: records[line].sku,
                new_description: records[line].description,
            },
        ),
{
    lemma_unknown(keys, key.full);
    lemma_last_line(keys, suffix, line);
    assert(keys[line].full != key.full);
}

/// A variant is left alone where the price file has its SKU, where it has no
/// suffix, and where no line has its suffix.
pub proof fn law_other_variants_are_left_alone(
    variant: ShopifyVariantRecordView,
    key: SkuKeysView,
    records: Seq<PriceFileRecordView>,
    keys: Seq<SkuKeysView>,
)
    ensures
        !is_unknown(keys, key.full) ==> correction_for(variant, key, records, keys) is None,
        key.suffix is None ==> correction_for(variant, key, records, keys) is None,
        (forall|i: int| 0 <= i < keys.len() ==> (#[trigger] keys[i]).suffix != key.suffix)
            ==> correction_for(variant, key, records, keys) is None,
{
    lemma_unknown(keys, key.full);
    lemma_suffix_lines_in_bounds(keys);
    if correction_for(variant, key, records, keys) is Some {
        let line = suffix_lines(keys)[key.suffix->0];
        assert(suffix_lines(keys).contains_key(key.suffix->0));
        assert(keys[line].suffix == key.suffix);
    }
}

/// The corrections are those of the variants, one after the other: each variant
/// that is to be corrected adds its own correction, and no other adds any.
pub proof fn law_every_variant_is_looked_at(
    variants: Seq<ShopifyVariantRecordView>,
    variant_keys: Seq<SkuKeysView>,
    records: Seq<PriceFileRecordView>,
    keys: Seq<SkuKeysView>,
    n: nat,
    i: int,
)
    requires
        0 <= i < n,
    ensures
        ({
            let all = corrections(variants, variant_keys, records, keys, n);
            let before = corrections(variants, variant_keys, records, keys, i as nat);
            let one = correction_for(variants[i], variant_keys[i], records, keys);
            &&& before.len() <= all.len()
            &&& all.take(before.len() as int) == before
            &&& one is Some ==> before.len() < all.len() && all[before.len() as int] == one->0
            &&& one is None ==> corrections(variants, variant_keys, records, keys, (i + 1) as nat)
                == before
        }),
        corrections(variants, variant_keys, records, keys, 0) == Seq::<SkuCorrectionView>::empty(),
    decreases n,
{
    let all = corrections(variants, variant_keys, records, keys, n);
    let before = corrections(variants, variant_keys, records, keys, i as nat);
    if i < n - 1 {
        law_every_variant_is_looked_at(variants, variant_keys, records, keys, (n - 1) as nat, i);
        let most = corrections(variants, variant_keys, records, keys, (n - 1) as nat);
        assert(all.take(before.len() as int) =~= most.take(before.len() as int));
    } else {
        assert(all.take(before.len() as int) =~= before);
    }
}

/// SKUs are compared in upper case; the part of a line's SKU that counts is what
/// is behind its first hyphen.
pub proof fn law_keys_of_the_price_file(
    records: Seq<PriceFileRecordView>,
    i: int,
    prefix: Seq<char>,
    rest: Seq<char>,
)
    requires
        0 <= i < records.len(),
        forall|j: int| 0 <= j < prefix.len() ==> #[trigger] prefix[j] != '-',
    ensures
        file_keys(records).len() == records.len(),
        file_keys(records)[i].full == upper(records[i].sku),
        records[i].sku == prefix.push('-') + rest ==> file_keys(records)[i].suffix == Some(
            upper(rest),
        ),
        records[i].sku == prefix ==> file_keys(records)[i].suffix is None,
{
    lemma_suffix_behind_hyphen(prefix, rest);
}

/// The part of a variant's SKU that counts is all of it where it has no hyphen,
/// and what is behind a prefix of three bytes; a SKU with another prefix has none.
pub proof fn law_keys_of_the_store(
    variants: Seq<ShopifyVariantRecordView>,
    i: int,
    prefix: Seq<char>,
    rest: Seq<char>,
)
    requires
        0 <= i < variants.len(),
        forall|j: int| 0 <= j < prefix.len() ==> #[trigger] prefix[j] != '-',
    ensures
        store_keys(variants).len() == variants.len(),
        store_keys(variants)[i].full == upper(variants[i].sku),
        variants[i].sku == prefix ==> store_keys(variants)[i].suffix == Some(upper(prefix)),
        variants[i].sku == prefix.push('-') + rest ==> store_keys(variants)[i].suffix == (
        if vstd::utf8::encode_utf8(prefix).len() == 3 {
            Some(upper(rest))
        } else {
            None
        }),
{
    lemma_suffix_behind_hyphen(prefix, rest);
    law_utf8_length(prefix);
    assert((prefix.push('-') + rest).take(prefix.len() as int) =~= prefix);
}

proof fn lemma_suffix_behind_hyphen(prefix: Seq<char>, rest: Seq<char>)
    requires
        forall|j: int| 0 <= j < prefix.len() ==> #[trigger] prefix[j] != '-',
    ensures
        position(prefix.push('-') + rest, '-') == Some(prefix.len() as int),
        (prefix.push('-') + rest).skip(prefix.len() as int + 1) == rest,
        position(prefix, '-') is None,
{
    let sku = prefix.push('-') + rest;
    assert forall|j: int| 0 <= j < prefix.len() implies #[trigger] sku[j] != '-' by {
        assert(sku[j] == prefix[j]);
    }
    lemma_position_is(sku, '-', prefix.len() as int);
    lemma_position(prefix, '-');
    assert(sku.skip(prefix.len() as int + 1) =~= rest);
}

/// The table shows every correction under its number: the old SKU and the new
/// one in one line, their descriptions in the next, and an empty line behind.
pub proof fn law_table_shows_every_correction(list: Seq<SkuCorrectionView>, i: int)
    requires
        0 <= i < list.len(),
    ensures
        ({
            let lines = table_lines(list);
            &&& lines.len() == 3 * list.len() + 4
            &&& lines[3 + 3 * i] == "  "@ + padded(decimal((i + 1) as nat), 6) + " "@ + padded(
                list[i].old_sku,
                30,
            ) + " "@ + list[i].new_sku
            &&& lines[4 + 3 * i] == "  "@ + padded(Seq::empty(), 6) + " "@ + padded(
                list[i].old_description,
                30,
            ) + " "@ + list[i].new_description
            &&& lines[5 + 3 * i].len() == 0
            &&& lines.last() == "  Total matches: "@ + decimal(list.len())
        }),
{
    lemma_table_body(list, list.len(), i);
    let body = table_body(list, list.len());
    let lines = table_lines(list);
    assert(lines[3 + 3 * i] == body[3 * i]);
    assert(lines[4 + 3 * i] == body[3 * i + 1]);
    assert(lines[5 + 3 * i] == body[3 * i + 2]);
}

proof fn lemma_table_body(list: Seq<SkuCorrectionView>, n: nat, i: int)
    requires
        n <= list.len(),
        0 <= i < n,
    ensures
        table_body(list, n).len() == 3 * n,
        table_body(list, n)[3 * i] == table_line(
            decimal((i + 1) as nat),
            list[i].old_sku,
            list[i].new_sku,
        ),
        table_body(list, n)[3 * i + 1] == table_line(
            seq![],
            list[i].old_description,
            list[i].new_description,
        ),
        table_body(list, n)[3 * i + 2] == Seq::<char>::empty(),
    decreases n,
{
    if n > 1 {
        lemma_table_body(list, (n - 1) as nat, if i < n - 1 {
            i
        } else {
            0
        });
    } else {
        assert(table_body(list, 0).len() == 0);
    }
}

/// The table begins with the names of its columns and a rule.
pub proof fn law_table_has_a_head(list: Seq<SkuCorrectionView>)
    ensures
        table_lines(list)[0] == "  "@ + padded("#"@, 6) + " "@ + padded("CURRENT SKU"@, 30) + " "@
            + "CORRECTED SKU"@,
        table_lines(list)[1] == "  "@ + padded(""@, 6) + " "@ + padded("Current Description"@, 30)
            + " "@ + "Price File Description"@,
        table_lines(list)[2] == "  "@ + repeated('-', 80),
{
}

/// A lost prefix is put back, and a wrong one of three bytes is replaced: where the
/// price file has the rest of a variant's SKU behind another prefix, and not the SKU
/// itself, the variant is among those that are corrected, to the SKU of the last such
/// line.
pub proof fn law_lost_prefix_is_restored(
    variants: Seq<ShopifyVariantRecordView>,
    records: Seq<PriceFileRecordView>,
    i: int,
    line: int,
    wrong: Seq<char>,
    right: Seq<char>,
    rest: Seq<char>,
)
    requires
        0 <= i < variants.len(),
        0 <= line < records.len(),
        forall|j: int| 0 <= j < wrong.len() ==> #[trigger] wrong[j] != '-',
        forall|j: int| 0 <= j < right.len() ==> #[trigger] right[j] != '-',
        ({
            ||| variants[i].sku == rest && forall|j: int|
                0 <= j < rest.len() ==> #[trigger] rest[j] != '-'
            ||| variants[i].sku == wrong.push('-') + rest && vstd::utf8::encode_utf8(wrong).len()
                == 3
        }),
        records[line].sku == right.push('-') + rest,
        forall|k: int|
            0 <= k < records.len() ==> upper((#[trigger] records[k]).sku) != upper(variants[i].sku),
        forall|k: int|
            line < k < records.len() ==> (#[trigger] file_keys(records)[k]).suffix != Some(
                upper(rest),
            ),
    ensures
        corrections(
            variants,
            store_keys(variants),
            records,
            file_keys(records),
            variants.len(),
        ).contains(
            SkuCorrectionView {
                variant_id: variants[i].variant_id,
                old_sku: variants[i].sku,
                old_description: variants[i].title,
                new_sku: records[line].sku,
                new_description: records[line].description,
            },
        ),
{
    let keys = file_keys(records);
    let own = store_keys(variants);
    law_keys_of_the_price_file(records, line, right, rest);
    if variants[i].sku == rest && forall|j: int|
        0 <= j < rest.len() ==> #[trigger] rest[j] != '-' {
        law_keys_of_the_store(variants, i, rest, rest);
    } else {
        law_keys_of_the_store(variants, i, wrong, rest);
    }
    assert forall|k: int| 0 <= k < keys.len() implies #[trigger] keys[k].full != own[i].full by {
        assert(keys[k].full == upper(records[k].sku));
    }
    law_corrections_are_complete(variants[i], own[i], records, keys, upper(rest), line);
    law_every_variant_is_looked_at(variants, own, records, keys, variants.len(), i);
    let before = corrections(variants, own, records, keys, i as nat);
    let all = corrections(variants, own, records, keys, variants.len());
    assert(all.contains(all[before.len() as int]));
}

} // verus!

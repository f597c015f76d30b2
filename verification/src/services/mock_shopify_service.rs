//! A stand-in for the store that keeps its products in memory.
use vstd::hash_map::StringHashMap;
use vstd::prelude::*;
use vstd::string::*;

use crate::models::{Amount, InventoryLevelSet, Product, ShopifyProduct, ShopifyVariant};
use crate::numbers::{signed_decimal, signed_decimal_of};
use crate::text::{
    is_before, lemma_precedes_asymmetric, lemma_precedes_chain, precedes, repeat_char, repeated,
    texts,
};

verus! {

/// A moment: whole seconds since the beginning of 1970 in UTC, and the rest in
/// nanoseconds.
#[derive(Debug, Clone, Copy, PartialEq, Eq, Structural)]
pub struct Moment {
    pub seconds: i64,
    pub nanos: u32,
}

/// How the date and the time of day of a moment are written, down to the second.
pub const CLOCK_FORMAT: &'static str = "%Y-%m-%d %H:%M:%S";

/// A moment in UTC, written in a format. There is nothing for a moment out of
/// the range of the calendar, and for a faulty format.
pub uninterp spec fn clock(seconds: i64, nanos: u32, format: Seq<char>) -> Option<Seq<char>>;

/// Calls `chrono::DateTime::from_timestamp`, which gives `None` out of its range,
/// `DateTime::format`, and `DelayedFormat::write_to`, which fails on a faulty
/// format. The text is named `clock`.
#[verifier::external_body]
pub(crate) fn clock_text(seconds: i64, nanos: u32, format: &str) -> (text: Option<String>)
    ensures
        crate::text::optional(text) == clock(seconds, nanos, format@),
{
    let time = chrono::DateTime::from_timestamp(seconds, nanos)?;
    let mut text = String::new();
    time.format(format).write_to(&mut text).ok()?;
    Some(text)
}

/// A product that the stand-in keeps.
#[derive(Debug)]
pub struct MockProduct {
    pub sku: String,
    pub title: String,
    pub price: Amount,
    pub inventory_quantity: i32,
    pub barcode: String,
    pub weight: Amount,
    pub description: String,
    pub cost: Amount,
    pub compare_at_price: Amount,
    pub created_at: Moment,
    pub updated_at: Moment,
}

/// A product under its key.
#[derive(Debug)]
pub struct MockEntry {
    pub key: String,
    pub product: MockProduct,
}

/// The products of a list of entries, by their keys; a later entry takes the
/// place of an earlier one.
pub open spec fn entries_map(entries: Seq<MockEntry>) -> Map<Seq<char>, MockProduct>
    decreases entries.len(),
{
    if entries.len() == 0 {
        Map::empty()
    } else {
        entries_map(entries.drop_last()).insert(entries.last().key@, entries.last().product)
    }
}

/// What is kept of a product: of one that is there already, the quantity, the
/// prices and the time of the change are renewed, and the rest stays.
pub open spec fn kept(existing: Option<MockProduct>, product: Product, now: Moment) -> MockProduct {
    match existing {
        Some(old) => MockProduct {
            inventory_quantity: product.inventory_quantity,
            price: product.price,
            cost: product.cost,
            compare_at_price: product.compare_at_price,
            updated_at: now,
            ..old
        },
        None => MockProduct {
            sku: product.sku,
            title: product.title,
            price: product.price,
            inventory_quantity: product.inventory_quantity,
            barcode: product.barcode,
            weight: product.weight,
            description: product.description,
            cost: product.cost,
            compare_at_price: product.compare_at_price,
            created_at: now,
            updated_at: now,
        },
    }
}

/// The product under a key.
pub open spec fn under_key(
    inventory: Map<Seq<char>, MockProduct>,
    key: Seq<char>,
) -> Option<MockProduct> {
    if inventory.contains_key(key) {
        Some(inventory[key])
    } else {
        None
    }
}

/// The inventory once a product was written to it.
pub open spec fn written(
    inventory: Map<Seq<char>, MockProduct>,
    product: Product,
    now: Moment,
) -> Map<Seq<char>, MockProduct> {
    inventory.insert(product.sku@, kept(under_key(inventory, product.sku@), product, now))
}

/// What a real store would have been sent about a product.
#[derive(Debug)]
pub struct MockPayload {
    pub variant: ShopifyVariant,
    pub inventory: InventoryLevelSet,
}

/// What a real store would have been sent about a product.
pub open spec fn payload(product: Product) -> MockPayload {
    MockPayload {
        variant: ShopifyVariant {
            id: Some(123456789),
            sku: product.sku,
            price: product.price.fixed,
            compare_at_price: Some(product.compare_at_price.fixed),
            inventory_quantity: Some(product.inventory_quantity),
            barcode: Some(product.barcode),
            weight: Some(product.weight),
            inventory_item_id: Some(999999999),
        },
        inventory: InventoryLevelSet {
            location_id: 88888888,
            inventory_item_id: 999999999,
            available: product.inventory_quantity,
        },
    }
}

/// The variant under which a product is listed.
pub open spec fn listed_variant(product: MockProduct) -> ShopifyVariant {
    ShopifyVariant {
        id: Some(67890),
        sku: product.sku,
        price: product.price.text,
        compare_at_price: Some(product.compare_at_price.text),
        inventory_quantity: Some(product.inventory_quantity),
        barcode: Some(product.barcode),
        weight: Some(product.weight),
        inventory_item_id: Some(99999),
    }
}

/// The product of the store is the listing of a product that is kept.
pub open spec fn lists(listing: ShopifyProduct, product: MockProduct) -> bool {
    &&& listing.id == Some(12345i64)
    &&& listing.title == product.title
    &&& listing.body_html == Some(product.description)
    &&& listing.vendor is None
    &&& listing.product_type is None
    &&& listing.variants@ == seq![listed_variant(product)]
}

/// The list with a product put behind those that do not come after it.
pub open spec fn placed(list: Seq<MockProduct>, product: MockProduct) -> Seq<MockProduct>
    decreases list.len(),
{
    if list.len() > 0 && precedes(product.sku@, list.last().sku@) {
        placed(list.drop_last(), product).push(list.last())
    } else {
        list.push(product)
    }
}

/// The list in the order of the SKUs.
pub open spec fn arranged(list: Seq<MockProduct>) -> Seq<MockProduct>
    decreases list.len(),
{
    if list.len() == 0 {
        seq![]
    } else {
        placed(arranged(list.drop_last()), list.last())
    }
}

/// No product of the list comes before an earlier one.
pub open spec fn is_in_order(list: Seq<MockProduct>) -> bool {
    forall|i: int, j: int|
        0 <= i < j < list.len() ==> !precedes(
            (#[trigger] list[j]).sku@,
            (#[trigger] list[i]).sku@,
        )
}

/// The place at which `placed` puts a product.
pub open spec fn place_of(list: Seq<MockProduct>, product: MockProduct) -> int
    decreases list.len(),
{
    if list.len() > 0 && precedes(product.sku@, list.last().sku@) {
        place_of(list.drop_last(), product)
    } else {
        list.len() as int
    }
}

proof fn lemma_placed(list: Seq<MockProduct>, product: MockProduct)
    ensures
        0 <= place_of(list, product) <= list.len(),
        placed(list, product) == list.insert(place_of(list, product), product),
        forall|j: int|
            place_of(list, product) <= j < list.len() ==> precedes(
                product.sku@,
                (#[trigger] list[j]).sku@,
            ),
        place_of(list, product) > 0 ==> !precedes(
            product.sku@,
            list[place_of(list, product) - 1].sku@,
        ),
    decreases list.len(),
{
    if list.len() > 0 && precedes(product.sku@, list.last().sku@) {
        let front = list.drop_last();
        let at = place_of(front, product);
        lemma_placed(front, product);
        assert(front.insert(at, product).push(list.last()) =~= list.insert(at, product));
        assert forall|j: int| at <= j < list.len() implies precedes(
            product.sku@,
            (#[trigger] list[j]).sku@,
        ) by {
            if j < front.len() {
                assert(front[j] == list[j]);
            }
        }
        if at > 0 {
            assert(front[at - 1] == list[at - 1]);
        }
    } else {
        assert(list.push(product) =~= list.insert(list.len() as int, product));
    }
}

proof fn lemma_placed_in_order(list: Seq<MockProduct>, product: MockProduct)
    requires
        is_in_order(list),
    ensures
        is_in_order(placed(list, product)),
{
    let at = place_of(list, product);
    let out = placed(list, product);
    lemma_placed(list, product);
    let x = product.sku@;
    assert forall|i: int, j: int| 0 <= i < j < out.len() implies !precedes(
        (#[trigger] out[j]).sku@,
        (#[trigger] out[i]).sku@,
    ) by {
        if j < at {
            assert(out[i] == list[i] && out[j] == list[j]);
        } else if j == at {
            let last = list[at - 1].sku@;
            assert(out[i] == list[i]);
            if i < at - 1 {
                assert(!precedes(list[at - 1].sku@, list[i].sku@));
            } else {
                lemma_precedes_asymmetric(last, last);
            }
            if precedes(x, list[i].sku@) {
                lemma_precedes_chain(x, list[i].sku@, last);
            }
        } else if i == at {
            assert(out[j] == list[j - 1]);
            lemma_precedes_asymmetric(x, list[j - 1].sku@);
        } else if i < at {
            assert(out[i] == list[i] && out[j] == list[j - 1]);
        } else {
            assert(out[i] == list[i - 1] && out[j] == list[j - 1]);
        }
    }
}

/// The summary lists the products in the order of their SKUs.
pub proof fn law_summary_is_in_order(list: Seq<MockProduct>)
    ensures
        is_in_order(arranged(list)),
    decreases list.len(),
{
    if list.len() > 0 {
        law_summary_is_in_order(list.drop_last());
        lemma_placed_in_order(arranged(list.drop_last()), list.last());
    }
}

/// The summary lists every product, each once.
pub proof fn law_summary_lists_every_product(list: Seq<MockProduct>)
    ensures
        arranged(list).to_multiset() =~= list.to_multiset(),
    decreases list.len(),
{
    broadcast use vstd::seq_lib::group_to_multiset_ensures;

    if list.len() > 0 {
        let front = list.drop_last();
        let before = arranged(front);
        law_summary_lists_every_product(front);
        lemma_placed(before, list.last());
        let at = place_of(before, list.last());
        assert(list =~= front.push(list.last()));
        assert(before.insert(at, list.last()).to_multiset() =~= before.to_multiset().insert(
            list.last(),
        )) by {
            vstd::seq_lib::to_multiset_insert(before, at, list.last());
        }
    }
}

/// The lines about one product.
pub open spec fn product_lines(product: MockProduct, clock: Seq<char>) -> Seq<Seq<char>> {
    seq![
        "SKU: "@ + product.sku@,
        "  Title: "@ + product.title@,
        "  Sell: $"@ + product.price.fixed@ + " | List: $"@ + product.compare_at_price.fixed@
            + " | Cost: $"@ + product.cost.fixed@,
        "  Qty: "@ + signed_decimal(product.inventory_quantity as int) + " | Updated: "@ + clock,
        seq![],
    ]
}

/// The lines about the first `n` products.
pub open spec fn body_lines(
    products: Seq<MockProduct>,
    clocks: Seq<Seq<char>>,
    n: nat,
) -> Seq<Seq<char>>
    decreases n,
{
    if n == 0 {
        seq![]
    } else {
        body_lines(products, clocks, (n - 1) as nat) + product_lines(
            products[n - 1],
            clocks[n - 1],
        )
    }
}

/// The lines of the summary: a heading, the products in the given order, and a
/// closing rule.
pub open spec fn summary_lines(products: Seq<MockProduct>, clocks: Seq<Seq<char>>) -> Seq<
    Seq<char>,
> {
    seq![seq![], repeated('=', 60), "MOCK INVENTORY SUMMARY"@, repeated('=', 60)] + (
    if products.len() == 0 {
        seq!["No products in inventory"@]
    } else {
        body_lines(products, clocks, products.len())
    }) + seq![repeated('=', 60), seq![]]
}

/// The products that references point to.
pub open spec fn pointed(list: Seq<&MockProduct>) -> Seq<MockProduct> {
    list.map_values(|p: &MockProduct| *p)
}

/// The clocks of some products; nothing where one of them has none.
pub open spec fn clocks_of(products: Seq<MockProduct>) -> Option<Seq<Seq<char>>>
    decreases products.len(),
{
    if products.len() == 0 {
        Some(seq![])
    } else {
        let last = products.last().updated_at;
        match (clocks_of(products.drop_last()), clock(last.seconds, last.nanos, CLOCK_FORMAT@)) {
            (Some(before), Some(text)) => Some(before.push(text)),
            _ => None,
        }
    }
}

proof fn lemma_clocks_stay_missing(products: Seq<MockProduct>, n: int)
    requires
        0 <= n <= products.len(),
        clocks_of(products.take(n)) is None,
    ensures
        clocks_of(products) is None,
    decreases products.len() - n,
{
    if n == products.len() {
        assert(products.take(n) =~= products);
    } else {
        assert(products.take(n + 1).drop_last() =~= products.take(n));
        lemma_clocks_stay_missing(products, n + 1);
    }
}

fn push_product_lines(lines: &mut Vec<String>, product: &MockProduct, clock: &str)
    ensures
        texts(final(lines)@) == texts(old(lines)@) + product_lines(*product, clock@),
{
    let ghost before = texts(lines@);
    let mut sku = "SKU: ".to_owned();
    sku.append(product.sku.as_str());
    let mut title = "  Title: ".to_owned();
    title.append(product.title.as_str());
    let mut prices = "  Sell: $".to_owned();
    prices.append(product.price.fixed.as_str());
    prices.append(" | List: $");
    prices.append(product.compare_at_price.fixed.as_str());
    prices.append(" | Cost: $");
    prices.append(product.cost.fixed.as_str());
    let mut stock = "  Qty: ".to_owned();
    let quantity = signed_decimal_of(product.inventory_quantity as i64);
    stock.append(quantity.as_str());
    stock.append(" | Updated: ");
    stock.append(clock);
    let nothing = String::new();
    assert(nothing@ =~= Seq::<char>::empty());
    lines.push(sku);
    lines.push(title);
    lines.push(prices);
    lines.push(stock);
    lines.push(nothing);
    assert(texts(lines@) =~= before + product_lines(*product, clock@));
}

/// The lines of the summary of products in the given order, with their clocks.
pub fn summarize(products: &Vec<&MockProduct>, clocks: &Vec<String>) -> (lines: Vec<String>)
    requires
        clocks@.len() == products@.len(),
    ensures
        texts(lines@) == summary_lines(pointed(products@), texts(clocks@)),
{
    let mut lines: Vec<String> = Vec::new();
    let ghost list = pointed(products@);
    let ghost times = texts(clocks@);
    let rule = repeat_char('=', 60);
    let nothing = String::new();
    assert(nothing@ =~= Seq::<char>::empty());
    lines.push(nothing);
    lines.push(rule.clone());
    lines.push("MOCK INVENTORY SUMMARY".to_owned());
    lines.push(rule.clone());
    let ghost head = texts(lines@);
    assert(head =~= seq![
        seq![],
        repeated('=', 60),
        "MOCK INVENTORY SUMMARY"@,
        repeated('=', 60),
    ]);
    if products.len() == 0 {
        lines.push("No products in inventory".to_owned());
        assert(texts(lines@) =~= head + seq!["No products in inventory"@]);
    } else {
        assert(texts(lines@) =~= head + body_lines(list, times, 0));
        for i in 0..products.len()
            invariant
                clocks@.len() == products@.len(),
                list == pointed(products@),
                times == texts(clocks@),
                texts(lines@) == head + body_lines(list, times, i as nat),
        {
            let product = products[i];
            assert(list[i as int] == *product);
            assert(times[i as int] == clocks@[i as int]@);
            push_product_lines(&mut lines, product, clocks[i].as_str());
            assert(texts(lines@) =~= head + body_lines(list, times, (i + 1) as nat));
        }
    }
    let ghost before = texts(lines@);
    let last = String::new();
    assert(last@ =~= Seq::<char>::empty());
    lines.push(rule);
    lines.push(last);
    assert(texts(lines@) =~= before + seq![repeated('=', 60), seq![]]);
    lines
}

/// The stand-in for the store.
pub struct MockShopifyService {
    /// The products, each key once, in the order in which they came.
    pub entries: Vec<MockEntry>,
    /// The place of each key among the entries.
    pub index: StringHashMap<usize>,
}

impl MockShopifyService {
    /// The index leads to every entry, and to its own place.
    pub open spec fn well_formed(self) -> bool {
        &&& forall|key: Seq<char>| #[trigger]
            self.index@.contains_key(key) ==> self.index@[key] < self.entries@.len()
                && self.entries@[self.index@[key] as int].key@ == key
        &&& forall|i: int|
            0 <= i < self.entries@.len() ==> self.index@.contains_key(
                (#[trigger] self.entries@[i]).key@,
            ) && self.index@[self.entries@[i].key@] == i
    }

    /// The products by their keys.
    pub open spec fn inventory(self) -> Map<Seq<char>, MockProduct> {
        Map::new(
            |key: Seq<char>| self.index@.contains_key(key),
            |key: Seq<char>| self.entries@[self.index@[key] as int].product,
        )
    }

    /// The products in the order in which they came.
    pub open spec fn products(self) -> Seq<MockProduct> {
        self.entries@.map_values(|e: MockEntry| e.product)
    }

    /// The stand-in without any product. Neither the address of the store nor
    /// the token is needed.
    pub fn new(_store_url: String, _access_token: String) -> (service: Self)
        ensures
            service.well_formed(),
            service.inventory() == Map::<Seq<char>, MockProduct>::empty(),
    {
        let service = MockShopifyService { entries: Vec::new(), index: StringHashMap::new() };
        assert(service.inventory() =~= Map::<Seq<char>, MockProduct>::empty());
        service
    }

    /// Puts a product under a key, in the place of one that may be there.
    fn put(&mut self, key: String, product: MockProduct)
        requires
            old(self).well_formed(),
        ensures
            final(self).well_formed(),
            final(self).inventory() == old(self).inventory().insert(key@, product),
    {
        let ghost before = *self;
        let place: Option<usize> = match self.index.get(key.as_str()) {
            Some(i) => Some(*i),
            None => None,
        };
        match place {
            Some(i) => {
                let entry = MockEntry { key, product };
                self.entries.set(i, entry);
                assert(self.index@ == before.index@);
                assert forall|j: int| 0 <= j < self.entries@.len() implies self.index@.contains_key(
                    (#[trigger] self.entries@[j]).key@,
                ) && self.index@[self.entries@[j].key@] == j by {
                    assert(self.entries@[j].key@ == before.entries@[j].key@);
                }
                assert forall|k: Seq<char>| #[trigger]
                    self.index@.contains_key(k) implies self.entries@[self.index@[k] as int].key@
                    == k by {
                    assert(before.index@.contains_key(k));
                }
            },
            None => {
                let i = self.entries.len();
                let entry = MockEntry { key: key.clone(), product };
                self.entries.push(entry);
                self.index.insert(key, i);
                assert forall|j: int| 0 <= j < self.entries@.len() implies self.index@.contains_key(
                    (#[trigger] self.entries@[j]).key@,
                ) && self.index@[self.entries@[j].key@] == j by {
                    if j < before.entries@.len() {
                        assert(before.index@.contains_key(before.entries@[j].key@));
                    }
                }
                assert forall|k: Seq<char>| #[trigger]
                    self.index@.contains_key(k) implies self.index@[k] < self.entries@.len()
                    && self.entries@[self.index@[k] as int].key@ == k by {
                    if k != key@ {
                        assert(before.index@.contains_key(k));
                    }
                }
            },
        }
        assert(self.inventory() =~= before.inventory().insert(key@, product));
    }

    /// Takes the products of a saved state in the place of all that are kept.
    pub fn load_from_file(&mut self, loaded: Vec<MockEntry>)
        ensures
            final(self).well_formed(),
            final(self).inventory() == entries_map(loaded@),
    {
        let mut fresh = MockShopifyService { entries: Vec::new(), index: StringHashMap::new() };
        assert(fresh.inventory() =~= entries_map(loaded@.take(0)));
        let ghost all = loaded@;
        for entry in it: loaded
            invariant
                fresh.well_formed(),
                it.seq() == all,
                fresh.inventory() == entries_map(all.take(it.index() as int)),
        {
            assert(all.take(it.index() + 1).drop_last() =~= all.take(it.index() as int));
            let MockEntry { key, product } = entry;
            fresh.put(key, product);
        }
        assert(all.take(all.len() as int) =~= all);
        *self = fresh;
    }

    /// The products that a saved state holds.
    pub fn save_to_file(&self) -> (entries: &Vec<MockEntry>)
        requires
            self.well_formed(),
        ensures
            *entries == self.entries,
            entries_map(entries@) == self.inventory(),
    {
        proof {
            law_saved_state_is_whole(*self);
        }
        &self.entries
    }

    /// Creates a product, or renews one with the same SKU.
    pub fn create_product(&mut self, product: &Product, now: Moment)
        requires
            old(self).well_formed(),
        ensures
            final(self).well_formed(),
            final(self).inventory() == written(old(self).inventory(), *product, now),
    {
        let place: Option<usize> = match self.index.get(product.sku.as_str()) {
            Some(i) => Some(*i),
            None => None,
        };
        let kept = match place {
            Some(i) => {
                let old = &self.entries[i].product;
                MockProduct {
                    sku: old.sku.clone(),
                    title: old.title.clone(),
                    price: product.price.clone(),
                    inventory_quantity: product.inventory_quantity,
                    barcode: old.barcode.clone(),
                    weight: old.weight.clone(),
                    description: old.description.clone(),
                    cost: product.cost.clone(),
                    compare_at_price: product.compare_at_price.clone(),
                    created_at: old.created_at,
                    updated_at: now,
                }
            },
            None => MockProduct {
                sku: product.sku.clone(),
                title: product.title.clone(),
                price: product.price.clone(),
                inventory_quantity: product.inventory_quantity,
                barcode: product.barcode.clone(),
                weight: product.weight.clone(),
                description: product.description.clone(),
                cost: product.cost.clone(),
                compare_at_price: product.compare_at_price.clone(),
                created_at: now,
                updated_at: now,
            },
        };
        self.put(product.sku.clone(), kept);
    }

    /// Writes a product, and says what a real store would have been sent.
    pub fn update_product_on_shopify(&mut self, product: &Product, now: Moment) -> (sent:
        MockPayload)
        requires
            old(self).well_formed(),
        ensures
            final(self).well_formed(),
            final(self).inventory() == written(old(self).inventory(), *product, now),
            sent == payload(*product),
    {
        let variant = ShopifyVariant {
            id: Some(123456789),
            sku: product.sku.clone(),
            price: product.price.fixed.clone(),
            compare_at_price: Some(product.compare_at_price.fixed.clone()),
            inventory_quantity: Some(product.inventory_quantity),
            barcode: Some(product.barcode.clone()),
            weight: Some(product.weight.clone()),
            inventory_item_id: Some(999999999),
        };
        let inventory = InventoryLevelSet {
            location_id: 88888888,
            inventory_item_id: 999999999,
            available: product.inventory_quantity,
        };
        self.create_product(product, now);
        MockPayload { variant, inventory }
    }

    /// Writes a product, and says what a real store would have been sent.
    pub fn update_inventory(&mut self, product: &Product, now: Moment) -> (sent: MockPayload)
        requires
            old(self).well_formed(),
        ensures
            final(self).well_formed(),
            final(self).inventory() == written(old(self).inventory(), *product, now),
            sent == payload(*product),
    {
        self.update_product_on_shopify(product, now)
    }

    /// The listing of the product with a SKU.
    pub fn get_product_by_sku(&self, sku: &str) -> (listing: Option<ShopifyProduct>)
        requires
            self.well_formed(),
        ensures
            match under_key(self.inventory(), sku@) {
                Some(product) => listing matches Some(found) && lists(found, product),
                None => listing is None,
            },
    {
        match self.index.get(sku) {
            Some(i) => {
                let product = &self.entries[*i].product;
                let variant = ShopifyVariant {
                    id: Some(67890),
                    sku: product.sku.clone(),
                    price: product.price.text.clone(),
                    compare_at_price: Some(product.compare_at_price.text.clone()),
                    inventory_quantity: Some(product.inventory_quantity),
                    barcode: Some(product.barcode.clone()),
                    weight: Some(product.weight.clone()),
                    inventory_item_id: Some(99999),
                };
                let variants: Vec<ShopifyVariant> = vec![variant];
                assert(variants@ =~= seq![listed_variant(*product)]);
                Some(
                    ShopifyProduct {
                        id: Some(12345),
                        title: product.title.clone(),
                        body_html: Some(product.description.clone()),
                        vendor: None,
                        product_type: None,
                        variants,
                    },
                )
            },
            None => None,
        }
    }

    /// How many products there are.
    pub fn get_product_count(&self) -> (count: usize)
        requires
            self.well_formed(),
        ensures
            count == self.inventory().dom().len(),
    {
        assert(self.inventory().dom() =~= self.index@.dom());
        self.index.len()
    }

    /// The products in the order of their SKUs.
    fn in_order(&self) -> (list: Vec<&MockProduct>)
        ensures
            pointed(list@) == arranged(self.products()),
    {
        let mut list: Vec<&MockProduct> = Vec::new();
        let ghost all = self.products();
        assert(pointed(list@) =~= arranged(all.take(0)));
        for i in 0..self.entries.len()
            invariant
                all == self.products(),
                pointed(list@) == arranged(all.take(i as int)),
        {
            let product = &self.entries[i].product;
            let ghost before = pointed(list@);
            assert(all.take(i + 1).drop_last() =~= all.take(i as int));
            assert(all.take(i + 1).last() == *product);
            let mut at: usize = list.len();
            assert(before.take(at as int) =~= before);
            while at > 0 && is_before(product.sku.as_str(), list[at - 1].sku.as_str())
                invariant
                    at <= list@.len(),
                    before == pointed(list@),
                    place_of(before, *product) == place_of(before.take(at as int), *product),
                decreases at,
            {
                assert(before[at - 1] == *list@[at - 1]);
                assert(before.take(at as int).drop_last() =~= before.take(at - 1));
                at = at - 1;
            }
            proof {
                if at > 0 {
                    assert(before.take(at as int).last() == *list@[at - 1]);
                }
                assert(place_of(before, *product) == at);
                lemma_placed(before, *product);
            }
            list.insert(at, product);
            assert(pointed(list@) =~= before.insert(at as int, *product));
        }
        assert(all.take(self.entries.len() as int) =~= all);
        list
    }

    /// The lines of the summary of all products in the order of their SKUs.
    /// There is none where the time of a change is out of the range of the
    /// calendar.
    pub fn print_inventory_summary(&self) -> (lines: Option<Vec<String>>)
        ensures
            match clocks_of(arranged(self.products())) {
                Some(clocks) => lines matches Some(lines) && texts(lines@) == summary_lines(
                    arranged(self.products()),
                    clocks,
                ),
                None => lines is None,
            },
    {
        let list = self.in_order();
        let ghost model = pointed(list@);
        let mut clocks: Vec<String> = Vec::new();
        assert(texts(clocks@) =~= Seq::<Seq<char>>::empty());
        for i in 0..list.len()
            invariant
                model == pointed(list@),
                model == arranged(self.products()),
                clocks_of(model.take(i as int)) == Some(texts(clocks@)),
                clocks@.len() == i,
        {
            let time = list[i].updated_at;
            let ghost before = texts(clocks@);
            proof {
                assert(model.take(i + 1).drop_last() =~= model.take(i as int));
                assert(model.take(i + 1).last() == *list@[i as int]);
            }
            match clock_text(time.seconds, time.nanos, CLOCK_FORMAT) {
                Some(text) => {
                    clocks.push(text);
                    assert(texts(clocks@) =~= before.push(text@));
                },
                None => {
                    proof {
                        lemma_clocks_stay_missing(model, i + 1);
                    }
                    return None;
                },
            }
        }
        assert(model.take(list.len() as int) =~= model);
        Some(summarize(&list, &clocks))
    }
}

/// The entries of a saved state hold the whole inventory.
pub proof fn law_saved_state_is_whole(service: MockShopifyService)
    requires
        service.well_formed(),
    ensures
        entries_map(service.entries@) == service.inventory(),
{
    law_saved_state_loads_back(service, service.entries@);
}

proof fn lemma_entries_map(list: Seq<MockEntry>)
    ensures
        forall|i: int|
            0 <= i < list.len() ==> entries_map(list).contains_key((#[trigger] list[i]).key@),
        forall|key: Seq<char>| #[trigger]
            entries_map(list).contains_key(key) ==> exists|i: int|
                0 <= i < list.len() && (#[trigger] list[i]).key@ == key && list[i].product
                    == entries_map(list)[key],
    decreases list.len(),
{
    if list.len() > 0 {
        let front = list.drop_last();
        lemma_entries_map(front);
        let last = list[list.len() - 1];
        assert forall|i: int| 0 <= i < list.len() implies entries_map(list).contains_key(
            (#[trigger] list[i]).key@,
        ) by {
            if i < front.len() {
                assert(entries_map(front).contains_key(front[i].key@));
            }
        }
        assert forall|key: Seq<char>| #[trigger]
            entries_map(list).contains_key(key) implies exists|i: int|
            0 <= i < list.len() && (#[trigger] list[i]).key@ == key && list[i].product
                == entries_map(list)[key] by {
            if key == last.key@ {
                assert(list[list.len() - 1].product == entries_map(list)[key]);
            } else {
                assert(entries_map(front).contains_key(key));
                let i = choose|i: int|
                    0 <= i < front.len() && (#[trigger] front[i]).key@ == key && front[i].product
                        == entries_map(front)[key];
                assert(list[i] == front[i]);
            }
        }
    }
}

/// What was saved is what is loaded: the entries of a saved state, in whatever
/// order and however often they are given, make up the inventory again, and as
/// many products.
pub proof fn law_saved_state_loads_back(service: MockShopifyService, loaded: Seq<MockEntry>)
    requires
        service.well_formed(),
        forall|entry: MockEntry| #[trigger]
            loaded.contains(entry) <==> service.entries@.contains(entry),
    ensures
        entries_map(loaded) == service.inventory(),
        entries_map(loaded).dom().len() == service.inventory().dom().len(),
{
    lemma_entries_map(loaded);
    let all = entries_map(loaded);
    let inventory = service.inventory();
    assert forall|key: Seq<char>| all.contains_key(key) implies inventory.contains_key(key)
        && #[trigger] all[key] == inventory[key] by {
        let i = choose|i: int|
            0 <= i < loaded.len() && (#[trigger] loaded[i]).key@ == key && loaded[i].product
                == all[key];
        assert(loaded.contains(loaded[i]));
        assert(service.entries@.contains(loaded[i]));
        let j = choose|j: int| 0 <= j < service.entries@.len() && service.entries@[j] == loaded[i];
        assert(service.index@[service.entries@[j].key@] == j);
    }
    assert forall|key: Seq<char>| inventory.contains_key(key) implies #[trigger] all.contains_key(
        key,
    ) by {
        let j = service.index@[key] as int;
        assert(service.index@.contains_key(key));
        let entry = service.entries@[j];
        assert(service.entries@.contains(entry));
        assert(loaded.contains(entry));
        let i = choose|i: int| 0 <= i < loaded.len() && loaded[i] == entry;
        assert(all.contains_key(loaded[i].key@));
    }
    assert(all =~= inventory);
}

/// What was written last is what is read: the quantity and the prices of the
/// product, under its SKU.
pub proof fn law_written_product_is_read(
    inventory: Map<Seq<char>, MockProduct>,
    product: Product,
    now: Moment,
)
    ensures
        under_key(written(inventory, product, now), product.sku@) matches Some(found)
            && found.inventory_quantity == product.inventory_quantity && found.price
            == product.price && found.cost == product.cost && found.compare_at_price
            == product.compare_at_price && found.updated_at == now,
{
}

/// Writing a product leaves all others as they are.
pub proof fn law_other_products_stay(
    inventory: Map<Seq<char>, MockProduct>,
    product: Product,
    now: Moment,
    key: Seq<char>,
)
    requires
        key != product.sku@,
    ensures
        under_key(written(inventory, product, now), key) == under_key(inventory, key),
{
}

/// A product that is written again keeps its title, its other texts, and the
/// time at which it was created.
pub proof fn law_rewritten_product_keeps_its_texts(
    inventory: Map<Seq<char>, MockProduct>,
    product: Product,
    now: Moment,
)
    requires
        inventory.contains_key(product.sku@),
    ensures
        ({
            let old = inventory[product.sku@];
            let new = written(inventory, product, now)[product.sku@];
            new.sku == old.sku && new.title == old.title && new.barcode == old.barcode
                && new.weight == old.weight && new.description == old.description
                && new.created_at == old.created_at
        }),
{
}

/// Writing a product twice at the same time is writing it once.
pub proof fn law_writing_is_idempotent(
    inventory: Map<Seq<char>, MockProduct>,
    product: Product,
    now: Moment,
)
    ensures
        written(written(inventory, product, now), product, now) =~= written(
            inventory,
            product,
            now,
        ),
{
}

/// Writing a product adds one to the count where its SKU is new, and nothing
/// where it is not.
pub proof fn law_count_grows_with_new_skus(
    inventory: Map<Seq<char>, MockProduct>,
    product: Product,
    now: Moment,
)
    requires
        inventory.dom().finite(),
    ensures
        written(inventory, product, now).dom().len() == inventory.dom().len() + if inventory.contains_key(
            product.sku@,
        ) {
            0nat
        } else {
            1nat
        },
{
    if inventory.contains_key(product.sku@) {
        assert(written(inventory, product, now).dom() =~= inventory.dom());
    } else {
        assert(written(inventory, product, now).dom() =~= inventory.dom().insert(product.sku@));
    }
}

/// A product that is new is kept with all that the price file says of it.
pub proof fn law_new_product_is_kept_whole(
    inventory: Map<Seq<char>, MockProduct>,
    product: Product,
    now: Moment,
)
    requires
        !inventory.contains_key(product.sku@),
    ensures
        ({
            let new = written(inventory, product, now)[product.sku@];
            &&& written(inventory, product, now).contains_key(product.sku@)
            &&& new.sku == product.sku && new.title == product.title
            &&& new.price == product.price && new.cost == product.cost
            &&& new.compare_at_price == product.compare_at_price
            &&& new.inventory_quantity == product.inventory_quantity
            &&& new.barcode == product.barcode && new.weight == product.weight
            &&& new.description == product.description
            &&& new.created_at == now && new.updated_at == now
        }),
{
}

/// What a real store would have been sent carries the product's own SKU, prices and
/// quantity.
pub proof fn law_payload_carries_the_product(product: Product)
    ensures
        ({
            let sent = payload(product);
            &&& sent.variant.sku == product.sku
            &&& sent.variant.price == product.price.fixed
            &&& sent.variant.compare_at_price == Some(product.compare_at_price.fixed)
            &&& sent.variant.inventory_quantity == Some(product.inventory_quantity)
            &&& sent.variant.barcode == Some(product.barcode)
            &&& sent.variant.weight == Some(product.weight)
            &&& sent.variant.inventory_item_id == Some(sent.inventory.inventory_item_id)
            &&& sent.inventory.available == product.inventory_quantity
            &&& sent.variant.id == Some(123456789i64)
            &&& sent.inventory.inventory_item_id == 999999999
            &&& sent.inventory.location_id == 88888888
        }),
{
}

/// A listing shows what is kept of the product.
pub proof fn law_listing_shows_the_product(listing: ShopifyProduct, product: MockProduct)
    requires
        lists(listing, product),
    ensures
        listing.title == product.title,
        listing.body_html == Some(product.description),
        listing.variants@.len() == 1,
        ({
            let variant = listing.variants@[0];
            &&& variant.sku == product.sku
            &&& variant.price == product.price.text
            &&& variant.compare_at_price == Some(product.compare_at_price.text)
            &&& variant.inventory_quantity == Some(product.inventory_quantity)
            &&& variant.barcode == Some(product.barcode)
            &&& variant.weight == Some(product.weight)
            &&& variant.id == Some(67890i64)
            &&& variant.inventory_item_id == Some(99999i64)
        }),
        listing.id == Some(12345i64),
{
}

/// The last entry under a key is the one that counts.
pub proof fn law_last_entry_counts(entries: Seq<MockEntry>, i: int)
    requires
        0 <= i < entries.len(),
        forall|j: int| i < j < entries.len() ==> (#[trigger] entries[j]).key@ != entries[i].key@,
    ensures
        entries_map(entries).contains_key(entries[i].key@),
        entries_map(entries)[entries[i].key@] == entries[i].product,
    decreases entries.len(),
{
    if i < entries.len() - 1 {
        let front = entries.drop_last();
        assert(entries[entries.len() - 1].key@ != entries[i].key@);
        assert forall|j: int| i < j < front.len() implies (#[trigger] front[j]).key@
            != front[i].key@ by {
            assert(front[j] == entries[j]);
        }
        law_last_entry_counts(front, i);
    }
}

/// The summary shows of every product its SKU, its title, its three prices, its
/// quantity and the time of its last change, in the order in which they are given.
pub proof fn law_summary_shows_every_product(
    products: Seq<MockProduct>,
    clocks: Seq<Seq<char>>,
    i: int,
)
    requires
        0 <= i < products.len(),
    ensures
        ({
            let lines = summary_lines(products, clocks);
            let p = products[i];
            &&& lines.len() == 5 * products.len() + 6
            &&& lines[2] == "MOCK INVENTORY SUMMARY"@
            &&& lines[4 + 5 * i] == "SKU: "@ + p.sku@
            &&& lines[5 + 5 * i] == "  Title: "@ + p.title@
            &&& lines[6 + 5 * i] == "  Sell: $"@ + p.price.fixed@ + " | List: $"@
                + p.compare_at_price.fixed@ + " | Cost: $"@ + p.cost.fixed@
            &&& lines[7 + 5 * i] == "  Qty: "@ + signed_decimal(p.inventory_quantity as int)
                + " | Updated: "@ + clocks[i]
            &&& lines[8 + 5 * i].len() == 0
        }),
{
    lemma_body_lines(products, clocks, products.len(), i);
    let body = body_lines(products, clocks, products.len());
    let lines = summary_lines(products, clocks);
    let own = product_lines(products[i], clocks[i]);
    assert(body[5 * i + 0] == own[0] && lines[4 + 5 * i] == body[5 * i]);
    assert(body[5 * i + 1] == own[1] && lines[5 + 5 * i] == body[5 * i + 1]);
    assert(body[5 * i + 2] == own[2] && lines[6 + 5 * i] == body[5 * i + 2]);
    assert(body[5 * i + 3] == own[3] && lines[7 + 5 * i] == body[5 * i + 3]);
    assert(body[5 * i + 4] == own[4] && lines[8 + 5 * i] == body[5 * i + 4]);
}

proof fn lemma_body_lines(
    products: Seq<MockProduct>,
    clocks: Seq<Seq<char>>,
    n: nat,
    i: int,
)
    requires
        0 <= i < n,
    ensures
        body_lines(products, clocks, n).len() == 5 * n,
        forall|k: int|
            0 <= k < 5 ==> body_lines(products, clocks, n)[5 * i + k] == #[trigger] product_lines(
                products[i],
                clocks[i],
            )[k],
    decreases n,
{
    let before = body_lines(products, clocks, (n - 1) as nat);
    if n > 1 {
        lemma_body_lines(
            products,
            clocks,
            (n - 1) as nat,
            if i < n - 1 {
                i
            } else {
                0
            },
        );
    } else {
        assert(before.len() == 0);
    }
    assert(before.len() == 5 * (n - 1));
}

/// An empty inventory is shown as such.
pub proof fn law_empty_summary(clocks: Seq<Seq<char>>)
    ensures
        summary_lines(Seq::empty(), clocks).len() == 7,
        summary_lines(Seq::empty(), clocks)[4] == "No products in inventory"@,
{
}

/// The time of a change is written as the date and the time of day in UTC.
pub proof fn law_clocks_of_products(products: Seq<MockProduct>, i: int)
    requires
        0 <= i < products.len(),
        clocks_of(products) is Some,
    ensures
        clocks_of(products)->0.len() == products.len(),
        clock(
            products[i].updated_at.seconds,
            products[i].updated_at.nanos,
            "%Y-%m-%d %H:%M:%S"@,
        ) == Some(clocks_of(products)->0[i]),
    decreases products.len(),
{
    if i < products.len() - 1 {
        law_clocks_of_products(products.drop_last(), i);
    } else if products.len() > 1 {
        law_clocks_of_products(products.drop_last(), 0);
    } else {
        assert(products.drop_last().len() == 0);
    }
}

} // verus!

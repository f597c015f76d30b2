//! Bringing a whole price file into the store.
//!
//! The price file is first compared with what the store holds (`plan_sync`);
//! then the differences are sent one by one (`PushRun`); then they are reported.
use vstd::hash_map::StringHashMap;
use vstd::prelude::*;
use vstd::string::*;

use crate::models::Product;
use crate::services::product_session::Target;
use crate::services::stock_fetch::{catalog_view, CachedVariant, CachedVariantView};
use crate::text::{same_text, texts, to_upper, upper};

verus! {

/// How the price of a product compares with the store's.
#[derive(Debug)]
pub struct PriceCheck {
    /// The two differ by more than a tenth of a cent.
    pub changed: bool,
    /// The store's price with two decimals.
    pub current: String,
}

/// The keys under which products are looked up: their SKUs in upper case.
pub open spec fn keys_of(products: Seq<Product>) -> Seq<Seq<char>> {
    products.map_values(|p: Product| upper(p.sku@))
}

/// The keys under which products are looked up.
pub fn product_keys(products: &Vec<Product>) -> (keys: Vec<String>)
    ensures
        texts(keys@) == keys_of(products@),
{
    let mut keys: Vec<String> = Vec::new();
    for i in 0..products.len()
        invariant
            texts(keys@) == keys_of(products@).take(i as int),
    {
        let ghost before = keys@;
        let key = to_upper(products[i].sku.as_str());
        keys.push(key);
        assert(texts(keys@) =~= texts(before).push(key@));
        assert(keys_of(products@).take(i + 1) =~= keys_of(products@).take(i as int).push(
            upper(products@[i as int].sku@),
        ));
    }
    assert(keys_of(products@).take(products.len() as int) =~= keys_of(products@));
    keys
}

/// The store's prices for some keys: nothing for a key that the store does not
/// have, and what it writes as the price for the others.
pub open spec fn prices_of(
    keys: Seq<Seq<char>>,
    catalog: Map<Seq<char>, CachedVariantView>,
) -> Seq<Option<Option<Seq<char>>>> {
    keys.map_values(
        |key: Seq<char>|
            if catalog.contains_key(key) {
                Some(catalog[key].current_price)
            } else {
                None
            },
    )
}

/// The model of a price that may not be there.
pub open spec fn price_view(price: Option<Option<String>>) -> Option<Option<Seq<char>>> {
    match price {
        Some(Some(text)) => Some(Some(text@)),
        Some(None) => Some(None),
        None => None,
    }
}

/// The store's prices for some keys.
pub fn stored_prices(keys: &Vec<String>, catalog: &StringHashMap<CachedVariant>) -> (prices: Vec<
    Option<Option<String>>,
>)
    ensures
        prices@.map_values(|p: Option<Option<String>>| price_view(p)) == prices_of(
            texts(keys@),
            catalog_view(catalog@),
        ),
{
    let mut prices: Vec<Option<Option<String>>> = Vec::new();
    let ghost model = prices_of(texts(keys@), catalog_view(catalog@));
    for i in 0..keys.len()
        invariant
            model == prices_of(texts(keys@), catalog_view(catalog@)),
            prices@.map_values(|p: Option<Option<String>>| price_view(p)) == model.take(i as int),
    {
        let ghost before = prices@;
        let price: Option<Option<String>> = match catalog.get(keys[i].as_str()) {
            Some(variant) => match &variant.current_price {
                Some(text) => Some(Some(text.clone())),
                None => Some(None),
            },
            None => None,
        };
        prices.push(price);
        proof {
            assert(price_view(price) == model[i as int]);
            assert(prices@.map_values(|p: Option<Option<String>>| price_view(p))
                =~= before.map_values(|p: Option<Option<String>>| price_view(p)).push(
                price_view(price),
            ));
            assert(model.take(i + 1) =~= model.take(i as int).push(model[i as int]));
        }
    }
    assert(model.take(keys.len() as int) =~= model);
    prices
}

/// A product that differs from what the store holds.
#[derive(Debug)]
pub struct PendingChange {
    /// The position of the product in the price file.
    pub product: usize,
    pub target: Target,
    pub follows_stock: bool,
    pub price_changed: bool,
    /// The store's price with two decimals.
    pub old_price: String,
    pub old_qty: i32,
}

/// The model of a pending change.
pub struct PendingChangeView {
    pub product: int,
    pub target: Target,
    pub follows_stock: bool,
    pub price_changed: bool,
    pub old_price: Seq<char>,
    pub old_qty: i32,
}

impl View for PendingChange {
    type V = PendingChangeView;

    open spec fn view(&self) -> PendingChangeView {
        PendingChangeView {
            product: self.product as int,
            target: self.target,
            follows_stock: self.follows_stock,
            price_changed: self.price_changed,
            old_price: self.old_price@,
            old_qty: self.old_qty,
        }
    }
}

/// What is to be done to bring a price file into the store.
#[derive(Debug)]
pub struct SyncPlan {
    /// The products to update, in the order of the price file.
    pub to_update: Vec<PendingChange>,
    /// The positions of the products to create, in the order of the price file.
    pub to_create: Vec<usize>,
    /// How many products need nothing.
    pub already_current: u32,
}

/// The model of a plan.
#[verifier::ext_equal]
pub struct SyncPlanView {
    pub to_update: Seq<PendingChangeView>,
    pub to_create: Seq<int>,
    pub already_current: nat,
}

impl View for SyncPlan {
    type V = SyncPlanView;

    open spec fn view(&self) -> SyncPlanView {
        SyncPlanView {
            to_update: self.to_update@.map_values(|c: PendingChange| c@),
            to_create: self.to_create@.map_values(|i: usize| i as int),
            already_current: self.already_current as nat,
        }
    }
}

/// The change that a product needs whose variant the store has.
pub open spec fn change_of(
    position: int,
    variant: CachedVariantView,
    check: PriceCheck,
) -> PendingChangeView {
    PendingChangeView {
        product: position,
        target: Target {
            variant: variant.variant_id as i64,
            item: variant.inv_item_id as i64,
            location: variant.location_id as i64,
        },
        follows_stock: variant.follows_stock,
        price_changed: check.changed,
        old_price: check.current@,
        old_qty: variant.current_qty,
    }
}

/// The plan with one more product: it is updated where the store has it with
/// another price or quantity; created where the store does not have it and
/// products are to be created; else it needs nothing.
pub open spec fn plan_with(
    plan: SyncPlanView,
    position: int,
    product: Product,
    variant: Option<CachedVariantView>,
    check: PriceCheck,
    upsert: bool,
) -> SyncPlanView {
    match variant {
        Some(v) => if check.changed || v.current_qty != product.inventory_quantity {
            SyncPlanView { to_update: plan.to_update.push(change_of(position, v, check)), ..plan }
        } else {
            SyncPlanView { already_current: plan.already_current + 1, ..plan }
        },
        None => if upsert {
            SyncPlanView { to_create: plan.to_create.push(position), ..plan }
        } else {
            SyncPlanView { already_current: plan.already_current + 1, ..plan }
        },
    }
}

/// The variant under a key.
pub open spec fn variant_under(
    catalog: Map<Seq<char>, CachedVariantView>,
    key: Seq<char>,
) -> Option<CachedVariantView> {
    if catalog.contains_key(key) {
        Some(catalog[key])
    } else {
        None
    }
}

/// The plan for the first `n` products.
pub open spec fn plan_for(
    products: Seq<Product>,
    keys: Seq<Seq<char>>,
    catalog: Map<Seq<char>, CachedVariantView>,
    checks: Seq<PriceCheck>,
    upsert: bool,
    n: nat,
) -> SyncPlanView
    decreases n,
{
    if n == 0 {
        SyncPlanView { to_update: seq![], to_create: seq![], already_current: 0 }
    } else {
        let i = n - 1;
        plan_with(
            plan_for(products, keys, catalog, checks, upsert, i as nat),
            i,
            products[i],
            variant_under(catalog, keys[i]),
            checks[i],
            upsert,
        )
    }
}

/// Compares a price file with what the store holds. `keys` are the keys of the
/// products, and `checks` how their prices compare.
pub fn plan_sync(
    products: &Vec<Product>,
    keys: &Vec<String>,
    catalog: &StringHashMap<CachedVariant>,
    checks: &Vec<PriceCheck>,
    upsert: bool,
) -> (plan: SyncPlan)
    requires
        keys@.len() == products@.len(),
        checks@.len() == products@.len(),
        products@.len() <= u32::MAX,
    ensures
        plan@ == plan_for(
            products@,
            texts(keys@),
            catalog_view(catalog@),
            checks@,
            upsert,
            products@.len(),
        ),
{
    let mut to_update: Vec<PendingChange> = Vec::new();
    let mut to_create: Vec<usize> = Vec::new();
    let mut already_current: u32 = 0;
    let ghost view = catalog_view(catalog@);
    proof {
        let empty = SyncPlan { to_update, to_create, already_current };
        assert(empty@ =~= plan_for(products@, texts(keys@), view, checks@, upsert, 0));
    }
    for i in 0..products.len()
        invariant
            keys@.len() == products@.len(),
            checks@.len() == products@.len(),
            products@.len() <= u32::MAX,
            already_current <= i,
            view == catalog_view(catalog@),
            (SyncPlan { to_update, to_create, already_current })@ == plan_for(
                products@,
                texts(keys@),
                view,
                checks@,
                upsert,
                i as nat,
            ),
    {
        let ghost before = (SyncPlan { to_update, to_create, already_current })@;
        let ghost found = variant_under(view, texts(keys@)[i as int]);
        match catalog.get(keys[i].as_str()) {
            Some(cached) => {
                assert(found == Some(cached@));
                let price_changed = checks[i].changed;
                let qty_changed = cached.current_qty != products[i].inventory_quantity;
                if !price_changed && !qty_changed {
                    already_current = already_current + 1;
                } else {
                    let change = PendingChange {
                        product: i,
                        target: Target {
                            variant: cached.variant_id,
                            item: cached.inv_item_id,
                            location: cached.location_id,
                        },
                        follows_stock: cached.follows_stock,
                        price_changed,
                        old_price: checks[i].current.clone(),
                        old_qty: cached.current_qty,
                    };
                    to_update.push(change);
                    assert(change@ == change_of(i as int, cached@, checks@[i as int]));
                }
            },
            None => {
                assert(found is None);
                if upsert {
                    to_create.push(i);
                } else {
                    already_current = already_current + 1;
                }
            },
        }
        proof {
            let after = (SyncPlan { to_update, to_create, already_current })@;
            let wanted = plan_with(
                before,
                i as int,
                products@[i as int],
                found,
                checks@[i as int],
                upsert,
            );
            assert(after.to_update =~= wanted.to_update);
            assert(after.to_create =~= wanted.to_create);
            assert(after =~= wanted);
        }
    }
    SyncPlan { to_update, to_create, already_current }
}

/// Compares a price file with what the store holds, in a mode: products that
/// the store does not have are created in the mode "upsert" alone.
pub fn plan_bulk_sync(
    products: &Vec<Product>,
    catalog: &StringHashMap<CachedVariant>,
    checks: &Vec<PriceCheck>,
    mode: &str,
) -> (plan: SyncPlan)
    requires
        checks@.len() == products@.len(),
        products@.len() <= u32::MAX,
    ensures
        plan@ == plan_for(
            products@,
            keys_of(products@),
            catalog_view(catalog@),
            checks@,
            mode@ == "upsert"@,
            products@.len(),
        ),
{
    let keys = product_keys(products);
    assert(texts(keys@).len() == keys_of(products@).len());
    plan_sync(products, &keys, catalog, checks, same_text(mode, "upsert"))
}

/// Every product of the price file is updated, created or counted as current,
/// and just one of these.
pub proof fn law_plan_counts_every_product(
    products: Seq<Product>,
    keys: Seq<Seq<char>>,
    catalog: Map<Seq<char>, CachedVariantView>,
    checks: Seq<PriceCheck>,
    upsert: bool,
    n: nat,
)
    ensures
        ({
            let plan = plan_for(products, keys, catalog, checks, upsert, n);
            plan.to_update.len() + plan.to_create.len() + plan.already_current == n
        }),
    decreases n,
{
    if n > 0 {
        law_plan_counts_every_product(products, keys, catalog, checks, upsert, (n - 1) as nat);
    }
}

/// The product at position `i`, below `n`, is not in the store and may be created.
pub open spec fn is_missing(
    keys: Seq<Seq<char>>,
    catalog: Map<Seq<char>, CachedVariantView>,
    upsert: bool,
    n: nat,
    i: int,
) -> bool {
    upsert && 0 <= i < n && !catalog.contains_key(keys[i])
}

/// The change is the one that its product, at a position below `n`, needs.
pub open spec fn is_needed(
    products: Seq<Product>,
    keys: Seq<Seq<char>>,
    catalog: Map<Seq<char>, CachedVariantView>,
    checks: Seq<PriceCheck>,
    n: nat,
    change: PendingChangeView,
) -> bool {
    let i = change.product;
    &&& 0 <= i < n
    &&& catalog.contains_key(keys[i])
    &&& change.target.variant == catalog[keys[i]].variant_id as i64
    &&& change.target.item == catalog[keys[i]].inv_item_id as i64
    &&& change.target.location == catalog[keys[i]].location_id as i64
    &&& change.follows_stock == catalog[keys[i]].follows_stock
    &&& change.old_qty == catalog[keys[i]].current_qty
    &&& change.price_changed == checks[i].changed
    &&& change.old_price == checks[i].current@
    &&& checks[i].changed || catalog[keys[i]].current_qty != products[i].inventory_quantity
}

/// A product is to be created only where products are to be created and the
/// store does not have it; it is to be updated only where the store has it with
/// another price or quantity.
pub proof fn law_plan_is_sound(
    products: Seq<Product>,
    keys: Seq<Seq<char>>,
    catalog: Map<Seq<char>, CachedVariantView>,
    checks: Seq<PriceCheck>,
    upsert: bool,
    n: nat,
)
    ensures
        forall|j: int|
            0 <= j < plan_for(products, keys, catalog, checks, upsert, n).to_create.len()
                ==> is_missing(
                keys,
                catalog,
                upsert,
                n,
                #[trigger] plan_for(products, keys, catalog, checks, upsert, n).to_create[j],
            ),
        forall|j: int|
            0 <= j < plan_for(products, keys, catalog, checks, upsert, n).to_update.len()
                ==> is_needed(
                products,
                keys,
                catalog,
                checks,
                n,
                #[trigger] plan_for(products, keys, catalog, checks, upsert, n).to_update[j],
            ),
    decreases n,
{
    if n > 0 {
        let before = plan_for(products, keys, catalog, checks, upsert, (n - 1) as nat);
        let plan = plan_for(products, keys, catalog, checks, upsert, n);
        law_plan_is_sound(products, keys, catalog, checks, upsert, (n - 1) as nat);
        assert forall|j: int| 0 <= j < plan.to_create.len() implies is_missing(
            keys,
            catalog,
            upsert,
            n,
            #[trigger] plan.to_create[j],
        ) by {
            if j < before.to_create.len() {
                assert(plan.to_create[j] == before.to_create[j]);
            }
        }
        assert forall|j: int| 0 <= j < plan.to_update.len() implies is_needed(
            products,
            keys,
            catalog,
            checks,
            n,
            #[trigger] plan.to_update[j],
        ) by {
            if j < before.to_update.len() {
                assert(plan.to_update[j] == before.to_update[j]);
            }
        }
    }
}

/// A store that holds every product with its price and quantity needs nothing:
/// a second run right after a successful one does nothing.
pub proof fn law_synced_store_needs_nothing(
    products: Seq<Product>,
    keys: Seq<Seq<char>>,
    catalog: Map<Seq<char>, CachedVariantView>,
    checks: Seq<PriceCheck>,
    upsert: bool,
    n: nat,
)
    requires
        forall|i: int|
            0 <= i < n ==> catalog.contains_key(#[trigger] keys[i]) && !checks[i].changed
                && catalog[keys[i]].current_qty == products[i].inventory_quantity,
    ensures
        plan_for(products, keys, catalog, checks, upsert, n) == (SyncPlanView {
            to_update: seq![],
            to_create: seq![],
            already_current: n,
        }),
    decreases n,
{
    if n > 0 {
        assert(catalog.contains_key(keys[n - 1]));
        law_synced_store_needs_nothing(products, keys, catalog, checks, upsert, (n - 1) as nat);
    }
}

/// The product at position `i` is to be updated.
pub open spec fn updates(plan: SyncPlanView, i: int) -> bool {
    exists|j: int| 0 <= j < plan.to_update.len() && #[trigger] plan.to_update[j].product == i
}

/// The product at position `i` is to be created.
pub open spec fn creates(plan: SyncPlanView, i: int) -> bool {
    exists|j: int| 0 <= j < plan.to_create.len() && #[trigger] plan.to_create[j] == i
}

/// No product is left out of the plan: each that the store has with another
/// price or another quantity, be it higher or lower, is to be updated, and each
/// that the store does not have is to be created, where products are to be
/// created; no other product is touched.
pub proof fn law_plan_is_complete(
    products: Seq<Product>,
    keys: Seq<Seq<char>>,
    catalog: Map<Seq<char>, CachedVariantView>,
    checks: Seq<PriceCheck>,
    upsert: bool,
    n: nat,
    i: int,
)
    requires
        0 <= i < n,
    ensures
        updates(plan_for(products, keys, catalog, checks, upsert, n), i) <==> (
        catalog.contains_key(keys[i]) && (checks[i].changed || catalog[keys[i]].current_qty
            != products[i].inventory_quantity)),
        creates(plan_for(products, keys, catalog, checks, upsert, n), i) <==> (upsert
            && !catalog.contains_key(keys[i])),
    decreases n,
{
    let before = plan_for(products, keys, catalog, checks, upsert, (n - 1) as nat);
    let plan = plan_for(products, keys, catalog, checks, upsert, n);
    law_plan_is_sound(products, keys, catalog, checks, upsert, n);
    if i < n - 1 {
        law_plan_is_complete(products, keys, catalog, checks, upsert, (n - 1) as nat, i);
        if updates(before, i) {
            let j = choose|j: int|
                0 <= j < before.to_update.len() && #[trigger] before.to_update[j].product == i;
            assert(plan.to_update[j] == before.to_update[j]);
        }
        if creates(before, i) {
            let j = choose|j: int|
                0 <= j < before.to_create.len() && #[trigger] before.to_create[j] == i;
            assert(plan.to_create[j] == before.to_create[j]);
        }
    } else {
        if catalog.contains_key(keys[i]) {
            if checks[i].changed || catalog[keys[i]].current_qty != products[i].inventory_quantity {
                assert(plan.to_update[before.to_update.len() as int].product == i);
            }
        } else if upsert {
            assert(plan.to_create[before.to_create.len() as int] == i);
        }
    }
}

/// The plan keeps the order of the price file, and names no product twice.
pub proof fn law_plan_is_in_order(
    products: Seq<Product>,
    keys: Seq<Seq<char>>,
    catalog: Map<Seq<char>, CachedVariantView>,
    checks: Seq<PriceCheck>,
    upsert: bool,
    n: nat,
)
    ensures
        ({
            let plan = plan_for(products, keys, catalog, checks, upsert, n);
            &&& forall|j: int, k: int|
                0 <= j < k < plan.to_update.len() ==> (#[trigger] plan.to_update[j]).product < (
                #[trigger] plan.to_update[k]).product
            &&& forall|j: int, k: int|
                0 <= j < k < plan.to_create.len() ==> #[trigger] plan.to_create[j]
                    < #[trigger] plan.to_create[k]
        }),
    decreases n,
{
    if n > 0 {
        law_plan_is_in_order(products, keys, catalog, checks, upsert, (n - 1) as nat);
        law_plan_is_sound(products, keys, catalog, checks, upsert, (n - 1) as nat);
        let before = plan_for(products, keys, catalog, checks, upsert, (n - 1) as nat);
        let plan = plan_for(products, keys, catalog, checks, upsert, n);
        assert forall|j: int, k: int| 0 <= j < k < plan.to_update.len() implies (
        #[trigger] plan.to_update[j]).product < (#[trigger] plan.to_update[k]).product by {
            assert(plan.to_update[j] == before.to_update[j]);
            if k < before.to_update.len() {
                assert(plan.to_update[k] == before.to_update[k]);
            }
        }
        assert forall|j: int, k: int| 0 <= j < k < plan.to_create.len() implies
            #[trigger] plan.to_create[j] < #[trigger] plan.to_create[k] by {
            assert(plan.to_create[j] == before.to_create[j]);
            if k < before.to_create.len() {
                assert(plan.to_create[k] == before.to_create[k]);
            }
        }
    }
}

/// A product needs nothing exactly where it is neither to be updated nor to be
/// created; one more such product is one more that counts as current.
pub proof fn law_current_products_are_counted(
    products: Seq<Product>,
    keys: Seq<Seq<char>>,
    catalog: Map<Seq<char>, CachedVariantView>,
    checks: Seq<PriceCheck>,
    upsert: bool,
    n: nat,
)
    ensures
        ({
            let before = plan_for(products, keys, catalog, checks, upsert, n).already_current;
            let after = plan_for(products, keys, catalog, checks, upsert, n + 1).already_current;
            let known = catalog.contains_key(keys[n as int]);
            let same = known && !checks[n as int].changed && catalog[keys[n as int]].current_qty
                == products[n as int].inventory_quantity;
            after == before + if same || (!known && !upsert) {
                1nat
            } else {
                0
            }
        }),
        plan_for(products, keys, catalog, checks, upsert, 0).already_current == 0,
{
}

/// A product is looked up by its SKU in upper case.
pub proof fn law_products_are_found_by_sku(products: Seq<Product>, i: int)
    requires
        0 <= i < products.len(),
    ensures
        keys_of(products).len() == products.len(),
        keys_of(products)[i] == upper(products[i].sku@),
{
}

/// The price to compare with is the store's own for the key.
pub proof fn law_prices_are_those_of_the_store(
    keys: Seq<Seq<char>>,
    catalog: Map<Seq<char>, CachedVariantView>,
    i: int,
)
    requires
        0 <= i < keys.len(),
    ensures
        prices_of(keys, catalog).len() == keys.len(),
        prices_of(keys, catalog)[i] is Some <==> catalog.contains_key(keys[i]),
        catalog.contains_key(keys[i]) ==> prices_of(keys, catalog)[i] == Some(
            catalog[keys[i]].current_price,
        ),
{
}

} // verus!

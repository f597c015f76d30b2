//! Fetching all variants of the store with their stock, page by page.
use vstd::hash_map::StringHashMap;
use vstd::prelude::*;
use vstd::string::*;

use crate::api::{page, page_request, STOCK_QUERY_TAIL};
use crate::exchange::{Action, ActionView, Reply, ReplyView};
use crate::json::{
    at, first_at, integer_at, items_at, laid_out, pretty_text, seen, text_at, text_or_empty, trees,
    true_at, Json, JsonView,
};
use crate::numbers::{decimal, decimal_of};
use crate::services::shopify_service::{id_number, law_other_identifiers_give_zero, trailing_id};
use crate::text::{optional, to_upper, trim, trimmed, upper};

verus! {

/// What is known of a variant of the store.
#[derive(Debug)]
pub struct CachedVariant {
    pub variant_id: i64,
    pub inv_item_id: i64,
    /// The first location at which the item is stocked; zero where there is none.
    pub location_id: i64,
    /// The price as the store writes it.
    pub current_price: Option<String>,
    pub current_qty: i32,
    /// Whether the store keeps count of the item.
    pub follows_stock: bool,
}

/// The model of a variant of the store.
pub struct CachedVariantView {
    pub variant_id: int,
    pub inv_item_id: int,
    pub location_id: int,
    pub current_price: Option<Seq<char>>,
    pub current_qty: i32,
    pub follows_stock: bool,
}

impl View for CachedVariant {
    type V = CachedVariantView;

    open spec fn view(&self) -> CachedVariantView {
        CachedVariantView {
            variant_id: self.variant_id as int,
            inv_item_id: self.inv_item_id as int,
            location_id: self.location_id as int,
            current_price: optional(self.current_price),
            current_qty: self.current_qty,
            follows_stock: self.follows_stock,
        }
    }
}

/// The model of the variants of the store, by their SKUs in upper case.
pub open spec fn catalog_view(catalog: Map<Seq<char>, CachedVariant>) -> Map<
    Seq<char>,
    CachedVariantView,
> {
    catalog.map_values(|variant: CachedVariant| variant@)
}

/// The quantity that a node gives, in 32 bits.
pub open spec fn node_quantity(node: JsonView) -> i32 {
    match node.field("inventoryQuantity"@).as_integer() {
        Some(n) => n as i32,
        None => 0,
    }
}

/// The variant that a node describes.
pub open spec fn node_stock(node: JsonView) -> CachedVariantView {
    let item = node.field("inventoryItem"@);
    let level = item.field("inventoryLevels"@).field("edges"@).first_item();
    CachedVariantView {
        variant_id: trailing_id(node.field("id"@).text_or_empty()),
        inv_item_id: trailing_id(item.field("id"@).text_or_empty()),
        location_id: trailing_id(
            level.field("node"@).field("location"@).field("id"@).text_or_empty(),
        ),
        current_price: node.field("price"@).as_text(),
        current_qty: node_quantity(node),
        follows_stock: item.field("tracked"@).is_true(),
    }
}

/// The SKU of a node.
pub open spec fn node_sku(node: JsonView) -> Seq<char> {
    trimmed(node.field("sku"@).text_or_empty())
}

/// The catalog with the variant of one more edge; an edge without a SKU adds
/// nothing, and a variant replaces an earlier one with the same SKU.
pub open spec fn with_edge(
    catalog: Map<Seq<char>, CachedVariantView>,
    edge: JsonView,
) -> Map<Seq<char>, CachedVariantView> {
    let node = edge.field("node"@);
    if node_sku(node).len() == 0 {
        catalog
    } else {
        catalog.insert(upper(node_sku(node)), node_stock(node))
    }
}

/// The catalog with the variants of some edges.
pub open spec fn with_edges(
    catalog: Map<Seq<char>, CachedVariantView>,
    edges: Seq<JsonView>,
) -> Map<Seq<char>, CachedVariantView>
    decreases edges.len(),
{
    if edges.len() == 0 {
        catalog
    } else {
        with_edge(with_edges(catalog, edges.drop_last()), edges.last())
    }
}

/// Why not all variants could be fetched.
#[derive(Debug)]
pub enum FetchError {
    /// A request failed.
    Transport(String),
    /// The body of an answer is no document.
    Undecodable(String),
    /// The store reports an error.
    GraphQl(String),
    /// The answer for this page is of another form; its bytes.
    UnexpectedAnswer(u32, Vec<u8>),
    /// The answer is of another form.
    UnexpectedShape,
    /// The reply does not belong to the last action.
    UnexpectedReply,
}

/// The model of a failure to fetch.
pub enum FetchErrorView {
    Transport(Seq<char>),
    Undecodable(Seq<char>),
    GraphQl(Seq<char>),
    UnexpectedAnswer(u32, Seq<u8>),
    UnexpectedShape,
    UnexpectedReply,
}

impl View for FetchError {
    type V = FetchErrorView;

    open spec fn view(&self) -> FetchErrorView {
        match self {
            FetchError::Transport(m) => FetchErrorView::Transport(m@),
            FetchError::Undecodable(m) => FetchErrorView::Undecodable(m@),
            FetchError::GraphQl(m) => FetchErrorView::GraphQl(m@),
            FetchError::UnexpectedAnswer(page, body) => FetchErrorView::UnexpectedAnswer(
                *page,
                body@,
            ),
            FetchError::UnexpectedShape => FetchErrorView::UnexpectedShape,
            FetchError::UnexpectedReply => FetchErrorView::UnexpectedReply,
        }
    }
}

impl FetchErrorView {
    /// The message of the failure. `detail` is an answer of another form, laid
    /// out.
    pub open spec fn words(self, detail: Seq<char>) -> Seq<char> {
        match self {
            FetchErrorView::Transport(m) => m,
            FetchErrorView::Undecodable(_) => "error decoding response body"@,
            FetchErrorView::GraphQl(m) => "GraphQL error: "@ + m,
            FetchErrorView::UnexpectedAnswer(page, _) => "Unexpected GraphQL response on page "@
                + decimal(page as nat) + ". Full response: "@ + detail,
            FetchErrorView::UnexpectedShape => "Unexpected GraphQL response shape"@,
            FetchErrorView::UnexpectedReply => "unexpected reply"@,
        }
    }

    /// The answer of another form, laid out.
    pub open spec fn detail(self) -> Seq<char> {
        match self {
            FetchErrorView::UnexpectedAnswer(_, body) => match laid_out(body) {
                Some(text) => text,
                None => seq![],
            },
            _ => seq![],
        }
    }

    /// The message of the failure.
    pub open spec fn text(self) -> Seq<char> {
        self.words(self.detail())
    }
}

impl FetchError {
    /// The message of the failure, with an answer of another form laid out.
    pub fn describe(&self, detail: &str) -> (message: String)
        ensures
            message@ == self@.words(detail@),
    {
        match self {
            FetchError::Transport(m) => m.clone(),
            FetchError::Undecodable(_) => "error decoding response body".to_owned(),
            FetchError::GraphQl(m) => {
                let mut message = "GraphQL error: ".to_owned();
                message.append(m.as_str());
                message
            },
            FetchError::UnexpectedAnswer(page, _) => {
                let mut message = "Unexpected GraphQL response on page ".to_owned();
                let number = decimal_of(*page as u64);
                message.append(number.as_str());
                message.append(". Full response: ");
                message.append(detail);
                message
            },
            FetchError::UnexpectedShape => "Unexpected GraphQL response shape".to_owned(),
            FetchError::UnexpectedReply => "unexpected reply".to_owned(),
        }
    }

    /// The message of the failure.
    pub fn message(&self) -> (message: String)
        ensures
            message@ == self@.text(),
    {
        let rendered = match self {
            FetchError::UnexpectedAnswer(_, body) => pretty_text(body),
            _ => None,
        };
        let detail = match rendered {
            Some(text) => text,
            None => String::new(),
        };
        assert(detail@ =~= self@.detail());
        self.describe(detail.as_str())
    }
}

/// Where a fetch stands.
#[derive(Debug, Clone, Copy, PartialEq, Eq, Structural)]
pub enum FetchStage {
    Begin,
    Asking,
    Pausing,
    Closed,
}

/// The state of a fetch.
pub struct FetchState {
    pub stage: FetchStage,
    /// The number of pages asked for.
    pub page: u32,
    pub cursor: Option<Seq<char>>,
    pub catalog: Map<Seq<char>, CachedVariantView>,
    pub failure: Option<FetchErrorView>,
}

/// One turn of a fetch.
pub struct FetchTurn {
    pub state: FetchState,
    pub action: ActionView,
}

/// The turn that asks for the next page.
pub open spec fn asks(base: Seq<char>, state: FetchState) -> FetchTurn {
    FetchTurn {
        state: FetchState {
            stage: FetchStage::Asking,
            page: (state.page + 1) as u32,
            ..state
        },
        action: ActionView::Send(page(base, state.cursor, STOCK_QUERY_TAIL@)),
    }
}

/// The turn that gives up.
pub open spec fn gives_up(state: FetchState, failure: FetchErrorView) -> FetchTurn {
    FetchTurn {
        state: FetchState { stage: FetchStage::Closed, failure: Some(failure), ..state },
        action: ActionView::Finish,
    }
}

/// The turn on a page.
pub open spec fn takes_page(state: FetchState, answer: JsonView, body: Seq<u8>) -> FetchTurn {
    let listing = answer.field("data"@).field("productVariants"@);
    match answer.field("errors"@).as_items() {
        Some(errors) => gives_up(
            state,
            FetchErrorView::GraphQl(
                match errors[0].field("message"@).as_text() {
                    Some(m) => m,
                    None => "unknown"@,
                },
            ),
        ),
        None => match listing.field("edges"@).as_items() {
            None => gives_up(state, FetchErrorView::UnexpectedAnswer(state.page, body)),
            Some(edges) => {
                let grown = FetchState { catalog: with_edges(state.catalog, edges), ..state };
                let info = listing.field("pageInfo"@);
                if info.field("hasNextPage"@).is_true() {
                    FetchTurn {
                        state: FetchState {
                            stage: FetchStage::Pausing,
                            cursor: info.field("endCursor"@).as_text(),
                            ..grown
                        },
                        action: ActionView::Wait(500),
                    }
                } else {
                    FetchTurn {
                        state: FetchState { stage: FetchStage::Closed, ..grown },
                        action: ActionView::Finish,
                    }
                }
            },
        },
    }
}

/// What a fetch does next.
pub open spec fn fetch_responds(base: Seq<char>, state: FetchState, reply: ReplyView) -> FetchTurn {
    match (state.stage, reply) {
        (FetchStage::Begin | FetchStage::Pausing, ReplyView::Ready) => asks(base, state),
        (FetchStage::Asking, ReplyView::Json(answer, body)) => takes_page(state, answer, body),
        (FetchStage::Closed, _) => FetchTurn { state, action: ActionView::Finish },
        (_, ReplyView::Failed(m)) => gives_up(state, FetchErrorView::Transport(m)),
        (_, ReplyView::Undecodable(m)) => gives_up(state, FetchErrorView::Undecodable(m)),
        _ => gives_up(state, FetchErrorView::UnexpectedReply),
    }
}

/// The answer reports errors and names none.
pub open spec fn names_no_error(reply: ReplyView) -> bool {
    match reply {
        ReplyView::Json(answer, _) => match answer.field("errors"@).as_items() {
            Some(errors) => errors.len() == 0,
            None => false,
        },
        _ => false,
    }
}

/// The conversation that fetches all variants.
pub struct StockFetch<'a> {
    pub base: &'a str,
    pub stage: FetchStage,
    pub page: u32,
    pub cursor: Option<String>,
    pub catalog: StringHashMap<CachedVariant>,
    pub failure: Option<FetchError>,
}

impl<'a> StockFetch<'a> {
    /// The state of the fetch.
    pub open spec fn state(self) -> FetchState {
        FetchState {
            stage: self.stage,
            page: self.page,
            cursor: optional(self.cursor),
            catalog: catalog_view(self.catalog@),
            failure: match self.failure {
                Some(failure) => Some(failure@),
                None => None,
            },
        }
    }

    /// The reply can be taken: it names an error where it reports some, and the
    /// pages can still be counted.
    pub open spec fn can_take(self, reply: ReplyView) -> bool {
        (reply is Ready ==> self.page < u32::MAX) && !names_no_error(reply)
    }

    /// The fetch at its beginning.
    pub fn fetch_all_variants(base: &'a str) -> (fetch: Self)
        ensures
            fetch.base@ == base@,
            fetch.state() == (FetchState {
                stage: FetchStage::Begin,
                page: 0,
                cursor: None,
                catalog: Map::empty(),
                failure: None,
            }),
    {
        let fetch = StockFetch {
            base,
            stage: FetchStage::Begin,
            page: 0,
            cursor: None,
            catalog: StringHashMap::new(),
            failure: None,
        };
        assert(catalog_view(fetch.catalog@) =~= Map::empty());
        fetch
    }

    /// Whether the reply can be taken.
    pub fn accepts(&self, reply: &Reply) -> (yes: bool)
        ensures
            yes == self.can_take(reply@),
    {
        match reply {
            Reply::Ready => self.page < u32::MAX,
            Reply::Json(answer, _) => match items_at(at(Some(answer), "errors")) {
                Some(errors) => errors.len() > 0,
                None => true,
            },
            _ => true,
        }
    }

    fn give_up(&mut self, failure: FetchError) -> (action: Action)
        ensures
            final(self).base == old(self).base,
            (FetchTurn { state: final(self).state(), action: action@ }) == gives_up(
                old(self).state(),
                failure@,
            ),
    {
        self.stage = FetchStage::Closed;
        self.failure = Some(failure);
        Action::Finish
    }

    /// Adds a variant under a key.
    pub fn note(&mut self, key: String, variant: CachedVariant)
        ensures
            final(self).base == old(self).base,
            final(self).state() == (FetchState {
                catalog: old(self).state().catalog.insert(key@, variant@),
                ..old(self).state()
            }),
    {
        self.catalog.insert(key, variant);
        assert(catalog_view(self.catalog@) =~= catalog_view(old(self).catalog@).insert(
            key@,
            variant@,
        ));
    }

    fn note_edge(&mut self, edge: &Json)
        ensures
            final(self).base == old(self).base,
            final(self).state() == (FetchState {
                catalog: with_edge(old(self).state().catalog, edge@),
                ..old(self).state()
            }),
    {
        let node = at(Some(edge), "node");
        let sku = trim(text_or_empty(at(node, "sku")));
        if sku.is_empty() {
            return;
        }
        let key = to_upper(sku);
        let variant = stock_of(node);
        self.note(key, variant);
    }

    fn take_page(&mut self, answer: Json, body: Vec<u8>) -> (action: Action)
        requires
            !names_no_error(ReplyView::Json(answer@, body@)),
        ensures
            final(self).base == old(self).base,
            (FetchTurn { state: final(self).state(), action: action@ }) == takes_page(
                old(self).state(),
                answer@,
                body@,
            ),
    {
        let reported = items_at(at(Some(&answer), "errors"));
        if let Some(errors) = reported {
            let message = match text_at(at(Some(&errors[0]), "message")) {
                Some(m) => m.to_owned(),
                None => "unknown".to_owned(),
            };
            return self.give_up(FetchError::GraphQl(message));
        }
        let listing = at(at(Some(&answer), "data"), "productVariants");
        match items_at(at(listing, "edges")) {
            None => {},
            Some(edges) => {
                let ghost before = *self;
                let ghost model = trees(edges@);
                for i in 0..edges.len()
                    invariant
                        model == trees(edges@),
                        self.base == before.base,
                        self.state() == (FetchState {
                            catalog: with_edges(before.state().catalog, model.take(i as int)),
                            ..before.state()
                        }),
                {
                    proof {
                        assert(model.take(i + 1).drop_last() =~= model.take(i as int));
                    }
                    self.note_edge(&edges[i]);
                }
                assert(model.take(edges.len() as int) =~= model);
                let info = at(listing, "pageInfo");
                if true_at(at(info, "hasNextPage")) {
                    self.cursor = match text_at(at(info, "endCursor")) {
                        Some(c) => Some(c.to_owned()),
                        None => None,
                    };
                    self.stage = FetchStage::Pausing;
                    return Action::Wait(500);
                } else {
                    self.stage = FetchStage::Closed;
                    return Action::Finish;
                }
            },
        }
        self.give_up(FetchError::UnexpectedAnswer(self.page, body))
    }

    /// Takes the reply to the last action, and says what is done next.
    pub fn step(&mut self, reply: Reply) -> (action: Action)
        requires
            old(self).can_take(reply@),
        ensures
            final(self).base == old(self).base,
            (FetchTurn { state: final(self).state(), action: action@ }) == fetch_responds(
                old(self).base@,
                old(self).state(),
                reply@,
            ),
    {
        match self.stage {
            FetchStage::Closed => Action::Finish,
            FetchStage::Asking => match reply {
                Reply::Json(answer, body) => self.take_page(answer, body),
                Reply::Failed(m) => self.give_up(FetchError::Transport(m)),
                Reply::Undecodable(m) => self.give_up(FetchError::Undecodable(m)),
                _ => self.give_up(FetchError::UnexpectedReply),
            },
            _ => match reply {
                Reply::Ready => {
                    let request = page_request(self.base, &self.cursor, STOCK_QUERY_TAIL);
                    self.page = self.page + 1;
                    self.stage = FetchStage::Asking;
                    Action::Send(request)
                },
                Reply::Failed(m) => self.give_up(FetchError::Transport(m)),
                Reply::Undecodable(m) => self.give_up(FetchError::Undecodable(m)),
                _ => self.give_up(FetchError::UnexpectedReply),
            },
        }
    }
}

/// The variant that a node describes.
pub fn stock_of(node: Option<&Json>) -> (variant: CachedVariant)
    ensures
        variant@ == node_stock(seen(node)),
{
    let item = at(node, "inventoryItem");
    let level = first_at(at(at(item, "inventoryLevels"), "edges"));
    let location = at(at(at(level, "node"), "location"), "id");
    let current_price = match text_at(at(node, "price")) {
        Some(price) => Some(price.to_owned()),
        None => None,
    };
    let current_qty: i32 = match integer_at(at(node, "inventoryQuantity")) {
        Some(n) => #[verifier::truncate] (n as i32),
        None => 0,
    };
    CachedVariant {
        variant_id: id_number(text_or_empty(at(node, "id"))),
        inv_item_id: id_number(text_or_empty(at(item, "id"))),
        location_id: id_number(text_or_empty(location)),
        current_price,
        current_qty,
        follows_stock: true_at(at(item, "tracked")),
    }
}

/// Every key of the catalog after some edges was there before or is the SKU, in
/// upper case, of one of them.
pub proof fn law_catalog_keys(
    catalog: Map<Seq<char>, CachedVariantView>,
    edges: Seq<JsonView>,
    key: Seq<char>,
)
    ensures
        with_edges(catalog, edges).contains_key(key) <==> (catalog.contains_key(key) || exists|
            i: int,
        |
            0 <= i < edges.len() && is_sku_of(key, #[trigger] edges[i])),
    decreases edges.len(),
{
    if edges.len() > 0 {
        let before = edges.drop_last();
        law_catalog_keys(catalog, before, key);
        let last = edges[edges.len() - 1];
        assert(edges.last() == last);
        assert forall|i: int| 0 <= i < before.len() implies #[trigger] before[i] == edges[i] by {}
        if is_sku_of(key, last) {
            assert(with_edges(catalog, edges).contains_key(key));
        }
        if exists|i: int| 0 <= i < before.len() && is_sku_of(key, #[trigger] before[i]) {
            let i = choose|i: int| 0 <= i < before.len() && is_sku_of(key, #[trigger] before[i]);
            assert(is_sku_of(key, edges[i]));
        }
        if exists|i: int| 0 <= i < edges.len() && is_sku_of(key, #[trigger] edges[i]) {
            let i = choose|i: int| 0 <= i < edges.len() && is_sku_of(key, #[trigger] edges[i]);
            if i < before.len() {
                assert(is_sku_of(key, before[i]));
            }
        }
    }
}

/// The key under which an edge enters the catalog.
pub open spec fn is_sku_of(key: Seq<char>, edge: JsonView) -> bool {
    let sku = node_sku(edge.field("node"@));
    sku.len() > 0 && key == upper(sku)
}

/// What is known of a variant is what its node says: its identifiers, those of its
/// item and of the first location of the item, its price, its quantity, and whether
/// its stock is followed.
pub proof fn law_node_says_what_is_known(node: JsonView)
    ensures
        ({
            let variant = node_stock(node);
            let item = node.field("inventoryItem"@);
            let levels = item.field("inventoryLevels"@).field("edges"@);
            let place = levels->Array_0[0].field("node"@).field("location"@).field("id"@);
            let quantity = node.field("inventoryQuantity"@);
            &&& variant.variant_id == trailing_id(node.field("id"@).text_or_empty())
            &&& variant.inv_item_id == trailing_id(item.field("id"@).text_or_empty())
            &&& levels is Array && levels->Array_0.len() > 0 && place is Text
                ==> variant.location_id == trailing_id(place->Text_0)
            &&& !(levels is Array) || levels->Array_0.len() == 0 ==> variant.location_id == 0
            &&& node.field("price"@) is Text ==> variant.current_price == Some(
                node.field("price"@)->Text_0,
            )
            &&& !(node.field("price"@) is Text) ==> variant.current_price is None
            &&& quantity is Integer && i32::MIN <= quantity->Integer_0 <= i32::MAX
                ==> variant.current_qty == quantity->Integer_0
            &&& !(quantity is Integer) ==> variant.current_qty == 0
            &&& variant.follows_stock <==> item.field("tracked"@) == JsonView::Bool(true)
        }),
{
    let levels = node.field("inventoryItem"@).field("inventoryLevels"@).field("edges"@);
    if !(levels is Array) || levels->Array_0.len() == 0 {
        assert(levels.first_item() == JsonView::Null);
        lemma_no_identifier();
    }
}

proof fn lemma_no_identifier()
    ensures
        trailing_id(Seq::<char>::empty()) == 0,
{
    law_other_identifiers_give_zero(Seq::empty(), Seq::empty());
}

/// No variant with a SKU is left out of the catalog: under the SKU of an edge, in
/// upper case, stands what the last edge with that SKU says, and all that was there
/// under other keys stays.
pub proof fn law_catalog_holds_every_variant(
    catalog: Map<Seq<char>, CachedVariantView>,
    edges: Seq<JsonView>,
    i: int,
    other: Seq<char>,
)
    requires
        0 <= i < edges.len(),
    ensures
        ({
            let sku = trimmed(edges[i].field("node"@).field("sku"@).text_or_empty());
            let is_last = forall|j: int|
                i < j < edges.len() ==> upper(sku) != upper(
                    trimmed((#[trigger] edges[j]).field("node"@).field("sku"@).text_or_empty()),
                );
            let full = with_edges(catalog, edges);
            sku.len() > 0 && is_last ==> full.contains_key(upper(sku)) && full[upper(sku)]
                == node_stock(edges[i].field("node"@))
        }),
        (forall|j: int| 0 <= j < edges.len() ==> !is_sku_of(other, #[trigger] edges[j])) ==> {
            &&& with_edges(catalog, edges).contains_key(other) <==> catalog.contains_key(other)
            &&& with_edges(catalog, edges)[other] == catalog[other]
        },
    decreases edges.len(),
{
    lemma_other_keys_stay(catalog, edges, other);
    let sku = trimmed(edges[i].field("node"@).field("sku"@).text_or_empty());
    if i < edges.len() - 1 {
        let front = edges.drop_last();
        law_catalog_holds_every_variant(catalog, front, i, other);
        if forall|j: int|
            i < j < edges.len() ==> upper(sku) != upper(
                trimmed((#[trigger] edges[j]).field("node"@).field("sku"@).text_or_empty()),
            ) {
            assert forall|j: int| i < j < front.len() implies upper(sku) != upper(
                trimmed((#[trigger] front[j]).field("node"@).field("sku"@).text_or_empty()),
            ) by {
                assert(front[j] == edges[j]);
            }
            let last = edges[edges.len() - 1];
            assert(upper(sku) != upper(node_sku(last.field("node"@))));
        }
    }
}

proof fn lemma_other_keys_stay(
    catalog: Map<Seq<char>, CachedVariantView>,
    edges: Seq<JsonView>,
    other: Seq<char>,
)
    ensures
        (forall|j: int| 0 <= j < edges.len() ==> !is_sku_of(other, #[trigger] edges[j])) ==> {
            &&& with_edges(catalog, edges).contains_key(other) <==> catalog.contains_key(other)
            &&& with_edges(catalog, edges)[other] == catalog[other]
        },
    decreases edges.len(),
{
    if edges.len() > 0 {
        let front = edges.drop_last();
        lemma_other_keys_stay(catalog, front, other);
        if forall|j: int| 0 <= j < edges.len() ==> !is_sku_of(other, #[trigger] edges[j]) {
            assert forall|j: int| 0 <= j < front.len() implies !is_sku_of(
                other,
                #[trigger] front[j],
            ) by {
                assert(front[j] == edges[j]);
            }
            assert(!is_sku_of(other, edges[edges.len() - 1]));
        }
    }
}

/// Taking the edges of two pages is taking them all at once.
pub proof fn law_pages_add_up(
    catalog: Map<Seq<char>, CachedVariantView>,
    a: Seq<JsonView>,
    b: Seq<JsonView>,
)
    ensures
        with_edges(with_edges(catalog, a), b) == with_edges(catalog, a + b),
    decreases b.len(),
{
    if b.len() == 0 {
        assert(a + b =~= a);
    } else {
        law_pages_add_up(catalog, a, b.drop_last());
        assert((a + b).drop_last() =~= a + b.drop_last());
    }
}

/// An answer that holds a page: no list of errors, and a list of edges.
pub open spec fn is_page(answer: JsonView, edges: Seq<JsonView>) -> bool {
    !(answer.field("errors"@) is Array) && answer.field("data"@).field("productVariants"@).field(
        "edges"@,
    ) == JsonView::Array(edges)
}

/// A fetch asks for page after page: it begins without a cursor; where a page says
/// that there is a next one, it waits half a second and asks for the page behind
/// its end; where a page says there is none, it is over. The variants of each page
/// enter the catalog, and pages are counted.
pub proof fn law_course_of_a_fetch(
    base: Seq<char>,
    state: FetchState,
    answer: JsonView,
    body: Seq<u8>,
    edges: Seq<JsonView>,
)
    requires
        state.stage is Begin || state.stage is Pausing,
        state.page < u32::MAX,
        is_page(answer, edges),
    ensures
        ({
            let info = answer.field("data"@).field("productVariants"@).field("pageInfo"@);
            let more = info.field("hasNextPage"@) == JsonView::Bool(true);
            let asked = fetch_responds(base, state, ReplyView::Ready);
            let taken = fetch_responds(base, asked.state, ReplyView::Json(answer, body));
            let next = fetch_responds(base, taken.state, ReplyView::Ready);
            &&& asked.action == ActionView::Send(page(base, state.cursor, STOCK_QUERY_TAIL@))
            &&& asked.state.page == state.page + 1
            &&& taken.state.page == state.page + 1
            &&& taken.state.catalog == with_edges(state.catalog, edges)
            &&& taken.state.failure == state.failure
            &&& !more ==> taken.action == ActionView::Finish && taken.state.stage is Closed
            &&& more ==> {
                &&& taken.action == ActionView::Wait(500)
                &&& taken.state.stage is Pausing
                &&& info.field("endCursor"@) is Text ==> next.action == ActionView::Send(
                    page(base, Some(info.field("endCursor"@)->Text_0), STOCK_QUERY_TAIL@),
                )
                &&& !(info.field("endCursor"@) is Text) && taken.state.page < u32::MAX
                    ==> next.action == ActionView::Send(page(base, None, STOCK_QUERY_TAIL@))
            }
        }),
{
}

/// An error that the store reports, an answer without variants, and a failure each
/// end the fetch, and say so.
pub proof fn law_fetch_gives_up(
    base: Seq<char>,
    state: FetchState,
    answer: JsonView,
    body: Seq<u8>,
    message: Seq<char>,
)
    requires
        state.stage is Asking,
    ensures
        ({
            let errors = answer.field("errors"@);
            let edges = answer.field("data"@).field("productVariants"@).field("edges"@);
            let turn = fetch_responds(base, state, ReplyView::Json(answer, body));
            let failed = fetch_responds(base, state, ReplyView::Failed(message));
            let unread = fetch_responds(base, state, ReplyView::Undecodable(message));
            &&& errors is Array && errors->Array_0.len() > 0 && errors->Array_0[0].field(
                "message"@,
            ) == JsonView::Text(message) ==> turn.state.failure == Some(
                FetchErrorView::GraphQl(message),
            )
            &&& errors is Array || !(edges is Array) ==> turn.action == ActionView::Finish
                && turn.state.stage is Closed && turn.state.failure is Some && turn.state.catalog
                == state.catalog
            &&& !(errors is Array) && !(edges is Array) ==> turn.state.failure == Some(
                FetchErrorView::UnexpectedAnswer(state.page, body),
            )
            &&& failed.state.failure == Some(FetchErrorView::Transport(message))
            &&& failed.state.stage is Closed && failed.action == ActionView::Finish
            &&& unread.state.failure == Some(FetchErrorView::Undecodable(message))
            &&& unread.state.stage is Closed && unread.action == ActionView::Finish
        }),
        ({
            let closed = FetchState { stage: FetchStage::Closed, ..state };
            fetch_responds(base, closed, ReplyView::Json(answer, body)) == (FetchTurn {
                state: closed,
                action: ActionView::Finish,
            })
        }),
{
}

/// The message of a failed fetch holds the words of the store, and the number of
/// the page where its answer was of another form.
pub proof fn law_failed_fetches_are_told(message: Seq<char>, page: u32, body: Seq<u8>)
    ensures
        FetchErrorView::Transport(message).text() == message,
        FetchErrorView::GraphQl(message).text() == "GraphQL error: "@ + message,
        laid_out(body) matches Some(text) ==> FetchErrorView::UnexpectedAnswer(page, body).text()
            == "Unexpected GraphQL response on page "@ + decimal(page as nat)
            + ". Full response: "@ + text,
        FetchErrorView::UnexpectedShape.text() == "Unexpected GraphQL response shape"@,
        FetchErrorView::Undecodable(message).text() == "error decoding response body"@,
{
}

} // verus!

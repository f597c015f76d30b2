//! Fetching all variants of the store with their titles, page by page.
use vstd::prelude::*;
use vstd::string::*;

use crate::api::{page, page_request, TITLE_QUERY_TAIL};
use crate::exchange::{Action, ActionView, Reply, ReplyView};
use crate::json::{at, items_at, text_at, text_or_empty, trees, true_at, Json, JsonView};
use crate::services::shopify_service::{id_number, trailing_id};
use crate::services::stock_fetch::{FetchError, FetchErrorView, FetchStage};
use crate::text::{law_trim_is_idempotent, optional, trim, trimmed};

verus! {

/// A variant of the store with its title.
#[derive(Debug)]
pub struct ShopifyVariantRecord {
    pub variant_id: i64,
    pub sku: String,
    pub title: String,
}

/// The model of a variant with its title.
pub struct ShopifyVariantRecordView {
    pub variant_id: int,
    pub sku: Seq<char>,
    pub title: Seq<char>,
}

impl View for ShopifyVariantRecord {
    type V = ShopifyVariantRecordView;

    open spec fn view(&self) -> ShopifyVariantRecordView {
        ShopifyVariantRecordView {
            variant_id: self.variant_id as int,
            sku: self.sku@,
            title: self.title@,
        }
    }
}

/// The models of a list of variants.
pub open spec fn record_views(records: Seq<ShopifyVariantRecord>) -> Seq<ShopifyVariantRecordView> {
    records.map_values(|r: ShopifyVariantRecord| r@)
}

/// The variant that an edge describes.
pub open spec fn edge_record(edge: JsonView) -> ShopifyVariantRecordView {
    let node = edge.field("node"@);
    ShopifyVariantRecordView {
        variant_id: trailing_id(node.field("id"@).text_or_empty()),
        sku: trimmed(node.field("sku"@).text_or_empty()),
        title: trimmed(node.field("product"@).field("title"@).text_or_empty()),
    }
}

/// The list with the variants of some edges; those without a SKU are left out.
pub open spec fn with_records(
    list: Seq<ShopifyVariantRecordView>,
    edges: Seq<JsonView>,
) -> Seq<ShopifyVariantRecordView>
    decreases edges.len(),
{
    if edges.len() == 0 {
        list
    } else {
        let before = with_records(list, edges.drop_last());
        if edge_record(edges.last()).sku.len() == 0 {
            before
        } else {
            before.push(edge_record(edges.last()))
        }
    }
}

/// The state of a fetch.
pub struct TitleState {
    pub stage: FetchStage,
    pub cursor: Option<Seq<char>>,
    pub variants: Seq<ShopifyVariantRecordView>,
    pub failure: Option<FetchErrorView>,
}

/// One turn of a fetch.
pub struct TitleTurn {
    pub state: TitleState,
    pub action: ActionView,
}

/// The turn that gives up.
pub open spec fn stops(state: TitleState, failure: FetchErrorView) -> TitleTurn {
    TitleTurn {
        state: TitleState { stage: FetchStage::Closed, failure: Some(failure), ..state },
        action: ActionView::Finish,
    }
}

/// The turn on a page.
pub open spec fn takes_titles(state: TitleState, answer: JsonView) -> TitleTurn {
    let listing = answer.field("data"@).field("productVariants"@);
    match listing.field("edges"@).as_items() {
        None => stops(state, FetchErrorView::UnexpectedShape),
        Some(edges) => {
            let grown = TitleState { variants: with_records(state.variants, edges), ..state };
            let info = listing.field("pageInfo"@);
            if info.field("hasNextPage"@).is_true() {
                TitleTurn {
                    state: TitleState {
                        stage: FetchStage::Pausing,
                        cursor: info.field("endCursor"@).as_text(),
                        ..grown
                    },
                    action: ActionView::Wait(500),
                }
            } else {
                TitleTurn {
                    state: TitleState { stage: FetchStage::Closed, ..grown },
                    action: ActionView::Finish,
                }
            }
        },
    }
}

/// What a fetch does next.
pub open spec fn titles_respond(base: Seq<char>, state: TitleState, reply: ReplyView) -> TitleTurn {
    match (state.stage, reply) {
        (FetchStage::Begin | FetchStage::Pausing, ReplyView::Ready) => TitleTurn {
            state: TitleState { stage: FetchStage::Asking, ..state },
            action: ActionView::Send(page(base, state.cursor, TITLE_QUERY_TAIL@)),
        },
        (FetchStage::Asking, ReplyView::Json(answer, _)) => takes_titles(state, answer),
        (FetchStage::Closed, _) => TitleTurn { state, action: ActionView::Finish },
        (_, ReplyView::Failed(m)) => stops(state, FetchErrorView::Transport(m)),
        (_, ReplyView::Undecodable(m)) => stops(state, FetchErrorView::Undecodable(m)),
        _ => stops(state, FetchErrorView::UnexpectedReply),
    }
}

/// The conversation that fetches all variants with their titles.
#[derive(Debug)]
pub struct TitleFetch<'a> {
    pub base: &'a str,
    pub stage: FetchStage,
    pub cursor: Option<String>,
    pub variants: Vec<ShopifyVariantRecord>,
    pub failure: Option<FetchError>,
}

impl<'a> TitleFetch<'a> {
    /// The state of the fetch.
    pub open spec fn state(self) -> TitleState {
        TitleState {
            stage: self.stage,
            cursor: optional(self.cursor),
            variants: record_views(self.variants@),
            failure: match self.failure {
                Some(failure) => Some(failure@),
                None => None,
            },
        }
    }

    /// The fetch at its beginning.
    pub fn fetch_all_variants(base: &'a str) -> (fetch: Self)
        ensures
            fetch.base@ == base@,
            fetch.state() == (TitleState {
                stage: FetchStage::Begin,
                cursor: None,
                variants: seq![],
                failure: None,
            }),
    {
        let fetch = TitleFetch {
            base,
            stage: FetchStage::Begin,
            cursor: None,
            variants: Vec::new(),
            failure: None,
        };
        assert(record_views(fetch.variants@) =~= seq![]);
        fetch
    }

    fn stop(&mut self, failure: FetchError) -> (action: Action)
        ensures
            final(self).base == old(self).base,
            (TitleTurn { state: final(self).state(), action: action@ }) == stops(
                old(self).state(),
                failure@,
            ),
    {
        self.stage = FetchStage::Closed;
        self.failure = Some(failure);
        Action::Finish
    }

    fn take_titles(&mut self, answer: &Json) -> (action: Action)
        ensures
            final(self).base == old(self).base,
            (TitleTurn { state: final(self).state(), action: action@ }) == takes_titles(
                old(self).state(),
                answer@,
            ),
    {
        let listing = at(at(Some(answer), "data"), "productVariants");
        match items_at(at(listing, "edges")) {
            None => self.stop(FetchError::UnexpectedShape),
            Some(edges) => {
                let ghost before = *self;
                let ghost model = trees(edges@);
                for i in 0..edges.len()
                    invariant
                        model == trees(edges@),
                        self.base == before.base,
                        self.state() == (TitleState {
                            variants: with_records(before.state().variants, model.take(i as int)),
                            ..before.state()
                        }),
                {
                    assert(model.take(i + 1).drop_last() =~= model.take(i as int));
                    assert(model.take(i + 1).last() == edges@[i as int]@);
                    let node = at(Some(&edges[i]), "node");
                    let variant_id = id_number(text_or_empty(at(node, "id")));
                    let sku = trim(text_or_empty(at(node, "sku"))).to_owned();
                    let title = trim(text_or_empty(at(at(node, "product"), "title"))).to_owned();
                    if !sku.as_str().is_empty() {
                        let ghost list = self.variants@;
                        let record = ShopifyVariantRecord { variant_id, sku, title };
                        self.variants.push(record);
                        assert(record_views(self.variants@) =~= record_views(list).push(record@));
                    }
                }
                assert(model.take(edges.len() as int) =~= model);
                let info = at(listing, "pageInfo");
                if true_at(at(info, "hasNextPage")) {
                    self.cursor = match text_at(at(info, "endCursor")) {
                        Some(c) => Some(c.to_owned()),
                        None => None,
                    };
                    self.stage = FetchStage::Pausing;
                    Action::Wait(500)
                } else {
                    self.stage = FetchStage::Closed;
                    Action::Finish
                }
            },
        }
    }

    /// Takes the reply to the last action, and says what is done next.
    pub fn step(&mut self, reply: Reply) -> (action: Action)
        ensures
            final(self).base == old(self).base,
            (TitleTurn { state: final(self).state(), action: action@ }) == titles_respond(
                old(self).base@,
                old(self).state(),
                reply@,
            ),
    {
        match self.stage {
            FetchStage::Closed => Action::Finish,
            FetchStage::Asking => match reply {
                Reply::Json(answer, _) => self.take_titles(&answer),
                Reply::Failed(m) => self.stop(FetchError::Transport(m)),
                Reply::Undecodable(m) => self.stop(FetchError::Undecodable(m)),
                _ => self.stop(FetchError::UnexpectedReply),
            },
            _ => match reply {
                Reply::Ready => {
                    let request = page_request(self.base, &self.cursor, TITLE_QUERY_TAIL);
                    self.stage = FetchStage::Asking;
                    Action::Send(request)
                },
                Reply::Failed(m) => self.stop(FetchError::Transport(m)),
                Reply::Undecodable(m) => self.stop(FetchError::Undecodable(m)),
                _ => self.stop(FetchError::UnexpectedReply),
            },
        }
    }
}

/// Every variant that some edges add has a SKU, without white space around it.
pub proof fn law_fetched_variants_have_skus(edges: Seq<JsonView>, i: int)
    requires
        0 <= i < with_records(seq![], edges).len(),
    ensures
        with_records(seq![], edges)[i].sku.len() > 0,
        trimmed(with_records(seq![], edges)[i].sku) == with_records(seq![], edges)[i].sku,
    decreases edges.len(),
{
    if edges.len() > 0 {
        let before = with_records(seq![], edges.drop_last());
        if i < before.len() {
            law_fetched_variants_have_skus(edges.drop_last(), i);
        } else {
            law_trim_is_idempotent(edges.last().field("node"@).field("sku"@).text_or_empty());
        }
    }
}

/// No variant with a SKU is left out: one more edge adds its own variant behind the
/// others where it has a SKU, and nothing where it has none.
pub proof fn law_every_title_is_read(
    list: Seq<ShopifyVariantRecordView>,
    edges: Seq<JsonView>,
    edge: JsonView,
)
    ensures
        with_records(list, Seq::empty()) == list,
        ({
            let node = edge.field("node"@);
            let sku = trimmed(node.field("sku"@).text_or_empty());
            let before = with_records(list, edges);
            let after = with_records(list, edges.push(edge));
            &&& sku.len() == 0 ==> after == before
            &&& sku.len() > 0 ==> {
                &&& after == before.push(after.last())
                &&& after.last().variant_id == trailing_id(node.field("id"@).text_or_empty())
                &&& after.last().sku == sku
                &&& after.last().title == trimmed(
                    node.field("product"@).field("title"@).text_or_empty(),
                )
            }
        }),
{
    assert(edges.push(edge).drop_last() =~= edges);
}

/// A fetch of titles asks for page after page, as long as a page says that there is
/// a next one, and keeps the variants of each.
pub proof fn law_course_of_a_title_fetch(
    base: Seq<char>,
    state: TitleState,
    answer: JsonView,
    body: Seq<u8>,
    edges: Seq<JsonView>,
    message: Seq<char>,
)
    requires
        state.stage is Begin || state.stage is Pausing,
    ensures
        ({
            let listing = answer.field("data"@).field("productVariants"@);
            let info = listing.field("pageInfo"@);
            let more = info.field("hasNextPage"@) == JsonView::Bool(true);
            let asked = titles_respond(base, state, ReplyView::Ready);
            let taken = titles_respond(base, asked.state, ReplyView::Json(answer, body));
            let next = titles_respond(base, taken.state, ReplyView::Ready);
            let failed = titles_respond(base, asked.state, ReplyView::Failed(message));
            &&& asked.action == ActionView::Send(page(base, state.cursor, TITLE_QUERY_TAIL@))
            &&& listing.field("edges"@) == JsonView::Array(edges) ==> {
                &&& taken.state.variants == with_records(state.variants, edges)
                &&& taken.state.failure == state.failure
                &&& !more ==> taken.action == ActionView::Finish && taken.state.stage is Closed
                &&& more ==> taken.action == ActionView::Wait(500) && (info.field(
                    "endCursor"@,
                ) is Text ==> next.action == ActionView::Send(
                    page(base, Some(info.field("endCursor"@)->Text_0), TITLE_QUERY_TAIL@),
                ))
            }
            &&& !(listing.field("edges"@) is Array) ==> taken.action == ActionView::Finish
                && taken.state.failure == Some(FetchErrorView::UnexpectedShape)
            &&& failed.action == ActionView::Finish && failed.state.stage is Closed
                && failed.state.failure == Some(FetchErrorView::Transport(message))
        }),
{
}

} // verus!

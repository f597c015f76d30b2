//! Bringing one product of the price file into the store.
//!
//! A `ProductSession` is the conversation that updates or creates one product.
//! `respond` is its transition function: what it does next on each reply.
use vstd::prelude::*;
use vstd::string::*;

use crate::api::{
    connect, connect_request, create, create_request, levels, levels_request, lookup,
    lookup_request, new_product, set_cost, set_cost_request, set_price, set_price_request, set_quantity,
    set_quantity_request, track, track_request,
};
use crate::exchange::{
    is_rate_limited, rate_limited, Action, ActionView, Reply, ReplyView, Request, RequestView,
};
use crate::json::{at, compact_field, compact_text, Json, JsonView};
use crate::models::Product;
use crate::services::shopify_service::{
    created_item, created_item_id, find_variant_by_sku, found_for, found_view, level_location,
    listed_location, location_setting, setting_location, FoundVariant, FoundVariantView,
    ShopifyService,
};
use crate::text::same_text;

verus! {

/// What is done with a product.
#[derive(Debug, Clone, Copy, PartialEq, Eq, Structural)]
pub enum Procedure {
    /// Updates the product; skips it where the store does not have it.
    UpdateExisting,
    /// Updates the product; creates it where the store does not have it.
    Upsert,
    /// Creates the product.
    Create,
    /// Updates a variant that is known from the list of all variants.
    BulkUpdate,
    /// Creates the product, as part of a bulk run.
    BulkCreate,
}

/// A variant of the store, by its identifiers. The location is zero while it
/// is not known.
#[derive(Debug, Clone, Copy, PartialEq, Eq, Structural)]
pub struct Target {
    pub variant: i64,
    pub item: i64,
    pub location: i64,
}

/// Where a session stands: which reply it is waiting for.
#[derive(Debug, Clone, Copy, PartialEq, Eq, Structural)]
pub enum Stage {
    Begin,
    /// The start of a bulk update; the flag says whether stock is followed.
    BulkBegin(Target, bool),
    Paused,
    Lookup,
    Refreshing,
    LookupAgain,
    Tracking(Target),
    TrackingOn(Target),
    Levels(Target),
    Connecting(Target),
    Connected(Target),
    Setting(Target),
    Backoff(Target),
    SettingAgain(Target),
    Accepted(Target),
    Pricing(Target),
    CreatePause,
    Creating,
    Costing,
    Closed,
}

/// How a session ended well.
#[derive(Debug, Clone, Copy, PartialEq, Eq, Structural)]
pub enum Outcome {
    /// Quantity and prices were set, the quantity at this location.
    Updated(i64),
    /// The store does not have the product, and it was not to be created.
    Skipped,
    /// The product was created.
    Created,
}

/// How a session failed.
#[derive(Debug)]
pub enum SyncError {
    /// A request failed.
    Transport(String),
    /// The body of an answer is no document.
    Undecodable(String),
    /// The answer to a new quantity is no document.
    InvalidJson(String),
    /// The store refused the quantity; the body of its answer.
    InventoryRejected(String),
    /// The store refused the prices.
    PriceRejected(String),
    /// The store refused the new product.
    CreateRejected(String),
    /// The reply does not belong to the last action.
    UnexpectedReply,
}

/// The model of a failure.
pub enum SyncErrorView {
    Transport(Seq<char>),
    Undecodable(Seq<char>),
    InvalidJson(Seq<char>),
    InventoryRejected(Seq<char>),
    PriceRejected(Seq<char>),
    CreateRejected(Seq<char>),
    UnexpectedReply,
}

impl View for SyncError {
    type V = SyncErrorView;

    open spec fn view(&self) -> SyncErrorView {
        match self {
            SyncError::Transport(m) => SyncErrorView::Transport(m@),
            SyncError::Undecodable(m) => SyncErrorView::Undecodable(m@),
            SyncError::InvalidJson(m) => SyncErrorView::InvalidJson(m@),
            SyncError::InventoryRejected(body) => SyncErrorView::InventoryRejected(body@),
            SyncError::PriceRejected(t) => SyncErrorView::PriceRejected(t@),
            SyncError::CreateRejected(t) => SyncErrorView::CreateRejected(t@),
            SyncError::UnexpectedReply => SyncErrorView::UnexpectedReply,
        }
    }
}

/// The model of how a session ended.
pub open spec fn ending(result: Result<Outcome, SyncError>) -> Result<Outcome, SyncErrorView> {
    match result {
        Ok(outcome) => Ok(outcome),
        Err(error) => Err(error@),
    }
}

/// What stays the same during a session.
pub struct SessionContext {
    pub base: Seq<char>,
    pub product: Product,
    pub procedure: Procedure,
    /// The location of items that are stocked nowhere.
    pub fallback: i64,
}

/// One turn of a session: where it stands next, what is done, and, where it
/// ends, how.
pub struct Turn {
    pub stage: Stage,
    pub action: ActionView,
    pub ending: Option<Result<Outcome, SyncErrorView>>,
}

/// The turn that waits.
pub open spec fn waits(stage: Stage, milliseconds: u64) -> Turn {
    Turn { stage, action: ActionView::Wait(milliseconds), ending: None }
}

/// The turn that sends a request.
pub open spec fn sends(stage: Stage, request: RequestView) -> Turn {
    Turn { stage, action: ActionView::Send(request), ending: None }
}

/// The turn that ends the session.
pub open spec fn ends(result: Result<Outcome, SyncErrorView>) -> Turn {
    Turn { stage: Stage::Closed, action: ActionView::Finish, ending: Some(result) }
}

/// The turn that asks for the quantity to be set.
pub open spec fn sets_quantity(ctx: SessionContext, stage: Stage, target: Target) -> Turn {
    sends(
        stage,
        set_quantity(
            ctx.base,
            target.location as int,
            target.item as int,
            ctx.product.inventory_quantity as int,
        ),
    )
}

/// The turn once the location of the item is known, zero meaning nowhere. An
/// item that is stocked nowhere is first stocked at the fallback location; a
/// bulk run does so only where there is one.
pub open spec fn locates(ctx: SessionContext, target: Target) -> Turn {
    if target.location != 0 {
        sets_quantity(ctx, Stage::Setting(target), target)
    } else {
        let settled = Target { location: ctx.fallback, ..target };
        if ctx.fallback == 0 && ctx.procedure == Procedure::BulkUpdate {
            sets_quantity(ctx, Stage::Setting(settled), settled)
        } else {
            sends(
                Stage::Connecting(settled),
                connect(ctx.base, settled.location as int, settled.item as int),
            )
        }
    }
}

/// The turn once it is known which variant the store has for the product.
pub open spec fn finds(ctx: SessionContext, found: Option<FoundVariantView>) -> Turn {
    match found {
        Some(variant) => {
            let target = Target {
                variant: variant.id as i64,
                item: variant.inventory_item_id as i64,
                location: 0,
            };
            if ctx.procedure == Procedure::Upsert {
                sends(Stage::Tracking(target), track(ctx.base, target.item as int))
            } else {
                sends(Stage::Levels(target), levels(ctx.base, target.item as int))
            }
        },
        None => if ctx.procedure == Procedure::Upsert {
            waits(Stage::CreatePause, 600)
        } else {
            ends(Ok(Outcome::Skipped))
        },
    }
}

/// The turn on the answer to a new quantity.
pub open spec fn quantity_answered(
    target: Target,
    body: Seq<char>,
    answer: Result<JsonView, Seq<char>>,
) -> Turn {
    match answer {
        Err(message) => ends(Err(SyncErrorView::InvalidJson(message))),
        Ok(json) => if json.has_field("errors"@) {
            ends(Err(SyncErrorView::InventoryRejected(body)))
        } else {
            waits(Stage::Accepted(target), 500)
        },
    }
}

/// The turn on a reply that the stage has no use for.
pub open spec fn disappoints(reply: ReplyView) -> Turn {
    match reply {
        ReplyView::Failed(message) => ends(Err(SyncErrorView::Transport(message))),
        ReplyView::Undecodable(message) => ends(Err(SyncErrorView::Undecodable(message))),
        _ => ends(Err(SyncErrorView::UnexpectedReply)),
    }
}

/// What a session does next.
pub open spec fn respond(ctx: SessionContext, stage: Stage, reply: ReplyView) -> Turn {
    match (stage, reply) {
        (Stage::Begin, ReplyView::Ready) => match ctx.procedure {
            Procedure::UpdateExisting => waits(Stage::Paused, 2500),
            Procedure::Upsert => waits(Stage::Paused, 500),
            _ => waits(Stage::CreatePause, 600),
        },
        (Stage::BulkBegin(target, follows_stock), ReplyView::Ready) => if follows_stock {
            locates(ctx, target)
        } else {
            sends(Stage::Tracking(target), track(ctx.base, target.item as int))
        },
        (Stage::Paused, ReplyView::Ready) => sends(
            Stage::Lookup,
            lookup(ctx.base, ctx.product.sku@),
        ),
        (Stage::Lookup, ReplyView::Failed(message)) => if message == "UNAUTHORIZED"@ {
            Turn { stage: Stage::Refreshing, action: ActionView::RefreshToken, ending: None }
        } else {
            disappoints(reply)
        },
        (Stage::Lookup | Stage::LookupAgain, ReplyView::Json(answer, _)) => finds(
            ctx,
            found_for(answer, ctx.product.sku@),
        ),
        (Stage::Refreshing, ReplyView::Ready) => sends(
            Stage::LookupAgain,
            lookup(ctx.base, ctx.product.sku@),
        ),
        (Stage::Tracking(target), ReplyView::Ignored) => waits(Stage::TrackingOn(target), 500),
        (Stage::TrackingOn(target), ReplyView::Ready) => if ctx.procedure == Procedure::BulkUpdate {
            locates(ctx, target)
        } else {
            sends(Stage::Levels(target), levels(ctx.base, target.item as int))
        },
        (Stage::Levels(target), ReplyView::Json(answer, _)) => locates(
            ctx,
            Target { location: listed_location(answer) as i64, ..target },
        ),
        (Stage::Connecting(target), ReplyView::Ignored) => waits(Stage::Connected(target), 500),
        (Stage::Connected(target), ReplyView::Ready) => sets_quantity(
            ctx,
            Stage::Setting(target),
            target,
        ),
        (Stage::Setting(target), ReplyView::Text(text, answer)) => if rate_limited(text) {
            waits(Stage::Backoff(target), 4000)
        } else {
            quantity_answered(target, text, answer)
        },
        (Stage::Backoff(target), ReplyView::Ready) => sets_quantity(
            ctx,
            Stage::SettingAgain(target),
            target,
        ),
        (Stage::SettingAgain(target), ReplyView::Text(text, answer)) => quantity_answered(
            target,
            text,
            answer,
        ),
        (Stage::Accepted(target), ReplyView::Ready) => sends(
            Stage::Pricing(target),
            set_price(ctx.base, target.variant as int, ctx.product),
        ),
        (Stage::Pricing(target), ReplyView::Success) => ends(Ok(Outcome::Updated(target.location))),
        (Stage::Pricing(_), ReplyView::ErrorText(text)) => ends(
            Err(SyncErrorView::PriceRejected(text)),
        ),
        (Stage::CreatePause, ReplyView::Ready) => sends(
            Stage::Creating,
            create(ctx.base, ctx.product),
        ),
        (Stage::Creating, ReplyView::Json(answer, _)) => match created_item(answer) {
            Some(item) => sends(Stage::Costing, set_cost(ctx.base, item, ctx.product)),
            None => ends(Ok(Outcome::Created)),
        },
        (Stage::Creating, ReplyView::ErrorText(text)) => ends(
            Err(SyncErrorView::CreateRejected(text)),
        ),
        (Stage::Costing, ReplyView::Ignored) => ends(Ok(Outcome::Created)),
        (Stage::Closed, _) => Turn { stage: Stage::Closed, action: ActionView::Finish, ending: None },
        _ => disappoints(reply),
    }
}

/// The conversation that brings one product into the store.
#[derive(Debug)]
pub struct ProductSession<'a> {
    pub base: &'a str,
    pub product: &'a Product,
    pub procedure: Procedure,
    pub fallback: i64,
    pub stage: Stage,
    pub outcome: Option<Result<Outcome, SyncError>>,
}

impl<'a> ProductSession<'a> {
    /// What stays the same during the session.
    pub open spec fn context(self) -> SessionContext {
        SessionContext {
            base: self.base@,
            product: *self.product,
            procedure: self.procedure,
            fallback: self.fallback,
        }
    }

    /// The session took this turn from the state `before`.
    pub open spec fn took(self, before: Self, action: ActionView, turn: Turn) -> bool {
        &&& self.context() == before.context()
        &&& self.stage == turn.stage
        &&& action == turn.action
        &&& match turn.ending {
            Some(result) => self.outcome is Some && ending(self.outcome->0) == result,
            None => self.outcome == before.outcome,
        }
    }

    /// A session at its beginning.
    fn start(base: &'a str, product: &'a Product, procedure: Procedure, fallback: i64, stage: Stage) -> (session:
        Self)
        ensures
            session.context() == (SessionContext {
                base: base@,
                product: *product,
                procedure,
                fallback,
            }),
            session.stage == stage,
            session.outcome is None,
    {
        ProductSession { base, product, procedure, fallback, stage, outcome: None }
    }

    /// Updates a variant that is known from the list of all variants.
    pub fn update_variant(
        base: &'a str,
        product: &'a Product,
        target: Target,
        follows_stock: bool,
        fallback: i64,
    ) -> (session: Self)
        ensures
            session.context() == (SessionContext {
                base: base@,
                product: *product,
                procedure: Procedure::BulkUpdate,
                fallback,
            }),
            session.stage == Stage::BulkBegin(target, follows_stock),
            session.outcome is None,
    {
        Self::start(
            base,
            product,
            Procedure::BulkUpdate,
            fallback,
            Stage::BulkBegin(target, follows_stock),
        )
    }

    /// Creates the product, as part of a bulk run.
    pub fn create_in_bulk(base: &'a str, product: &'a Product) -> (session: Self)
        ensures
            session.context() == (SessionContext {
                base: base@,
                product: *product,
                procedure: Procedure::BulkCreate,
                fallback: 0,
            }),
            session.stage == Stage::Begin,
            session.outcome is None,
    {
        Self::start(base, product, Procedure::BulkCreate, 0, Stage::Begin)
    }

    fn wait(&mut self, stage: Stage, milliseconds: u64) -> (action: Action)
        ensures
            final(self).took(*old(self), action@, waits(stage, milliseconds)),
    {
        self.stage = stage;
        Action::Wait(milliseconds)
    }

    fn send(&mut self, stage: Stage, request: Request) -> (action: Action)
        ensures
            final(self).took(*old(self), action@, sends(stage, request@)),
    {
        self.stage = stage;
        Action::Send(request)
    }

    fn end(&mut self, result: Result<Outcome, SyncError>) -> (action: Action)
        ensures
            final(self).took(*old(self), action@, ends(ending(result))),
    {
        self.stage = Stage::Closed;
        self.outcome = Some(result);
        Action::Finish
    }

    fn send_quantity(&mut self, stage: Stage, target: Target) -> (action: Action)
        ensures
            final(self).took(
                *old(self),
                action@,
                sets_quantity(old(self).context(), stage, target),
            ),
    {
        let request = set_quantity_request(
            self.base,
            target.location,
            target.item,
            self.product.inventory_quantity,
        );
        self.send(stage, request)
    }

    fn locate(&mut self, target: Target) -> (action: Action)
        ensures
            final(self).took(*old(self), action@, locates(old(self).context(), target)),
    {
        if target.location != 0 {
            self.send_quantity(Stage::Setting(target), target)
        } else {
            let settled = Target {
                variant: target.variant,
                item: target.item,
                location: self.fallback,
            };
            if self.fallback == 0 && self.procedure == Procedure::BulkUpdate {
                self.send_quantity(Stage::Setting(settled), settled)
            } else {
                let request = connect_request(self.base, settled.location, settled.item);
                self.send(Stage::Connecting(settled), request)
            }
        }
    }

    /// Goes on once it is known which variant the store has for the product.
    pub fn continue_with(&mut self, found: Option<FoundVariant>) -> (action: Action)
        ensures
            final(self).took(*old(self), action@, finds(old(self).context(), found_view(found))),
    {
        match found {
            Some(variant) => {
                let target = Target {
                    variant: variant.id,
                    item: variant.inventory_item_id,
                    location: 0,
                };
                if self.procedure == Procedure::Upsert {
                    let request = track_request(self.base, target.item);
                    self.send(Stage::Tracking(target), request)
                } else {
                    let request = levels_request(self.base, target.item);
                    self.send(Stage::Levels(target), request)
                }
            },
            None => {
                if self.procedure == Procedure::Upsert {
                    self.wait(Stage::CreatePause, 600)
                } else {
                    self.end(Ok(Outcome::Skipped))
                }
            },
        }
    }

    fn answer_quantity(&mut self, target: Target, body: String, answer: Result<Json, String>) -> (action:
        Action)
        ensures
            final(self).took(
                *old(self),
                action@,
                quantity_answered(target, body@, crate::json::parsed(answer)),
            ),
    {
        match answer {
            Err(message) => self.end(Err(SyncError::InvalidJson(message))),
            Ok(json) => {
                if at(Some(&json), "errors").is_some() {
                    self.end(Err(SyncError::InventoryRejected(body)))
                } else {
                    self.wait(Stage::Accepted(target), 500)
                }
            },
        }
    }

    fn disappoint(&mut self, reply: Reply) -> (action: Action)
        ensures
            final(self).took(*old(self), action@, disappoints(reply@)),
    {
        match reply {
            Reply::Failed(message) => self.end(Err(SyncError::Transport(message))),
            Reply::Undecodable(message) => self.end(Err(SyncError::Undecodable(message))),
            _ => self.end(Err(SyncError::UnexpectedReply)),
        }
    }

    /// Takes the reply to the last action, and says what is done next.
    #[verifier::spinoff_prover]
    #[verifier::rlimit(40)]
    pub fn step(&mut self, reply: Reply) -> (action: Action)
        ensures
            final(self).took(
                *old(self),
                action@,
                respond(old(self).context(), old(self).stage, reply@),
            ),
    {
        match self.stage {
            Stage::Begin => match reply {
                Reply::Ready => match self.procedure {
                    Procedure::UpdateExisting => self.wait(Stage::Paused, 2500),
                    Procedure::Upsert => self.wait(Stage::Paused, 500),
                    _ => self.wait(Stage::CreatePause, 600),
                },
                other => self.disappoint(other),
            },
            Stage::BulkBegin(target, follows_stock) => match reply {
                Reply::Ready => {
                    if follows_stock {
                        self.locate(target)
                    } else {
                        let request = track_request(self.base, target.item);
                        self.send(Stage::Tracking(target), request)
                    }
                },
                other => self.disappoint(other),
            },
            Stage::Paused => match reply {
                Reply::Ready => {
                    let request = lookup_request(self.base, self.product.sku.as_str());
                    self.send(Stage::Lookup, request)
                },
                other => self.disappoint(other),
            },
            Stage::Lookup => match reply {
                Reply::Failed(message) => {
                    if same_text(message.as_str(), "UNAUTHORIZED") {
                        self.stage = Stage::Refreshing;
                        Action::RefreshToken
                    } else {
                        self.disappoint(Reply::Failed(message))
                    }
                },
                Reply::Json(answer, _) => {
                    let found = find_variant_by_sku(&answer, self.product.sku.as_str());
                    self.continue_with(found)
                },
                other => self.disappoint(other),
            },
            Stage::LookupAgain => match reply {
                Reply::Json(answer, _) => {
                    let found = find_variant_by_sku(&answer, self.product.sku.as_str());
                    self.continue_with(found)
                },
                other => self.disappoint(other),
            },
            Stage::Refreshing => match reply {
                Reply::Ready => {
                    let request = lookup_request(self.base, self.product.sku.as_str());
                    self.send(Stage::LookupAgain, request)
                },
                other => self.disappoint(other),
            },
            Stage::Tracking(target) => match reply {
                Reply::Ignored => self.wait(Stage::TrackingOn(target), 500),
                other => self.disappoint(other),
            },
            Stage::TrackingOn(target) => match reply {
                Reply::Ready => {
                    if self.procedure == Procedure::BulkUpdate {
                        self.locate(target)
                    } else {
                        let request = levels_request(self.base, target.item);
                        self.send(Stage::Levels(target), request)
                    }
                },
                other => self.disappoint(other),
            },
            Stage::Levels(target) => match reply {
                Reply::Json(answer, _) => {
                    let location = level_location(&answer);
                    self.locate(Target { variant: target.variant, item: target.item, location })
                },
                other => self.disappoint(other),
            },
            Stage::Connecting(target) => match reply {
                Reply::Ignored => self.wait(Stage::Connected(target), 500),
                other => self.disappoint(other),
            },
            Stage::Connected(target) => match reply {
                Reply::Ready => self.send_quantity(Stage::Setting(target), target),
                other => self.disappoint(other),
            },
            Stage::Setting(target) => match reply {
                Reply::Text(text, answer) => {
                    if is_rate_limited(text.as_str()) {
                        self.wait(Stage::Backoff(target), 4000)
                    } else {
                        self.answer_quantity(target, text, answer)
                    }
                },
                other => self.disappoint(other),
            },
            Stage::Backoff(target) => match reply {
                Reply::Ready => self.send_quantity(Stage::SettingAgain(target), target),
                other => self.disappoint(other),
            },
            Stage::SettingAgain(target) => match reply {
                Reply::Text(text, answer) => self.answer_quantity(target, text, answer),
                other => self.disappoint(other),
            },
            Stage::Accepted(target) => match reply {
                Reply::Ready => {
                    let request = set_price_request(self.base, target.variant, self.product);
                    self.send(Stage::Pricing(target), request)
                },
                other => self.disappoint(other),
            },
            Stage::Pricing(target) => match reply {
                Reply::Success => self.end(Ok(Outcome::Updated(target.location))),
                Reply::ErrorText(text) => self.end(Err(SyncError::PriceRejected(text))),
                other => self.disappoint(other),
            },
            Stage::CreatePause => match reply {
                Reply::Ready => {
                    let request = create_request(self.base, self.product);
                    self.send(Stage::Creating, request)
                },
                other => self.disappoint(other),
            },
            Stage::Creating => match reply {
                Reply::Json(answer, _) => match created_item_id(&answer) {
                    Some(item) => {
                        let request = set_cost_request(self.base, item, self.product);
                        self.send(Stage::Costing, request)
                    },
                    None => self.end(Ok(Outcome::Created)),
                },
                Reply::ErrorText(text) => self.end(Err(SyncError::CreateRejected(text))),
                other => self.disappoint(other),
            },
            Stage::Costing => match reply {
                Reply::Ignored => self.end(Ok(Outcome::Created)),
                other => self.disappoint(other),
            },
            Stage::Closed => Action::Finish,
        }
    }
}

impl ShopifyService {
    /// Updates the product; skips it where the store does not have it. `setting`
    /// names the location of items that are stocked nowhere.
    pub fn update_existing_product<'a>(&'a self, product: &'a Product, setting: &str) -> (session:
        ProductSession<'a>)
        ensures
            session.context() == (SessionContext {
                base: self.base_url@,
                product: *product,
                procedure: Procedure::UpdateExisting,
                fallback: setting_location(setting@) as i64,
            }),
            session.stage == Stage::Begin,
            session.outcome is None,
    {
        ProductSession::start(
            self.base_url.as_str(),
            product,
            Procedure::UpdateExisting,
            location_setting(setting),
            Stage::Begin,
        )
    }

    /// Updates the product; creates it where the store does not have it.
    /// `setting` names the location of items that are stocked nowhere.
    pub fn upsert_product<'a>(&'a self, product: &'a Product, setting: &str) -> (session:
        ProductSession<'a>)
        ensures
            session.context() == (SessionContext {
                base: self.base_url@,
                product: *product,
                procedure: Procedure::Upsert,
                fallback: setting_location(setting@) as i64,
            }),
            session.stage == Stage::Begin,
            session.outcome is None,
    {
        ProductSession::start(
            self.base_url.as_str(),
            product,
            Procedure::Upsert,
            location_setting(setting),
            Stage::Begin,
        )
    }

    /// Brings the product up to date: updates it where the store has it.
    pub fn update_inventory<'a>(&'a self, product: &'a Product, setting: &str) -> (session:
        ProductSession<'a>)
        ensures
            session.context() == (SessionContext {
                base: self.base_url@,
                product: *product,
                procedure: Procedure::UpdateExisting,
                fallback: setting_location(setting@) as i64,
            }),
            session.stage == Stage::Begin,
            session.outcome is None,
    {
        self.update_existing_product(product, setting)
    }

    /// Creates the product.
    pub fn create_product<'a>(&'a self, product: &'a Product) -> (session: ProductSession<'a>)
        ensures
            session.context() == (SessionContext {
                base: self.base_url@,
                product: *product,
                procedure: Procedure::Create,
                fallback: 0,
            }),
            session.stage == Stage::Begin,
            session.outcome is None,
    {
        ProductSession::start(
            self.base_url.as_str(),
            product,
            Procedure::Create,
            0,
            Stage::Begin,
        )
    }
}

/// The message of a failure. `detail` is what the store says about a quantity
/// that it refused.
pub open spec fn failure_words(
    procedure: Procedure,
    sku: Seq<char>,
    error: SyncErrorView,
    detail: Seq<char>,
) -> Seq<char> {
    let bulk = procedure == Procedure::BulkUpdate || procedure == Procedure::BulkCreate;
    match error {
        SyncErrorView::Transport(message) => message,
        SyncErrorView::Undecodable(_) => "error decoding response body"@,
        SyncErrorView::InvalidJson(message) => message,
        SyncErrorView::InventoryRejected(_) => "Inventory update failed: "@ + detail,
        SyncErrorView::PriceRejected(text) => if bulk {
            "Price update failed for "@ + sku + ": "@ + text
        } else {
            "Price update failed"@
        },
        SyncErrorView::CreateRejected(text) => if bulk {
            "Failed to create product "@ + sku + ": "@ + text
        } else {
            "Failed to create product: "@ + text
        },
        SyncErrorView::UnexpectedReply => "unexpected reply"@,
    }
}

/// What the store says about a quantity that it refused: the value of the field
/// "errors" of its answer.
pub open spec fn failure_detail(error: SyncErrorView) -> Seq<char> {
    match error {
        SyncErrorView::InventoryRejected(body) => match compact_field(body, "errors"@) {
            Some(detail) => detail,
            None => seq![],
        },
        _ => seq![],
    }
}

/// The message of a failure.
pub open spec fn failure_message(
    procedure: Procedure,
    sku: Seq<char>,
    error: SyncErrorView,
) -> Seq<char> {
    failure_words(procedure, sku, error, failure_detail(error))
}

/// The message of a failure, with what the store says about a quantity that it
/// refused.
pub fn describe_failure(procedure: Procedure, sku: &str, error: &SyncError, detail: &str) -> (message:
    String)
    ensures
        message@ == failure_words(procedure, sku@, error@, detail@),
{
    let bulk = procedure == Procedure::BulkUpdate || procedure == Procedure::BulkCreate;
    match error {
        SyncError::Transport(message) => message.clone(),
        SyncError::Undecodable(_) => "error decoding response body".to_owned(),
        SyncError::InvalidJson(message) => message.clone(),
        SyncError::InventoryRejected(_) => {
            let mut message = "Inventory update failed: ".to_owned();
            message.append(detail);
            message
        },
        SyncError::PriceRejected(text) => {
            if bulk {
                let mut message = "Price update failed for ".to_owned();
                message.append(sku);
                message.append(": ");
                message.append(text.as_str());
                message
            } else {
                "Price update failed".to_owned()
            }
        },
        SyncError::CreateRejected(text) => {
            if bulk {
                let mut message = "Failed to create product ".to_owned();
                message.append(sku);
                message.append(": ");
                message.append(text.as_str());
                message
            } else {
                let mut message = "Failed to create product: ".to_owned();
                message.append(text.as_str());
                message
            }
        },
        SyncError::UnexpectedReply => "unexpected reply".to_owned(),
    }
}

/// The message of a failure.
pub fn failure_text(procedure: Procedure, sku: &str, error: &SyncError) -> (message: String)
    ensures
        message@ == failure_message(procedure, sku@, error@),
{
    let rendered = match error {
        SyncError::InventoryRejected(body) => compact_text(body.as_str(), "errors"),
        _ => None,
    };
    let detail = match rendered {
        Some(text) => text,
        None => String::new(),
    };
    assert(detail@ =~= failure_detail(error@));
    describe_failure(procedure, sku, error, detail.as_str())
}

/// Where a session stands after these replies.
pub open spec fn stage_after(ctx: SessionContext, start: Stage, replies: Seq<ReplyView>) -> Stage
    decreases replies.len(),
{
    if replies.len() == 0 {
        start
    } else {
        respond(ctx, stage_after(ctx, start, replies.drop_last()), replies.last()).stage
    }
}

/// What a session does on the last of these replies.
pub open spec fn action_on(ctx: SessionContext, start: Stage, replies: Seq<ReplyView>) -> ActionView {
    respond(ctx, stage_after(ctx, start, replies.drop_last()), replies.last()).action
}

/// The place of a stage in the order of a session.
pub open spec fn rank(stage: Stage) -> nat {
    match stage {
        Stage::Begin => 19,
        Stage::Paused => 18,
        Stage::Lookup => 17,
        Stage::Refreshing => 16,
        Stage::LookupAgain => 15,
        Stage::BulkBegin(_, _) => 14,
        Stage::Tracking(_) => 13,
        Stage::TrackingOn(_) => 12,
        Stage::Levels(_) => 11,
        Stage::Connecting(_) => 10,
        Stage::Connected(_) => 9,
        Stage::Setting(_) => 8,
        Stage::Backoff(_) => 7,
        Stage::SettingAgain(_) => 6,
        Stage::Accepted(_) => 5,
        Stage::Pricing(_) => 4,
        Stage::CreatePause => 3,
        Stage::Creating => 2,
        Stage::Costing => 1,
        Stage::Closed => 0,
    }
}

/// Every reply brings a session nearer to its end: whatever the replies are, it
/// is over after the nineteenth at the latest.
#[verifier::spinoff_prover]
#[verifier::rlimit(40)]
pub proof fn law_session_ends(ctx: SessionContext, start: Stage, replies: Seq<ReplyView>)
    ensures
        rank(stage_after(ctx, start, replies)) + replies.len() <= rank(start) || stage_after(
            ctx,
            start,
            replies,
        ) == Stage::Closed,
        replies.len() >= 19 ==> stage_after(ctx, start, replies) == Stage::Closed,
    decreases replies.len(),
{
    if replies.len() > 0 {
        law_session_ends(ctx, start, replies.drop_last());
    }
}

/// The reply accepts the quantity that was sent.
pub open spec fn accepts_quantity(reply: ReplyView) -> bool {
    match reply {
        ReplyView::Text(_, Ok(json)) => !json.has_field("errors"@),
        _ => false,
    }
}

/// A session at which one of the procedures begins.
pub open spec fn begins(ctx: SessionContext, start: Stage) -> bool {
    match start {
        Stage::Begin => ctx.procedure != Procedure::BulkUpdate,
        Stage::BulkBegin(_, _) => ctx.procedure == Procedure::BulkUpdate,
        _ => false,
    }
}

/// New prices are sent only after the store has accepted the new quantity.
#[verifier::spinoff_prover]
#[verifier::rlimit(40)]
pub proof fn law_prices_follow_the_quantity(
    ctx: SessionContext,
    start: Stage,
    replies: Seq<ReplyView>,
    variant: int,
)
    requires
        begins(ctx, start),
        replies.len() > 0,
        action_on(ctx, start, replies) == ActionView::Send(
            set_price(ctx.base, variant, ctx.product),
        ),
    ensures
        exists|k: int|
            0 <= k < replies.len() - 1 && #[trigger] accepts_quantity(replies[k]),
{
    let before = replies.drop_last();
    lemma_accepted(ctx, start, before);
    let k = choose|k: int| 0 <= k < before.len() && #[trigger] accepts_quantity(before[k]);
    assert(accepts_quantity(replies[k]));
}

#[verifier::spinoff_prover]
#[verifier::rlimit(40)]
proof fn lemma_accepted(ctx: SessionContext, start: Stage, replies: Seq<ReplyView>)
    requires
        begins(ctx, start),
    ensures
        stage_after(ctx, start, replies) is Accepted ==> exists|k: int|
            0 <= k < replies.len() && #[trigger] accepts_quantity(replies[k]),
{
    if stage_after(ctx, start, replies) is Accepted {
        assert(accepts_quantity(replies[replies.len() - 1]));
    }
}

/// The variant that a session is about, where that is known at a stage.
spec fn stage_target(stage: Stage) -> Option<Target> {
    match stage {
        Stage::BulkBegin(target, _)
        | Stage::Tracking(target)
        | Stage::TrackingOn(target)
        | Stage::Levels(target)
        | Stage::Connecting(target)
        | Stage::Connected(target)
        | Stage::Setting(target)
        | Stage::Backoff(target)
        | Stage::SettingAgain(target)
        | Stage::Accepted(target)
        | Stage::Pricing(target) => Some(target),
        _ => None,
    }
}

/// The quantity is being set, or was set, at a stage.
spec fn is_late(stage: Stage) -> bool {
    match stage {
        Stage::Setting(_)
        | Stage::Backoff(_)
        | Stage::SettingAgain(_)
        | Stage::Accepted(_)
        | Stage::Pricing(_) => true,
        _ => false,
    }
}

/// At the stage of a look-up, the reply gives the variant with these identifiers
/// for the SKU of the product.
pub open spec fn finds_target(
    ctx: SessionContext,
    stage: Stage,
    reply: ReplyView,
    target: Target,
) -> bool {
    &&& stage is Lookup || stage is LookupAgain
    &&& match reply {
        ReplyView::Json(answer, _) => match found_for(answer, ctx.product.sku@) {
            Some(found) => found.id == target.variant && found.inventory_item_id == target.item,
            None => false,
        },
        _ => false,
    }
}

/// The identifiers are those of the variant that a session is about: the one
/// that it was begun with, or the one that a look-up found.
pub open spec fn is_target_of(
    ctx: SessionContext,
    start: Stage,
    replies: Seq<ReplyView>,
    target: Target,
) -> bool {
    match start {
        Stage::BulkBegin(given, _) => target.variant == given.variant && target.item == given.item,
        _ => exists|j: int|
            0 <= j < replies.len() && #[trigger] finds_target(
                ctx,
                stage_after(ctx, start, replies.take(j)),
                replies[j],
                target,
            ),
    }
}

/// On one of these replies the session sent the quantity of the product for the
/// item and the location of a variant.
pub open spec fn quantity_was_sent(
    ctx: SessionContext,
    start: Stage,
    replies: Seq<ReplyView>,
    target: Target,
) -> bool {
    exists|k: int|
        0 < k <= replies.len() && action_on(ctx, start, #[trigger] replies.take(k))
            == ActionView::Send(
            set_quantity(
                ctx.base,
                target.location as int,
                target.item as int,
                ctx.product.inventory_quantity as int,
            ),
        )
}

proof fn lemma_found_ids_fit(answer: JsonView, sku: Seq<char>)
    ensures
        match found_for(answer, sku) {
            Some(found) => i64::MIN <= found.id <= i64::MAX && i64::MIN <= found.inventory_item_id
                <= i64::MAX,
            None => true,
        },
{
}

#[verifier::spinoff_prover]
#[verifier::rlimit(60)]
proof fn lemma_target_turn(ctx: SessionContext, stage: Stage, reply: ReplyView)
    ensures
        match stage_target(respond(ctx, stage, reply).stage) {
            Some(target) => match stage_target(stage) {
                Some(old) => old.variant == target.variant && old.item == target.item,
                None => finds_target(ctx, stage, reply, target),
            },
            None => true,
        },
{
    if let ReplyView::Json(answer, _) = reply {
        lemma_found_ids_fit(answer, ctx.product.sku@);
    }
}

#[verifier::spinoff_prover]
#[verifier::rlimit(60)]
proof fn lemma_late_turn(ctx: SessionContext, stage: Stage, reply: ReplyView)
    ensures
        ({
            let turn = respond(ctx, stage, reply);
            is_late(turn.stage) ==> {
                let target = stage_target(turn.stage)->0;
                ||| is_late(stage) && stage_target(stage) == Some(target)
                ||| turn.action == ActionView::Send(
                    set_quantity(
                        ctx.base,
                        target.location as int,
                        target.item as int,
                        ctx.product.inventory_quantity as int,
                    ),
                )
            }
        }),
{
}

/// What a session was about stays so on further replies.
proof fn lemma_target_stays(
    ctx: SessionContext,
    start: Stage,
    replies: Seq<ReplyView>,
    old: Target,
    new: Target,
)
    requires
        replies.len() > 0,
        is_target_of(ctx, start, replies.drop_last(), old),
        old.variant == new.variant,
        old.item == new.item,
    ensures
        is_target_of(ctx, start, replies, new),
{
    let before = replies.drop_last();
    if !(start is BulkBegin) {
        let j = choose|j: int|
            0 <= j < before.len() && #[trigger] finds_target(
                ctx,
                stage_after(ctx, start, before.take(j)),
                before[j],
                old,
            );
        assert(before.take(j) =~= replies.take(j));
        assert(finds_target(ctx, stage_after(ctx, start, replies.take(j)), replies[j], new));
    }
}

/// What was sent stays so on further replies.
proof fn lemma_quantity_stays_sent(
    ctx: SessionContext,
    start: Stage,
    replies: Seq<ReplyView>,
    target: Target,
)
    requires
        replies.len() > 0,
        quantity_was_sent(ctx, start, replies.drop_last(), target),
    ensures
        quantity_was_sent(ctx, start, replies, target),
{
    let before = replies.drop_last();
    let request = set_quantity(
        ctx.base,
        target.location as int,
        target.item as int,
        ctx.product.inventory_quantity as int,
    );
    let k = choose|k: int|
        0 < k <= before.len() && action_on(ctx, start, #[trigger] before.take(k))
            == ActionView::Send(request);
    assert(before.take(k) =~= replies.take(k));
    assert(action_on(ctx, start, replies.take(k)) == ActionView::Send(request));
}

#[verifier::spinoff_prover]
#[verifier::rlimit(40)]
proof fn lemma_session_target(ctx: SessionContext, start: Stage, replies: Seq<ReplyView>)
    requires
        begins(ctx, start),
    ensures
        match stage_target(stage_after(ctx, start, replies)) {
            Some(target) => is_target_of(ctx, start, replies, target),
            None => true,
        },
        is_late(stage_after(ctx, start, replies)) ==> quantity_was_sent(
            ctx,
            start,
            replies,
            stage_target(stage_after(ctx, start, replies))->0,
        ),
    decreases replies.len(),
{
    if replies.len() > 0 {
        let before = replies.drop_last();
        let stage = stage_after(ctx, start, before);
        let after = stage_after(ctx, start, replies);
        lemma_session_target(ctx, start, before);
        lemma_target_turn(ctx, stage, replies.last());
        lemma_late_turn(ctx, stage, replies.last());
        let all = replies.len() as int;
        assert(replies.take(all) =~= replies);
        assert(replies.take(all - 1) =~= before);
        if let Some(target) = stage_target(after) {
            if let Some(old) = stage_target(stage) {
                lemma_target_stays(ctx, start, replies, old, target);
                if is_late(after) {
                    if is_late(stage) && old == target {
                        lemma_quantity_stays_sent(ctx, start, replies, target);
                    } else {
                        assert(quantity_was_sent(ctx, start, replies, target)) by {
                            assert(0 < all <= replies.len());
                        }
                    }
                }
            } else {
                if start is BulkBegin {
                    lemma_bulk_needs_no_lookup(ctx, start, before);
                }
                assert(finds_target(
                    ctx,
                    stage_after(ctx, start, replies.take(all - 1)),
                    replies[all - 1],
                    target,
                ));
            }
        }
    }
}

/// A session that was begun with a variant never looks one up.
#[verifier::spinoff_prover]
#[verifier::rlimit(40)]
proof fn lemma_bulk_needs_no_lookup(ctx: SessionContext, start: Stage, replies: Seq<ReplyView>)
    requires
        begins(ctx, start),
        start is BulkBegin,
    ensures
        stage_target(stage_after(ctx, start, replies)) is Some || stage_after(ctx, start, replies)
            == Stage::Closed,
    decreases replies.len(),
{
    if replies.len() > 0 {
        lemma_bulk_needs_no_lookup(ctx, start, replies.drop_last());
    }
}

#[verifier::spinoff_prover]
#[verifier::rlimit(40)]
proof fn lemma_update_ends_pricing(
    ctx: SessionContext,
    stage: Stage,
    reply: ReplyView,
    location: i64,
)
    requires
        respond(ctx, stage, reply).ending == Some(
            Ok::<Outcome, SyncErrorView>(Outcome::Updated(location)),
        ),
    ensures
        stage is Pricing,
        stage->Pricing_0.location == location,
{
}

#[verifier::spinoff_prover]
#[verifier::rlimit(40)]
proof fn lemma_pricing_turn(ctx: SessionContext, stage: Stage, reply: ReplyView)
    ensures
        respond(ctx, stage, reply).stage matches Stage::Pricing(target) ==> respond(
            ctx,
            stage,
            reply,
        ).action == ActionView::Send(set_price(ctx.base, target.variant as int, ctx.product)),
{
}

/// A session that reports an update at a location was about one variant, the one
/// that it was begun with or that a look-up found: it has sent the quantity for
/// the item of that variant and the location, the store has accepted a quantity,
/// and the prices of that variant were sent last.
#[verifier::spinoff_prover]
#[verifier::rlimit(40)]
pub proof fn law_update_sends_quantity_and_prices(
    ctx: SessionContext,
    start: Stage,
    replies: Seq<ReplyView>,
    location: i64,
)
    requires
        begins(ctx, start),
        replies.len() > 0,
        respond(ctx, stage_after(ctx, start, replies.drop_last()), replies.last()).ending == Some(
            Ok::<Outcome, SyncErrorView>(Outcome::Updated(location)),
        ),
    ensures
        replies.len() > 1,
        exists|target: Target|
            {
                &&& target.location == location
                &&& #[trigger] is_target_of(ctx, start, replies, target)
                &&& quantity_was_sent(ctx, start, replies, target)
                &&& action_on(ctx, start, replies.drop_last()) == ActionView::Send(
                    set_price(ctx.base, target.variant as int, ctx.product),
                )
            },
        exists|k: int| 0 <= k < replies.len() && #[trigger] accepts_quantity(replies[k]),
{
    let before = replies.drop_last();
    let stage = stage_after(ctx, start, before);
    lemma_session_target(ctx, start, before);
    lemma_update_ends_pricing(ctx, stage, replies.last(), location);
    let target = stage->Pricing_0;
    lemma_target_stays(ctx, start, replies, target, target);
    lemma_quantity_stays_sent(ctx, start, replies, target);
    lemma_pricing_turn(ctx, stage_after(ctx, start, before.drop_last()), before.last());
    assert(action_on(ctx, start, before) == ActionView::Send(
        set_price(ctx.base, target.variant as int, ctx.product),
    ));
    law_prices_follow_the_quantity(ctx, start, before, target.variant as int);
    let j = choose|j: int| 0 <= j < before.len() - 1 && #[trigger] accepts_quantity(before[j]);
    assert(accepts_quantity(replies[j]));
}

#[verifier::spinoff_prover]
#[verifier::rlimit(60)]
proof fn lemma_create_turn(ctx: SessionContext, stage: Stage, reply: ReplyView, product: Product)
    ensures
        respond(ctx, stage, reply).action == ActionView::Send(create(ctx.base, product)) ==> stage
            is CreatePause,
        rank(respond(ctx, stage, reply).stage) <= rank(stage),
        stage_target(stage) is Some || stage == Stage::Closed ==> stage_target(
            respond(ctx, stage, reply).stage,
        ) is Some || respond(ctx, stage, reply).stage == Stage::Closed,
        stage is Lookup || stage is LookupAgain ==> match reply {
            ReplyView::Json(answer, _) => found_for(answer, ctx.product.sku@) is Some
                ==> stage_target(respond(ctx, stage, reply).stage) is Some,
            _ => true,
        },
{
}

proof fn lemma_rank_falls(ctx: SessionContext, start: Stage, replies: Seq<ReplyView>, k: int)
    requires
        0 <= k <= replies.len(),
    ensures
        rank(stage_after(ctx, start, replies)) <= rank(stage_after(ctx, start, replies.take(k))),
    decreases replies.len(),
{
    if k == replies.len() {
        assert(replies.take(k) =~= replies);
    } else {
        let before = replies.drop_last();
        lemma_rank_falls(ctx, start, before, k);
        assert(before.take(k) =~= replies.take(k));
        lemma_create_turn(ctx, stage_after(ctx, start, before), replies.last(), ctx.product);
    }
}

proof fn lemma_found_stays(ctx: SessionContext, start: Stage, replies: Seq<ReplyView>, j: int)
    requires
        0 <= j < replies.len(),
        looks_up_well(ctx, stage_after(ctx, start, replies.take(j)), replies[j]),
    ensures
        stage_target(stage_after(ctx, start, replies)) is Some || stage_after(ctx, start, replies)
            == Stage::Closed,
    decreases replies.len(),
{
    let before = replies.drop_last();
    lemma_create_turn(ctx, stage_after(ctx, start, before), replies.last(), ctx.product);
    if j < before.len() {
        assert(before.take(j) =~= replies.take(j));
        lemma_found_stays(ctx, start, before, j);
    } else {
        assert(replies.take(j) =~= before);
    }
}

/// At the stage of a look-up, the reply gives a variant for the SKU of the product.
pub open spec fn looks_up_well(ctx: SessionContext, stage: Stage, reply: ReplyView) -> bool {
    &&& stage is Lookup || stage is LookupAgain
    &&& match reply {
        ReplyView::Json(answer, _) => found_for(answer, ctx.product.sku@) is Some,
        _ => false,
    }
}

/// A session whose look-up found a variant never sends a new product, whatever
/// the store replied before and replies later.
pub proof fn law_found_product_is_not_created(
    ctx: SessionContext,
    start: Stage,
    replies: Seq<ReplyView>,
    j: int,
    k: int,
    product: Product,
)
    requires
        0 <= j < replies.len(),
        looks_up_well(ctx, stage_after(ctx, start, replies.take(j)), replies[j]),
        0 < k <= replies.len(),
    ensures
        action_on(ctx, start, replies.take(k)) != ActionView::Send(create(ctx.base, product)),
{
    let upto = replies.take(k);
    let before = upto.drop_last();
    let stage = stage_after(ctx, start, before);
    assert(before =~= replies.take(k - 1));
    lemma_create_turn(ctx, stage, upto.last(), product);
    if k - 1 <= j {
        let looked = replies.take(j);
        lemma_rank_falls(ctx, start, looked, k - 1);
        assert(looked.take(k - 1) =~= before);
    } else {
        assert(before.take(j) =~= replies.take(j));
        lemma_found_stays(ctx, start, before, j);
    }
}

/// A product that the store does not have is created, where products are to be
/// created.
pub proof fn law_missing_product_is_created(
    ctx: SessionContext,
    stage: Stage,
    answer: JsonView,
    body: Seq<u8>,
)
    requires
        ctx.procedure == Procedure::Upsert,
        stage == Stage::Lookup || stage == Stage::LookupAgain,
        found_for(answer, ctx.product.sku@) is None,
    ensures
        respond(ctx, stage, ReplyView::Json(answer, body)) == waits(Stage::CreatePause, 600),
        respond(ctx, Stage::CreatePause, ReplyView::Ready) == sends(
            Stage::Creating,
            create(ctx.base, ctx.product),
        ),
{
}

/// A procedure that only updates never sends a new product, whatever the
/// store replies.
#[verifier::spinoff_prover]
#[verifier::rlimit(40)]
pub proof fn law_updates_never_create(
    ctx: SessionContext,
    start: Stage,
    replies: Seq<ReplyView>,
    product: Product,
)
    requires
        begins(ctx, start),
        ctx.procedure == Procedure::UpdateExisting || ctx.procedure == Procedure::BulkUpdate,
        replies.len() > 0,
    ensures
        action_on(ctx, start, replies) != ActionView::Send(create(ctx.base, product)),
{
    lemma_no_create_stage(ctx, start, replies.drop_last());
}

#[verifier::spinoff_prover]
#[verifier::rlimit(40)]
proof fn lemma_no_create_stage(ctx: SessionContext, start: Stage, replies: Seq<ReplyView>)
    requires
        begins(ctx, start),
        ctx.procedure == Procedure::UpdateExisting || ctx.procedure == Procedure::BulkUpdate,
    ensures
        !(stage_after(ctx, start, replies) is CreatePause),
        !(stage_after(ctx, start, replies) is Creating),
        !(stage_after(ctx, start, replies) is Costing),
    decreases replies.len(),
{
    if replies.len() > 0 {
        lemma_no_create_stage(ctx, start, replies.drop_last());
    }
}

/// The action sends the quantity of the product.
pub open spec fn sends_quantity(ctx: SessionContext, action: ActionView) -> bool {
    exists|location: int, item: int|
        action == ActionView::Send(
            #[trigger] set_quantity(
                ctx.base,
                location,
                item,
                ctx.product.inventory_quantity as int,
            ),
        )
}

/// How many times a session has sent a quantity on these replies.
pub open spec fn quantities_sent(ctx: SessionContext, start: Stage, replies: Seq<ReplyView>) -> nat
    decreases replies.len(),
{
    if replies.len() == 0 {
        0
    } else {
        quantities_sent(ctx, start, replies.drop_last()) + if sends_quantity(
            ctx,
            action_on(ctx, start, replies),
        ) {
            1nat
        } else {
            0
        }
    }
}

/// The reply says that requests came too fast.
pub open spec fn asks_to_slow_down(reply: ReplyView) -> bool {
    match reply {
        ReplyView::Text(text, _) => rate_limited(text),
        _ => false,
    }
}

/// One of the replies says that requests came too fast.
pub open spec fn slowed_down(replies: Seq<ReplyView>) -> bool {
    exists|k: int| 0 <= k < replies.len() && #[trigger] asks_to_slow_down(replies[k])
}

/// A quantity is sent at most twice: once, and once more where the store said
/// that requests came too fast.
pub proof fn law_quantity_is_retried_once(
    ctx: SessionContext,
    start: Stage,
    replies: Seq<ReplyView>,
)
    requires
        begins(ctx, start),
    ensures
        quantities_sent(ctx, start, replies) <= 2,
        quantities_sent(ctx, start, replies) == 2 ==> slowed_down(replies),
{
    lemma_quantities(ctx, start, replies);
}

/// No quantity has been sent before this stage.
spec fn is_early(stage: Stage) -> bool {
    match stage {
        Stage::Setting(_)
        | Stage::Backoff(_)
        | Stage::SettingAgain(_)
        | Stage::Accepted(_)
        | Stage::Pricing(_)
        | Stage::Closed => false,
        _ => true,
    }
}

proof fn lemma_quantity_is_sent(ctx: SessionContext, location: int, item: int)
    ensures
        sends_quantity(
            ctx,
            ActionView::Send(
                set_quantity(ctx.base, location, item, ctx.product.inventory_quantity as int),
            ),
        ),
{
}

#[verifier::spinoff_prover]
#[verifier::rlimit(40)]
proof fn lemma_quantity_turn(ctx: SessionContext, stage: Stage, reply: ReplyView)
    ensures
        ({
            let turn = respond(ctx, stage, reply);
            let next = turn.stage;
            &&& next is Setting ==> is_early(stage)
            &&& next is Backoff ==> stage is Setting && asks_to_slow_down(reply)
            &&& next is SettingAgain ==> stage is Backoff
            &&& is_early(next) ==> is_early(stage)
            &&& sends_quantity(ctx, turn.action) ==> next is Setting || next is SettingAgain
            &&& next is Setting || next is SettingAgain ==> sends_quantity(ctx, turn.action)
        }),
{
    let turn = respond(ctx, stage, reply);
    match turn.stage {
        Stage::Setting(target) | Stage::SettingAgain(target) => {
            lemma_quantity_is_sent(ctx, target.location as int, target.item as int);
        },
        _ => {},
    }
}

#[verifier::spinoff_prover]
proof fn lemma_quantities(ctx: SessionContext, start: Stage, replies: Seq<ReplyView>)
    requires
        begins(ctx, start),
    ensures
        ({
            let sent = quantities_sent(ctx, start, replies);
            let stage = stage_after(ctx, start, replies);
            &&& sent <= 2
            &&& sent == 2 ==> slowed_down(replies)
            &&& is_early(stage) ==> sent == 0
            &&& stage is Setting ==> sent == 1
            &&& stage is Backoff ==> sent == 1 && slowed_down(replies)
        }),
    decreases replies.len(),
{
    if replies.len() > 0 {
        let before = replies.drop_last();
        let stage = stage_after(ctx, start, before);
        lemma_quantities(ctx, start, before);
        lemma_quantity_turn(ctx, stage, replies.last());
        if slowed_down(before) {
            let k = choose|k: int| 0 <= k < before.len() && #[trigger] asks_to_slow_down(before[k]);
            assert(asks_to_slow_down(replies[k]));
        }
        assert(asks_to_slow_down(replies.last()) ==> asks_to_slow_down(replies[replies.len() - 1]));
    }
}

/// A request puts a product into the store as a draft.
pub open spec fn is_draft(request: RequestView) -> bool {
    request.body is Some && request.body->0.field("product"@).field("status"@) == JsonView::Text(
        "draft"@,
    )
}

/// Every product that a session adds to the store enters it as a draft.
#[verifier::spinoff_prover]
#[verifier::rlimit(40)]
pub proof fn law_new_products_are_drafts(ctx: SessionContext, stage: Stage, reply: ReplyView)
    ensures
        match respond(ctx, stage, reply).action {
            ActionView::Send(request) => request.url == ctx.base + "/products.json"@ ==> is_draft(
                request,
            ),
            _ => true,
        },
{
    lemma_create_is_draft(ctx.base, ctx.product);
    if let ActionView::Send(request) = respond(ctx, stage, reply).action {
        if request != create(ctx.base, ctx.product) {
            reveal_strlit("/products.json");
            reveal_strlit("/graphql.json");
            reveal_strlit("/inventory_items/");
            reveal_strlit("/inventory_levels.json?inventory_item_ids=");
            reveal_strlit("/inventory_levels/connect.json");
            reveal_strlit("/inventory_levels/set.json");
            reveal_strlit("/variants/");
            let at = ctx.base.len() as int + 1;
            assert((ctx.base + "/products.json"@)[at] == 'p');
            assert(request.url[at] != 'p');
        }
    }
}

proof fn lemma_create_is_draft(base: Seq<char>, product: Product)
    ensures
        is_draft(create(base, product)),
{
    reveal_strlit("product");
    reveal_strlit("title");
    reveal_strlit("vendor");
    reveal_strlit("body_html");
    reveal_strlit("handle");
    reveal_strlit("status");
    reveal_strlit("variants");
    let entry = new_product(product);
    let fields = entry->Object_0;
    reveal_with_fuel(crate::json::field_position, 6);
    assert("title"@.len() != "status"@.len());
    assert("vendor"@[0] != "status"@[0]);
    assert("handle"@[0] != "status"@[0]);
    assert("body_html"@.len() != "status"@.len());
    assert(entry.field("status"@) == JsonView::Text("draft"@));
}

} // verus!

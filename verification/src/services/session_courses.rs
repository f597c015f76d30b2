//! Whole conversations about one product, from their beginning to their end.
use vstd::prelude::*;
use vstd::string::*;

use crate::api::{
    connect, create, law_cost_request_carries_its_data, levels, lookup, set_cost, set_price,
    set_quantity, track,
};
use crate::exchange::{rate_limited, ActionView, Method, ReplyView};
use crate::json::JsonView;
use crate::numbers::signed_decimal;
use crate::services::product_session::{
    action_on, begins, failure_detail, failure_message, failure_words, respond, stage_after,
    Outcome, Procedure, SessionContext, Stage, SyncErrorView, Target, Turn,
};
use crate::services::shopify_service::{created_item, found_for, listed_location};

verus! {

/// The turn does this and the session goes on.
pub open spec fn goes_on(turn: Turn, action: ActionView) -> bool {
    turn.action == action && turn.ending is None
}

/// The turn ends the session in this way.
pub open spec fn stops(turn: Turn, result: Result<Outcome, SyncErrorView>) -> bool {
    turn.action == ActionView::Finish && turn.ending == Some(result) && turn.stage == Stage::Closed
}

/// The identifiers of an answer fit 64 bits.
pub open spec fn fits(id: int) -> bool {
    i64::MIN <= id <= i64::MAX
}

/// The store accepts a quantity with this answer.
pub open spec fn is_accepting(text: Seq<char>, json: JsonView) -> bool {
    !rate_limited(text) && !json.has_field("errors"@)
}

/// From a stage at which the quantity is being set, an accepting answer leads to
/// the prices of the variant, and their success to the end.
pub proof fn law_accepted_quantity_leads_to_the_prices(
    ctx: SessionContext,
    target: Target,
    text: Seq<char>,
    json: JsonView,
)
    requires
        is_accepting(text, json),
    ensures
        ({
            let t1 = respond(ctx, Stage::Setting(target), ReplyView::Text(text, Ok(json)));
            let t2 = respond(ctx, t1.stage, ReplyView::Ready);
            let t3 = respond(ctx, t2.stage, ReplyView::Success);
            &&& goes_on(t1, ActionView::Wait(500))
            &&& goes_on(
                t2,
                ActionView::Send(set_price(ctx.base, target.variant as int, ctx.product)),
            )
            &&& stops(t3, Ok(Outcome::Updated(target.location)))
        }),
{
}

/// An update of a product that the store has, stocked at a location: the variant
/// is looked up by the SKU, the locations of its item are asked for, and then the
/// quantity of the product is set for the item at the first of them; the prices
/// come last.
pub proof fn law_course_of_an_update(
    ctx: SessionContext,
    answer: JsonView,
    first_body: Seq<u8>,
    stock: JsonView,
    second_body: Seq<u8>,
    text: Seq<char>,
    json: JsonView,
)
    requires
        ctx.procedure == Procedure::UpdateExisting,
        found_for(answer, ctx.product.sku@) is Some,
        listed_location(stock) != 0,
        fits(listed_location(stock)),
        is_accepting(text, json),
    ensures
        ({
            let found = found_for(answer, ctx.product.sku@)->0;
            let t1 = respond(ctx, Stage::Begin, ReplyView::Ready);
            let t2 = respond(ctx, t1.stage, ReplyView::Ready);
            let t3 = respond(ctx, t2.stage, ReplyView::Json(answer, first_body));
            let t4 = respond(ctx, t3.stage, ReplyView::Json(stock, second_body));
            let t5 = respond(ctx, t4.stage, ReplyView::Text(text, Ok(json)));
            let t6 = respond(ctx, t5.stage, ReplyView::Ready);
            let t7 = respond(ctx, t6.stage, ReplyView::Success);
            &&& goes_on(t1, ActionView::Wait(2500))
            &&& goes_on(t2, ActionView::Send(lookup(ctx.base, ctx.product.sku@)))
            &&& goes_on(t3, ActionView::Send(levels(ctx.base, found.inventory_item_id)))
            &&& goes_on(
                t4,
                ActionView::Send(
                    set_quantity(
                        ctx.base,
                        listed_location(stock),
                        found.inventory_item_id,
                        ctx.product.inventory_quantity as int,
                    ),
                ),
            )
            &&& goes_on(t5, ActionView::Wait(500))
            &&& goes_on(t6, ActionView::Send(set_price(ctx.base, found.id, ctx.product)))
            &&& stops(t7, Ok(Outcome::Updated(listed_location(stock) as i64)))
        }),
{
}

/// An upsert of a product that the store has: as an update, but stock tracking is
/// turned on for the item before its locations are asked for.
pub proof fn law_course_of_an_upsert(
    ctx: SessionContext,
    answer: JsonView,
    first_body: Seq<u8>,
    stock: JsonView,
    second_body: Seq<u8>,
    text: Seq<char>,
    json: JsonView,
)
    requires
        ctx.procedure == Procedure::Upsert,
        found_for(answer, ctx.product.sku@) is Some,
        listed_location(stock) != 0,
        fits(listed_location(stock)),
        is_accepting(text, json),
    ensures
        ({
            let found = found_for(answer, ctx.product.sku@)->0;
            let t1 = respond(ctx, Stage::Begin, ReplyView::Ready);
            let t2 = respond(ctx, t1.stage, ReplyView::Ready);
            let t3 = respond(ctx, t2.stage, ReplyView::Json(answer, first_body));
            let t4 = respond(ctx, t3.stage, ReplyView::Ignored);
            let t5 = respond(ctx, t4.stage, ReplyView::Ready);
            let t6 = respond(ctx, t5.stage, ReplyView::Json(stock, second_body));
            let t7 = respond(ctx, t6.stage, ReplyView::Text(text, Ok(json)));
            let t8 = respond(ctx, t7.stage, ReplyView::Ready);
            let t9 = respond(ctx, t8.stage, ReplyView::Success);
            &&& goes_on(t1, ActionView::Wait(500))
            &&& goes_on(t2, ActionView::Send(lookup(ctx.base, ctx.product.sku@)))
            &&& goes_on(t3, ActionView::Send(track(ctx.base, found.inventory_item_id)))
            &&& goes_on(t4, ActionView::Wait(500))
            &&& goes_on(t5, ActionView::Send(levels(ctx.base, found.inventory_item_id)))
            &&& goes_on(
                t6,
                ActionView::Send(
                    set_quantity(
                        ctx.base,
                        listed_location(stock),
                        found.inventory_item_id,
                        ctx.product.inventory_quantity as int,
                    ),
                ),
            )
            &&& goes_on(t7, ActionView::Wait(500))
            &&& goes_on(t8, ActionView::Send(set_price(ctx.base, found.id, ctx.product)))
            &&& stops(t9, Ok(Outcome::Updated(listed_location(stock) as i64)))
        }),
{
}

/// A product that the store does not have: an update skips it, and an upsert
/// creates it as a creation does.
pub proof fn law_course_of_a_missing_product(ctx: SessionContext, answer: JsonView, body: Seq<u8>)
    requires
        ctx.procedure == Procedure::UpdateExisting || ctx.procedure == Procedure::Upsert,
        found_for(answer, ctx.product.sku@) is None,
    ensures
        ({
            let t1 = respond(ctx, Stage::Begin, ReplyView::Ready);
            let t2 = respond(ctx, t1.stage, ReplyView::Ready);
            let t3 = respond(ctx, t2.stage, ReplyView::Json(answer, body));
            let t4 = respond(ctx, t3.stage, ReplyView::Ready);
            &&& goes_on(t2, ActionView::Send(lookup(ctx.base, ctx.product.sku@)))
            &&& ctx.procedure == Procedure::UpdateExisting ==> stops(t3, Ok(Outcome::Skipped))
            &&& ctx.procedure == Procedure::Upsert ==> goes_on(t3, ActionView::Wait(600))
                && goes_on(t4, ActionView::Send(create(ctx.base, ctx.product))) && t4.stage
                == Stage::Creating
        }),
{
}

/// A creation sends the product at once.
pub proof fn law_course_of_a_creation(ctx: SessionContext)
    requires
        ctx.procedure == Procedure::Create || ctx.procedure == Procedure::BulkCreate,
    ensures
        ({
            let t1 = respond(ctx, Stage::Begin, ReplyView::Ready);
            let t2 = respond(ctx, t1.stage, ReplyView::Ready);
            &&& goes_on(t1, ActionView::Wait(600))
            &&& goes_on(t2, ActionView::Send(create(ctx.base, ctx.product)))
            &&& t2.stage == Stage::Creating
        }),
{
}

/// Whatever the procedure, a created product gets its cost: where the answer to
/// the creation names the inventory item of its first variant, the cost of the
/// product is written to that item, stock tracking is turned on for it, and only
/// then the session ends. Where it names none, the session ends at once.
pub proof fn law_created_product_gets_its_cost(ctx: SessionContext, answer: JsonView, body: Seq<u8>)
    ensures
        ({
            let variants = answer.field("product"@).field("variants"@);
            let named = variants is Array && variants->Array_0.len() > 0
                && variants->Array_0[0].field("inventory_item_id"@) is Integer;
            let item = variants->Array_0[0].field("inventory_item_id"@)->Integer_0;
            let t1 = respond(ctx, Stage::Creating, ReplyView::Json(answer, body));
            let t2 = respond(ctx, t1.stage, ReplyView::Ignored);
            let request = t1.action->Send_0;
            let entry = request.body->0.field("inventory_item"@);
            &&& named ==> {
                &&& t1.action is Send
                &&& t1.ending is None
                &&& request.method == Method::Put
                &&& request.url == ctx.base + "/inventory_items/"@ + signed_decimal(item)
                    + ".json"@
                &&& request.body is Some
                &&& entry.field("cost"@) == JsonView::Text(ctx.product.cost.text@)
                &&& entry.field("tracked"@) == JsonView::Bool(true)
                &&& stops(t2, Ok(Outcome::Created))
            }
            &&& !named ==> stops(t1, Ok(Outcome::Created))
        }),
{
    let variants = answer.field("product"@).field("variants"@);
    if variants is Array && variants->Array_0.len() > 0 {
        law_cost_request_carries_its_data(
            ctx.base,
            variants->Array_0[0].field("inventory_item_id"@)->Integer_0,
            ctx.product,
        );
    }
}

/// A session that reports a creation had the product sent, and heard of its
/// creation; where the answer named the inventory item, the last request wrote
/// its cost.
#[verifier::spinoff_prover]
#[verifier::rlimit(40)]
pub proof fn law_reported_creation_was_sent(
    ctx: SessionContext,
    start: Stage,
    replies: Seq<ReplyView>,
)
    requires
        begins(ctx, start),
        replies.len() > 0,
        respond(ctx, stage_after(ctx, start, replies.drop_last()), replies.last()).ending == Some(
            Ok::<Outcome, SyncErrorView>(Outcome::Created),
        ),
    ensures
        ({
            let n = replies.len() as int;
            ||| {
                &&& n > 1
                &&& action_on(ctx, start, replies.take(n - 1)) == ActionView::Send(
                    create(ctx.base, ctx.product),
                )
                &&& replies[n - 1] is Json
                &&& created_item(replies[n - 1]->Json_0) is None
            }
            ||| {
                &&& n > 2
                &&& action_on(ctx, start, replies.take(n - 2)) == ActionView::Send(
                    create(ctx.base, ctx.product),
                )
                &&& replies[n - 2] is Json
                &&& created_item(replies[n - 2]->Json_0) is Some
                &&& action_on(ctx, start, replies.take(n - 1)) == ActionView::Send(
                    set_cost(ctx.base, created_item(replies[n - 2]->Json_0)->0, ctx.product),
                )
            }
        }),
{
    let n = replies.len() as int;
    let before = replies.drop_last();
    assert(before =~= replies.take(n - 1));
    let stage = stage_after(ctx, start, before);
    lemma_created_where(ctx, stage, replies.last());
    lemma_creating_was_sent(ctx, start, before);
    if stage is Costing {
        let front = before.drop_last();
        assert(front =~= replies.take(n - 2));
        lemma_costing_turn(ctx, stage_after(ctx, start, front), before.last());
        lemma_creating_was_sent(ctx, start, front);
        assert(before.last() == replies[n - 2]);
    }
}

#[verifier::spinoff_prover]
#[verifier::rlimit(40)]
proof fn lemma_created_where(ctx: SessionContext, stage: Stage, reply: ReplyView)
    requires
        respond(ctx, stage, reply).ending == Some(Ok::<Outcome, SyncErrorView>(Outcome::Created)),
    ensures
        (stage is Creating && reply is Json && created_item(reply->Json_0) is None) || (stage
            is Costing && reply is Ignored),
{
}

#[verifier::spinoff_prover]
#[verifier::rlimit(40)]
proof fn lemma_costing_turn(ctx: SessionContext, stage: Stage, reply: ReplyView)
    requires
        respond(ctx, stage, reply).stage is Costing,
    ensures
        stage is Creating,
        reply is Json,
        created_item(reply->Json_0) is Some,
        respond(ctx, stage, reply).action == ActionView::Send(
            set_cost(ctx.base, created_item(reply->Json_0)->0, ctx.product),
        ),
{
}

#[verifier::spinoff_prover]
#[verifier::rlimit(40)]
proof fn lemma_creating_was_sent(ctx: SessionContext, start: Stage, replies: Seq<ReplyView>)
    requires
        begins(ctx, start),
    ensures
        stage_after(ctx, start, replies) is Creating ==> replies.len() > 0 && action_on(
            ctx,
            start,
            replies,
        ) == ActionView::Send(create(ctx.base, ctx.product)),
        stage_after(ctx, start, replies) is Costing ==> replies.len() > 0,
{
}

/// An item that is stocked nowhere is first stocked at the fallback location,
/// and the quantity is set there.
pub proof fn law_course_of_an_unstocked_item(
    ctx: SessionContext,
    target: Target,
    stock: JsonView,
    body: Seq<u8>,
)
    requires
        ctx.procedure == Procedure::UpdateExisting || ctx.procedure == Procedure::Upsert,
        listed_location(stock) == 0,
    ensures
        ({
            let t1 = respond(ctx, Stage::Levels(target), ReplyView::Json(stock, body));
            let t2 = respond(ctx, t1.stage, ReplyView::Ignored);
            let t3 = respond(ctx, t2.stage, ReplyView::Ready);
            &&& goes_on(
                t1,
                ActionView::Send(connect(ctx.base, ctx.fallback as int, target.item as int)),
            )
            &&& goes_on(t2, ActionView::Wait(500))
            &&& goes_on(
                t3,
                ActionView::Send(
                    set_quantity(
                        ctx.base,
                        ctx.fallback as int,
                        target.item as int,
                        ctx.product.inventory_quantity as int,
                    ),
                ),
            )
            &&& t3.stage == Stage::Setting(Target { location: ctx.fallback, ..target })
        }),
{
}

/// A bulk update of a known variant: stock tracking is turned on where the store
/// does not follow the stock; an item that is stocked nowhere is first stocked at
/// the fallback location, where there is one; then the quantity is set.
pub proof fn law_course_of_a_bulk_update(ctx: SessionContext, target: Target)
    requires
        ctx.procedure == Procedure::BulkUpdate,
    ensures
        ({
            let location = if target.location != 0 {
                target.location
            } else {
                ctx.fallback
            };
            let quantity = ActionView::Send(
                set_quantity(
                    ctx.base,
                    location as int,
                    target.item as int,
                    ctx.product.inventory_quantity as int,
                ),
            );
            let settled = Stage::Setting(Target { location, ..target });
            let followed = respond(ctx, Stage::BulkBegin(target, true), ReplyView::Ready);
            let t1 = respond(ctx, Stage::BulkBegin(target, false), ReplyView::Ready);
            let t2 = respond(ctx, t1.stage, ReplyView::Ignored);
            let t3 = respond(ctx, t2.stage, ReplyView::Ready);
            let c2 = respond(ctx, t3.stage, ReplyView::Ignored);
            let c3 = respond(ctx, c2.stage, ReplyView::Ready);
            &&& goes_on(t1, ActionView::Send(track(ctx.base, target.item as int)))
            &&& goes_on(t2, ActionView::Wait(500))
            &&& t3 == followed
            &&& target.location == 0 && ctx.fallback != 0 ==> {
                &&& goes_on(
                    t3,
                    ActionView::Send(connect(ctx.base, ctx.fallback as int, target.item as int)),
                )
                &&& goes_on(c2, ActionView::Wait(500))
                &&& goes_on(c3, quantity)
                &&& c3.stage == settled
            }
            &&& target.location != 0 || ctx.fallback == 0 ==> goes_on(t3, quantity) && t3.stage
                == settled
        }),
{
}

/// Where the store says that requests came too fast, the session waits four
/// seconds and sends the same quantity again; what is answered then counts.
pub proof fn law_course_of_a_slowed_quantity(
    ctx: SessionContext,
    target: Target,
    slow: Seq<char>,
    slow_answer: Result<JsonView, Seq<char>>,
    text: Seq<char>,
    json: JsonView,
)
    requires
        rate_limited(slow),
    ensures
        ({
            let t1 = respond(ctx, Stage::Setting(target), ReplyView::Text(slow, slow_answer));
            let t2 = respond(ctx, t1.stage, ReplyView::Ready);
            let t3 = respond(ctx, t2.stage, ReplyView::Text(text, Ok(json)));
            let t4 = respond(ctx, t3.stage, ReplyView::Ready);
            let t5 = respond(ctx, t4.stage, ReplyView::Success);
            &&& goes_on(t1, ActionView::Wait(4000))
            &&& goes_on(
                t2,
                ActionView::Send(
                    set_quantity(
                        ctx.base,
                        target.location as int,
                        target.item as int,
                        ctx.product.inventory_quantity as int,
                    ),
                ),
            )
            &&& json.has_field("errors"@) ==> stops(t3, Err(SyncErrorView::InventoryRejected(text)))
            &&& !json.has_field("errors"@) ==> {
                &&& goes_on(t3, ActionView::Wait(500))
                &&& goes_on(
                    t4,
                    ActionView::Send(set_price(ctx.base, target.variant as int, ctx.product)),
                )
                &&& stops(t5, Ok(Outcome::Updated(target.location)))
            }
        }),
{
}

/// A look-up that is refused for want of a valid token is made again, once, with a
/// fresh one, and answered as the first would have been.
pub proof fn law_course_of_a_refused_token(ctx: SessionContext, answer: JsonView, body: Seq<u8>)
    ensures
        ({
            let t1 = respond(ctx, Stage::Lookup, ReplyView::Failed("UNAUTHORIZED"@));
            let t2 = respond(ctx, t1.stage, ReplyView::Ready);
            let again = respond(ctx, t2.stage, ReplyView::Failed("UNAUTHORIZED"@));
            &&& goes_on(t1, ActionView::RefreshToken)
            &&& goes_on(t2, ActionView::Send(lookup(ctx.base, ctx.product.sku@)))
            &&& respond(ctx, t2.stage, ReplyView::Json(answer, body)) == respond(
                ctx,
                Stage::Lookup,
                ReplyView::Json(answer, body),
            )
            &&& stops(again, Err(SyncErrorView::Transport("UNAUTHORIZED"@)))
        }),
{
}

/// A request that fails, or an answer that cannot be read, ends the session with
/// what went wrong, wherever it stands; a look-up alone is made again where its
/// token was refused.
#[verifier::spinoff_prover]
#[verifier::rlimit(40)]
pub proof fn law_failures_end_the_session(ctx: SessionContext, stage: Stage, message: Seq<char>)
    requires
        stage != Stage::Closed,
    ensures
        stage != Stage::Lookup || message != "UNAUTHORIZED"@ ==> stops(
            respond(ctx, stage, ReplyView::Failed(message)),
            Err(SyncErrorView::Transport(message)),
        ),
        stops(
            respond(ctx, stage, ReplyView::Undecodable(message)),
            Err(SyncErrorView::Undecodable(message)),
        ),
{
}

/// What the store refuses ends the session with the store's own words, and
/// nothing more is sent: a quantity, an answer to it that is no document, prices,
/// and a new product.
pub proof fn law_refusals_end_the_session(
    ctx: SessionContext,
    target: Target,
    text: Seq<char>,
    json: JsonView,
    message: Seq<char>,
)
    ensures
        !rate_limited(text) && json.has_field("errors"@) ==> stops(
            respond(ctx, Stage::Setting(target), ReplyView::Text(text, Ok(json))),
            Err(SyncErrorView::InventoryRejected(text)),
        ),
        !rate_limited(text) ==> stops(
            respond(ctx, Stage::Setting(target), ReplyView::Text(text, Err(message))),
            Err(SyncErrorView::InvalidJson(message)),
        ),
        stops(
            respond(ctx, Stage::SettingAgain(target), ReplyView::Text(text, Err(message))),
            Err(SyncErrorView::InvalidJson(message)),
        ),
        stops(
            respond(ctx, Stage::Pricing(target), ReplyView::ErrorText(text)),
            Err(SyncErrorView::PriceRejected(text)),
        ),
        stops(
            respond(ctx, Stage::Creating, ReplyView::ErrorText(text)),
            Err(SyncErrorView::CreateRejected(text)),
        ),
{
}

/// A closed session does nothing more, and its ending stays.
pub proof fn law_closed_sessions_stay_closed(ctx: SessionContext, reply: ReplyView)
    ensures
        respond(ctx, Stage::Closed, reply) == (Turn {
            stage: Stage::Closed,
            action: ActionView::Finish,
            ending: None,
        }),
{
}

/// The message of a failure holds the words of the store; in a bulk run those
/// about prices and new products name the SKU.
pub proof fn law_failures_are_told(
    procedure: Procedure,
    sku: Seq<char>,
    text: Seq<char>,
    detail: Seq<char>,
)
    ensures
        ({
            let bulk = procedure is BulkUpdate || procedure is BulkCreate;
            let say = |error: SyncErrorView| failure_words(procedure, sku, error, detail);
            &&& say(SyncErrorView::Transport(text)) == text
            &&& say(SyncErrorView::InvalidJson(text)) == text
            &&& say(SyncErrorView::Undecodable(text)) == "error decoding response body"@
            &&& say(SyncErrorView::InventoryRejected(text)) == "Inventory update failed: "@
                + detail
            &&& bulk ==> say(SyncErrorView::PriceRejected(text)) == "Price update failed for "@
                + sku + ": "@ + text
            &&& !bulk ==> say(SyncErrorView::PriceRejected(text)) == "Price update failed"@
            &&& bulk ==> say(SyncErrorView::CreateRejected(text)) == "Failed to create product "@
                + sku + ": "@ + text
            &&& !bulk ==> say(SyncErrorView::CreateRejected(text))
                == "Failed to create product: "@ + text
        }),
        crate::json::compact_field(text, "errors"@) matches Some(words) ==> failure_message(
            procedure,
            sku,
            SyncErrorView::InventoryRejected(text),
        ) == "Inventory update failed: "@ + words,
        failure_message(procedure, sku, SyncErrorView::PriceRejected(text)) == failure_words(
            procedure,
            sku,
            SyncErrorView::PriceRejected(text),
            detail,
        ),
{
    assert(failure_detail(SyncErrorView::PriceRejected(text)) =~= Seq::<char>::empty());
}

/// A reply that does not belong to the last action ends the session, and nothing is
/// taken for granted: an answer that has not come is not one, and a wait that is not
/// over is not over.
#[verifier::spinoff_prover]
#[verifier::rlimit(40)]
pub proof fn law_unfitting_replies_end_the_session(
    ctx: SessionContext,
    stage: Stage,
    reply: ReplyView,
)
    requires
        !(reply is Failed),
        !(reply is Undecodable),
    ensures
        ({
            let waited = stage is Begin || stage is BulkBegin || stage is Paused || stage
                is Refreshing || stage is TrackingOn || stage is Connected || stage is Backoff
                || stage is Accepted || stage is CreatePause;
            let unread = stage is Tracking || stage is Connecting || stage is Costing;
            let fits = (waited && reply is Ready) || (unread && reply is Ignored) || (stage
                is Pricing && (reply is Success || reply is ErrorText)) || ((stage is Lookup
                || stage is LookupAgain || stage is Levels || stage is Creating) && reply is Json)
                || ((stage is Setting || stage is SettingAgain) && reply is Text) || (stage
                is Creating && reply is ErrorText) || stage is Closed;
            !fits ==> stops(respond(ctx, stage, reply), Err(SyncErrorView::UnexpectedReply))
        }),
{
}

} // verus!

//! Sending the differences of a price file to the store, and reporting them.
use vstd::hash_map::StringHashMap;
use vstd::prelude::*;
use vstd::string::*;

use crate::exchange::{Action, ActionView, Reply, ReplyView};
use crate::models::Product;
use crate::numbers::{signed_decimal, signed_decimal_of};
use crate::services::bulk_sync::{
    creates, is_missing, is_needed, keys_of, law_plan_counts_every_product, law_plan_is_complete,
    law_plan_is_sound, plan_bulk_sync, plan_for, updates, PendingChange, PendingChangeView,
    PriceCheck, SyncPlan, SyncPlanView,
};
use crate::services::product_session::{
    ending, failure_message, failure_text, is_draft, law_new_products_are_drafts, law_session_ends,
    rank, respond, stage_after, Outcome, Procedure, ProductSession, SessionContext, Stage,
    SyncErrorView,
};
use crate::services::stock_fetch::{catalog_view, CachedVariant, CachedVariantView};
use crate::text::{pad_right, padded, texts};

verus! {

/// What became of a product that was to be updated.
#[derive(Debug)]
pub struct ChangeRow {
    pub sku: String,
    pub price_col: String,
    pub qty_col: String,
    pub failed: bool,
    pub error: String,
}

/// The model of a change row.
pub struct ChangeRowView {
    pub sku: Seq<char>,
    pub price_col: Seq<char>,
    pub qty_col: Seq<char>,
    pub failed: bool,
    pub error: Seq<char>,
}

impl View for ChangeRow {
    type V = ChangeRowView;

    open spec fn view(&self) -> ChangeRowView {
        ChangeRowView {
            sku: self.sku@,
            price_col: self.price_col@,
            qty_col: self.qty_col@,
            failed: self.failed,
            error: self.error@,
        }
    }
}

/// The price column of a change.
pub open spec fn price_column(change: PendingChangeView, product: Product) -> Seq<char> {
    if change.price_changed {
        "$"@ + change.old_price + " -> $"@ + product.price.fixed@
    } else {
        "no change"@
    }
}

/// The price column of a change.
fn price_column_of(change: &PendingChange, product: &Product) -> (column: String)
    ensures
        column@ == price_column(change@, *product),
{
    if change.price_changed {
        let mut column = "$".to_owned();
        column.append(change.old_price.as_str());
        column.append(" -> $");
        column.append(product.price.fixed.as_str());
        column
    } else {
        "no change".to_owned()
    }
}

/// The quantity column of a change.
pub open spec fn quantity_column(change: PendingChangeView, product: Product) -> Seq<char> {
    if change.old_qty != product.inventory_quantity {
        signed_decimal(change.old_qty as int) + " -> "@ + signed_decimal(
            product.inventory_quantity as int,
        )
    } else {
        "no change"@
    }
}

/// The quantity column of a change.
fn quantity_column_of(change: &PendingChange, product: &Product) -> (column: String)
    ensures
        column@ == quantity_column(change@, *product),
{
    if change.old_qty != product.inventory_quantity {
        let mut column = signed_decimal_of(change.old_qty as i64);
        let new_qty = signed_decimal_of(product.inventory_quantity as i64);
        column.append(" -> ");
        column.append(new_qty.as_str());
        column
    } else {
        "no change".to_owned()
    }
}

/// The change in words: the quantity, then the price, as far as they change.
pub open spec fn change_description(change: PendingChangeView, product: Product) -> Seq<char> {
    let qty = "qty "@ + signed_decimal(change.old_qty as int) + " \u{2192} "@ + signed_decimal(
        product.inventory_quantity as int,
    );
    let price = "price $"@ + change.old_price + " \u{2192} $"@ + product.price.fixed@;
    let qty_changed = change.old_qty != product.inventory_quantity;
    if qty_changed && change.price_changed {
        qty + "  |  "@ + price
    } else if qty_changed {
        qty
    } else if change.price_changed {
        price
    } else {
        seq![]
    }
}

/// The change in words.
pub fn describe_change(change: &PendingChange, product: &Product) -> (text: String)
    ensures
        text@ == change_description(change@, *product),
{
    let mut qty = "qty ".to_owned();
    let old_qty = signed_decimal_of(change.old_qty as i64);
    let new_qty = signed_decimal_of(product.inventory_quantity as i64);
    qty.append(old_qty.as_str());
    qty.append(" \u{2192} ");
    qty.append(new_qty.as_str());
    let mut price = "price $".to_owned();
    price.append(change.old_price.as_str());
    price.append(" \u{2192} $");
    price.append(product.price.fixed.as_str());
    let qty_changed = change.old_qty != product.inventory_quantity;
    if qty_changed && change.price_changed {
        qty.append("  |  ");
        qty.append(price.as_str());
        qty
    } else if qty_changed {
        qty
    } else if change.price_changed {
        price
    } else {
        String::new()
    }
}

/// What stays the same during a run.
pub struct RunContext {
    pub base: Seq<char>,
    pub products: Seq<Product>,
    pub plan: SyncPlanView,
    pub fallback: i64,
}

impl RunContext {
    /// How many products are sent.
    pub open spec fn total(self) -> nat {
        self.plan.to_update.len() + self.plan.to_create.len()
    }

    /// The item at `position` is a product to update.
    pub open spec fn is_update(self, position: int) -> bool {
        position < self.plan.to_update.len()
    }

    /// The product of the item at `position`.
    pub open spec fn product_at(self, position: int) -> Product {
        if self.is_update(position) {
            self.products[self.plan.to_update[position].product]
        } else {
            self.products[self.plan.to_create[position - self.plan.to_update.len()]]
        }
    }

    /// The session for the item at `position`.
    pub open spec fn session_at(self, position: int) -> SessionContext {
        SessionContext {
            base: self.base,
            product: self.product_at(position),
            procedure: if self.is_update(position) {
                Procedure::BulkUpdate
            } else {
                Procedure::BulkCreate
            },
            fallback: if self.is_update(position) {
                self.fallback
            } else {
                0
            },
        }
    }

    /// Where the session for the item at `position` begins.
    pub open spec fn session_start(self, position: int) -> Stage {
        if self.is_update(position) {
            let change = self.plan.to_update[position];
            Stage::BulkBegin(change.target, change.follows_stock)
        } else {
            Stage::Begin
        }
    }
}

/// Where a run stands.
#[derive(Debug, Clone, Copy, PartialEq, Eq, Structural)]
pub enum RunStage {
    Begin,
    /// Waiting before the next item.
    Pausing,
    /// In the session for the next item.
    Talking(Stage),
    Closed,
}

/// The state of a run.
#[verifier::ext_equal]
pub struct RunState {
    pub stage: RunStage,
    /// How many items are done.
    pub position: int,
    pub updated: nat,
    pub created: nat,
    pub failed: nat,
    pub rows: Seq<ChangeRowView>,
    pub new_items: Seq<Seq<char>>,
    pub failures: Seq<Seq<char>>,
    /// What is shown to the user now.
    pub notice: Option<Seq<char>>,
}

/// One turn of a run.
pub struct RunTurn {
    pub state: RunState,
    pub action: ActionView,
}

/// The row for a product that was to be updated.
pub open spec fn row_of(
    change: PendingChangeView,
    product: Product,
    error: Option<Seq<char>>,
) -> ChangeRowView {
    ChangeRowView {
        sku: product.sku@,
        price_col: price_column(change, product),
        qty_col: quantity_column(change, product),
        failed: error is Some,
        error: match error {
            Some(message) => message,
            None => seq![],
        },
    }
}

/// The line for a product that was created.
pub open spec fn new_item_line(product: Product) -> Seq<char> {
    "    "@ + padded(product.sku@, 22) + "  $"@ + product.price.fixed@ + "  qty "@ + signed_decimal(
        product.inventory_quantity as int,
    ) + "  [DRAFT -- review before publishing]"@
}

/// What is shown for a product that was created.
pub open spec fn created_notice(product: Product) -> Seq<char> {
    "  +  "@ + product.sku@ + " -- created as DRAFT (price $"@ + product.price.fixed@ + ", qty "@
        + signed_decimal(product.inventory_quantity as int) + ")"@
}

/// The state once the item at its position is done: well, or with an error.
pub open spec fn recorded(ctx: RunContext, state: RunState, error: Option<Seq<char>>) -> RunState {
    let product = ctx.product_at(state.position);
    let sku = product.sku@;
    let next = RunState { position: state.position + 1, ..state };
    if ctx.is_update(state.position) {
        let change = ctx.plan.to_update[state.position];
        let rows = state.rows.push(row_of(change, product, error));
        match error {
            None => RunState {
                rows,
                updated: state.updated + 1,
                notice: Some("  OK  "@ + sku + " -- "@ + change_description(change, product)),
                ..next
            },
            Some(message) => RunState {
                rows,
                failed: state.failed + 1,
                failures: state.failures.push("    "@ + sku + " -- "@ + message),
                notice: Some("  XX  "@ + sku + " -- error: "@ + message),
                ..next
            },
        }
    } else {
        match error {
            None => RunState {
                created: state.created + 1,
                new_items: state.new_items.push(new_item_line(product)),
                notice: Some(created_notice(product)),
                ..next
            },
            Some(message) => RunState {
                failed: state.failed + 1,
                failures: state.failures.push("    "@ + sku + " -- CREATE FAILED: "@ + message),
                notice: None,
                ..next
            },
        }
    }
}

/// The turn that goes on to the next item, or ends the run.
pub open spec fn goes_on(ctx: RunContext, state: RunState) -> RunTurn {
    if state.position < ctx.total() {
        RunTurn {
            state: RunState { stage: RunStage::Pausing, ..state },
            action: ActionView::Wait(
                if ctx.is_update(state.position) {
                    500
                } else {
                    600
                },
            ),
        }
    } else {
        RunTurn {
            state: RunState { stage: RunStage::Closed, ..state },
            action: ActionView::Finish,
        }
    }
}

/// The error with which a session ended.
pub open spec fn session_error(
    ctx: SessionContext,
    result: Result<Outcome, SyncErrorView>,
) -> Option<Seq<char>> {
    match result {
        Ok(_) => None,
        Err(error) => Some(failure_message(ctx.procedure, ctx.product.sku@, error)),
    }
}

/// The turn that hands a reply to the session for the next item.
pub open spec fn talks(ctx: RunContext, state: RunState, stage: Stage, reply: ReplyView) -> RunTurn {
    let session = ctx.session_at(state.position);
    let turn = respond(session, stage, reply);
    match turn.ending {
        Some(result) => goes_on(ctx, recorded(ctx, state, session_error(session, result))),
        None => RunTurn {
            state: RunState { stage: RunStage::Talking(turn.stage), notice: None, ..state },
            action: turn.action,
        },
    }
}

/// What a run does next.
pub open spec fn run_responds(ctx: RunContext, state: RunState, reply: ReplyView) -> RunTurn {
    match state.stage {
        RunStage::Begin => goes_on(ctx, RunState { notice: None, ..state }),
        RunStage::Pausing => talks(
            ctx,
            state,
            ctx.session_start(state.position),
            ReplyView::Ready,
        ),
        RunStage::Talking(stage) => talks(ctx, state, stage, reply),
        RunStage::Closed => RunTurn {
            state: RunState { notice: None, ..state },
            action: ActionView::Finish,
        },
    }
}

/// The products of the plan are products of the price file.
pub open spec fn plan_fits(plan: SyncPlanView, count: nat) -> bool {
    &&& forall|j: int|
        0 <= j < plan.to_update.len() ==> 0 <= (#[trigger] plan.to_update[j]).product < count
    &&& forall|j: int| 0 <= j < plan.to_create.len() ==> 0 <= #[trigger] plan.to_create[j] < count
    &&& plan.to_update.len() + plan.to_create.len() + plan.already_current == count
}

/// A run that sends the differences of a price file to the store.
#[derive(Debug)]
pub struct PushRun<'a> {
    pub base: &'a str,
    pub products: &'a Vec<Product>,
    pub plan: SyncPlan,
    pub fallback: i64,
    pub stage: RunStage,
    pub position: usize,
    pub updated: u32,
    pub created: u32,
    pub failed: u32,
    pub change_rows: Vec<ChangeRow>,
    pub new_item_lines: Vec<String>,
    pub failed_lines: Vec<String>,
    pub notice: Option<String>,
}

impl<'a> PushRun<'a> {
    /// What stays the same during the run.
    pub open spec fn context(self) -> RunContext {
        RunContext {
            base: self.base@,
            products: self.products@,
            plan: self.plan@,
            fallback: self.fallback,
        }
    }

    /// The state of the run.
    pub open spec fn state(self) -> RunState {
        RunState {
            stage: self.stage,
            position: self.position as int,
            updated: self.updated as nat,
            created: self.created as nat,
            failed: self.failed as nat,
            rows: self.change_rows@.map_values(|r: ChangeRow| r@),
            new_items: texts(self.new_item_lines@),
            failures: texts(self.failed_lines@),
            notice: crate::text::optional(self.notice),
        }
    }

    /// The counts of the run agree, and items are left while it goes on.
    pub open spec fn well_formed(self) -> bool {
        &&& plan_fits(self.plan@, self.products@.len())
        &&& self.products@.len() <= u32::MAX
        &&& self.updated + self.created + self.failed == self.position
        &&& self.position <= self.context().total()
        &&& (self.stage is Pausing || self.stage is Talking) ==> self.position
            < self.context().total()
        &&& self.stage is Closed ==> self.position == self.context().total()
    }

    /// Notes that the item at its position is done: well, or with an error.
    pub fn record(&mut self, error: Option<String>)
        requires
            old(self).well_formed(),
            old(self).position < old(self).context().total(),
        ensures
            final(self).context() == old(self).context(),
            final(self).state() == recorded(
                old(self).context(),
                old(self).state(),
                crate::text::optional(error),
            ),
            final(self).updated + final(self).created + final(self).failed == final(self).position,
    {
        let ghost before = self.state();
        let ghost ctx = self.context();
        let ghost p = self.position as int;
        if self.position < self.plan.to_update.len() {
            let change = &self.plan.to_update[self.position];
            assert(ctx.plan.to_update[p] == change@);
            let product = &self.products[change.product];
            assert(*product == ctx.product_at(p));
            let price_col = price_column_of(change, product);
            let qty_col = quantity_column_of(change, product);
            let sku = product.sku.clone();
            let ghost rows = self.change_rows@;
            match error {
                None => {
                    let words = describe_change(change, product);
                    let mut notice = "  OK  ".to_owned();
                    notice.append(sku.as_str());
                    notice.append(" -- ");
                    notice.append(words.as_str());
                    self.notice = Some(notice);
                    let nothing = String::new();
                    assert(nothing@ =~= Seq::<char>::empty());
                    let row = ChangeRow { sku, price_col, qty_col, failed: false, error: nothing };
                    self.change_rows.push(row);
                    self.updated = self.updated + 1;
                },
                Some(message) => {
                    let mut line = "    ".to_owned();
                    line.append(sku.as_str());
                    line.append(" -- ");
                    line.append(message.as_str());
                    let mut notice = "  XX  ".to_owned();
                    notice.append(sku.as_str());
                    notice.append(" -- error: ");
                    notice.append(message.as_str());
                    self.notice = Some(notice);
                    let ghost lines = self.failed_lines@;
                    self.failed_lines.push(line);
                    assert(texts(self.failed_lines@) =~= texts(lines).push(line@));
                    let row = ChangeRow { sku, price_col, qty_col, failed: true, error: message };
                    self.change_rows.push(row);
                    self.failed = self.failed + 1;
                },
            }
            assert(self.state().rows =~= before.rows.push(
                self.change_rows@[self.change_rows@.len() - 1]@,
            ));
        } else {
            let index = self.position - self.plan.to_update.len();
            let number = self.plan.to_create[index];
            assert(ctx.plan.to_create[index as int] == number);
            let product = &self.products[number];
            assert(*product == ctx.product_at(p));
            match error {
                None => {
                    let qty = signed_decimal_of(product.inventory_quantity as i64);
                    let mut line = "    ".to_owned();
                    let wide = pad_right(product.sku.as_str(), 22);
                    line.append(wide.as_str());
                    line.append("  $");
                    line.append(product.price.fixed.as_str());
                    line.append("  qty ");
                    line.append(qty.as_str());
                    line.append("  [DRAFT -- review before publishing]");
                    let mut notice = "  +  ".to_owned();
                    notice.append(product.sku.as_str());
                    notice.append(" -- created as DRAFT (price $");
                    notice.append(product.price.fixed.as_str());
                    notice.append(", qty ");
                    notice.append(qty.as_str());
                    notice.append(")");
                    self.notice = Some(notice);
                    let ghost lines = self.new_item_lines@;
                    self.new_item_lines.push(line);
                    assert(texts(self.new_item_lines@) =~= texts(lines).push(line@));
                    self.created = self.created + 1;
                },
                Some(message) => {
                    let mut line = "    ".to_owned();
                    line.append(product.sku.as_str());
                    line.append(" -- CREATE FAILED: ");
                    line.append(message.as_str());
                    self.notice = None;
                    let ghost lines = self.failed_lines@;
                    self.failed_lines.push(line);
                    assert(texts(self.failed_lines@) =~= texts(lines).push(line@));
                    self.failed = self.failed + 1;
                },
            }
        }
        self.position = self.position + 1;
    }

    fn go_on(&mut self) -> (action: Action)
        requires
            plan_fits(old(self).plan@, old(self).products@.len()),
            old(self).products@.len() <= u32::MAX,
            old(self).updated + old(self).created + old(self).failed == old(self).position,
            old(self).position <= old(self).context().total(),
        ensures
            final(self).well_formed(),
            final(self).context() == old(self).context(),
            (RunTurn { state: final(self).state(), action: action@ }) == goes_on(
                old(self).context(),
                old(self).state(),
            ),
    {
        let updates = self.plan.to_update.len();
        if self.position < updates {
            self.stage = RunStage::Pausing;
            Action::Wait(500)
        } else if self.position - updates < self.plan.to_create.len() {
            self.stage = RunStage::Pausing;
            Action::Wait(600)
        } else {
            self.stage = RunStage::Closed;
            Action::Finish
        }
    }

    /// The session for the next item.
    fn session(&self) -> (session: ProductSession<'a>)
        requires
            self.well_formed(),
            self.position < self.context().total(),
        ensures
            session.context() == self.context().session_at(self.position as int),
            session.stage == self.context().session_start(self.position as int),
            session.outcome is None,
    {
        if self.position < self.plan.to_update.len() {
            let change = &self.plan.to_update[self.position];
            assert(self.plan@.to_update[self.position as int] == change@);
            ProductSession::update_variant(
                self.base,
                &self.products[change.product],
                change.target,
                change.follows_stock,
                self.fallback,
            )
        } else {
            let index = self.position - self.plan.to_update.len();
            let number = self.plan.to_create[index];
            assert(self.plan@.to_create[index as int] == number);
            ProductSession::create_in_bulk(self.base, &self.products[number])
        }
    }

    #[verifier::spinoff_prover]
    #[verifier::rlimit(40)]
    fn talk(&mut self, stage: Stage, reply: Reply) -> (action: Action)
        requires
            old(self).well_formed(),
            old(self).position < old(self).context().total(),
        ensures
            final(self).well_formed(),
            final(self).context() == old(self).context(),
            (RunTurn { state: final(self).state(), action: action@ }) == talks(
                old(self).context(),
                old(self).state(),
                stage,
                reply@,
            ),
    {
        let mut session = self.session();
        session.stage = stage;
        let action = session.step(reply);
        match session.outcome {
            Some(result) => {
                let error: Option<String> = match &result {
                    Ok(_) => None,
                    Err(error) => Some(
                        failure_text(session.procedure, session.product.sku.as_str(), error),
                    ),
                };
                self.record(error);
                self.go_on()
            },
            None => {
                self.stage = RunStage::Talking(session.stage);
                self.notice = None;
                action
            },
        }
    }

    /// Takes the reply to the last action, and says what is done next.
    #[verifier::spinoff_prover]
    #[verifier::rlimit(40)]
    pub fn step(&mut self, reply: Reply) -> (action: Action)
        requires
            old(self).well_formed(),
        ensures
            final(self).well_formed(),
            final(self).context() == old(self).context(),
            (RunTurn { state: final(self).state(), action: action@ }) == run_responds(
                old(self).context(),
                old(self).state(),
                reply@,
            ),
    {
        match self.stage {
            RunStage::Begin => {
                self.notice = None;
                self.go_on()
            },
            RunStage::Pausing => {
                let start = self.session().stage;
                self.talk(start, Reply::Ready)
            },
            RunStage::Talking(stage) => self.talk(stage, reply),
            RunStage::Closed => {
                self.notice = None;
                Action::Finish
            },
        }
    }
}

/// The run at its beginning: the price file compared with what the store
/// holds. `checks` say how the prices compare.
pub fn run_bulk_sync<'a>(
    base: &'a str,
    products: &'a Vec<Product>,
    catalog: &StringHashMap<CachedVariant>,
    checks: &Vec<PriceCheck>,
    mode: &str,
    fallback: i64,
) -> (run: PushRun<'a>)
    requires
        checks@.len() == products@.len(),
        products@.len() <= u32::MAX,
    ensures
        run.well_formed(),
        run.context() == (RunContext {
            base: base@,
            products: products@,
            plan: plan_for(
                products@,
                keys_of(products@),
                catalog_view(catalog@),
                checks@,
                mode@ == "upsert"@,
                products@.len(),
            ),
            fallback,
        }),
        run.state() == (RunState {
            stage: RunStage::Begin,
            position: 0,
            updated: 0,
            created: 0,
            failed: 0,
            rows: seq![],
            new_items: seq![],
            failures: seq![],
            notice: None,
        }),
{
    let plan = plan_bulk_sync(products, catalog, checks, mode);
    proof {
        let keys = keys_of(products@);
        let view = catalog_view(catalog@);
        let upsert = mode@ == "upsert"@;
        law_plan_is_sound(products@, keys, view, checks@, upsert, products@.len());
        law_plan_counts_every_product(products@, keys, view, checks@, upsert, products@.len());
        assert forall|j: int| 0 <= j < plan@.to_update.len() implies 0 <= (
        #[trigger] plan@.to_update[j]).product < products@.len() by {
            assert(is_needed(products@, keys, view, checks@, products@.len(), plan@.to_update[j]));
        }
        assert forall|j: int| 0 <= j < plan@.to_create.len() implies 0
            <= #[trigger] plan@.to_create[j] < products@.len() by {
            assert(is_missing(keys, view, upsert, products@.len(), plan@.to_create[j]));
        }
    }
    let run = PushRun {
        base,
        products,
        plan,
        fallback,
        stage: RunStage::Begin,
        position: 0,
        updated: 0,
        created: 0,
        failed: 0,
        change_rows: Vec::new(),
        new_item_lines: Vec::new(),
        failed_lines: Vec::new(),
        notice: None,
    };
    assert(run.state().rows =~= seq![]);
    assert(run.state().new_items =~= seq![]);
    assert(run.state().failures =~= seq![]);
    run
}

/// When a run is over, every product of the price file was updated, created,
/// failed or needed nothing.
pub proof fn law_run_accounts_for_every_product(run: PushRun)
    requires
        run.well_formed(),
        run.stage is Closed,
    ensures
        run.updated + run.created + run.failed + run.plan.already_current == run.products@.len(),
{
}

/// The distance of a run from its end.
pub open spec fn distance(ctx: RunContext, state: RunState) -> int {
    match state.stage {
        RunStage::Begin => (ctx.total() - state.position) * 22 + 21,
        RunStage::Pausing => (ctx.total() - state.position) * 22 + 20,
        RunStage::Talking(stage) => (ctx.total() - state.position) * 22 + rank(stage),
        RunStage::Closed => 0,
    }
}

/// The state can occur in a run.
pub open spec fn is_state_of(ctx: RunContext, state: RunState) -> bool {
    &&& 0 <= state.position <= ctx.total()
    &&& match state.stage {
        RunStage::Begin => true,
        RunStage::Pausing => state.position < ctx.total(),
        RunStage::Talking(stage) => state.position < ctx.total() && stage != Stage::Closed,
        RunStage::Closed => state.position == ctx.total(),
    }
}

/// Whatever the store replies, every turn brings a run nearer to its end.
#[verifier::spinoff_prover]
#[verifier::rlimit(40)]
pub proof fn law_run_ends(ctx: RunContext, state: RunState, reply: ReplyView)
    requires
        is_state_of(ctx, state),
        !(state.stage is Closed),
    ensures
        is_state_of(ctx, run_responds(ctx, state, reply).state),
        0 <= distance(ctx, run_responds(ctx, state, reply).state) < distance(ctx, state),
{
    let session = ctx.session_at(state.position);
    let (stage, answer) = match state.stage {
        RunStage::Talking(stage) => (stage, reply),
        _ => (ctx.session_start(state.position), ReplyView::Ready),
    };
    law_session_ends(session, stage, seq![answer]);
    reveal_with_fuel(stage_after, 2);
    assert(seq![answer].drop_last() =~= Seq::<ReplyView>::empty());
    assert(stage_after(session, stage, seq![answer]) == respond(session, stage, answer).stage);
}

/// Every product that a run adds to the store enters it as a draft.
pub proof fn law_run_adds_drafts(ctx: RunContext, state: RunState, reply: ReplyView)
    ensures
        match run_responds(ctx, state, reply).action {
            ActionView::Send(request) => request.url == ctx.base + "/products.json"@ ==> is_draft(
                request,
            ),
            _ => true,
        },
{
    let session = ctx.session_at(state.position);
    match state.stage {
        RunStage::Pausing => law_new_products_are_drafts(
            session,
            ctx.session_start(state.position),
            ReplyView::Ready,
        ),
        RunStage::Talking(stage) => law_new_products_are_drafts(session, stage, reply),
        _ => {},
    }
}

/// A run takes the products to update first and those to create behind them, each
/// list in its order: a product to update is brought to the variant that the plan
/// found for it, and one to create is created.
pub proof fn law_items_of_a_run(ctx: RunContext, i: int)
    ensures
        0 <= i < ctx.plan.to_update.len() ==> {
            let change = ctx.plan.to_update[i];
            let session = ctx.session_at(i);
            &&& session.base == ctx.base
            &&& session.product == ctx.products[change.product]
            &&& session.procedure == Procedure::BulkUpdate
            &&& session.fallback == ctx.fallback
            &&& ctx.session_start(i) == Stage::BulkBegin(change.target, change.follows_stock)
        },
        0 <= i < ctx.plan.to_create.len() ==> {
            let position = ctx.plan.to_update.len() + i;
            let session = ctx.session_at(position);
            &&& session.base == ctx.base
            &&& session.product == ctx.products[ctx.plan.to_create[i]]
            &&& session.procedure == Procedure::BulkCreate
            &&& ctx.session_start(position) == Stage::Begin
        },
        ctx.total() == ctx.plan.to_update.len() + ctx.plan.to_create.len(),
{
}

/// A run works through its items: while one is left, it waits and begins the
/// conversation for it; what that conversation does, the run does; when it is over,
/// the next item follows; and without one left the run is over.
pub proof fn law_course_of_a_run(ctx: RunContext, state: RunState, reply: ReplyView)
    requires
        is_state_of(ctx, state),
    ensures
        ({
            let turn = run_responds(ctx, state, reply);
            let (stage, heard) = match state.stage {
                RunStage::Talking(stage) => (stage, reply),
                _ => (ctx.session_start(state.position), ReplyView::Ready),
            };
            let said = respond(ctx.session_at(state.position), stage, heard);
            &&& state.stage is Begin && state.position < ctx.plan.to_update.len() ==> turn.action
                == ActionView::Wait(500) && turn.state.stage is Pausing
            &&& state.stage is Begin && ctx.plan.to_update.len() <= state.position < ctx.total()
                ==> turn.action == ActionView::Wait(600) && turn.state.stage is Pausing
            &&& state.stage is Begin && state.position == ctx.total() ==> turn.action
                == ActionView::Finish && turn.state.stage is Closed
            &&& (state.stage is Pausing || state.stage is Talking) && said.ending is None ==> {
                &&& turn.action == said.action
                &&& turn.state.stage == RunStage::Talking(said.stage)
                &&& turn.state.position == state.position
                &&& turn.state.updated == state.updated && turn.state.created == state.created
                &&& turn.state.failed == state.failed
            }
            &&& (state.stage is Pausing || state.stage is Talking) && said.ending is Some ==> {
                &&& turn.state.position == state.position + 1
                &&& turn.state.position < ctx.plan.to_update.len() ==> turn.action
                    == ActionView::Wait(500) && turn.state.stage is Pausing
                &&& ctx.plan.to_update.len() <= turn.state.position < ctx.total() ==> turn.action
                    == ActionView::Wait(600) && turn.state.stage is Pausing
                &&& turn.state.position == ctx.total() ==> turn.action == ActionView::Finish
                    && turn.state.stage is Closed
            }
            &&& state.stage is Closed ==> turn.action == ActionView::Finish && turn.state == (
            RunState { notice: None, ..state })
        }),
{
}

/// What became of an item is counted and told once, where it belongs: a success as
/// an update or as a creation, and a failure as a failure, with its words.
pub proof fn law_item_is_recorded(ctx: RunContext, state: RunState, reply: ReplyView)
    requires
        is_state_of(ctx, state),
        state.stage is Pausing || state.stage is Talking,
    ensures
        ({
            let after = run_responds(ctx, state, reply).state;
            let (stage, heard) = match state.stage {
                RunStage::Talking(stage) => (stage, reply),
                _ => (ctx.session_start(state.position), ReplyView::Ready),
            };
            let session = ctx.session_at(state.position);
            let said = respond(session, stage, heard);
            let product = session.product;
            let sku = product.sku@;
            let updates = state.position < ctx.plan.to_update.len();
            match said.ending {
                None => true,
                Some(Ok(_)) => {
                    &&& after.failed == state.failed
                    &&& after.failures == state.failures
                    &&& updates ==> {
                        let row = after.rows.last();
                        &&& after.updated == state.updated + 1 && after.created == state.created
                        &&& after.rows == state.rows.push(row) && after.new_items
                            == state.new_items
                        &&& row.sku == sku && !row.failed
                    }
                    &&& !updates ==> {
                        &&& after.created == state.created + 1 && after.updated == state.updated
                        &&& after.rows == state.rows
                        &&& after.new_items == state.new_items.push(
                            "    "@ + padded(sku, 22) + "  $"@ + product.price.fixed@ + "  qty "@
                                + signed_decimal(product.inventory_quantity as int)
                                + "  [DRAFT -- review before publishing]"@,
                        )
                        &&& after.notice == Some(
                            "  +  "@ + sku + " -- created as DRAFT (price $"@
                                + product.price.fixed@ + ", qty "@ + signed_decimal(
                                product.inventory_quantity as int,
                            ) + ")"@,
                        )
                    }
                },
                Some(Err(error)) => {
                    let message = failure_message(session.procedure, sku, error);
                    &&& after.failed == state.failed + 1
                    &&& after.updated == state.updated && after.created == state.created
                    &&& after.new_items == state.new_items
                    &&& updates ==> {
                        let row = after.rows.last();
                        &&& after.rows == state.rows.push(row)
                        &&& row.sku == sku && row.failed && row.error == message
                        &&& after.failures == state.failures.push(
                            "    "@ + sku + " -- "@ + message,
                        )
                        &&& after.notice == Some("  XX  "@ + sku + " -- error: "@ + message)
                    }
                    &&& !updates ==> {
                        &&& after.rows == state.rows
                        &&& after.failures == state.failures.push(
                            "    "@ + sku + " -- CREATE FAILED: "@ + message,
                        )
                        &&& after.notice is None
                    }
                },
            }
        }),
{
}

/// A change is shown with the old value and the new one, and a value that stays as
/// one that does not change; in words, what does not change is not named.
pub proof fn law_changes_are_shown(
    change: PendingChangeView,
    product: Product,
    error: Option<Seq<char>>,
)
    ensures
        ({
            let row = row_of(change, product, error);
            let old_qty = signed_decimal(change.old_qty as int);
            let new_qty = signed_decimal(product.inventory_quantity as int);
            let new_price = product.price.fixed@;
            let quantity = "qty "@ + old_qty + " \u{2192} "@ + new_qty;
            let price = "price $"@ + change.old_price + " \u{2192} $"@ + new_price;
            let moved = change.old_qty != product.inventory_quantity;
            let words = change_description(change, product);
            &&& change.price_changed ==> row.price_col == "$"@ + change.old_price + " -> $"@
                + new_price
            &&& !change.price_changed ==> row.price_col == "no change"@
            &&& moved ==> row.qty_col == old_qty + " -> "@ + new_qty
            &&& !moved ==> row.qty_col == "no change"@
            &&& moved && change.price_changed ==> words == quantity + "  |  "@ + price
            &&& moved && !change.price_changed ==> words == quantity
            &&& !moved && change.price_changed ==> words == price
            &&& row.sku == product.sku@
            &&& row.failed <==> error is Some
            &&& error matches Some(message) ==> row.error == message
        }),
{
}

/// A product that was updated is told with its SKU and its change in words.
pub proof fn law_updates_are_told(ctx: RunContext, state: RunState)
    requires
        0 <= state.position < ctx.plan.to_update.len(),
    ensures
        ({
            let change = ctx.plan.to_update[state.position];
            let product = ctx.products[change.product];
            recorded(ctx, state, None).notice == Some(
                "  OK  "@ + product.sku@ + " -- "@ + change_description(change, product),
            )
        }),
{
}

/// The run has, at some position, the session that updates a product at the variant
/// with these identifiers.
pub open spec fn updates_at(
    ctx: RunContext,
    position: int,
    product: Product,
    variant: int,
    item: int,
    location: int,
) -> bool {
    &&& 0 <= position < ctx.total()
    &&& ctx.session_at(position).product == product
    &&& ctx.session_at(position).procedure == Procedure::BulkUpdate
    &&& ctx.session_start(position) matches Stage::BulkBegin(target, _) && target.variant
        == variant as i64 && target.item == item as i64 && target.location == location as i64
}

/// The run has, at some position, the session that creates a product.
pub open spec fn creates_at(ctx: RunContext, position: int, product: Product) -> bool {
    &&& 0 <= position < ctx.total()
    &&& ctx.session_at(position).product == product
    &&& ctx.session_at(position).procedure == Procedure::BulkCreate
    &&& ctx.session_start(position) == Stage::Begin
}

/// A run leaves no difference between the price file and the store unsent: every
/// product that the store has with another price or quantity is updated at its own
/// variant, and every one that the store lacks is created, where products are to be
/// created.
pub proof fn law_every_difference_is_sent(
    ctx: RunContext,
    keys: Seq<Seq<char>>,
    catalog: Map<Seq<char>, CachedVariantView>,
    checks: Seq<PriceCheck>,
    upsert: bool,
    i: int,
)
    requires
        ctx.plan == plan_for(ctx.products, keys, catalog, checks, upsert, ctx.products.len()),
        0 <= i < ctx.products.len(),
    ensures
        catalog.contains_key(keys[i]) && (checks[i].changed || catalog[keys[i]].current_qty
            != ctx.products[i].inventory_quantity) ==> exists|position: int| #[trigger]
            updates_at(
                ctx,
                position,
                ctx.products[i],
                catalog[keys[i]].variant_id,
                catalog[keys[i]].inv_item_id,
                catalog[keys[i]].location_id,
            ),
        !catalog.contains_key(keys[i]) && upsert ==> exists|position: int| #[trigger]
            creates_at(ctx, position, ctx.products[i]),
{
    let n = ctx.products.len();
    law_plan_is_complete(ctx.products, keys, catalog, checks, upsert, n, i);
    law_plan_is_sound(ctx.products, keys, catalog, checks, upsert, n);
    if updates(ctx.plan, i) {
        let j = choose|j: int|
            0 <= j < ctx.plan.to_update.len() && #[trigger] ctx.plan.to_update[j].product == i;
        assert(is_needed(ctx.products, keys, catalog, checks, n, ctx.plan.to_update[j]));
        assert(updates_at(
            ctx,
            j,
            ctx.products[i],
            catalog[keys[i]].variant_id,
            catalog[keys[i]].inv_item_id,
            catalog[keys[i]].location_id,
        ));
    }
    if creates(ctx.plan, i) {
        let j = choose|j: int|
            0 <= j < ctx.plan.to_create.len() && #[trigger] ctx.plan.to_create[j] == i;
        assert(creates_at(ctx, ctx.plan.to_update.len() + j, ctx.products[i]));
    }
}

} // verus!

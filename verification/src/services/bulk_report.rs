//! The report on a bulk run, as a text and as the records of a table.
use vstd::prelude::*;
use vstd::string::*;

use crate::exchange::{ActionView, ReplyView};
use crate::models::Product;
use crate::numbers::{decimal, decimal_of, signed_decimal, signed_decimal_of};
use crate::services::bulk_run::{
    recorded, run_responds, ChangeRow, ChangeRowView, PushRun, RunContext, RunStage, RunState,
};
use crate::services::bulk_sync::{law_synced_store_needs_nothing, plan_for, PriceCheck};
use crate::services::stock_fetch::CachedVariantView;
use crate::text::{
    holds_text, join, joined, pad_right, padded, repeat_char, repeated, stands_at, table, texts,
};

verus! {

/// The run updated or created a product, or failed to.
pub open spec fn did_anything(state: RunState) -> bool {
    state.updated > 0 || state.created > 0 || state.failed > 0
}

/// How many of the rows are not failures.
pub open spec fn successes(rows: Seq<ChangeRowView>) -> nat
    decreases rows.len(),
{
    if rows.len() == 0 {
        0
    } else {
        successes(rows.drop_last()) + if rows.last().failed {
            0nat
        } else {
            1
        }
    }
}

/// The models of change rows.
pub open spec fn row_views(rows: Seq<ChangeRow>) -> Seq<ChangeRowView> {
    rows.map_values(|r: ChangeRow| r@)
}

/// The head of the report with its counts.
pub open spec fn summary_text(ctx: RunContext, state: RunState, timestamp: Seq<char>) -> Seq<char> {
    "Shopify Bulk Sync Report -- "@ + timestamp + "\n"@ + repeated('=', 65) + "\n\n"@
        + "  Updated : "@ + decimal(state.updated) + "\n  Created : "@ + decimal(state.created)
        + " (as drafts)\n  Skipped : "@ + decimal(ctx.plan.already_current)
        + " (no change)\n  Failed  : "@ + decimal(state.failed) + "\n\n"@
}

/// A line of three columns.
pub open spec fn columns(first: Seq<char>, second: Seq<char>, third: Seq<char>) -> Seq<char> {
    "    "@ + padded(first, 22) + "  "@ + padded(second, 24) + "  "@ + third + "\n"@
}

/// A line of three columns.
fn push_columns(out: &mut String, first: &str, second: &str, third: &str)
    ensures
        final(out)@ == old(out)@ + columns(first@, second@, third@),
{
    let wide_first = pad_right(first, 22);
    let wide_second = pad_right(second, 24);
    out.append("    ");
    out.append(wide_first.as_str());
    out.append("  ");
    out.append(wide_second.as_str());
    out.append("  ");
    out.append(third);
    out.append("\n");
    assert(out@ =~= old(out)@ + columns(first@, second@, third@));
}

/// The lines of the changes that succeeded.
pub open spec fn change_lines(rows: Seq<ChangeRowView>) -> Seq<char>
    decreases rows.len(),
{
    if rows.len() == 0 {
        seq![]
    } else {
        change_lines(rows.drop_last()) + if rows.last().failed {
            seq![]
        } else {
            columns(rows.last().sku, rows.last().price_col, rows.last().qty_col)
        }
    }
}

/// The section on the changes.
pub open spec fn changes_text(rows: Seq<ChangeRowView>) -> Seq<char> {
    if rows.len() == 0 {
        seq![]
    } else {
        "CHANGES ("@ + decimal(successes(rows)) + "):\n"@ + columns("SKU"@, "PRICE"@, "QTY"@)
            + "    "@ + repeated('-', 65) + "\n"@ + change_lines(rows) + "\n"@
    }
}

/// The section on the new products.
pub open spec fn new_items_text(new_items: Seq<Seq<char>>) -> Seq<char> {
    if new_items.len() == 0 {
        seq![]
    } else {
        "NEW ITEMS ("@ + decimal(new_items.len())
            + ") -- entered as drafts, action required:\n"@ + joined(new_items, "\n"@) + "\n\n"@
    }
}

/// The section on the failures.
pub open spec fn failures_text(failures: Seq<Seq<char>>) -> Seq<char> {
    if failures.len() == 0 {
        seq![]
    } else {
        "FAILURES ("@ + decimal(failures.len()) + "):\n"@ + joined(failures, "\n"@) + "\n"@
    }
}

/// The report on a run.
pub open spec fn report_text(ctx: RunContext, state: RunState, timestamp: Seq<char>) -> Seq<char> {
    if ctx.total() == 0 {
        "Everything already up to date."@
    } else {
        summary_text(ctx, state, timestamp) + changes_text(state.rows) + new_items_text(
            state.new_items,
        ) + failures_text(state.failures)
    }
}

/// How many of the rows are not failures.
fn count_successes(rows: &Vec<ChangeRow>) -> (count: u64)
    ensures
        count == successes(row_views(rows@)),
{
    let mut count: u64 = 0;
    let ghost model = row_views(rows@);
    for i in 0..rows.len()
        invariant
            model == row_views(rows@),
            count <= i,
            count == successes(model.take(i as int)),
    {
        assert(model.take(i + 1).drop_last() =~= model.take(i as int));
        if !rows[i].failed {
            count = count + 1;
        }
    }
    assert(model.take(rows.len() as int) =~= model);
    count
}

fn push_changes(out: &mut String, rows: &Vec<ChangeRow>)
    ensures
        final(out)@ == old(out)@ + changes_text(row_views(rows@)),
{
    let ghost model = row_views(rows@);
    if rows.len() > 0 {
        let count = decimal_of(count_successes(rows));
        let rule = repeat_char('-', 65);
        out.append("CHANGES (");
        out.append(count.as_str());
        out.append("):\n");
        push_columns(out, "SKU", "PRICE", "QTY");
        out.append("    ");
        out.append(rule.as_str());
        out.append("\n");
        let ghost head = out@;
        for i in 0..rows.len()
            invariant
                model == row_views(rows@),
                out@ == head + change_lines(model.take(i as int)),
        {
            proof {
                assert(model.take(i + 1).drop_last() =~= model.take(i as int));
            }
            let ghost before = out@;
            if !rows[i].failed {
                push_columns(
                    out,
                    rows[i].sku.as_str(),
                    rows[i].price_col.as_str(),
                    rows[i].qty_col.as_str(),
                );
            }
            assert(out@ =~= head + change_lines(model.take(i + 1)));
        }
        assert(model.take(rows.len() as int) =~= model);
        out.append("\n");
        assert(out@ =~= old(out)@ + changes_text(model));
    } else {
        assert(out@ =~= old(out)@ + changes_text(model));
    }
}

fn push_new_items(out: &mut String, new_items: &Vec<String>)
    ensures
        final(out)@ == old(out)@ + new_items_text(texts(new_items@)),
{
    if new_items.len() > 0 {
        let count = decimal_of(new_items.len() as u64);
        let list = join(new_items, "\n");
        out.append("NEW ITEMS (");
        out.append(count.as_str());
        out.append(") -- entered as drafts, action required:\n");
        out.append(list.as_str());
        out.append("\n\n");
    }
    assert(out@ =~= old(out)@ + new_items_text(texts(new_items@)));
}

fn push_failures(out: &mut String, failures: &Vec<String>)
    ensures
        final(out)@ == old(out)@ + failures_text(texts(failures@)),
{
    if failures.len() > 0 {
        let count = decimal_of(failures.len() as u64);
        let list = join(failures, "\n");
        out.append("FAILURES (");
        out.append(count.as_str());
        out.append("):\n");
        out.append(list.as_str());
        out.append("\n");
    }
    assert(out@ =~= old(out)@ + failures_text(texts(failures@)));
}

/// The records of one kind of line.
pub open spec fn record4(
    a: Seq<char>,
    b: Seq<char>,
    c: Seq<char>,
    d: Seq<char>,
) -> Seq<Seq<char>> {
    seq![a, b, c, d]
}

/// The record of four empty cells.
pub open spec fn blank_record() -> Seq<Seq<char>> {
    record4(seq![], seq![], seq![], seq![])
}

/// The status of a change in the table.
pub open spec fn status_text(row: ChangeRowView) -> Seq<char> {
    if row.failed {
        "FAILED: "@ + row.error
    } else {
        "Updated"@
    }
}

/// The records of the changes.
pub open spec fn change_records(rows: Seq<ChangeRowView>) -> Seq<Seq<Seq<char>>> {
    rows.map_values(
        |r: ChangeRowView| record4(r.sku, r.price_col, r.qty_col, status_text(r)),
    )
}

/// The records of the products that were to be created.
pub open spec fn create_records(
    products: Seq<Product>,
    to_create: Seq<int>,
) -> Seq<Seq<Seq<char>>> {
    to_create.map_values(
        |i: int|
            record4(
                products[i].sku@,
                "$"@ + products[i].price.fixed@,
                signed_decimal(products[i].inventory_quantity as int),
                "DRAFT - review before publishing"@,
            ),
    )
}

/// The records of the changes that failed.
pub open spec fn failure_records(rows: Seq<ChangeRowView>) -> Seq<Seq<Seq<char>>>
    decreases rows.len(),
{
    if rows.len() == 0 {
        seq![]
    } else {
        let before = failure_records(rows.drop_last());
        let r = rows.last();
        if r.failed {
            before.push(record4(r.sku, r.price_col, r.qty_col, r.error))
        } else {
            before
        }
    }
}

/// The records with the counts.
pub open spec fn count_records(
    ctx: RunContext,
    state: RunState,
    timestamp: Seq<char>,
) -> Seq<Seq<Seq<char>>> {
    seq![
        record4("Shopify Bulk Sync Report"@, timestamp, seq![], seq![]),
        blank_record(),
        record4("Updated"@, decimal(state.updated), seq![], seq![]),
        record4("Created (as drafts)"@, decimal(state.created), seq![], seq![]),
        record4("Skipped (no change)"@, decimal(ctx.plan.already_current), seq![], seq![]),
        record4("Failed"@, decimal(state.failed), seq![], seq![]),
        blank_record(),
    ]
}

/// The records of the saved table.
pub open spec fn report_records(
    ctx: RunContext,
    state: RunState,
    timestamp: Seq<char>,
) -> Seq<Seq<Seq<char>>> {
    count_records(ctx, state, timestamp) + (if state.rows.len() == 0 {
        Seq::<Seq<Seq<char>>>::empty()
    } else {
        seq![record4("SKU"@, "PRICE"@, "QTY"@, "STATUS"@)] + change_records(state.rows)
            + seq![blank_record()]
    }) + (if ctx.plan.to_create.len() == 0 {
        Seq::<Seq<Seq<char>>>::empty()
    } else {
        seq![record4("NEW ITEMS"@, "PRICE"@, "QTY"@, "STATUS"@)] + create_records(
            ctx.products,
            ctx.plan.to_create,
        ) + seq![blank_record()]
    }) + (if failure_records(state.rows).len() == 0 {
        Seq::<Seq<Seq<char>>>::empty()
    } else {
        seq![record4("FAILURES"@, "PRICE"@, "QTY"@, "ERROR"@)] + failure_records(state.rows)
    })
}

/// Appends a record of four cells.
fn push_record(records: &mut Vec<Vec<String>>, a: &str, b: &str, c: &str, d: &str)
    ensures
        table(final(records)@) == table(old(records)@).push(record4(a@, b@, c@, d@)),
{
    let mut record: Vec<String> = Vec::new();
    record.push(a.to_owned());
    record.push(b.to_owned());
    record.push(c.to_owned());
    record.push(d.to_owned());
    assert(texts(record@) =~= record4(a@, b@, c@, d@));
    records.push(record);
    assert(table(records@) =~= table(old(records)@).push(record4(a@, b@, c@, d@)));
}

/// Appends a record of empty cells.
fn push_blank(records: &mut Vec<Vec<String>>)
    ensures
        table(final(records)@) == table(old(records)@).push(blank_record()),
{
    proof {
        reveal_strlit("");
    }
    assert(""@ =~= Seq::<char>::empty());
    push_record(records, "", "", "", "");
}

fn push_counts(
    records: &mut Vec<Vec<String>>,
    updated: u32,
    created: u32,
    current: u32,
    failed: u32,
    timestamp: &str,
)
    requires
        old(records)@.len() == 0,
    ensures
        table(final(records)@) == seq![
            record4("Shopify Bulk Sync Report"@, timestamp@, seq![], seq![]),
            blank_record(),
            record4("Updated"@, decimal(updated as nat), seq![], seq![]),
            record4("Created (as drafts)"@, decimal(created as nat), seq![], seq![]),
            record4("Skipped (no change)"@, decimal(current as nat), seq![], seq![]),
            record4("Failed"@, decimal(failed as nat), seq![], seq![]),
            blank_record(),
        ],
{
    let updated_text = decimal_of(updated as u64);
    let created_text = decimal_of(created as u64);
    let current_text = decimal_of(current as u64);
    let failed_text = decimal_of(failed as u64);
    proof {
        reveal_strlit("");
    }
    assert(""@ =~= Seq::<char>::empty());
    push_record(records, "Shopify Bulk Sync Report", timestamp, "", "");
    push_blank(records);
    push_record(records, "Updated", updated_text.as_str(), "", "");
    push_record(records, "Created (as drafts)", created_text.as_str(), "", "");
    push_record(records, "Skipped (no change)", current_text.as_str(), "", "");
    push_record(records, "Failed", failed_text.as_str(), "", "");
    push_blank(records);
}

fn push_change_records(records: &mut Vec<Vec<String>>, rows: &Vec<ChangeRow>)
    ensures
        table(final(records)@) == table(old(records)@) + change_records(row_views(rows@)),
{
    let ghost model = change_records(row_views(rows@));
    let ghost before = table(records@);
    for i in 0..rows.len()
        invariant
            model == change_records(row_views(rows@)),
            table(records@) == before + model.take(i as int),
    {
        let row = &rows[i];
        let status = if row.failed {
            let mut status = "FAILED: ".to_owned();
            status.append(row.error.as_str());
            status
        } else {
            "Updated".to_owned()
        };
        push_record(
            records,
            row.sku.as_str(),
            row.price_col.as_str(),
            row.qty_col.as_str(),
            status.as_str(),
        );
        assert(model[i as int] == record4(row.sku@, row.price_col@, row.qty_col@, status@));
        assert(table(records@) =~= before + model.take(i + 1));
    }
    assert(model.take(rows.len() as int) =~= model);
}

fn push_create_records(
    records: &mut Vec<Vec<String>>,
    products: &Vec<Product>,
    to_create: &Vec<usize>,
)
    requires
        forall|j: int| 0 <= j < to_create@.len() ==> #[trigger] to_create@[j] < products@.len(),
    ensures
        table(final(records)@) == table(old(records)@) + create_records(
            products@,
            to_create@.map_values(|i: usize| i as int),
        ),
{
    let ghost model = create_records(products@, to_create@.map_values(|i: usize| i as int));
    let ghost before = table(records@);
    for i in 0..to_create.len()
        invariant
            model == create_records(products@, to_create@.map_values(|i: usize| i as int)),
            forall|j: int| 0 <= j < to_create@.len() ==> #[trigger] to_create@[j] < products@.len(),
            table(records@) == before + model.take(i as int),
    {
        let product = &products[to_create[i]];
        let mut price = "$".to_owned();
        price.append(product.price.fixed.as_str());
        let qty = signed_decimal_of(product.inventory_quantity as i64);
        push_record(
            records,
            product.sku.as_str(),
            price.as_str(),
            qty.as_str(),
            "DRAFT - review before publishing",
        );
        assert(table(records@) =~= before + model.take(i + 1));
    }
    assert(model.take(to_create.len() as int) =~= model);
}

fn failures_among(rows: &Vec<ChangeRow>) -> (records: Vec<Vec<String>>)
    ensures
        table(records@) == failure_records(row_views(rows@)),
{
    let mut records: Vec<Vec<String>> = Vec::new();
    let ghost model = row_views(rows@);
    assert(table(records@) =~= failure_records(model.take(0)));
    for i in 0..rows.len()
        invariant
            model == row_views(rows@),
            table(records@) == failure_records(model.take(i as int)),
    {
        assert(model.take(i + 1).drop_last() =~= model.take(i as int));
        let row = &rows[i];
        if row.failed {
            push_record(
                &mut records,
                row.sku.as_str(),
                row.price_col.as_str(),
                row.qty_col.as_str(),
                row.error.as_str(),
            );
        }
    }
    assert(model.take(rows.len() as int) =~= model);
    records
}

impl<'a> PushRun<'a> {
    /// How many products were updated, created and left alone, and the report.
    pub fn outcome(&self, timestamp: &str) -> (outcome: (u32, u32, u32, String))
        ensures
            outcome.0 == self.updated,
            outcome.1 == self.created,
            outcome.2 == self.plan.already_current,
            outcome.3@ == report_text(self.context(), self.state(), timestamp@),
    {
        let report = self.report(timestamp);
        (self.updated, self.created, self.plan.already_current, report)
    }

    /// The report on the run.
    pub fn report(&self, timestamp: &str) -> (report: String)
        ensures
            report@ == report_text(self.context(), self.state(), timestamp@),
    {
        if self.plan.to_update.len() == 0 && self.plan.to_create.len() == 0 {
            return "Everything already up to date.".to_owned();
        }
        let updated = decimal_of(self.updated as u64);
        let created = decimal_of(self.created as u64);
        let current = decimal_of(self.plan.already_current as u64);
        let failed = decimal_of(self.failed as u64);
        let rule = repeat_char('=', 65);
        let mut report = "Shopify Bulk Sync Report -- ".to_owned();
        report.append(timestamp);
        report.append("\n");
        report.append(rule.as_str());
        report.append("\n\n");
        report.append("  Updated : ");
        report.append(updated.as_str());
        report.append("\n  Created : ");
        report.append(created.as_str());
        report.append(" (as drafts)\n  Skipped : ");
        report.append(current.as_str());
        report.append(" (no change)\n  Failed  : ");
        report.append(failed.as_str());
        report.append("\n\n");
        assert(report@ == summary_text(self.context(), self.state(), timestamp@));
        push_changes(&mut report, &self.change_rows);
        push_new_items(&mut report, &self.new_item_lines);
        push_failures(&mut report, &self.failed_lines);
        report
    }

    /// Whether the run did anything, so that its table is saved.
    pub fn saves_report(&self) -> (saves: bool)
        ensures
            saves == did_anything(self.state()),
    {
        self.updated > 0 || self.created > 0 || self.failed > 0
    }

    /// The records of the saved table.
    #[verifier::spinoff_prover]
    #[verifier::rlimit(40)]
    pub fn records(&self, timestamp: &str) -> (records: Vec<Vec<String>>)
        requires
            self.well_formed(),
        ensures
            table(records@) == report_records(self.context(), self.state(), timestamp@),
    {
        let mut records: Vec<Vec<String>> = Vec::new();
        let ghost ctx = self.context();
        let ghost state = self.state();
        push_counts(
            &mut records,
            self.updated,
            self.created,
            self.plan.already_current,
            self.failed,
            timestamp,
        );
        assert(table(records@) =~= count_records(ctx, state, timestamp@));
        let ghost counts = table(records@);
        let ghost mut changes: Seq<Seq<Seq<char>>> = Seq::empty();
        if self.change_rows.len() > 0 {
            push_record(&mut records, "SKU", "PRICE", "QTY", "STATUS");
            push_change_records(&mut records, &self.change_rows);
            push_blank(&mut records);
            proof {
                changes =
                seq![record4("SKU"@, "PRICE"@, "QTY"@, "STATUS"@)] + change_records(state.rows)
                    + seq![blank_record()];
            }
        }
        assert(table(records@) =~= counts + changes);
        let ghost mut creates: Seq<Seq<Seq<char>>> = Seq::empty();
        if self.plan.to_create.len() > 0 {
            proof {
                assert forall|j: int| 0 <= j < self.plan.to_create@.len() implies
                    #[trigger] self.plan.to_create@[j] < self.products@.len() by {
                    assert(self.plan@.to_create[j] == self.plan.to_create@[j]);
                }
            }
            push_record(&mut records, "NEW ITEMS", "PRICE", "QTY", "STATUS");
            push_create_records(&mut records, self.products, &self.plan.to_create);
            push_blank(&mut records);
            proof {
                creates =
                seq![record4("NEW ITEMS"@, "PRICE"@, "QTY"@, "STATUS"@)] + create_records(
                    ctx.products,
                    ctx.plan.to_create,
                ) + seq![blank_record()];
            }
        }
        assert(table(records@) =~= counts + changes + creates);
        let mut failures = failures_among(&self.change_rows);
        assert(table(failures@).len() == failures@.len());
        let ghost mut failed: Seq<Seq<Seq<char>>> = Seq::empty();
        if failures.len() > 0 {
            push_record(&mut records, "FAILURES", "PRICE", "QTY", "ERROR");
            let ghost head = records@;
            let ghost tail = failures@;
            records.append(&mut failures);
            proof {
                assert(records@ =~= head + tail);
                assert(table(records@) =~= table(head) + table(tail));
                failed =
                seq![record4("FAILURES"@, "PRICE"@, "QTY"@, "ERROR"@)] + failure_records(
                    state.rows,
                );
            }
        }
        assert(table(records@) =~= counts + changes + creates + failed);
        records
    }
}

/// The counts of a run agree with its lists: a row for each product that was to
/// be updated, the successes among them the updated ones, a line for each
/// created product and one for each failure.
pub open spec fn counts_agree(ctx: RunContext, state: RunState) -> bool {
    &&& successes(state.rows) == state.updated
    &&& state.new_items.len() == state.created
    &&& state.failures.len() == state.failed
    &&& state.rows.len() == (if state.position <= ctx.plan.to_update.len() {
        state.position
    } else {
        ctx.plan.to_update.len() as int
    })
}

/// The counts agree at every moment of a run: they do at its beginning, and
/// every turn keeps them.
#[verifier::spinoff_prover]
#[verifier::rlimit(40)]
pub proof fn law_report_counts_agree(ctx: RunContext, state: RunState, reply: ReplyView)
    requires
        0 <= state.position,
        counts_agree(ctx, state),
    ensures
        counts_agree(ctx, run_responds(ctx, state, reply).state),
{
    assert forall|error: Option<Seq<char>>|
        counts_agree(ctx, #[trigger] recorded(ctx, state, error)) by {
        let next = recorded(ctx, state, error);
        if ctx.is_update(state.position) {
            assert(next.rows.drop_last() =~= state.rows);
        }
    }
}

/// A run against a store that holds every product with its price and quantity
/// ends at once, in whatever mode: it sends nothing, counts every product as
/// current, has nothing to save, and says so.
pub proof fn law_synced_run_does_nothing(
    base: Seq<char>,
    products: Seq<Product>,
    keys: Seq<Seq<char>>,
    catalog: Map<Seq<char>, CachedVariantView>,
    checks: Seq<PriceCheck>,
    upsert: bool,
    fallback: i64,
    state: RunState,
    reply: ReplyView,
    timestamp: Seq<char>,
)
    requires
        forall|i: int|
            0 <= i < products.len() ==> catalog.contains_key(#[trigger] keys[i])
                && !checks[i].changed && catalog[keys[i]].current_qty
                == products[i].inventory_quantity,
        state == (RunState {
            stage: RunStage::Begin,
            position: 0,
            updated: 0,
            created: 0,
            failed: 0,
            rows: seq![],
            new_items: seq![],
            failures: seq![],
            notice: None,
        }),
    ensures
        ({
            let plan = plan_for(products, keys, catalog, checks, upsert, products.len());
            let ctx = RunContext { base, products, plan, fallback };
            let turn = run_responds(ctx, state, reply);
            &&& plan.already_current == products.len()
            &&& turn.action == ActionView::Finish
            &&& turn.state == (RunState { stage: RunStage::Closed, ..state })
            &&& !did_anything(turn.state)
            &&& report_text(ctx, turn.state, timestamp) == "Everything already up to date."@
        }),
{
    law_synced_store_needs_nothing(products, keys, catalog, checks, upsert, products.len());
}

/// A text that stands in a part of a text stands in the text.
proof fn lemma_held_in(a: Seq<char>, part: Seq<char>, b: Seq<char>, wanted: Seq<char>)
    requires
        holds_text(part, wanted),
    ensures
        holds_text(a + part + b, wanted),
{
    let at = choose|at: int| #[trigger] stands_at(part, wanted, at);
    let s = a + part + b;
    let from = a.len() + at;
    assert(s.subrange(from, from + wanted.len()) =~= part.subrange(at, at + wanted.len()));
    assert(stands_at(s, wanted, from));
}

proof fn lemma_joined_holds(list: Seq<Seq<char>>, separator: Seq<char>, i: int)
    requires
        0 <= i < list.len(),
    ensures
        holds_text(joined(list, separator), list[i]),
    decreases list.len(),
{
    let all = joined(list, separator);
    let nothing = Seq::<char>::empty();
    if list.len() == 1 || i == list.len() - 1 {
        let from = all.len() - list[i].len();
        assert(all.subrange(from, from + list[i].len()) =~= list[i]);
        assert(stands_at(all, list[i], from));
    } else {
        lemma_joined_holds(list.drop_last(), separator, i);
        let head = joined(list.drop_last(), separator);
        lemma_held_in(nothing, head, separator + list.last(), list[i]);
        assert(all =~= nothing + head + (separator + list.last()));
    }
}

/// The report begins with its counts: those of the updated, created, skipped and
/// failed products, in this order.
pub proof fn law_report_shows_its_counts(ctx: RunContext, state: RunState, timestamp: Seq<char>)
    requires
        ctx.total() > 0,
    ensures
        exists|rest: Seq<char>|
            report_text(ctx, state, timestamp) == #[trigger] ("Shopify Bulk Sync Report -- "@
                + timestamp + "\n"@ + repeated('=', 65) + "\n\n"@ + "  Updated : "@ + decimal(
                state.updated,
            ) + "\n  Created : "@ + decimal(state.created) + " (as drafts)\n  Skipped : "@
                + decimal(ctx.plan.already_current) + " (no change)\n  Failed  : "@ + decimal(
                state.failed,
            ) + "\n\n"@ + rest),
        ctx.total() == ctx.plan.to_update.len() + ctx.plan.to_create.len(),
{
    let rest = changes_text(state.rows) + new_items_text(state.new_items) + failures_text(
        state.failures,
    );
    assert(report_text(ctx, state, timestamp) =~= summary_text(ctx, state, timestamp) + rest);
}

/// The report names every product that was updated with its change, every new
/// product, and every failure.
pub proof fn law_report_names_every_product(
    ctx: RunContext,
    state: RunState,
    timestamp: Seq<char>,
    i: int,
)
    requires
        ctx.total() > 0,
    ensures
        0 <= i < state.new_items.len() ==> holds_text(
            report_text(ctx, state, timestamp),
            state.new_items[i],
        ),
        0 <= i < state.failures.len() ==> holds_text(
            report_text(ctx, state, timestamp),
            state.failures[i],
        ),
        0 <= i < state.rows.len() && !state.rows[i].failed ==> holds_text(
            report_text(ctx, state, timestamp),
            "    "@ + padded(state.rows[i].sku, 22) + "  "@ + padded(state.rows[i].price_col, 24)
                + "  "@ + state.rows[i].qty_col + "\n"@,
        ),
{
    let whole = report_text(ctx, state, timestamp);
    let head = summary_text(ctx, state, timestamp);
    let changes = changes_text(state.rows);
    let items = new_items_text(state.new_items);
    let failures = failures_text(state.failures);
    let nothing = Seq::<char>::empty();
    if 0 <= i < state.new_items.len() {
        lemma_joined_holds(state.new_items, "\n"@, i);
        let front = "NEW ITEMS ("@ + decimal(state.new_items.len())
            + ") -- entered as drafts, action required:\n"@;
        lemma_held_in(front, joined(state.new_items, "\n"@), "\n\n"@, state.new_items[i]);
        lemma_held_in(head + changes, items, failures, state.new_items[i]);
    }
    if 0 <= i < state.failures.len() {
        lemma_joined_holds(state.failures, "\n"@, i);
        let front = "FAILURES ("@ + decimal(state.failures.len()) + "):\n"@;
        lemma_held_in(front, joined(state.failures, "\n"@), "\n"@, state.failures[i]);
        lemma_held_in(head + changes + items, failures, nothing, state.failures[i]);
        assert(whole =~= head + changes + items + failures + nothing);
    }
    if 0 <= i < state.rows.len() && !state.rows[i].failed {
        lemma_changes_hold(state.rows, i);
        let line = columns(state.rows[i].sku, state.rows[i].price_col, state.rows[i].qty_col);
        let front = "CHANGES ("@ + decimal(successes(state.rows)) + "):\n"@ + columns(
            "SKU"@,
            "PRICE"@,
            "QTY"@,
        ) + "    "@ + repeated('-', 65) + "\n"@;
        lemma_held_in(front, change_lines(state.rows), "\n"@, line);
        lemma_held_in(head, changes, items + failures, line);
        assert(whole =~= head + changes + (items + failures));
    }
}

proof fn lemma_changes_hold(rows: Seq<ChangeRowView>, i: int)
    requires
        0 <= i < rows.len(),
        !rows[i].failed,
    ensures
        holds_text(
            change_lines(rows),
            columns(rows[i].sku, rows[i].price_col, rows[i].qty_col),
        ),
    decreases rows.len(),
{
    let line = columns(rows[i].sku, rows[i].price_col, rows[i].qty_col);
    let front = change_lines(rows.drop_last());
    let nothing = Seq::<char>::empty();
    if i == rows.len() - 1 {
        let all = change_lines(rows);
        let from = front.len() as int;
        assert(all.subrange(from, from + line.len()) =~= line);
        assert(stands_at(all, line, from));
    } else {
        lemma_changes_hold(rows.drop_last(), i);
        let tail = if rows.last().failed {
            nothing
        } else {
            columns(rows.last().sku, rows.last().price_col, rows.last().qty_col)
        };
        lemma_held_in(nothing, front, tail, line);
        assert(change_lines(rows) =~= nothing + front + tail);
    }
}

/// The saved table shows the counts, one record for each product that was to be
/// updated with what became of it, one for each that was to be created, and one
/// more for each failure.
pub proof fn law_table_shows_every_product(
    ctx: RunContext,
    state: RunState,
    timestamp: Seq<char>,
    i: int,
)
    ensures
        ({
            let all = report_records(ctx, state, timestamp);
            let none = Seq::<char>::empty();
            &&& all.len() >= 7
            &&& all[0] == seq!["Shopify Bulk Sync Report"@, timestamp, none, none]
            &&& all[2] == seq!["Updated"@, decimal(state.updated), none, none]
            &&& all[3] == seq!["Created (as drafts)"@, decimal(state.created), none, none]
            &&& all[4] == seq![
                "Skipped (no change)"@,
                decimal(ctx.plan.already_current),
                none,
                none,
            ]
            &&& all[5] == seq!["Failed"@, decimal(state.failed), none, none]
            &&& 0 <= i < state.rows.len() ==> {
                let row = state.rows[i];
                let record = seq![
                    row.sku,
                    row.price_col,
                    row.qty_col,
                    if row.failed {
                        "FAILED: "@ + row.error
                    } else {
                        "Updated"@
                    },
                ];
                all[7] == seq!["SKU"@, "PRICE"@, "QTY"@, "STATUS"@] && all[8 + i] == record
            }
            &&& 0 <= i < ctx.plan.to_create.len() ==> {
                let product = ctx.products[ctx.plan.to_create[i]];
                all.contains(
                    seq![
                        product.sku@,
                        "$"@ + product.price.fixed@,
                        signed_decimal(product.inventory_quantity as int),
                        "DRAFT - review before publishing"@,
                    ],
                )
            }
            &&& 0 <= i < state.rows.len() && state.rows[i].failed ==> all.contains(
                seq![
                    state.rows[i].sku,
                    state.rows[i].price_col,
                    state.rows[i].qty_col,
                    state.rows[i].error,
                ],
            )
        }),
{
    let all = report_records(ctx, state, timestamp);
    let changes = if state.rows.len() == 0 {
        Seq::<Seq<Seq<char>>>::empty()
    } else {
        seq![record4("SKU"@, "PRICE"@, "QTY"@, "STATUS"@)] + change_records(state.rows)
            + seq![blank_record()]
    };
    let creates = if ctx.plan.to_create.len() == 0 {
        Seq::<Seq<Seq<char>>>::empty()
    } else {
        seq![record4("NEW ITEMS"@, "PRICE"@, "QTY"@, "STATUS"@)] + create_records(
            ctx.products,
            ctx.plan.to_create,
        ) + seq![blank_record()]
    };
    let counts = count_records(ctx, state, timestamp);
    let failed = failure_records(state.rows);
    if 0 <= i < ctx.plan.to_create.len() {
        let at = counts.len() + changes.len() + 1 + i;
        assert(all[at] == create_records(ctx.products, ctx.plan.to_create)[i]);
    }
    if 0 <= i < state.rows.len() {
        assert(all[8 + i] == change_records(state.rows)[i]);
        if state.rows[i].failed {
            let k = lemma_failure_is_listed(state.rows, i);
            let at = counts.len() + changes.len() + creates.len() + 1 + k;
            assert(all[at] == failed[k]);
        }
    }
}

proof fn lemma_failure_is_listed(rows: Seq<ChangeRowView>, i: int) -> (k: int)
    requires
        0 <= i < rows.len(),
        rows[i].failed,
    ensures
        0 <= k < failure_records(rows).len(),
        failure_records(rows)[k] == record4(
            rows[i].sku,
            rows[i].price_col,
            rows[i].qty_col,
            rows[i].error,
        ),
    decreases rows.len(),
{
    if i == rows.len() - 1 {
        failure_records(rows).len() - 1
    } else {
        lemma_failure_is_listed(rows.drop_last(), i)
    }
}

/// One more row is one more success where it did not fail; then it is one more line
/// among the changes, and else one more record among the failures.
pub proof fn law_rows_are_sorted_out(rows: Seq<ChangeRowView>, row: ChangeRowView)
    ensures
        successes(Seq::empty()) == 0,
        successes(rows.push(row)) == successes(rows) + if row.failed {
            0nat
        } else {
            1nat
        },
        change_lines(Seq::empty()).len() == 0,
        row.failed ==> change_lines(rows.push(row)) == change_lines(rows),
        !row.failed ==> change_lines(rows.push(row)) == change_lines(rows) + ("    "@ + padded(
            row.sku,
            22,
        ) + "  "@ + padded(row.price_col, 24) + "  "@ + row.qty_col + "\n"@),
        failure_records(Seq::empty()).len() == 0,
        row.failed ==> failure_records(rows.push(row)) == failure_records(rows).push(
            seq![row.sku, row.price_col, row.qty_col, row.error],
        ),
        !row.failed ==> failure_records(rows.push(row)) == failure_records(rows),
{
    assert(rows.push(row).drop_last() =~= rows);
    assert(change_lines(rows) + Seq::<char>::empty() =~= change_lines(rows));
}

/// Each section of the report is headed with the number of its items, and a section
/// without items is left out.
pub proof fn law_sections_of_the_report(
    ctx: RunContext,
    state: RunState,
    timestamp: Seq<char>,
)
    requires
        ctx.total() > 0,
    ensures
        ({
            let none = Seq::<char>::empty();
            let changes = if state.rows.len() == 0 {
                none
            } else {
                "CHANGES ("@ + decimal(successes(state.rows)) + "):\n"@ + ("    "@ + padded(
                    "SKU"@,
                    22,
                ) + "  "@ + padded("PRICE"@, 24) + "  "@ + "QTY"@ + "\n"@) + "    "@ + repeated(
                    '-',
                    65,
                ) + "\n"@ + change_lines(state.rows) + "\n"@
            };
            let items = if state.new_items.len() == 0 {
                none
            } else {
                "NEW ITEMS ("@ + decimal(state.new_items.len())
                    + ") -- entered as drafts, action required:\n"@ + joined(
                    state.new_items,
                    "\n"@,
                ) + "\n\n"@
            };
            let failures = if state.failures.len() == 0 {
                none
            } else {
                "FAILURES ("@ + decimal(state.failures.len()) + "):\n"@ + joined(
                    state.failures,
                    "\n"@,
                ) + "\n"@
            };
            report_text(ctx, state, timestamp) == summary_text(ctx, state, timestamp) + changes
                + items + failures
        }),
{
}

/// The report on a run that had nothing to send says so.
pub proof fn law_report_on_nothing(ctx: RunContext, state: RunState, timestamp: Seq<char>)
    requires
        ctx.plan.to_update.len() == 0,
        ctx.plan.to_create.len() == 0,
    ensures
        report_text(ctx, state, timestamp) == "Everything already up to date."@,
{
}

/// The table of a run is saved exactly where a product was sent, well or not.
pub proof fn law_table_is_saved(state: RunState)
    requires
        0 <= state.position,
        state.updated + state.created + state.failed == state.position,
    ensures
        did_anything(state) <==> state.position > 0,
{
}

} // verus!

//! Writing corrected SKUs to the store.
use vstd::prelude::*;
use vstd::string::*;

use crate::api::{set_sku, set_sku_request};
use crate::exchange::{is_rate_limited, rate_limited, Action, ActionView, Reply, ReplyView};
use crate::numbers::{decimal, decimal_of};
use crate::services::sku_api_fixer::{correction_views, SkuCorrection, SkuCorrectionView};
use crate::services::sku_selection::{
    choice_of, read_choice, Choice, ChoiceView, SelectionError,
};
use crate::text::optional;

verus! {

/// Why a SKU could not be written.
#[derive(Debug)]
pub enum SkuUpdateError {
    /// The exchange with the store failed.
    Transport(String),
    /// The store refused.
    Refused(String),
    /// The store refused again, after a wait.
    RefusedAgain(String),
    /// The reply does not fit the request.
    UnexpectedReply,
}

/// The model of a failure to write a SKU.
pub enum SkuUpdateErrorView {
    Transport(Seq<char>),
    Refused(Seq<char>),
    RefusedAgain(Seq<char>),
    UnexpectedReply,
}

impl View for SkuUpdateError {
    type V = SkuUpdateErrorView;

    open spec fn view(&self) -> SkuUpdateErrorView {
        match self {
            SkuUpdateError::Transport(m) => SkuUpdateErrorView::Transport(m@),
            SkuUpdateError::Refused(m) => SkuUpdateErrorView::Refused(m@),
            SkuUpdateError::RefusedAgain(m) => SkuUpdateErrorView::RefusedAgain(m@),
            SkuUpdateError::UnexpectedReply => SkuUpdateErrorView::UnexpectedReply,
        }
    }
}

impl SkuUpdateErrorView {
    /// The message of the failure.
    pub open spec fn text(self) -> Seq<char> {
        match self {
            SkuUpdateErrorView::Transport(m) => m,
            SkuUpdateErrorView::Refused(m) => "SKU update failed: "@ + m,
            SkuUpdateErrorView::RefusedAgain(m) => "SKU update failed after retry: "@ + m,
            SkuUpdateErrorView::UnexpectedReply => "unexpected reply"@,
        }
    }
}

impl SkuUpdateError {
    /// The message of the failure.
    pub fn message(&self) -> (message: String)
        ensures
            message@ == self@.text(),
    {
        match self {
            SkuUpdateError::Transport(m) => m.clone(),
            SkuUpdateError::Refused(m) => {
                let mut message = "SKU update failed: ".to_owned();
                message.append(m.as_str());
                message
            },
            SkuUpdateError::RefusedAgain(m) => {
                let mut message = "SKU update failed after retry: ".to_owned();
                message.append(m.as_str());
                message
            },
            SkuUpdateError::UnexpectedReply => "unexpected reply".to_owned(),
        }
    }
}

/// Where the exchange about one SKU stands.
#[derive(Debug, Clone, Copy, PartialEq, Eq, Structural)]
pub enum UpdateStage {
    Begin,
    Asked,
    /// Waiting because requests came too fast.
    Pausing,
    AskedAgain,
}

/// One turn of the exchange about one SKU: it goes on, or it ends.
#[derive(Debug)]
pub enum UpdateTurn {
    Continue(UpdateStage, Action),
    End(Result<(), SkuUpdateError>),
}

/// The model of a turn.
pub enum UpdateTurnView {
    Continue(UpdateStage, ActionView),
    End(Result<(), SkuUpdateErrorView>),
}

impl View for UpdateTurn {
    type V = UpdateTurnView;

    open spec fn view(&self) -> UpdateTurnView {
        match self {
            UpdateTurn::Continue(stage, action) => UpdateTurnView::Continue(*stage, action@),
            UpdateTurn::End(Ok(_)) => UpdateTurnView::End(Ok(())),
            UpdateTurn::End(Err(error)) => UpdateTurnView::End(Err(error@)),
        }
    }
}

/// What the exchange about one SKU does next. It asks once; where requests came
/// too fast, it waits and asks once more.
pub open spec fn update_responds(
    base: Seq<char>,
    variant: int,
    sku: Seq<char>,
    stage: UpdateStage,
    reply: ReplyView,
) -> UpdateTurnView {
    match (stage, reply) {
        (UpdateStage::Begin, _) => UpdateTurnView::Continue(
            UpdateStage::Asked,
            ActionView::Send(set_sku(base, variant, sku)),
        ),
        (UpdateStage::Pausing, _) => UpdateTurnView::Continue(
            UpdateStage::AskedAgain,
            ActionView::Send(set_sku(base, variant, sku)),
        ),
        (_, ReplyView::Success) => UpdateTurnView::End(Ok(())),
        (UpdateStage::Asked, ReplyView::ErrorText(body)) => if rate_limited(body) {
            UpdateTurnView::Continue(UpdateStage::Pausing, ActionView::Wait(4000))
        } else {
            UpdateTurnView::End(Err(SkuUpdateErrorView::Refused(body)))
        },
        (_, ReplyView::ErrorText(body)) => UpdateTurnView::End(
            Err(SkuUpdateErrorView::RefusedAgain(body)),
        ),
        (_, ReplyView::Failed(m)) => UpdateTurnView::End(Err(SkuUpdateErrorView::Transport(m))),
        _ => UpdateTurnView::End(Err(SkuUpdateErrorView::UnexpectedReply)),
    }
}

/// Takes the reply to the last action of the exchange about one SKU, and says
/// what is done next.
pub fn update_variant_sku(
    base: &str,
    variant_id: i64,
    new_sku: &str,
    stage: UpdateStage,
    reply: Reply,
) -> (turn: UpdateTurn)
    ensures
        turn@ == update_responds(base@, variant_id as int, new_sku@, stage, reply@),
{
    match stage {
        UpdateStage::Begin => UpdateTurn::Continue(
            UpdateStage::Asked,
            Action::Send(set_sku_request(base, variant_id, new_sku)),
        ),
        UpdateStage::Pausing => UpdateTurn::Continue(
            UpdateStage::AskedAgain,
            Action::Send(set_sku_request(base, variant_id, new_sku)),
        ),
        UpdateStage::Asked => match reply {
            Reply::Success => UpdateTurn::End(Ok(())),
            Reply::ErrorText(body) => if is_rate_limited(body.as_str()) {
                UpdateTurn::Continue(UpdateStage::Pausing, Action::Wait(4000))
            } else {
                UpdateTurn::End(Err(SkuUpdateError::Refused(body)))
            },
            Reply::Failed(m) => UpdateTurn::End(Err(SkuUpdateError::Transport(m))),
            _ => UpdateTurn::End(Err(SkuUpdateError::UnexpectedReply)),
        },
        UpdateStage::AskedAgain => match reply {
            Reply::Success => UpdateTurn::End(Ok(())),
            Reply::ErrorText(body) => UpdateTurn::End(Err(SkuUpdateError::RefusedAgain(body))),
            Reply::Failed(m) => UpdateTurn::End(Err(SkuUpdateError::Transport(m))),
            _ => UpdateTurn::End(Err(SkuUpdateError::UnexpectedReply)),
        },
    }
}

/// What stays the same while corrections are applied.
pub struct FixContext {
    pub base: Seq<char>,
    pub corrections: Seq<SkuCorrectionView>,
    pub selected: Seq<int>,
}

/// Where the application of corrections stands.
#[derive(Debug, Clone, Copy, PartialEq, Eq, Structural)]
pub enum FixStage {
    Begin,
    /// Waiting before the next correction.
    Pausing,
    /// In the exchange about the next correction.
    Talking(UpdateStage),
    Closed,
}

/// The state of the application of corrections.
pub struct FixState {
    pub stage: FixStage,
    /// How many of the selected corrections are done.
    pub position: int,
    pub success: nat,
    pub failed: nat,
    /// What is shown to the user now.
    pub notice: Option<Seq<char>>,
}

/// One turn of the application of corrections.
pub struct FixTurn {
    pub state: FixState,
    pub action: ActionView,
}

/// The turn that goes on to the next correction, or ends.
pub open spec fn fix_goes_on(ctx: FixContext, state: FixState) -> FixTurn {
    if state.position < ctx.selected.len() {
        FixTurn {
            state: FixState { stage: FixStage::Pausing, ..state },
            action: ActionView::Wait(500),
        }
    } else {
        FixTurn {
            state: FixState { stage: FixStage::Closed, ..state },
            action: ActionView::Finish,
        }
    }
}

/// What is shown when the exchange about a correction has ended.
pub open spec fn fix_notice(
    correction: SkuCorrectionView,
    result: Result<(), SkuUpdateErrorView>,
) -> Seq<char> {
    match result {
        Ok(_) => "  \u{2714}  "@ + correction.old_sku + " \u{2192} "@ + correction.new_sku,
        Err(error) => "  \u{2717}  "@ + correction.old_sku + " \u{2014} error: "@ + error.text(),
    }
}

/// The turn that hands a reply to the exchange about the next correction.
pub open spec fn fix_talks(
    ctx: FixContext,
    state: FixState,
    stage: UpdateStage,
    reply: ReplyView,
) -> FixTurn {
    let c = ctx.corrections[ctx.selected[state.position]];
    match update_responds(ctx.base, c.variant_id, c.new_sku, stage, reply) {
        UpdateTurnView::Continue(next, action) => FixTurn {
            state: FixState { stage: FixStage::Talking(next), notice: None, ..state },
            action,
        },
        UpdateTurnView::End(result) => fix_goes_on(
            ctx,
            FixState {
                position: state.position + 1,
                success: if result is Ok {
                    state.success + 1
                } else {
                    state.success
                },
                failed: if result is Ok {
                    state.failed
                } else {
                    state.failed + 1
                },
                notice: Some(fix_notice(c, result)),
                ..state
            },
        ),
    }
}

/// What the application of corrections does next.
pub open spec fn fix_responds(ctx: FixContext, state: FixState, reply: ReplyView) -> FixTurn {
    match state.stage {
        FixStage::Begin => fix_goes_on(ctx, FixState { notice: None, ..state }),
        FixStage::Pausing => fix_talks(ctx, state, UpdateStage::Begin, reply),
        FixStage::Talking(stage) => fix_talks(ctx, state, stage, reply),
        FixStage::Closed => FixTurn {
            state: FixState { notice: None, ..state },
            action: ActionView::Finish,
        },
    }
}

/// How many corrections were applied and how many failed, in words.
pub open spec fn fix_summary(success: nat, failed: nat) -> Seq<char> {
    "  Done. "@ + decimal(success) + " corrected, "@ + decimal(failed) + " failed."@
}

/// The application of selected corrections to the store.
#[derive(Debug)]
pub struct FixRun<'a> {
    pub base: &'a str,
    pub corrections: &'a Vec<SkuCorrection>,
    pub selected: Vec<usize>,
    pub stage: FixStage,
    pub position: usize,
    pub success: usize,
    pub failed: usize,
    pub notice: Option<String>,
}

impl<'a> FixRun<'a> {
    /// What stays the same.
    pub open spec fn context(self) -> FixContext {
        FixContext {
            base: self.base@,
            corrections: correction_views(self.corrections@),
            selected: self.selected@.map_values(|i: usize| i as int),
        }
    }

    /// The state.
    pub open spec fn state(self) -> FixState {
        FixState {
            stage: self.stage,
            position: self.position as int,
            success: self.success as nat,
            failed: self.failed as nat,
            notice: optional(self.notice),
        }
    }

    /// The selection names corrections, the counts agree, and corrections are
    /// left while the run goes on.
    pub open spec fn well_formed(self) -> bool {
        &&& forall|i: int|
            0 <= i < self.selected@.len() ==> #[trigger] self.selected@[i]
                < self.corrections@.len()
        &&& self.success + self.failed == self.position
        &&& self.position <= self.selected@.len()
        &&& (self.stage is Pausing || self.stage is Talking) ==> self.position
            < self.selected@.len()
        &&& self.stage is Closed ==> self.position == self.selected@.len()
    }

    fn go_on(&mut self) -> (action: Action)
        requires
            forall|i: int|
                0 <= i < old(self).selected@.len() ==> #[trigger] old(self).selected@[i]
                    < old(self).corrections@.len(),
            old(self).success + old(self).failed == old(self).position,
            old(self).position <= old(self).selected@.len(),
        ensures
            final(self).well_formed(),
            final(self).context() == old(self).context(),
            (FixTurn { state: final(self).state(), action: action@ }) == fix_goes_on(
                old(self).context(),
                old(self).state(),
            ),
    {
        if self.position < self.selected.len() {
            self.stage = FixStage::Pausing;
            Action::Wait(500)
        } else {
            self.stage = FixStage::Closed;
            Action::Finish
        }
    }

    fn talk(&mut self, stage: UpdateStage, reply: Reply) -> (action: Action)
        requires
            old(self).well_formed(),
            old(self).position < old(self).selected@.len(),
        ensures
            final(self).well_formed(),
            final(self).context() == old(self).context(),
            (FixTurn { state: final(self).state(), action: action@ }) == fix_talks(
                old(self).context(),
                old(self).state(),
                stage,
                reply@,
            ),
    {
        assert(self.selected.len() == self.selected@.len());
        let number = self.selected[self.position];
        let c = &self.corrections[number];
        assert(self.context().selected[self.position as int] == number);
        assert(self.context().corrections[number as int] == c@);
        match update_variant_sku(self.base, c.variant_id, c.new_sku.as_str(), stage, reply) {
            UpdateTurn::Continue(next, action) => {
                self.stage = FixStage::Talking(next);
                self.notice = None;
                action
            },
            UpdateTurn::End(Ok(_)) => {
                let mut notice = "  \u{2714}  ".to_owned();
                notice.append(c.old_sku.as_str());
                notice.append(" \u{2192} ");
                notice.append(c.new_sku.as_str());
                self.notice = Some(notice);
                self.success = self.success + 1;
                self.position = self.position + 1;
                self.go_on()
            },
            UpdateTurn::End(Err(error)) => {
                let mut notice = "  \u{2717}  ".to_owned();
                notice.append(c.old_sku.as_str());
                notice.append(" \u{2014} error: ");
                let message = error.message();
                notice.append(message.as_str());
                self.notice = Some(notice);
                self.failed = self.failed + 1;
                self.position = self.position + 1;
                self.go_on()
            },
        }
    }

    /// Takes the reply to the last action, and says what is done next.
    pub fn step(&mut self, reply: Reply) -> (action: Action)
        requires
            old(self).well_formed(),
        ensures
            final(self).well_formed(),
            final(self).context() == old(self).context(),
            (FixTurn { state: final(self).state(), action: action@ }) == fix_responds(
                old(self).context(),
                old(self).state(),
                reply@,
            ),
    {
        match self.stage {
            FixStage::Begin => {
                self.notice = None;
                self.go_on()
            },
            FixStage::Pausing => self.talk(UpdateStage::Begin, reply),
            FixStage::Talking(stage) => self.talk(stage, reply),
            FixStage::Closed => {
                self.notice = None;
                Action::Finish
            },
        }
    }

    /// How many corrections were applied and how many failed, in words.
    pub fn summary(&self) -> (text: String)
        ensures
            text@ == fix_summary(self.success as nat, self.failed as nat),
    {
        let mut text = "  Done. ".to_owned();
        let success = decimal_of(self.success as u64);
        let failed = decimal_of(self.failed as u64);
        text.append(success.as_str());
        text.append(" corrected, ");
        text.append(failed.as_str());
        text.append(" failed.");
        text
    }
}

/// The run at its beginning.
pub fn run_api_sku_fix<'a>(
    base: &'a str,
    corrections: &'a Vec<SkuCorrection>,
    selected: Vec<usize>,
) -> (run: FixRun<'a>)
    requires
        forall|i: int|
            0 <= i < selected@.len() ==> #[trigger] selected@[i] < corrections@.len(),
    ensures
        run.well_formed(),
        run.context() == (FixContext {
            base: base@,
            corrections: correction_views(corrections@),
            selected: selected@.map_values(|i: usize| i as int),
        }),
        run.state() == (FixState {
            stage: FixStage::Begin,
            position: 0,
            success: 0,
            failed: 0,
            notice: None,
        }),
{
    FixRun {
        base,
        corrections,
        selected,
        stage: FixStage::Begin,
        position: 0,
        success: 0,
        failed: 0,
        notice: None,
    }
}

/// What the answer to the question about the corrections leads to.
#[derive(Debug)]
pub enum FixStart<'a> {
    /// Nothing is to be done.
    Aborted,
    /// The answer selects no correction.
    NothingSelected,
    /// The answer is faulty.
    Faulty(SelectionError),
    /// These corrections are to be applied.
    Run(FixRun<'a>),
}

/// Begins to apply the corrections that an answer asks for.
pub fn begin_fix<'a>(
    base: &'a str,
    corrections: &'a Vec<SkuCorrection>,
    answer: &str,
) -> (start: FixStart<'a>)
    ensures
        match choice_of(answer@, corrections@.len() as int) {
            ChoiceView::Abort => start is Aborted,
            ChoiceView::Faulty(error) => start matches FixStart::Faulty(e) && e@ == error,
            ChoiceView::Apply(list) => if list.len() == 0 {
                start is NothingSelected
            } else {
                start matches FixStart::Run(run) && run.well_formed() && run.context() == (
                FixContext {
                    base: base@,
                    corrections: correction_views(corrections@),
                    selected: list,
                }) && run.state() == (FixState {
                    stage: FixStage::Begin,
                    position: 0,
                    success: 0,
                    failed: 0,
                    notice: None,
                })
            },
        },
{
    match read_choice(answer, corrections.len()) {
        Choice::Abort => FixStart::Aborted,
        Choice::Faulty(error) => FixStart::Faulty(error),
        Choice::Apply(selected) => {
            if selected.len() == 0 {
                return FixStart::NothingSelected;
            }
            FixStart::Run(run_api_sku_fix(base, corrections, selected))
        },
    }
}

/// When the run is over, each selected correction was applied or failed.
pub proof fn law_fix_accounts_for_every_selection(run: FixRun)
    requires
        run.well_formed(),
        run.stage is Closed,
    ensures
        run.success + run.failed == run.selected@.len(),
{
}

/// How far the exchange about one SKU is from its end.
pub open spec fn update_rank(stage: UpdateStage) -> int {
    match stage {
        UpdateStage::Begin => 4,
        UpdateStage::Asked => 3,
        UpdateStage::Pausing => 2,
        UpdateStage::AskedAgain => 1,
    }
}

/// How far the application of corrections is from its end.
pub open spec fn fix_distance(ctx: FixContext, state: FixState) -> int {
    match state.stage {
        FixStage::Begin => (ctx.selected.len() - state.position) * 6 + 6,
        FixStage::Pausing => (ctx.selected.len() - state.position) * 6 + 5,
        FixStage::Talking(stage) => (ctx.selected.len() - state.position) * 6 + update_rank(stage),
        FixStage::Closed => 0,
    }
}

/// Whatever the store replies, every turn brings the run nearer to its end; so
/// each SKU is asked for at most twice.
#[verifier::spinoff_prover]
#[verifier::rlimit(40)]
pub proof fn law_fix_ends(ctx: FixContext, state: FixState, reply: ReplyView)
    requires
        0 <= state.position <= ctx.selected.len(),
        state.stage is Pausing || state.stage is Talking ==> state.position < ctx.selected.len(),
        !(state.stage is Closed),
    ensures
        0 <= fix_distance(ctx, fix_responds(ctx, state, reply).state) < fix_distance(ctx, state),
{
}

/// A SKU is written by one request; where requests came too fast, the same request
/// is sent once more after four seconds. Its success is the success, and the words
/// of a refusal are the failure.
pub proof fn law_course_of_a_sku_update(
    base: Seq<char>,
    variant: int,
    sku: Seq<char>,
    reply: ReplyView,
    body: Seq<char>,
    slow: Seq<char>,
)
    requires
        rate_limited(slow),
    ensures
        ({
            let request = ActionView::Send(set_sku(base, variant, sku));
            let answers = |stage: UpdateStage, reply: ReplyView|
                update_responds(base, variant, sku, stage, reply);
            let done = UpdateTurnView::End(Ok(()));
            &&& answers(UpdateStage::Begin, reply) == UpdateTurnView::Continue(
                UpdateStage::Asked,
                request,
            )
            &&& answers(UpdateStage::Asked, ReplyView::Success) == done
            &&& answers(UpdateStage::Asked, ReplyView::ErrorText(slow))
                == UpdateTurnView::Continue(UpdateStage::Pausing, ActionView::Wait(4000))
            &&& answers(UpdateStage::Pausing, reply) == UpdateTurnView::Continue(
                UpdateStage::AskedAgain,
                request,
            )
            &&& answers(UpdateStage::AskedAgain, ReplyView::Success) == done
            &&& !rate_limited(body) ==> answers(UpdateStage::Asked, ReplyView::ErrorText(body))
                == UpdateTurnView::End(Err(SkuUpdateErrorView::Refused(body)))
            &&& answers(UpdateStage::AskedAgain, ReplyView::ErrorText(body))
                == UpdateTurnView::End(Err(SkuUpdateErrorView::RefusedAgain(body)))
            &&& answers(UpdateStage::Asked, ReplyView::Failed(body)) == UpdateTurnView::End(
                Err(SkuUpdateErrorView::Transport(body)),
            )
            &&& answers(UpdateStage::AskedAgain, ReplyView::Failed(body)) == UpdateTurnView::End(
                Err(SkuUpdateErrorView::Transport(body)),
            )
            &&& reply is Ready || reply is Ignored || reply is Json ==> answers(
                UpdateStage::Asked,
                reply,
            ) == UpdateTurnView::End(Err(SkuUpdateErrorView::UnexpectedReply))
        }),
{
}

/// The selected corrections are applied one after the other: for each the SKU of
/// the price file is written to its own variant.
pub proof fn law_every_selected_correction_is_written(
    ctx: FixContext,
    state: FixState,
    reply: ReplyView,
)
    requires
        state.stage is Pausing,
        0 <= state.position < ctx.selected.len(),
    ensures
        ({
            let correction = ctx.corrections[ctx.selected[state.position]];
            let turn = fix_responds(ctx, state, reply);
            &&& turn.action == ActionView::Send(
                set_sku(ctx.base, correction.variant_id, correction.new_sku),
            )
            &&& turn.state.position == state.position
            &&& turn.state.success == state.success && turn.state.failed == state.failed
        }),
{
}

/// A correction that was written counts as a success and is shown with the old SKU
/// and the new one; one that failed counts as a failure and is shown with what went
/// wrong. Then the next one follows after half a second, or the run is over.
pub proof fn law_corrections_are_counted(
    ctx: FixContext,
    state: FixState,
    stage: UpdateStage,
    reply: ReplyView,
)
    requires
        state.stage == FixStage::Talking(stage),
        0 <= state.position < ctx.selected.len(),
    ensures
        ({
            let correction = ctx.corrections[ctx.selected[state.position]];
            let said = update_responds(
                ctx.base,
                correction.variant_id,
                correction.new_sku,
                stage,
                reply,
            );
            let turn = fix_responds(ctx, state, reply);
            &&& said matches UpdateTurnView::Continue(next, action) ==> turn.action == action
                && turn.state.stage == FixStage::Talking(next) && turn.state.position
                == state.position && turn.state.success == state.success && turn.state.failed
                == state.failed
            &&& said matches UpdateTurnView::End(result) ==> {
                &&& turn.state.position == state.position + 1
                &&& turn.state.position < ctx.selected.len() ==> turn.action == ActionView::Wait(
                    500,
                ) && turn.state.stage is Pausing
                &&& turn.state.position == ctx.selected.len() ==> turn.action
                    == ActionView::Finish && turn.state.stage is Closed
                &&& result is Ok ==> {
                    &&& turn.state.success == state.success + 1
                    &&& turn.state.failed == state.failed
                    &&& turn.state.notice == Some(
                        "  \u{2714}  "@ + correction.old_sku + " \u{2192} "@ + correction.new_sku,
                    )
                }
                &&& result matches Err(error) ==> {
                    &&& turn.state.success == state.success
                    &&& turn.state.failed == state.failed + 1
                    &&& turn.state.notice == Some(
                        "  \u{2717}  "@ + correction.old_sku + " \u{2014} error: "@ + error.text(),
                    )
                }
            }
        }),
{
}

/// A run begins with the first selected correction, where there is one.
pub proof fn law_fix_begins(ctx: FixContext, state: FixState, reply: ReplyView)
    requires
        state.stage is Begin,
        state.position == 0,
    ensures
        ({
            let turn = fix_responds(ctx, state, reply);
            &&& ctx.selected.len() > 0 ==> turn.action == ActionView::Wait(500)
                && turn.state.stage is Pausing
            &&& ctx.selected.len() == 0 ==> turn.action == ActionView::Finish
                && turn.state.stage is Closed
            &&& turn.state.position == 0 && turn.state.success == state.success
                && turn.state.failed == state.failed
        }),
{
}

/// The failure to write a SKU is told in the words of the store.
pub proof fn law_failed_updates_are_told(words: Seq<char>)
    ensures
        SkuUpdateErrorView::Transport(words).text() == words,
        SkuUpdateErrorView::Refused(words).text() == "SKU update failed: "@ + words,
        SkuUpdateErrorView::RefusedAgain(words).text() == "SKU update failed after retry: "@
            + words,
{
}

/// The numbers of applied and failed corrections are told at the end.
pub proof fn law_fix_is_summed_up(success: nat, failed: nat)
    ensures
        fix_summary(success, failed) == "  Done. "@ + decimal(success) + " corrected, "@ + decimal(
            failed,
        ) + " failed."@,
{
}

} // verus!

//! When condition evaluation.
//!
//! Most conditions are decided from the context alone. Two need the world
//! outside: whether a command succeeds and whether a path exists. For those
//! the evaluation says what to find out, and the caller reports the answer.

use vstd::prelude::*;
use crate::error::{ExecutionError, ExecutionResult};
use crate::runner::command::{
    check_command, check_request, interpolate_or_raw, resolved_or_raw, Invocation,
};
use crate::runner::context::{join_path, path_join, Context};
use crate::runner::task::{When, WhenCondition};

verus! {

/// What evaluating one condition gives.
#[derive(Debug)]
pub enum Evaluation {
    /// The condition holds, or does not.
    Decided(bool),
    /// The condition holds exactly if this process exits successfully.
    Command(Invocation),
    /// The condition holds exactly if something exists at this path.
    Path(String),
}

/// What evaluating a list of conditions gives.
#[derive(Debug)]
pub enum ListEvaluation {
    /// All conditions hold, or one does not.
    Decided(bool),
    /// The conditions before `index` hold; whether the one at `index` does
    /// is for the caller to find out as `probe` says.
    Pending { index: usize, probe: Evaluation },
}

impl When {
    /// Whether the condition holds, where the context alone decides it.
    /// Both sides of a comparison and the name of an environment variable
    /// are interpolated first (and taken as written where that fails); the
    /// name of an option is taken as written.
    pub open spec fn decided(&self, ctx: &Context) -> Option<bool> {
        match self.condition {
            WhenCondition::Always => Some(true),
            WhenCondition::Equal { left, right } => Some(
                resolved_or_raw(left@, ctx) == resolved_or_raw(right@, ctx),
            ),
            WhenCondition::NotEqual { left, right } => Some(
                resolved_or_raw(left@, ctx) != resolved_or_raw(right@, ctx),
            ),
            WhenCondition::Command(_) => None,
            WhenCondition::Exists(_) => None,
            WhenCondition::EnvSet(name) => Some(
                ctx.env@.contains_key(resolved_or_raw(name@, ctx)),
            ),
            WhenCondition::EnvNotSet(name) => Some(
                !ctx.env@.contains_key(resolved_or_raw(name@, ctx)),
            ),
            WhenCondition::OptionSet(name) => Some(ctx.vars@.contains_key(name@)),
            WhenCondition::OptionNotSet(name) => Some(!ctx.vars@.contains_key(name@)),
        }
    }

    /// Whether `r` is what evaluating the condition in `ctx` gives.
    pub open spec fn evaluation(&self, ctx: &Context, r: ExecutionResult<Evaluation>) -> bool {
        match self.condition {
            WhenCondition::Command(cmd) => match r {
                Ok(Evaluation::Command(invocation)) => check_request(cmd@, ctx, Ok(invocation)),
                Ok(_) => false,
                Err(e) => check_request(cmd@, ctx, Err(e)),
            },
            WhenCondition::Exists(path) => r matches Ok(Evaluation::Path(full)) && full@
                == path_join(ctx.working_dir@, resolved_or_raw(path@, ctx)),
            _ => r matches Ok(Evaluation::Decided(b)) && self.decided(ctx) == Some(b),
        }
    }
}

/// Evaluates a single when condition.
pub fn evaluate_when(condition: &When, ctx: &Context) -> (r: ExecutionResult<Evaluation>)
    ensures
        condition.evaluation(ctx, r),
{
    match &condition.condition {
        WhenCondition::Always => Ok(Evaluation::Decided(true)),
        WhenCondition::Equal { left, right } => {
            let left_val = interpolate_or_raw(left.as_str(), ctx);
            let right_val = interpolate_or_raw(right.as_str(), ctx);
            Ok(Evaluation::Decided(left_val == right_val))
        },
        WhenCondition::NotEqual { left, right } => {
            let left_val = interpolate_or_raw(left.as_str(), ctx);
            let right_val = interpolate_or_raw(right.as_str(), ctx);
            Ok(Evaluation::Decided(!(left_val == right_val)))
        },
        WhenCondition::Command(cmd) => match check_command(cmd.as_str(), ctx) {
            Ok(invocation) => Ok(Evaluation::Command(invocation)),
            Err(e) => Err(e),
        },
        WhenCondition::Exists(path) => {
            let path_str = interpolate_or_raw(path.as_str(), ctx);
            Ok(Evaluation::Path(join_path(ctx.working_dir.as_str(), path_str.as_str())))
        },
        WhenCondition::EnvSet(var_name) => {
            let var = interpolate_or_raw(var_name.as_str(), ctx);
            Ok(Evaluation::Decided(ctx.env.contains_key(var.as_str())))
        },
        WhenCondition::EnvNotSet(var_name) => {
            let var = interpolate_or_raw(var_name.as_str(), ctx);
            Ok(Evaluation::Decided(!ctx.env.contains_key(var.as_str())))
        },
        WhenCondition::OptionSet(opt_name) => Ok(
            Evaluation::Decided(ctx.vars.contains_key(opt_name.as_str())),
        ),
        WhenCondition::OptionNotSet(opt_name) => Ok(
            Evaluation::Decided(!ctx.vars.contains_key(opt_name.as_str())),
        ),
    }
}

/// The position of the first condition, at or after `from`, that the
/// context does not decide to hold; the length of the list where all do.
pub open spec fn first_stop(conditions: Seq<When>, ctx: &Context, from: int) -> int
    decreases conditions.len() - from,
{
    if from < 0 || from >= conditions.len() {
        conditions.len() as int
    } else if conditions[from].decided(ctx) != Some(true) {
        from
    } else {
        first_stop(conditions, ctx, from + 1)
    }
}

/// Whether `r` is what evaluating `conditions` from position `from` on
/// gives: all hold; or the first that does not hold is decided, and nothing
/// after it is looked at; or the first that is not decided needs a probe.
pub open spec fn list_evaluation(
    conditions: Seq<When>,
    ctx: &Context,
    from: int,
    r: ExecutionResult<ListEvaluation>,
) -> bool {
    let stop = first_stop(conditions, ctx, from);
    if stop >= conditions.len() {
        r matches Ok(ListEvaluation::Decided(true))
    } else if conditions[stop].decided(ctx) is Some {
        r matches Ok(ListEvaluation::Decided(false))
    } else {
        match r {
            Ok(ListEvaluation::Pending { index, probe }) => index == stop
                && conditions[stop].evaluation(ctx, Ok(probe)),
            Ok(_) => false,
            Err(e) => conditions[stop].evaluation(ctx, Err(e)),
        }
    }
}

/// Evaluates the conditions of a list from position `from` on. All must
/// hold: the first that does not decides the list, and the conditions after
/// it are not evaluated. Where a condition needs a probe, the caller finds
/// the answer and, if the condition holds, goes on behind it.
pub fn evaluate_when_list(when_list: &[When], ctx: &Context, from: usize) -> (r: ExecutionResult<
    ListEvaluation,
>)
    ensures
        list_evaluation(when_list@, ctx, from as int, r),
{
    let mut i: usize = from;
    while i < when_list.len()
        invariant
            first_stop(when_list@, ctx, from as int) == first_stop(when_list@, ctx, i as int),
        decreases when_list.len() - i,
    {
        match evaluate_when(&when_list[i], ctx) {
            Ok(Evaluation::Decided(true)) => {},
            Ok(Evaluation::Decided(false)) => {
                return Ok(ListEvaluation::Decided(false));
            },
            Ok(probe) => {
                return Ok(ListEvaluation::Pending { index: i, probe });
            },
            Err(e) => {
                return Err(e);
            },
        }
        i += 1;
    }
    Ok(ListEvaluation::Decided(true))
}

/// A condition that does not hold decides the list at once: where the
/// conditions from `from` up to `i` hold and the one at `i` does not, the
/// search stops at `i`, whatever comes after it.
pub proof fn lemma_short_circuit(conditions: Seq<When>, ctx: &Context, from: int, i: int)
    requires
        0 <= from <= i < conditions.len(),
        forall|j: int| from <= j < i ==> (#[trigger] conditions[j]).decided(ctx) == Some(true),
        conditions[i].decided(ctx) == Some(false),
    ensures
        first_stop(conditions, ctx, from) == i,
        forall|r: ExecutionResult<ListEvaluation>| #[trigger]
            list_evaluation(conditions, ctx, from, r) ==> r matches Ok(
                ListEvaluation::Decided(false),
            ),
    decreases i - from,
{
    if from < i {
        lemma_short_circuit(conditions, ctx, from + 1, i);
    }
}

/// A failed-condition error with `reason` as its text.
pub fn failed_condition_error(reason: &str) -> (e: ExecutionError)
    ensures
        e matches ExecutionError::FailedCondition(text) && text@ == reason@,
{
    ExecutionError::FailedCondition(reason.to_owned())
}

} // verus!

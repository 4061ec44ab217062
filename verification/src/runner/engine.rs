//! The orchestration of a task run, as a machine that is stepped from
//! outside.
//!
//! Running a task means starting processes, probing the file system and
//! changing the process environment. None of that happens here. One step
//! takes what the caller reports of the last thing it was asked to do, moves
//! the run forward, and says what to do next. The caller does it and steps
//! again, until the run is finished.

use vstd::prelude::*;
use crate::collections::StringMap;
use crate::error::{ExecutionError, ExecutionResult};
use crate::runner::command::{
    check_result, command_result, copy_vars, execute_command, interpolate_or_raw, resolved_or_raw,
    spec_check_result, spec_command_result, Invocation, Outcome,
};
use crate::runner::context::{Context, Verbosity};
use crate::runner::task::{Run, SubTask, Task, WhenCondition};
use crate::runner::when::{
    evaluate_when_list, first_stop, lemma_short_circuit, Evaluation, ListEvaluation,
};

verus! {

/// Which of a task's two lists of run items is being executed.
#[derive(Debug, Clone, Copy, PartialEq, Eq, Structural)]
pub enum Phase {
    /// The run items.
    Main,
    /// The finally items.
    Finally,
}

/// Where in a task, or in one of its run items, the execution stands.
#[derive(Debug, Clone, Copy, PartialEq, Eq, Structural)]
pub enum Stage {
    /// The task has not been entered yet.
    Enter,
    /// At the conditions of the run item.
    Conditions,
    /// At the commands of the run item.
    Commands,
    /// At the subtasks of the run item.
    Subtasks,
    /// At the environment changes of the run item.
    Environment,
}

/// The state of one task invocation.
#[derive(Debug)]
pub struct Frame {
    /// The name under which the task is looked up; `None` for the task
    /// that the run began with.
    pub task: Option<String>,
    /// Variables that the task is entered with, on top of its own.
    pub vars: StringMap<String>,
    /// Which list of run items is being executed.
    pub phase: Phase,
    /// The position of the run item in that list.
    pub item: usize,
    /// Where in the run item the execution stands.
    pub stage: Stage,
    /// The position of the condition, command, subtask or environment
    /// change within the stage.
    pub index: usize,
    /// Whether the answer to the last request is still awaited.
    pub waiting: bool,
    /// The error that ended the run items, kept while the finally items run.
    pub failure: Option<ExecutionError>,
}

/// The state of a run: the task invocations in flight, outermost first, and
/// the result that the invocation which ended last handed back.
#[derive(Debug)]
pub struct Execution {
    pub frames: Vec<Frame>,
    pub returned: Option<ExecutionResult<()>>,
}

/// What the caller reports of the last request.
#[derive(Debug, Clone, Copy, PartialEq, Eq, Structural)]
pub enum Event {
    /// Nothing: the run begins, or the last request asked for no answer.
    Resume,
    /// How the process ended that was asked for.
    Exited(Outcome),
    /// Whether the path exists that was asked about.
    Exists(bool),
}

/// What the caller is asked to do next.
#[derive(Debug)]
pub enum Action {
    /// Nothing; step again.
    Continue,
    /// Print this line to the error stream, then step again.
    Print(String),
    /// Start this process, wait for it, and report how it ended.
    Run(Invocation),
    /// Report whether this path exists.
    CheckPath(String),
    /// Set this variable in the process environment, then step again.
    SetEnv { key: String, value: String },
    /// Remove this variable from the process environment, then step again.
    UnsetEnv { key: String },
    /// The run is over, with this result.
    Finished(ExecutionResult<()>),
}

impl Event {
    /// The process outcome that the event reports; an event of another kind
    /// counts as a process that was not started.
    pub open spec fn spec_outcome(&self) -> Outcome {
        match self {
            Event::Exited(outcome) => *outcome,
            _ => Outcome::NotStarted,
        }
    }

    /// The process outcome that the event reports.
    pub fn outcome(&self) -> (o: Outcome)
        ensures
            o == self.spec_outcome(),
    {
        match self {
            Event::Exited(outcome) => *outcome,
            _ => Outcome::NotStarted,
        }
    }

    /// Whether the event reports that the path exists; an event of another
    /// kind counts as a path that does not.
    pub open spec fn spec_path_exists(&self) -> bool {
        match self {
            Event::Exists(b) => *b,
            _ => false,
        }
    }

    /// Whether the event reports that the path exists.
    pub fn path_exists(&self) -> (b: bool)
        ensures
            b == self.spec_path_exists(),
    {
        match self {
            Event::Exists(b) => *b,
            _ => false,
        }
    }
}

impl Execution {
    /// The state in which the task that the run begins with is about to be
    /// entered, and nothing has happened yet.
    pub fn new() -> (run: Self)
        ensures
            run.returned is None,
            run.frames@.len() == 1,
            run.frames@[0].task is None,
            run.frames@[0].vars@ == Map::<Seq<char>, String>::empty(),
            run.frames@[0].stage == Stage::Enter,
            run.frames@[0].phase == Phase::Main,
            run.frames@[0].item == 0,
            run.frames@[0].index == 0,
            !run.frames@[0].waiting,
            run.frames@[0].failure is None,
    {
        let mut frames: Vec<Frame> = Vec::new();
        frames.push(
            Frame {
                task: None,
                vars: StringMap::new(),
                phase: Phase::Main,
                item: 0,
                stage: Stage::Enter,
                index: 0,
                waiting: false,
                failure: None,
            },
        );
        Execution { frames, returned: None }
    }

    /// Whether the run is over.
    pub fn is_finished(&self) -> (b: bool)
        ensures
            b == (self.frames@.len() == 0),
    {
        self.frames.len() == 0
    }
}

/// How one step changes the invocations in flight.
#[derive(Debug)]
pub enum Move {
    /// The innermost invocation goes on in this state.
    Stay(Frame),
    /// The innermost invocation goes on in the first state and waits for
    /// the new invocation in the second.
    Call(Frame, Frame),
    /// The innermost invocation is over and hands this result back.
    Return(ExecutionResult<()>),
}

/// Whether `action` asks to print `line`, or asks for nothing where there
/// is no line.
pub open spec fn shows(action: Action, line: Option<Seq<char>>) -> bool {
    match line {
        Some(text) => action matches Action::Print(printed) && printed@ == text,
        None => action is Continue,
    }
}

/// Whether `after` is `before` with the innermost task taken off the task
/// stack, and nothing else changed.
pub open spec fn left(before: &Context, after: &Context) -> bool {
    &&& after.working_dir == before.working_dir
    &&& after.config_path == before.config_path
    &&& after.vars == before.vars
    &&& after.env == before.env
    &&& after.interpreter == before.interpreter
    &&& after.verbosity == before.verbosity
    &&& after.task_stack.deep_view() == if before.task_stack@.len() > 0 {
        before.task_stack.deep_view().drop_last()
    } else {
        before.task_stack.deep_view()
    }
}

impl Frame {
    /// The frame at position `index` of `stage`, not waiting.
    pub open spec fn at(self, stage: Stage, index: usize) -> Frame {
        Frame { stage, index, waiting: false, ..self }
    }

    /// The frame at the start of run item `item`.
    pub open spec fn at_item(self, item: usize) -> Frame {
        Frame { item, stage: Stage::Conditions, index: 0, waiting: false, ..self }
    }

    /// The frame at the start of the finally items, with `failure` kept.
    pub open spec fn at_finally(self, failure: Option<ExecutionError>) -> Frame {
        Frame {
            phase: Phase::Finally,
            item: 0,
            stage: Stage::Conditions,
            index: 0,
            waiting: false,
            failure,
            ..self
        }
    }

    /// The frame waiting for an answer at position `index` of its stage.
    pub open spec fn awaiting(self, index: usize) -> Frame {
        Frame { index, waiting: true, ..self }
    }

    /// The error to report when `e` fails the invocation: an error kept
    /// from the run items comes before one of the finally items.
    pub open spec fn first_failure(self, e: ExecutionError) -> ExecutionError {
        match self.failure {
            Some(kept) => kept,
            None => e,
        }
    }
}

impl Task {
    /// The run items of `phase`.
    pub open spec fn items(&self, phase: Phase) -> Seq<Run> {
        match phase {
            Phase::Main => self.run@,
            Phase::Finally => self.finally@,
        }
    }

    /// Whether the invocation ends with result `r`: the task leaves the
    /// task stack, and its completion is reported if it succeeded.
    pub open spec fn finished(
        &self,
        before: &Context,
        r: ExecutionResult<()>,
        after: &Context,
        mv: Move,
        action: Action,
    ) -> bool {
        &&& mv == Move::Return(r)
        &&& left(before, after)
        &&& shows(
            action,
            if r is Ok {
                before.line(Verbosity::Verbose, "[DEBUG] "@, "Task completed: "@ + self.name@)
            } else {
                None
            },
        )
    }

    /// Whether the invocation goes on to its finally items with `failure`
    /// kept.
    pub open spec fn turned_to_finally(
        &self,
        before: &Context,
        frame: Frame,
        failure: Option<ExecutionError>,
        after: &Context,
        mv: Move,
        action: Action,
    ) -> bool {
        &&& mv == Move::Stay(frame.at_finally(failure))
        &&& *after == *before
        &&& shows(action, before.line(Verbosity::Verbose, "[DEBUG] "@, "Running finally block..."@))
    }

    /// Whether the step handles the failure `e` of the invocation in
    /// `frame`: a failure of the run items is kept and the finally items
    /// run, where there are any; otherwise the invocation ends with the
    /// first failure.
    pub open spec fn failed(
        &self,
        before: &Context,
        frame: Frame,
        e: ExecutionError,
        after: &Context,
        mv: Move,
        action: Action,
    ) -> bool {
        if frame.phase == Phase::Main && self.finally@.len() > 0 {
            self.turned_to_finally(before, frame, Some(frame.first_failure(e)), after, mv, action)
        } else {
            self.finished(before, Err(frame.first_failure(e)), after, mv, action)
        }
    }

    /// Whether the step handles the end of the run items of the phase of
    /// `frame`: after the run items the finally items run, where there are
    /// any; otherwise the invocation ends, with the failure that was kept
    /// or else with success.
    pub open spec fn completed(
        &self,
        before: &Context,
        frame: Frame,
        after: &Context,
        mv: Move,
        action: Action,
    ) -> bool {
        if frame.phase == Phase::Main && self.finally@.len() > 0 {
            self.turned_to_finally(before, frame, frame.failure, after, mv, action)
        } else {
            self.finished(
                before,
                match frame.failure {
                    Some(kept) => Err(kept),
                    None => Ok(()),
                },
                after,
                mv,
                action,
            )
        }
    }

    /// Ends the invocation with result `r`.
    fn finish(&self, ctx: &mut Context, r: ExecutionResult<()>) -> (out: (Move, Action))
        ensures
            self.finished(old(ctx), r, final(ctx), out.0, out.1),
    {
        let line = if r.is_ok() {
            ctx.print_task_complete(self.name.as_str())
        } else {
            None
        };
        ctx.pop_task();
        let action = match line {
            Some(text) => Action::Print(text),
            None => Action::Continue,
        };
        (Move::Return(r), action)
    }

    /// Turns to the finally items.
    fn turn_to_finally(&self, ctx: &Context, frame: Frame, failure: Option<ExecutionError>) -> (out: (
        Move,
        Action,
    ))
        ensures
            self.turned_to_finally(ctx, frame, failure, ctx, out.0, out.1),
    {
        let action = match ctx.print_debug("Running finally block...") {
            Some(text) => Action::Print(text),
            None => Action::Continue,
        };
        let mut next = frame;
        next.phase = Phase::Finally;
        next.item = 0;
        next.stage = Stage::Conditions;
        next.index = 0;
        next.waiting = false;
        next.failure = failure;
        (Move::Stay(next), action)
    }

    /// Handles the failure `e` of the invocation in `frame`.
    fn fail(&self, ctx: &mut Context, frame: Frame, e: ExecutionError) -> (out: (Move, Action))
        ensures
            self.failed(old(ctx), frame, e, final(ctx), out.0, out.1),
    {
        let mut frame = frame;
        let first = match frame.failure.take() {
            Some(kept) => kept,
            None => e,
        };
        if frame.phase == Phase::Main && self.finally.len() > 0 {
            self.turn_to_finally(ctx, frame, Some(first))
        } else {
            self.finish(ctx, Err(first))
        }
    }

    /// Handles the end of the run items of the phase of `frame`.
    fn complete(&self, ctx: &mut Context, frame: Frame) -> (out: (Move, Action))
        ensures
            self.completed(old(ctx), frame, final(ctx), out.0, out.1),
    {
        let mut frame = frame;
        if frame.phase == Phase::Main && self.finally.len() > 0 {
            let kept = frame.failure.take();
            self.turn_to_finally(ctx, frame, kept)
        } else {
            match frame.failure.take() {
                Some(kept) => self.finish(ctx, Err(kept)),
                None => self.finish(ctx, Ok(())),
            }
        }
    }
}

/// Whether `after` is `before` with other variables, and nothing else
/// changed.
pub open spec fn same_but_vars(before: &Context, after: &Context) -> bool {
    &&& after.working_dir == before.working_dir
    &&& after.config_path == before.config_path
    &&& after.env == before.env
    &&& after.interpreter == before.interpreter
    &&& after.task_stack == before.task_stack
    &&& after.verbosity == before.verbosity
}

/// Writes every entry of `vars` into the variables of `ctx`; an entry of
/// `vars` replaces one of the same name.
fn merge_vars(ctx: &mut Context, vars: &StringMap<String>)
    ensures
        same_but_vars(old(ctx), final(ctx)),
        final(ctx).vars@ == old(ctx).vars@.union_prefer_right(vars@),
{
    let n = vars.len();
    let mut i: usize = 0;
    while i < n
        invariant
            i <= n,
            n == vars.keys().len(),
            vars.consistent(),
            same_but_vars(old(ctx), ctx),
            forall|k: Seq<char>|
                ctx.vars@.contains_key(k) <==> old(ctx).vars@.contains_key(k) || vars.keys().take(
                    i as int,
                ).contains(k),
            forall|k: Seq<char>|
                ctx.vars@.contains_key(k) ==> ctx.vars@[k] == if vars.keys().take(
                    i as int,
                ).contains(k) {
                    vars@[k]
                } else {
                    old(ctx).vars@[k]
                },
        decreases n - i,
    {
        let key = vars.key_at(i);
        let value = vars.value_at(i);
        let ghost before = ctx.vars@;
        let ghost seen = vars.keys().take(i as int);
        ctx.set_var(key.clone(), value.clone());
        proof {
            let now = vars.keys().take(i + 1);
            assert(now == seen.push(key@));
            assert forall|k: Seq<char>| now.contains(k) <==> seen.contains(k) || k == key@ by {
                if seen.contains(k) {
                    let j = choose|j: int| 0 <= j < seen.len() && seen[j] == k;
                    assert(now[j] == k);
                }
                if k == key@ {
                    assert(now[i as int] == k);
                }
            }
        }
        i += 1;
    }
    proof {
        assert(vars.keys().take(n as int) == vars.keys());
        assert(ctx.vars@ =~= old(ctx).vars@.union_prefer_right(vars@));
    }
}

impl Task {
    /// Whether the step enters the task: a task that is on the task stack
    /// already fails at once, with nothing changed; otherwise the task goes
    /// onto the task stack, its variables and then those it is entered with
    /// are written into the variables of the context, and its start is
    /// reported.
    pub open spec fn entered(
        &self,
        before: &Context,
        frame: Frame,
        after: &Context,
        mv: Move,
        action: Action,
    ) -> bool {
        if before.task_stack.deep_view().contains(self.name@) {
            &&& mv == Move::Return(Err(ExecutionError::CommandFailed(Some(1))))
            &&& *after == *before
            &&& action is Continue
        } else {
            &&& mv == Move::Stay(
                Frame { phase: Phase::Main, ..frame.at_item(0) },
            )
            &&& after.task_stack.deep_view() == before.task_stack.deep_view().push(self.name@)
            &&& after.vars@ == before.vars@.union_prefer_right(self.vars@).union_prefer_right(
                frame.vars@,
            )
            &&& after.working_dir == before.working_dir
            &&& after.config_path == before.config_path
            &&& after.env == before.env
            &&& after.interpreter == before.interpreter
            &&& after.verbosity == before.verbosity
            &&& shows(
                action,
                before.line(Verbosity::Normal, "[INFO] "@, "Running task: "@ + self.name@),
            )
        }
    }

    /// Enters the task.
    fn enter(&self, ctx: &mut Context, frame: Frame) -> (out: (Move, Action))
        ensures
            self.entered(old(ctx), frame, final(ctx), out.0, out.1),
    {
        if ctx.is_task_in_stack(self.name.as_str()) {
            return (Move::Return(Err(ExecutionError::CommandFailed(Some(1)))), Action::Continue);
        }
        let action = match ctx.print_task_start(self.name.as_str()) {
            Some(text) => Action::Print(text),
            None => Action::Continue,
        };
        ctx.push_task(self.name.clone());
        merge_vars(ctx, &self.vars);
        merge_vars(ctx, &frame.vars);
        let mut next = frame;
        next.phase = Phase::Main;
        next.item = 0;
        next.stage = Stage::Conditions;
        next.index = 0;
        next.waiting = false;
        (Move::Stay(next), action)
    }
}

impl Run {
    /// The answer to the probe for the condition at position `index`, as
    /// `event` reports it: for a command, whether it succeeded (or the
    /// failure to start it); for a path, whether it exists.
    pub open spec fn probe_answer(&self, index: int, event: Event) -> ExecutionResult<bool> {
        if 0 <= index < self.when@.len() && self.when@[index].condition is Command {
            spec_check_result(event.spec_outcome())
        } else {
            Ok(event.spec_path_exists())
        }
    }

    /// The answer to the probe for the condition at position `index`.
    fn answer(&self, index: usize, event: Event) -> (r: ExecutionResult<bool>)
        ensures
            r == self.probe_answer(index as int, event),
    {
        if index < self.when.len() {
            match &self.when[index].condition {
                WhenCondition::Command(_) => {
                    return check_result(event.outcome());
                },
                _ => {},
            }
        }
        Ok(event.path_exists())
    }
}

impl Task {
    /// Whether the step moves through the conditions of the run item
    /// `item`. With an answer awaited: a condition that holds leads to the
    /// next one (or to the commands, where the frame stands behind the last
    /// condition), one that does not skips the run item, a failure fails the
    /// invocation. Otherwise the conditions are evaluated from the position
    /// of the frame on: if all hold the commands come next; the first that
    /// does not hold skips the run item, with nothing after it evaluated; a
    /// condition that needs a probe has the caller asked for it.
    pub open spec fn checked(
        &self,
        item: &Run,
        before: &Context,
        frame: Frame,
        event: Event,
        after: &Context,
        mv: Move,
        action: Action,
    ) -> bool {
        if frame.waiting {
            match item.probe_answer(frame.index as int, event) {
                Ok(true) => mv == Move::Stay(
                    if frame.index < item.when@.len() {
                        frame.at(Stage::Conditions, (frame.index + 1) as usize)
                    } else {
                        frame.at(Stage::Commands, 0)
                    },
                ) && *after == *before && action is Continue,
                Ok(false) => mv == Move::Stay(frame.at_item((frame.item + 1) as usize)) && *after
                    == *before && action is Continue,
                Err(e) => self.failed(before, frame, e, after, mv, action),
            }
        } else {
            let stop = first_stop(item.when@, before, frame.index as int);
            if stop >= item.when@.len() {
                mv == Move::Stay(frame.at(Stage::Commands, 0)) && *after == *before
                    && action is Continue
            } else if item.when@[stop].decided(before) is Some {
                mv == Move::Stay(frame.at_item((frame.item + 1) as usize)) && *after == *before
                    && action is Continue
            } else {
                match action {
                    Action::Run(invocation) => {
                        &&& item.when@[stop].evaluation(
                            before,
                            Ok(Evaluation::Command(invocation)),
                        )
                        &&& mv == Move::Stay(frame.awaiting(stop as usize))
                        &&& *after == *before
                    },
                    Action::CheckPath(path) => {
                        &&& item.when@[stop].evaluation(before, Ok(Evaluation::Path(path)))
                        &&& mv == Move::Stay(frame.awaiting(stop as usize))
                        &&& *after == *before
                    },
                    _ => exists|e: ExecutionError|
                        #![trigger item.when@[stop].evaluation(before, Err(e))]
                        item.when@[stop].evaluation(before, Err(e)) && self.failed(
                            before,
                            frame,
                            e,
                            after,
                            mv,
                            action,
                        ),
                }
            }
        }
    }

    /// Moves through the conditions of a run item.
    fn check(&self, item: &Run, ctx: &mut Context, frame: Frame, event: Event) -> (out: (
        Move,
        Action,
    ))
        requires
            frame.item < usize::MAX,
        ensures
            self.checked(item, old(ctx), frame, event, final(ctx), out.0, out.1),
    {
        let mut next = frame;
        if next.waiting {
            match item.answer(next.index, event) {
                Ok(true) => {
                    if next.index < item.when.len() {
                        next.index = next.index + 1;
                        next.stage = Stage::Conditions;
                    } else {
                        next.index = 0;
                        next.stage = Stage::Commands;
                    }
                    next.waiting = false;
                    (Move::Stay(next), Action::Continue)
                },
                Ok(false) => {
                    next.item = next.item + 1;
                    next.stage = Stage::Conditions;
                    next.index = 0;
                    next.waiting = false;
                    (Move::Stay(next), Action::Continue)
                },
                Err(e) => self.fail(ctx, next, e),
            }
        } else {
            match evaluate_when_list(item.when.as_slice(), ctx, next.index) {
                Ok(ListEvaluation::Decided(true)) => {
                    next.stage = Stage::Commands;
                    next.index = 0;
                    (Move::Stay(next), Action::Continue)
                },
                Ok(ListEvaluation::Decided(false)) => {
                    next.item = next.item + 1;
                    next.stage = Stage::Conditions;
                    next.index = 0;
                    (Move::Stay(next), Action::Continue)
                },
                Ok(ListEvaluation::Pending { index, probe }) => {
                    next.index = index;
                    next.waiting = true;
                    match probe {
                        Evaluation::Command(invocation) => (
                            Move::Stay(next),
                            Action::Run(invocation),
                        ),
                        Evaluation::Path(path) => (Move::Stay(next), Action::CheckPath(path)),
                        Evaluation::Decided(_) => (Move::Stay(next), Action::Continue),
                    }
                },
                Err(e) => self.fail(ctx, next, e),
            }
        }
    }
}

impl Task {
    /// Whether the step moves through the commands of the run item `item`.
    /// With an answer awaited: a command that succeeded leads to the next
    /// one, any other outcome fails the invocation. Otherwise, behind the
    /// last command the subtasks come next; before that, the caller is
    /// asked to run the command at the position of the frame, or the error
    /// that keeps it from running fails the invocation.
    pub open spec fn commanded(
        &self,
        item: &Run,
        before: &Context,
        frame: Frame,
        event: Event,
        after: &Context,
        mv: Move,
        action: Action,
    ) -> bool {
        if frame.index >= item.commands@.len() {
            mv == Move::Stay(frame.at(Stage::Subtasks, 0)) && *after == *before
                && action is Continue
        } else if frame.waiting {
            match spec_command_result(event.spec_outcome()) {
                Ok(()) => mv == Move::Stay(frame.at(Stage::Commands, (frame.index + 1) as usize))
                    && *after == *before && action is Continue,
                Err(e) => self.failed(before, frame, e, after, mv, action),
            }
        } else {
            match action {
                Action::Run(invocation) => {
                    &&& item.commands@[frame.index as int].request(before, Ok(invocation))
                    &&& mv == Move::Stay(frame.awaiting(frame.index))
                    &&& *after == *before
                },
                _ => exists|e: ExecutionError|
                    #![trigger item.commands@[frame.index as int].request(before, Err(e))]
                    item.commands@[frame.index as int].request(before, Err(e)) && self.failed(
                        before,
                        frame,
                        e,
                        after,
                        mv,
                        action,
                    ),
            }
        }
    }

    /// Moves through the commands of a run item.
    fn command(&self, item: &Run, ctx: &mut Context, frame: Frame, event: Event) -> (out: (
        Move,
        Action,
    ))
        ensures
            self.commanded(item, old(ctx), frame, event, final(ctx), out.0, out.1),
    {
        let mut next = frame;
        if next.index >= item.commands.len() {
            next.stage = Stage::Subtasks;
            next.index = 0;
            next.waiting = false;
            return (Move::Stay(next), Action::Continue);
        }
        if next.waiting {
            match command_result(event.outcome()) {
                Ok(()) => {
                    next.index = next.index + 1;
                    next.stage = Stage::Commands;
                    next.waiting = false;
                    (Move::Stay(next), Action::Continue)
                },
                Err(e) => self.fail(ctx, next, e),
            }
        } else {
            match execute_command(&item.commands[next.index], ctx) {
                Ok(invocation) => {
                    next.waiting = true;
                    (Move::Stay(next), Action::Run(invocation))
                },
                Err(e) => self.fail(ctx, next, e),
            }
        }
    }

    /// Whether `child` is the state in which the task that `subtask` names
    /// is about to be entered with the option values of `subtask` on top of
    /// its own variables.
    pub open spec fn called(subtask: &SubTask, child: Frame) -> bool {
        &&& child.task matches Some(name)
        &&& name@ == subtask.name@
        &&& child.vars@ == subtask.options@
        &&& child.phase == Phase::Main
        &&& child.item == 0
        &&& child.stage == Stage::Enter
        &&& child.index == 0
        &&& !child.waiting
        &&& child.failure is None
    }

    /// Whether the step moves through the subtasks of the run item `item`.
    /// With an answer awaited: a subtask that succeeded leads to the next
    /// one, one that failed fails the invocation with its error. Otherwise,
    /// behind the last subtask the environment changes come next; before
    /// that, the task named at the position of the frame is invoked with
    /// the option values given for it. A task that is not defined cannot
    /// be started.
    pub open spec fn dispatched(
        &self,
        item: &Run,
        tasks: &StringMap<Task>,
        before: &Context,
        frame: Frame,
        returned: Option<ExecutionResult<()>>,
        after: &Context,
        mv: Move,
        action: Action,
    ) -> bool {
        if frame.index >= item.subtasks@.len() {
            mv == Move::Stay(frame.at(Stage::Environment, 0)) && *after == *before
                && action is Continue
        } else if frame.waiting {
            match returned {
                Some(Ok(())) => mv == Move::Stay(
                    frame.at(Stage::Subtasks, (frame.index + 1) as usize),
                ) && *after == *before && action is Continue,
                Some(Err(e)) => self.failed(before, frame, e, after, mv, action),
                None => self.failed(
                    before,
                    frame,
                    ExecutionError::CommandFailed(None),
                    after,
                    mv,
                    action,
                ),
            }
        } else if tasks@.contains_key(item.subtasks@[frame.index as int].name@) {
            &&& mv matches Move::Call(parent, child)
            &&& parent == frame.awaiting(frame.index)
            &&& Task::called(&item.subtasks@[frame.index as int], child)
            &&& *after == *before
            &&& action is Continue
        } else {
            self.failed(before, frame, ExecutionError::CommandFailed(None), after, mv, action)
        }
    }

    /// Moves through the subtasks of a run item.
    fn execute_subtask(
        &self,
        item: &Run,
        tasks: &StringMap<Task>,
        ctx: &mut Context,
        frame: Frame,
        returned: Option<ExecutionResult<()>>,
    ) -> (out: (Move, Action))
        ensures
            self.dispatched(item, tasks, old(ctx), frame, returned, final(ctx), out.0, out.1),
    {
        let mut next = frame;
        if next.index >= item.subtasks.len() {
            next.stage = Stage::Environment;
            next.index = 0;
            next.waiting = false;
            return (Move::Stay(next), Action::Continue);
        }
        if next.waiting {
            match returned {
                Some(Ok(())) => {
                    next.index = next.index + 1;
                    next.stage = Stage::Subtasks;
                    next.waiting = false;
                    (Move::Stay(next), Action::Continue)
                },
                Some(Err(e)) => self.fail(ctx, next, e),
                None => self.fail(ctx, next, ExecutionError::CommandFailed(None)),
            }
        } else {
            let subtask = &item.subtasks[next.index];
            if tasks.contains_key(subtask.name.as_str()) {
                let child = Frame {
                    task: Some(subtask.name.clone()),
                    vars: copy_vars(&subtask.options),
                    phase: Phase::Main,
                    item: 0,
                    stage: Stage::Enter,
                    index: 0,
                    waiting: false,
                    failure: None,
                };
                next.waiting = true;
                (Move::Call(next, child), Action::Continue)
            } else {
                self.fail(ctx, next, ExecutionError::CommandFailed(None))
            }
        }
    }

    /// Whether the step moves through the environment changes of the run
    /// item `item`. Behind the last one the next run item begins. Before
    /// that, the change at the position of the frame is applied: a value is
    /// interpolated (and taken as written where that fails), written to the
    /// variables and to the environment of the context, and the caller is
    /// asked to set it in the process environment; without a value the name
    /// is removed from all three.
    pub open spec fn exported(
        &self,
        item: &Run,
        before: &Context,
        frame: Frame,
        after: &Context,
        mv: Move,
        action: Action,
    ) -> bool {
        if frame.index >= item.set_environment.keys().len() {
            mv == Move::Stay(frame.at_item((frame.item + 1) as usize)) && *after == *before
                && action is Continue
        } else {
            let name = item.set_environment.keys()[frame.index as int];
            &&& mv == Move::Stay(frame.at(Stage::Environment, (frame.index + 1) as usize))
            &&& after.working_dir == before.working_dir
            &&& after.config_path == before.config_path
            &&& after.interpreter == before.interpreter
            &&& after.task_stack == before.task_stack
            &&& after.verbosity == before.verbosity
            &&& match item.set_environment.values()[frame.index as int] {
                Some(declared) => {
                    &&& action matches Action::SetEnv { key, value }
                    &&& key@ == name
                    &&& value@ == resolved_or_raw(declared@, before)
                    &&& after.vars@ == before.vars@.insert(name, value)
                    &&& after.env@ == before.env@.insert(name, value)
                },
                None => {
                    &&& action matches Action::UnsetEnv { key }
                    &&& key@ == name
                    &&& after.vars@ == before.vars@.remove(name)
                    &&& after.env@ == before.env@.remove(name)
                },
            }
        }
    }

    /// Moves through the environment changes of a run item.
    fn export(&self, item: &Run, ctx: &mut Context, frame: Frame) -> (out: (Move, Action))
        requires
            frame.item < usize::MAX,
        ensures
            self.exported(item, old(ctx), frame, final(ctx), out.0, out.1),
    {
        let mut next = frame;
        if next.index >= item.set_environment.len() {
            next.item = next.item + 1;
            next.stage = Stage::Conditions;
            next.index = 0;
            next.waiting = false;
            return (Move::Stay(next), Action::Continue);
        }
        let key = item.set_environment.key_at(next.index);
        let declared = item.set_environment.value_at(next.index);
        next.index = next.index + 1;
        next.stage = Stage::Environment;
        next.waiting = false;
        match declared {
            Some(text) => {
                let value = interpolate_or_raw(text.as_str(), ctx);
                ctx.env.insert(key.clone(), value.clone());
                ctx.vars.insert(key.clone(), value.clone());
                (Move::Stay(next), Action::SetEnv { key: key.clone(), value })
            },
            None => {
                ctx.env.remove(key.as_str());
                ctx.vars.remove(key.as_str());
                (Move::Stay(next), Action::UnsetEnv { key: key.clone() })
            },
        }
    }
}

impl Task {
    /// The task that the invocation in `frame` runs: the task for the
    /// invocation that the run began with, and otherwise the task of that
    /// name in `tasks`, if there is one.
    pub open spec fn frame_task(&self, tasks: &StringMap<Task>, frame: Frame) -> Option<Task> {
        match frame.task {
            None => Some(*self),
            Some(name) => if tasks@.contains_key(name@) {
                Some(tasks@[name@])
            } else {
                None
            },
        }
    }

    /// Whether the step moves the invocation in `frame` through the run item
    /// `item` as its stage asks: through the conditions, the commands, the
    /// subtasks or the environment changes.
    pub open spec fn item_moved(
        &self,
        item: &Run,
        tasks: &StringMap<Task>,
        before: &Context,
        frame: Frame,
        event: Event,
        returned: Option<ExecutionResult<()>>,
        after: &Context,
        mv: Move,
        action: Action,
    ) -> bool {
        match frame.stage {
            Stage::Enter => false,
            Stage::Conditions => self.checked(item, before, frame, event, after, mv, action),
            Stage::Commands => self.commanded(item, before, frame, event, after, mv, action),
            Stage::Subtasks => self.dispatched(
                item,
                tasks,
                before,
                frame,
                returned,
                after,
                mv,
                action,
            ),
            Stage::Environment => self.exported(item, before, frame, after, mv, action),
        }
    }

    /// Moves the invocation in `frame` through a run item.
    fn execute_run_item(
        &self,
        item: &Run,
        tasks: &StringMap<Task>,
        ctx: &mut Context,
        frame: Frame,
        event: Event,
        returned: Option<ExecutionResult<()>>,
    ) -> (out: (Move, Action))
        requires
            frame.stage != Stage::Enter,
            frame.item < usize::MAX,
        ensures
            self.item_moved(item, tasks, old(ctx), frame, event, returned, final(ctx), out.0, out.1),
    {
        match frame.stage {
            Stage::Conditions => self.check(item, ctx, frame, event),
            Stage::Commands => self.command(item, ctx, frame, event),
            Stage::Subtasks => self.execute_subtask(item, tasks, ctx, frame, returned),
            _ => self.export(item, ctx, frame),
        }
    }

    /// Whether the step moves the invocation of the task in `frame` as
    /// its stage asks: it enters the task; or, behind the last run item of
    /// its phase, ends the phase; or moves through the conditions, the
    /// commands, the subtasks or the environment changes of its run item.
    pub open spec fn moved(
        &self,
        tasks: &StringMap<Task>,
        before: &Context,
        frame: Frame,
        event: Event,
        returned: Option<ExecutionResult<()>>,
        after: &Context,
        mv: Move,
        action: Action,
    ) -> bool {
        if frame.stage == Stage::Enter {
            self.entered(before, frame, after, mv, action)
        } else if frame.item >= self.items(frame.phase).len() {
            self.completed(before, frame, after, mv, action)
        } else {
            self.item_moved(
                &self.items(frame.phase)[frame.item as int],
                tasks,
                before,
                frame,
                event,
                returned,
                after,
                mv,
                action,
            )
        }
    }

    /// Whether one step of the run that began with the task leads from
    /// `before` and `run` to `after` and `next` and asks for `action`, when
    /// the caller reports `event`.
    ///
    /// A run with no invocation in flight is over and says so, with the
    /// result that was handed back last. Otherwise the innermost invocation
    /// moves as `moved` says; an invocation of a task that is not defined
    /// ends as one that cannot be started.
    pub open spec fn stepped(
        &self,
        tasks: &StringMap<Task>,
        before: &Context,
        run: &Execution,
        event: Event,
        after: &Context,
        next: &Execution,
        action: Action,
    ) -> bool {
        if run.frames@.len() == 0 {
            &&& next.frames@ == run.frames@
            &&& next.returned == run.returned
            &&& *after == *before
            &&& action == Action::Finished(
                match run.returned {
                    Some(r) => r,
                    None => Ok(()),
                },
            )
        } else {
            let frame = run.frames@.last();
            let outer = run.frames@.drop_last();
            match self.frame_task(tasks, frame) {
                None => {
                    &&& next.frames@ == outer
                    &&& next.returned == Some(
                        Err::<(), ExecutionError>(ExecutionError::CommandFailed(None)),
                    )
                    &&& *after == *before
                    &&& action is Continue
                },
                Some(task) => exists|mv: Move|
                    #![trigger task.moved(tasks, before, frame, event, run.returned, after, mv, action)]
                    {
                        &&& task.moved(tasks, before, frame, event, run.returned, after, mv, action)
                        &&& match mv {
                            Move::Stay(f) => next.frames@ == outer.push(f) && next.returned is None,
                            Move::Call(parent, child) => next.frames@ == outer.push(parent).push(
                                child,
                            ) && next.returned is None,
                            Move::Return(r) => next.frames@ == outer && next.returned == Some(r),
                        }
                    },
            }
        }
    }

    /// Takes one step of a run that began with the task.
    ///
    /// `tasks` holds the tasks that subtasks are looked up in, `run` the
    /// state of the run, `ctx` the execution context, and `event` what the
    /// caller reports of the action that the step before asked for. The
    /// result is the action to take next; the run is over when it is
    /// `Finished`.
    pub fn execute(
        &self,
        tasks: &StringMap<Task>,
        ctx: &mut Context,
        run: &mut Execution,
        event: Event,
    ) -> (action: Action)
        ensures
            self.stepped(tasks, old(ctx), old(run), event, final(ctx), final(run), action),
    {
        let frame = match run.frames.pop() {
            Some(frame) => frame,
            None => {
                let result = match &run.returned {
                    Some(Ok(())) => Ok(()),
                    Some(Err(e)) => Err(e.clone()),
                    None => Ok(()),
                };
                assert(run.returned matches Some(Ok(unit)) ==> unit == ());
                return Action::Finished(result);
            },
        };
        let ghost outer = run.frames@;
        let returned = run.returned.take();
        let task: &Task = match &frame.task {
            None => self,
            Some(name) => match tasks.get(name.as_str()) {
                Some(task) => task,
                None => {
                    run.returned = Some(Err(ExecutionError::CommandFailed(None)));
                    return Action::Continue;
                },
            },
        };
        let ghost before = *ctx;
        let ghost frame0 = frame;
        let (mv, action) = if frame.stage == Stage::Enter {
            task.enter(ctx, frame)
        } else {
            let items = match frame.phase {
                Phase::Main => &task.run,
                Phase::Finally => &task.finally,
            };
            if frame.item >= items.len() {
                task.complete(ctx, frame)
            } else {
                task.execute_run_item(&items[frame.item], tasks, ctx, frame, event, returned)
            }
        };
        assert(task.moved(tasks, &before, frame0, event, returned, ctx, mv, action));
        match mv {
            Move::Stay(f) => {
                run.frames.push(f);
            },
            Move::Call(parent, child) => {
                run.frames.push(parent);
                run.frames.push(child);
            },
            Move::Return(r) => {
                run.returned = Some(r);
            },
        }
        action
    }
}

/// The names of the tasks that the invocations in `frames` have entered,
/// outermost first.
pub open spec fn entered_names(root: &Task, tasks: &StringMap<Task>, frames: Seq<Frame>) -> Seq<
    Seq<char>,
>
    decreases frames.len(),
{
    if frames.len() == 0 {
        Seq::empty()
    } else {
        let outer = entered_names(root, tasks, frames.drop_last());
        match root.frame_task(tasks, frames.last()) {
            Some(task) => if frames.last().stage == Stage::Enter {
                outer
            } else {
                outer.push(task.name@)
            },
            None => outer,
        }
    }
}

/// Whether the run and the context belong together: every invocation in
/// flight runs a task that is defined, only the innermost may still be
/// about to enter its task, and the task stack holds `base`, what it held
/// when the run began, followed by the tasks that the invocations have
/// entered.
pub open spec fn in_step(
    root: &Task,
    tasks: &StringMap<Task>,
    base: Seq<Seq<char>>,
    run: &Execution,
    ctx: &Context,
) -> bool {
    &&& forall|i: int|
        0 <= i < run.frames@.len() ==> root.frame_task(tasks, #[trigger] run.frames@[i]) is Some
    &&& forall|i: int|
        0 <= i < run.frames@.len() - 1 ==> (#[trigger] run.frames@[i]).stage != Stage::Enter
    &&& ctx.task_stack.deep_view() == base + entered_names(root, tasks, run.frames@)
}

/// The names that `frames` have entered do not change when the innermost
/// frame is replaced by one of the same task that has entered it too.
proof fn lemma_entered_names_replace(
    root: &Task,
    tasks: &StringMap<Task>,
    outer: Seq<Frame>,
    frame: Frame,
    next: Frame,
)
    requires
        next.task == frame.task,
        (next.stage == Stage::Enter) == (frame.stage == Stage::Enter),
    ensures
        entered_names(root, tasks, outer.push(next)) == entered_names(
            root,
            tasks,
            outer.push(frame),
        ),
{
    assert(outer.push(next).drop_last() == outer);
    assert(outer.push(frame).drop_last() == outer);
}

/// A step keeps the run and the context together.
pub proof fn lemma_step_keeps_in_step(
    root: &Task,
    tasks: &StringMap<Task>,
    base: Seq<Seq<char>>,
    ctx: &Context,
    run: &Execution,
    event: Event,
    ctx1: &Context,
    run1: &Execution,
    action: Action,
)
    requires
        in_step(root, tasks, base, run, ctx),
        root.stepped(tasks, ctx, run, event, ctx1, run1, action),
    ensures
        in_step(root, tasks, base, run1, ctx1),
{
    if run.frames@.len() > 0 {
        let frame = run.frames@.last();
        let outer = run.frames@.drop_last();
        assert(run.frames@ == outer.push(frame));
        assert(root.frame_task(tasks, run.frames@[run.frames@.len() - 1]) is Some);
        let task = root.frame_task(tasks, frame)->0;
        let mv = choose|mv: Move|
            #![trigger task.moved(tasks, ctx, frame, event, run.returned, ctx1, mv, action)]
            {
                &&& task.moved(tasks, ctx, frame, event, run.returned, ctx1, mv, action)
                &&& match mv {
                    Move::Stay(f) => run1.frames@ == outer.push(f) && run1.returned is None,
                    Move::Call(parent, child) => run1.frames@ == outer.push(parent).push(child)
                        && run1.returned is None,
                    Move::Return(r) => run1.frames@ == outer && run1.returned == Some(r),
                }
            };
        assert(outer.push(frame).drop_last() == outer);
        assert forall|i: int| 0 <= i < outer.len() implies root.frame_task(
            tasks,
            #[trigger] outer[i],
        ) is Some && outer[i].stage != Stage::Enter by {
            assert(outer[i] == run.frames@[i]);
        }
        let names = entered_names(root, tasks, outer);
        match mv {
            Move::Stay(next) => {
                assert(next.task == frame.task);
                assert(outer.push(next).drop_last() == outer);
                if frame.stage == Stage::Enter {
                    assert(ctx1.task_stack.deep_view() == (base + names).push(task.name@));
                    assert((base + names).push(task.name@) == base + names.push(task.name@));
                } else {
                    lemma_entered_names_replace(root, tasks, outer, frame, next);
                }
                assert forall|i: int| 0 <= i < run1.frames@.len() implies root.frame_task(
                    tasks,
                    #[trigger] run1.frames@[i],
                ) is Some by {
                    if i < outer.len() {
                        assert(run1.frames@[i] == outer[i]);
                    }
                }
            },
            Move::Call(parent, child) => {
                let upper = outer.push(parent);
                assert(upper.push(child).drop_last() == upper);
                assert(upper.drop_last() == outer);
                lemma_entered_names_replace(root, tasks, outer, frame, parent);
                assert(entered_names(root, tasks, upper.push(child)) == entered_names(
                    root,
                    tasks,
                    upper,
                ));
                assert forall|i: int| 0 <= i < run1.frames@.len() implies root.frame_task(
                    tasks,
                    #[trigger] run1.frames@[i],
                ) is Some by {
                    if i < outer.len() {
                        assert(run1.frames@[i] == outer[i]);
                    }
                }
                assert forall|i: int| 0 <= i < run1.frames@.len() - 1 implies (
                #[trigger] run1.frames@[i]).stage != Stage::Enter by {
                    if i < outer.len() {
                        assert(run1.frames@[i] == outer[i]);
                    }
                }
            },
            Move::Return(r) => {
                if frame.stage != Stage::Enter {
                    assert(ctx.task_stack.deep_view() == (base + names).push(task.name@));
                    assert((base + names).push(task.name@).drop_last() == base + names);
                }
            },
        }
    }
}

/// When a run is over, the task stack is what it was when the run began:
/// every task that was entered has left it, whether it succeeded or not.
pub proof fn lemma_finished_run_restores_stack(
    root: &Task,
    tasks: &StringMap<Task>,
    base: Seq<Seq<char>>,
    run: &Execution,
    ctx: &Context,
)
    requires
        in_step(root, tasks, base, run, ctx),
        run.frames@.len() == 0,
    ensures
        ctx.task_stack.deep_view() == base,
{
    assert(base + Seq::<Seq<char>>::empty() == base);
}

/// A run that begins is in step with the context it begins in.
pub proof fn lemma_new_run_is_in_step(
    root: &Task,
    tasks: &StringMap<Task>,
    run: &Execution,
    ctx: &Context,
)
    requires
        run.frames@.len() == 1,
        run.frames@[0].task is None,
        run.frames@[0].stage == Stage::Enter,
    ensures
        in_step(root, tasks, ctx.task_stack.deep_view(), run, ctx),
{
    assert(run.frames@.last() == run.frames@[0]);
    assert(run.frames@.drop_last().len() == 0);
    assert(entered_names(root, tasks, run.frames@.drop_last()) == Seq::<Seq<char>>::empty());
    assert(entered_names(root, tasks, run.frames@) == Seq::<Seq<char>>::empty());
    assert(ctx.task_stack.deep_view() + Seq::<Seq<char>>::empty() == ctx.task_stack.deep_view());
}

/// A task whose name is on the task stack already fails at once: the first
/// step of its run asks for nothing and leaves the context as it was, and
/// the next reports the failure. No process is asked for.
pub proof fn lemma_recursion_guard(
    task: &Task,
    tasks: &StringMap<Task>,
    ctx: &Context,
    run: &Execution,
    first: Event,
    ctx1: &Context,
    run1: &Execution,
    action1: Action,
    second: Event,
    ctx2: &Context,
    run2: &Execution,
    action2: Action,
)
    requires
        run.frames@.len() == 1,
        run.frames@[0].task is None,
        run.frames@[0].stage == Stage::Enter,
        ctx.task_stack.deep_view().contains(task.name@),
        task.stepped(tasks, ctx, run, first, ctx1, run1, action1),
        task.stepped(tasks, ctx1, run1, second, ctx2, run2, action2),
    ensures
        action1 is Continue,
        *ctx1 == *ctx,
        action2 == Action::Finished(Err(ExecutionError::CommandFailed(Some(1)))),
        *ctx2 == *ctx,
{
    assert(run.frames@.last() == run.frames@[0]);
    assert(run.frames@.drop_last().len() == 0);
}

/// A failure in the run items does not end a task that has finally items:
/// when a command of the run items is reported not to have succeeded, the
/// step keeps the failure and turns to the first finally item.
pub proof fn lemma_failure_runs_finally(
    task: &Task,
    tasks: &StringMap<Task>,
    before: &Context,
    frame: Frame,
    event: Event,
    returned: Option<ExecutionResult<()>>,
    after: &Context,
    mv: Move,
    action: Action,
)
    requires
        frame.phase == Phase::Main,
        frame.stage == Stage::Commands,
        frame.waiting,
        frame.item < task.run@.len(),
        frame.index < task.run@[frame.item as int].commands@.len(),
        task.finally@.len() > 0,
        spec_command_result(event.spec_outcome()) is Err,
        task.moved(tasks, before, frame, event, returned, after, mv, action),
    ensures
        mv == Move::Stay(
            frame.at_finally(
                Some(frame.first_failure(spec_command_result(event.spec_outcome())->Err_0)),
            ),
        ),
        *after == *before,
        action is Continue || action is Print,
{
}

/// The result of a task with finally items. Behind the last finally item
/// the task ends with the failure kept from the run items, or with success
/// where none was kept. A failure among the finally items ends the task
/// with the failure kept from the run items where there is one, and with
/// its own error otherwise.
pub proof fn lemma_finally_result(
    task: &Task,
    tasks: &StringMap<Task>,
    before: &Context,
    frame: Frame,
    event: Event,
    returned: Option<ExecutionResult<()>>,
    e: ExecutionError,
    after: &Context,
    mv: Move,
    action: Action,
)
    requires
        frame.phase == Phase::Finally,
        frame.stage != Stage::Enter,
    ensures
        frame.item >= task.finally@.len() && task.moved(
            tasks,
            before,
            frame,
            event,
            returned,
            after,
            mv,
            action,
        ) ==> mv == Move::Return(
            match frame.failure {
                Some(kept) => Err(kept),
                None => Ok(()),
            },
        ),
        task.failed(before, frame, e, after, mv, action) ==> mv == Move::Return(
            Err(
                match frame.failure {
                    Some(kept) => kept,
                    None => e,
                },
            ),
        ),
{
}

/// A condition that does not hold skips its run item: where the conditions
/// from the position of the frame up to `i` hold and the one at `i` does
/// not, the step goes to the next run item and asks for nothing, whatever
/// conditions come after `i`.
pub proof fn lemma_false_condition_skips(
    task: &Task,
    item: &Run,
    before: &Context,
    frame: Frame,
    event: Event,
    i: int,
    after: &Context,
    mv: Move,
    action: Action,
)
    requires
        !frame.waiting,
        frame.index <= i < item.when@.len(),
        forall|j: int| frame.index <= j < i ==> (#[trigger] item.when@[j]).decided(before) == Some(true),
        item.when@[i].decided(before) == Some(false),
        task.checked(item, before, frame, event, after, mv, action),
    ensures
        mv == Move::Stay(frame.at_item((frame.item + 1) as usize)),
        *after == *before,
        action is Continue,
{
    lemma_short_circuit(item.when@, before, frame.index as int, i);
}

} // verus!

//! Configuration validation: the rules each task must meet, and the check
//! that tasks do not refer to each other in a circle.

use vstd::prelude::*;
use crate::config::types::{references_of, Config, Run, SubTask, Task};
use crate::error::{ConfigError, ConfigResult};
use crate::text::{concat_str, contains_str, join, join_spec, str_eq};

verus! {

/// Whether `t` names an option type.
pub open spec fn is_option_type(t: Seq<char>) -> bool {
    ||| t == "string"@
    ||| t == "bool"@
    ||| t == "boolean"@
    ||| t == "int"@
    ||| t == "integer"@
    ||| t == "float"@
}

/// The message for an option type that is not one.
pub open spec fn invalid_option_type_message(t: Seq<char>) -> Seq<char> {
    "Invalid option type: "@ + t + ". Must be one of: string, bool, int, float"@
}

/// Accepts the option types `string`, `bool`, `boolean`, `int`, `integer`
/// and `float`; anything else is invalid.
pub fn validate_option_type(option_type: &str) -> (r: ConfigResult<()>)
    ensures
        match r {
            Ok(()) => is_option_type(option_type@),
            Err(ConfigError::Invalid(message)) => !is_option_type(option_type@) && message@
                == invalid_option_type_message(option_type@),
            Err(_) => false,
        },
{
    if str_eq(option_type, "string") || str_eq(option_type, "bool") || str_eq(
        option_type,
        "boolean",
    ) || str_eq(option_type, "int") || str_eq(option_type, "integer") || str_eq(
        option_type,
        "float",
    ) {
        Ok(())
    } else {
        let mut message = concat_str("Invalid option type: ", option_type);
        message.append(". Must be one of: string, bool, int, float");
        Err(ConfigError::Invalid(message))
    }
}

/// The position of the first argument, at or after `from`, whose name is
/// also the name of an option; the number of arguments where there is none.
pub open spec fn first_shared_name(task: &Task, from: int) -> int
    decreases task.args.keys().len() - from,
{
    if from < 0 || from >= task.args.keys().len() {
        task.args.keys().len() as int
    } else if task.options@.contains_key(task.args.keys()[from]) {
        from
    } else {
        first_shared_name(task, from + 1)
    }
}

/// The position of the first option, at or after `from`, whose type is not
/// one; the number of options where there is none.
pub open spec fn first_bad_option(task: &Task, from: int) -> int
    decreases task.options.values().len() - from,
{
    if from < 0 || from >= task.options.values().len() {
        task.options.values().len() as int
    } else if !is_option_type(task.options.values()[from].option_type@) {
        from
    } else {
        first_bad_option(task, from + 1)
    }
}

/// Whether `task` meets every rule: sources and targets come together, no
/// argument shares its name with an option, and every option type is one.
pub open spec fn task_valid(task: &Task) -> bool {
    &&& (task.source@.len() > 0 <==> task.target@.len() > 0)
    &&& first_shared_name(task, 0) == task.args.keys().len()
    &&& first_bad_option(task, 0) == task.options.values().len()
}

/// Whether `e` is the error that validation reports for `task`: the first
/// rule that the task breaks, and within a rule the first offender.
pub open spec fn task_defect(task: &Task, e: ConfigError) -> bool {
    if task.source@.len() > 0 && task.target@.len() == 0 {
        e is SourceWithoutTarget
    } else if task.target@.len() > 0 && task.source@.len() == 0 {
        e is TargetWithoutSource
    } else if first_shared_name(task, 0) < task.args.keys().len() {
        e matches ConfigError::DuplicateNames(name) && name@ == task.args.keys()[first_shared_name(
            task,
            0,
        )]
    } else {
        &&& first_bad_option(task, 0) < task.options.values().len()
        &&& e matches ConfigError::Invalid(message)
        &&& message@ == invalid_option_type_message(
            task.options.values()[first_bad_option(task, 0)].option_type@,
        )
    }
}

/// Validates a single task.
#[verifier::loop_isolation(false)]
pub fn validate_task(_name: &str, task: &Task) -> (r: ConfigResult<()>)
    ensures
        match r {
            Ok(()) => task_valid(task),
            Err(e) => !task_valid(task) && task_defect(task, e),
        },
{
    if task.source.len() > 0 && task.target.len() == 0 {
        return Err(ConfigError::SourceWithoutTarget);
    }
    if task.target.len() > 0 && task.source.len() == 0 {
        return Err(ConfigError::TargetWithoutSource);
    }
    let n_args = task.args.len();
    let mut i: usize = 0;
    while i < n_args
        invariant
            i <= n_args,
            n_args == task.args.keys().len(),
            first_shared_name(task, 0) == first_shared_name(task, i as int),
        decreases n_args - i,
    {
        let arg_name = task.args.key_at(i);
        if task.options.contains_key(arg_name.as_str()) {
            return Err(ConfigError::DuplicateNames(arg_name.clone()));
        }
        i += 1;
    }
    let n_options = task.options.len();
    let mut j: usize = 0;
    while j < n_options
        invariant
            j <= n_options,
            n_options == task.options.keys().len(),
            task.options.consistent(),
            first_bad_option(task, 0) == first_bad_option(task, j as int),
        decreases n_options - j,
    {
        let option = task.options.value_at(j);
        match validate_option_type(option.option_type.as_str()) {
            Ok(()) => {},
            Err(e) => {
                return Err(e);
            },
        }
        j += 1;
    }
    Ok(())
}

/// Whether the task named `from` refers to a task named `to`.
pub open spec fn refers(tasks: Map<Seq<char>, Task>, from: Seq<char>, to: Seq<char>) -> bool {
    tasks.contains_key(from) && tasks[from].references().contains(to)
}

/// Whether each name of `path` but the last refers to the next.
pub open spec fn is_walk(tasks: Map<Seq<char>, Task>, path: Seq<Seq<char>>) -> bool {
    forall|i: int| #![trigger path[i]] 0 <= i < path.len() - 1 ==> refers(tasks, path[i], path[i + 1])
}

/// Whether some task can reach itself by following references.
pub open spec fn has_cycle(tasks: Map<Seq<char>, Task>) -> bool {
    exists|path: Seq<Seq<char>>|
        path.len() >= 2 && #[trigger] is_walk(tasks, path) && path[0] == path.last()
}

/// Whether every task that is referred to is defined.
pub open spec fn resolves(tasks: Map<Seq<char>, Task>) -> bool {
    forall|from: Seq<char>, to: Seq<char>| #[trigger]
        refers(tasks, from, to) ==> tasks.contains_key(to)
}

/// As `reference_defect`, for a walk that began at `root`: the task that is
/// not defined may be `root` itself.
pub open spec fn graph_defect(tasks: Map<Seq<char>, Task>, root: Seq<char>, e: ConfigError) -> bool {
    match e {
        ConfigError::CircularDependency(text) => exists|path: Seq<Seq<char>>|
            {
                &&& #[trigger] is_walk(tasks, path)
                &&& path.len() >= 2
                &&& path.drop_last().contains(path.last())
                &&& text@ == join_spec(path, " -> "@)
            },
        ConfigError::TaskNotFound(name) => {
            &&& !tasks.contains_key(name@)
            &&& (name@ == root || exists|from: Seq<char>| #[trigger] refers(tasks, from, name@))
        },
        _ => false,
    }
}

/// Whether `e` reports a true defect of the reference graph: a circular
/// dependency whose text is a walk along references, joined by `" -> "`,
/// that ends on a name it has passed before; or a task that is referred to
/// but not defined.
pub open spec fn reference_defect(tasks: Map<Seq<char>, Task>, e: ConfigError) -> bool {
    match e {
        ConfigError::CircularDependency(text) => exists|path: Seq<Seq<char>>|
            {
                &&& #[trigger] is_walk(tasks, path)
                &&& path.len() >= 2
                &&& path.drop_last().contains(path.last())
                &&& text@ == join_spec(path, " -> "@)
            },
        ConfigError::TaskNotFound(name) => {
            &&& !tasks.contains_key(name@)
            &&& exists|from: Seq<char>| #[trigger] refers(tasks, from, name@)
        },
        _ => false,
    }
}

/// What a walk along the references comes to.
pub ghost enum Walk {
    /// No defect was met; holds the tasks that are fully processed, each
    /// after every task it refers to.
    Done(Seq<Seq<char>>),
    /// A task was reached that the walk was passing through already; holds
    /// the way from where the walk began to that task.
    Circular(Seq<Seq<char>>),
    /// A task is referred to that is not defined; holds its name.
    Missing(Seq<char>),
}

/// The walk, depth first, along the references that can be reached from
/// `name`. `stack` holds the tasks that the walk is passing through and
/// `visited` those that are fully processed. `bound` is the number of tasks:
/// no walk through tasks that are defined and differ from each other is
/// longer.
pub open spec fn visit(
    tasks: Map<Seq<char>, Task>,
    bound: nat,
    name: Seq<char>,
    visited: Seq<Seq<char>>,
    stack: Seq<Seq<char>>,
) -> Walk
    decreases bound - stack.len(), 0int, 0int,
{
    if stack.contains(name) {
        Walk::Circular(stack.push(name))
    } else if visited.contains(name) {
        Walk::Done(visited)
    } else if !tasks.contains_key(name) {
        Walk::Missing(name)
    } else if stack.len() >= bound {
        Walk::Done(visited)
    } else {
        match visit_each(tasks, bound, tasks[name].references(), 0, visited, stack.push(name)) {
            Walk::Done(seen) => Walk::Done(seen.push(name)),
            defect => defect,
        }
    }
}

/// The walks from each of `names` in turn, from position `from` on, up to
/// the first defect.
pub open spec fn visit_each(
    tasks: Map<Seq<char>, Task>,
    bound: nat,
    names: Seq<Seq<char>>,
    from: int,
    visited: Seq<Seq<char>>,
    stack: Seq<Seq<char>>,
) -> Walk
    decreases bound - stack.len(), 1int, names.len() - from,
{
    if from < 0 || from >= names.len() {
        Walk::Done(visited)
    } else {
        match visit(tasks, bound, names[from], visited, stack) {
            Walk::Done(seen) => visit_each(tasks, bound, names, from + 1, seen, stack),
            defect => defect,
        }
    }
}

/// Whether `r` reports what the walk `walk` came to: success where no
/// defect was met; a circular dependency with the way to the task that was
/// reached again, its names joined by `" -> "`; or the task that is not
/// defined.
pub open spec fn reports(walk: Walk, r: ConfigResult<()>) -> bool {
    match walk {
        Walk::Done(_) => r is Ok,
        Walk::Circular(path) => r matches Err(ConfigError::CircularDependency(text)) && text@
            == join_spec(path, " -> "@),
        Walk::Missing(name) => r matches Err(ConfigError::TaskNotFound(missing)) && missing@
            == name,
    }
}

/// Whether `name` is among the first `n` of `done`.
pub open spec fn below(done: Seq<Seq<char>>, n: int, name: Seq<char>) -> bool {
    exists|j: int| 0 <= j < n && j < done.len() && #[trigger] done[j] == name
}

/// Whether `done` lists defined tasks so that each comes after every task it
/// refers to.
pub open spec fn ranked(tasks: Map<Seq<char>, Task>, done: Seq<Seq<char>>) -> bool {
    &&& forall|i: int| 0 <= i < done.len() ==> tasks.contains_key(#[trigger] done[i])
    &&& forall|i: int, to: Seq<char>|
        0 <= i < done.len() && #[trigger] refers(tasks, done[i], to) ==> below(done, i, to)
}

/// Whether `stack` is a walk through defined tasks that passes no task twice.
pub open spec fn chain(tasks: Map<Seq<char>, Task>, stack: Seq<Seq<char>>) -> bool {
    &&& stack.no_duplicates()
    &&& forall|i: int| 0 <= i < stack.len() ==> tasks.contains_key(#[trigger] stack[i])
    &&& is_walk(tasks, stack)
}

/// Along a walk, the rank goes down by at least one with every step.
proof fn lemma_walk_descends(
    tasks: Map<Seq<char>, Task>,
    done: Seq<Seq<char>>,
    path: Seq<Seq<char>>,
    n: int,
    k: int,
)
    requires
        ranked(tasks, done),
        is_walk(tasks, path),
        0 <= k < path.len(),
        below(done, n, path[0]),
    ensures
        below(done, n - k, path[k]),
    decreases k,
{
    if k > 0 {
        lemma_walk_descends(tasks, done, path, n, k - 1);
        let j = choose|j: int| 0 <= j < n - (k - 1) && j < done.len() && done[j] == path[k - 1];
        assert(refers(tasks, path[k - 1], path[k]));
        assert(refers(tasks, done[j], path[k]));
        assert(below(done, j, path[k]));
        let j2 = choose|j2: int| 0 <= j2 < j && j2 < done.len() && done[j2] == path[k];
        assert(done[j2] == path[k]);
    }
}

/// No walk through ranked tasks comes back to where it began: the start of
/// a closed walk has no rank.
proof fn lemma_no_closed_walk(
    tasks: Map<Seq<char>, Task>,
    done: Seq<Seq<char>>,
    path: Seq<Seq<char>>,
    n: int,
)
    requires
        ranked(tasks, done),
        is_walk(tasks, path),
        path.len() >= 2,
        path[0] == path.last(),
    ensures
        !below(done, n, path[0]),
    decreases n,
{
    if below(done, n, path[0]) {
        lemma_walk_descends(tasks, done, path, n, path.len() - 1);
        let m = n - (path.len() - 1);
        let j = choose|j: int| 0 <= j < m && j < done.len() && done[j] == path.last();
        assert(done[j] == path[0]);
        assert(below(done, n - 1, path[0]));
        lemma_no_closed_walk(tasks, done, path, n - 1);
    }
}

/// Where every task is ranked, there is no cycle and every reference is
/// defined.
proof fn lemma_ranked_is_sound(tasks: Map<Seq<char>, Task>, done: Seq<Seq<char>>)
    requires
        ranked(tasks, done),
        forall|name: Seq<char>| tasks.contains_key(name) ==> done.contains(name),
    ensures
        !has_cycle(tasks),
        resolves(tasks),
{
    if has_cycle(tasks) {
        let path = choose|path: Seq<Seq<char>>|
            path.len() >= 2 && #[trigger] is_walk(tasks, path) && path[0] == path.last();
        assert(refers(tasks, path[0], path[1]));
        assert(done.contains(path[0]));
        let j = choose|j: int| 0 <= j < done.len() && done[j] == path[0];
        assert(done[j] == path[0]);
        assert(below(done, done.len() as int, path[0]));
        lemma_no_closed_walk(tasks, done, path, done.len() as int);
    }
    assert forall|from: Seq<char>, to: Seq<char>| #[trigger] refers(tasks, from, to) implies
        tasks.contains_key(to) by {
        assert(done.contains(from));
        let i = choose|i: int| 0 <= i < done.len() && done[i] == from;
        assert(refers(tasks, done[i], to));
        assert(below(done, i, to));
        let j = choose|j: int| 0 <= j < i && j < done.len() && done[j] == to;
        assert(tasks.contains_key(done[j]));
    }
}

/// A defect that the check reports is one of the graph.
proof fn lemma_defect_is_real(tasks: Map<Seq<char>, Task>, root: Seq<char>, e: ConfigError)
    requires
        graph_defect(tasks, root, e),
        tasks.contains_key(root),
    ensures
        has_cycle(tasks) || !resolves(tasks),
        reference_defect(tasks, e),
{
    match e {
        ConfigError::CircularDependency(text) => {
            let path = choose|path: Seq<Seq<char>>|
                {
                    &&& #[trigger] is_walk(tasks, path)
                    &&& path.len() >= 2
                    &&& path.drop_last().contains(path.last())
                    &&& text@ == join_spec(path, " -> "@)
                };
            let i = choose|i: int| 0 <= i < path.drop_last().len() && path.drop_last()[i] == path.last();
            let closed = path.subrange(i, path.len() as int);
            assert(closed[0] == path[i]);
            assert(closed.last() == path.last());
            assert forall|k: int| #![trigger closed[k]] 0 <= k < closed.len() - 1 implies refers(
                tasks,
                closed[k],
                closed[k + 1],
            ) by {
                assert(closed[k] == path[i + k]);
                assert(closed[k + 1] == path[i + k + 1]);
            }
            assert(is_walk(tasks, closed));
        },
        ConfigError::TaskNotFound(name) => {
            let from = choose|from: Seq<char>| #[trigger] refers(tasks, from, name@);
            assert(refers(tasks, from, name@));
        },
        _ => {},
    }
}

/// A sequence without repeats whose elements all come from `all` is no
/// longer than `all`.
proof fn lemma_distinct_within(part: Seq<Seq<char>>, all: Seq<Seq<char>>)
    requires
        part.no_duplicates(),
        forall|i: int| 0 <= i < part.len() ==> all.contains(#[trigger] part[i]),
    ensures
        part.len() <= all.len(),
{
    part.unique_seq_to_set();
    assert(part.to_set().subset_of(all.to_set())) by {
        assert forall|x: Seq<char>| part.to_set().contains(x) implies all.to_set().contains(x) by {
            let i = choose|i: int| 0 <= i < part.len() && part[i] == x;
            assert(all.contains(part[i]));
        }
    }
    vstd::seq_lib::seq_to_set_is_finite(all);
    vstd::set_lib::lemma_len_subset(part.to_set(), all.to_set());
    all.lemma_cardinality_of_set();
}

/// The names of the tasks that `task` refers to, in order.
fn task_references(task: &Task) -> (names: Vec<String>)
    ensures
        names.deep_view() == task.references(),
{
    let mut names: Vec<String> = Vec::new();
    collect_references(&task.run, &mut names);
    collect_references(&task.finally, &mut names);
    names
}

/// Appends to `names` the names of the tasks that `items` refer to.
fn collect_references(items: &Vec<Run>, names: &mut Vec<String>)
    ensures
        final(names).deep_view() == old(names).deep_view() + references_of(
            items@,
            items@.len() as int,
        ),
{
    let mut i: usize = 0;
    while i < items.len()
        invariant
            i <= items.len(),
            names.deep_view() == old(names).deep_view() + references_of(
                items@,
                i as int,
            ),
        decreases items.len() - i,
    {
        let ghost before = names.deep_view();
        match &items[i] {
            Run::SimpleCommand(_) => {
                assert(items@[i as int].references() == Seq::<Seq<char>>::empty());
            },
            Run::Complex(item) => {
                let mut j: usize = 0;
                while j < item.task.len()
                    invariant
                        j <= item.task.len(),
                        items@[i as int] == Run::Complex(*item),
                        names.deep_view() == before + items@[i as int].references().take(j as int),
                    decreases item.task.len() - j,
                {
                    let ghost so_far = names.deep_view();
                    let name = match &item.task[j] {
                        SubTask::Simple(name) => name.clone(),
                        SubTask::Complex(detail) => detail.name.clone(),
                    };
                    names.push(name);
                    proof {
                        assert(names.deep_view() == so_far.push(name@));
                        assert(items@[i as int].references().take(j + 1)
                            == items@[i as int].references().take(j as int).push(name@));
                    }
                    j += 1;
                }
                assert(items@[i as int].references().take(item.task.len() as int)
                    == items@[i as int].references());
            },
        }
        i += 1;
    }
}

/// Walks the references that can be reached from `task_name`, depth first.
///
/// `stack` holds the tasks on the way from the root of the walk down to the
/// one that refers to `task_name`; `visited` holds the tasks that are fully
/// processed, each after every task it refers to. Fails when `task_name` is
/// on `stack` already, or a task is referred to that is not defined.
fn check_task_cycle(
    config: &Config,
    task_name: &str,
    visited: &mut Vec<String>,
    stack: &mut Vec<String>,
    root: Ghost<Seq<char>>,
) -> (r: ConfigResult<()>)
    requires
        ranked(config.tasks@, old(visited).deep_view()),
        chain(config.tasks@, old(stack).deep_view()),
        old(stack).len() == 0 ==> task_name@ == root@,
        old(stack).len() > 0 ==> refers(
            config.tasks@,
            old(stack).deep_view().last(),
            task_name@,
        ),
    ensures
        reports(
            visit(
                config.tasks@,
                config.tasks.keys().len(),
                task_name@,
                old(visited).deep_view(),
                old(stack).deep_view(),
            ),
            r,
        ),
        match r {
            Ok(()) => {
                &&& final(stack).deep_view() == old(stack).deep_view()
                &&& visit(
                    config.tasks@,
                    config.tasks.keys().len(),
                    task_name@,
                    old(visited).deep_view(),
                    old(stack).deep_view(),
                ) == Walk::Done(final(visited).deep_view())
                &&& ranked(config.tasks@, final(visited).deep_view())
                &&& old(visited).deep_view().is_prefix_of(final(visited).deep_view())
                &&& final(visited).deep_view().contains(task_name@)
            },
            Err(e) => graph_defect(config.tasks@, root@, e),
        },
    decreases config.tasks.keys().len() - old(stack).len(),
{
    let ghost tasks = config.tasks@;
    let ghost stack0 = stack.deep_view();
    let ghost visited0 = visited.deep_view();
    if contains_str(stack, task_name) {
        stack.push(task_name.to_owned());
        let text = join(stack, " -> ");
        proof {
            let path = stack.deep_view();
            assert(path == stack0.push(task_name@));
            assert(path.drop_last() == stack0);
            assert forall|i: int| #![trigger path[i]] 0 <= i < path.len() - 1 implies refers(
                tasks,
                path[i],
                path[i + 1],
            ) by {
                if i < stack0.len() - 1 {
                    assert(path[i] == stack0[i]);
                    assert(path[i + 1] == stack0[i + 1]);
                }
            }
            assert(is_walk(tasks, path));
        }
        return Err(ConfigError::CircularDependency(text));
    }
    if contains_str(visited, task_name) {
        return Ok(());
    }
    let n = config.tasks.len();
    let task = match config.tasks.get(task_name) {
        Some(task) => task,
        None => {
            return Err(ConfigError::TaskNotFound(task_name.to_owned()));
        },
    };
    stack.push(task_name.to_owned());
    let ghost stack1 = stack.deep_view();
    proof {
        assert(stack1 == stack0.push(task_name@));
        assert(stack1.no_duplicates());
        assert forall|i: int| #![trigger stack1[i]] 0 <= i < stack1.len() - 1 implies refers(
            tasks,
            stack1[i],
            stack1[i + 1],
        ) by {
            if i < stack0.len() - 1 {
                assert(stack1[i] == stack0[i]);
                assert(stack1[i + 1] == stack0[i + 1]);
            }
        }
        assert forall|i: int| 0 <= i < stack1.len() implies config.tasks.keys().contains(
            #[trigger] stack1[i],
        ) by {
            assert(tasks.contains_key(stack1[i]));
        }
        lemma_distinct_within(stack1, config.tasks.keys());
    }
    let children = task_references(task);
    let mut k: usize = 0;
    while k < children.len()
        invariant
            k <= children.len(),
            tasks == config.tasks@,
            n == config.tasks.keys().len(),
            stack0 == old(stack).deep_view(),
            visited0 == old(visited).deep_view(),
            stack1 == stack0.push(task_name@),
            !stack0.contains(task_name@),
            !visited0.contains(task_name@),
            stack1.len() == stack0.len() + 1,
            stack1.len() <= n,
            stack1.last() == task_name@,
            stack.deep_view() == stack1,
            stack.len() == old(stack).len() + 1,
            chain(tasks, stack1),
            tasks.contains_key(task_name@),
            children.deep_view() == tasks[task_name@].references(),
            ranked(tasks, visited.deep_view()),
            visited0.is_prefix_of(visited.deep_view()),
            forall|j: int| 0 <= j < k ==> visited.deep_view().contains(#[trigger] children.deep_view()[j]),
            visit_each(tasks, n as nat, children.deep_view(), 0, visited0, stack1) == visit_each(
                tasks,
                n as nat,
                children.deep_view(),
                k as int,
                visited.deep_view(),
                stack1,
            ),
        decreases children.len() - k,
    {
        let ghost before = visited.deep_view();
        proof {
            assert(children.deep_view()[k as int] == children[k as int]@);
            assert(tasks[task_name@].references().contains(children.deep_view()[k as int]));
        }
        match check_task_cycle(config, children[k].as_str(), visited, stack, root) {
            Ok(()) => {},
            Err(e) => {
                proof {
                    let below = visit(tasks, n as nat, children.deep_view()[k as int], before, stack1);
                    assert(!(below is Done));
                    assert(visit_each(tasks, n as nat, children.deep_view(), k as int, before, stack1)
                        == below);
                    assert(visit(tasks, n as nat, task_name@, visited0, stack0) == below);
                }
                return Err(e);
            },
        }
        proof {
            let after = visited.deep_view();
            assert forall|j: int| 0 <= j < k + 1 implies after.contains(
                #[trigger] children.deep_view()[j],
            ) by {
                if j < k {
                    let c = children.deep_view()[j];
                    assert(before.contains(c));
                    let m = choose|m: int| 0 <= m < before.len() && before[m] == c;
                    assert(after[m] == c);
                }
            }
        }
        k += 1;
    }
    stack.pop();
    let ghost mid = visited.deep_view();
    visited.push(task_name.to_owned());
    proof {
        let after = visited.deep_view();
        assert(stack.deep_view() == stack1.drop_last());
        assert(stack1.drop_last() == stack0);
        assert(after == mid.push(task_name@));
        assert(after.last() == task_name@);
        assert(after[after.len() - 1] == task_name@);
        assert forall|i: int, to: Seq<char>| 0 <= i < after.len() && #[trigger] refers(
            tasks,
            after[i],
            to,
        ) implies below(after, i, to) by {
            if i < mid.len() {
                assert(after[i] == mid[i]);
                assert(below(mid, i, to));
                let j = choose|j: int| 0 <= j < i && j < mid.len() && mid[j] == to;
                assert(after[j] == to);
            } else {
                let c = choose|c: int|
                    0 <= c < children.deep_view().len() && children.deep_view()[c] == to;
                assert(mid.contains(children.deep_view()[c]));
                let j = choose|j: int| 0 <= j < mid.len() && mid[j] == to;
                assert(after[j] == to);
            }
        }
        assert forall|i: int| 0 <= i < after.len() implies tasks.contains_key(
            #[trigger] after[i],
        ) by {
            if i < mid.len() {
                assert(after[i] == mid[i]);
            }
        }
    }
    Ok(())
}

/// The walk through all tasks of `config`: from each task in turn, in the
/// order of the tasks, up to the first defect.
pub open spec fn config_walk(config: &Config) -> Walk {
    visit_each(
        config.tasks@,
        config.tasks.keys().len(),
        config.tasks.keys(),
        0,
        Seq::empty(),
        Seq::empty(),
    )
}

/// Checks that no task reaches itself through subtask references, in its
/// run or finally items, and that every task referred to is defined. The
/// tasks are walked depth first, and the first defect met is reported.
pub fn detect_circular_task_dependencies(config: &Config) -> (r: ConfigResult<()>)
    ensures
        reports(config_walk(config), r),
        match r {
            Ok(()) => !has_cycle(config.tasks@) && resolves(config.tasks@),
            Err(e) => (has_cycle(config.tasks@) || !resolves(config.tasks@)) && reference_defect(
                config.tasks@,
                e,
            ),
        },
{
    let mut visited: Vec<String> = Vec::new();
    let n = config.tasks.len();
    let mut i: usize = 0;
    assert(visited.deep_view() == Seq::<Seq<char>>::empty());
    while i < n
        invariant
            i <= n,
            n == config.tasks.keys().len(),
            config.tasks.consistent(),
            ranked(config.tasks@, visited.deep_view()),
            forall|j: int| 0 <= j < i ==> visited.deep_view().contains(#[trigger] config.tasks.keys()[j]),
            config_walk(config) == visit_each(
                config.tasks@,
                n as nat,
                config.tasks.keys(),
                i as int,
                visited.deep_view(),
                Seq::empty(),
            ),
        decreases n - i,
    {
        let name = config.tasks.key_at(i);
        let mut stack: Vec<String> = Vec::new();
        let ghost before = visited.deep_view();
        assert(stack.deep_view() == Seq::<Seq<char>>::empty());
        match check_task_cycle(config, name.as_str(), &mut visited, &mut stack, Ghost(name@)) {
            Ok(()) => {},
            Err(e) => {
                proof {
                    lemma_defect_is_real(config.tasks@, name@, e);
                    let below = visit(config.tasks@, n as nat, name@, before, Seq::empty());
                    assert(!(below is Done));
                    assert(config_walk(config) == below);
                }
                return Err(e);
            },
        }
        proof {
            let after = visited.deep_view();
            assert forall|j: int| 0 <= j < i + 1 implies after.contains(
                #[trigger] config.tasks.keys()[j],
            ) by {
                if j < i {
                    let c = config.tasks.keys()[j];
                    assert(before.contains(c));
                    let m = choose|m: int| 0 <= m < before.len() && before[m] == c;
                    assert(after[m] == c);
                }
            }
        }
        i += 1;
    }
    proof {
        assert forall|name: Seq<char>| config.tasks@.contains_key(name) implies visited.deep_view().contains(
            name,
        ) by {
            assert(config.tasks.keys().contains(name));
            let j = config.tasks.keys().index_of(name);
            assert(config.tasks.keys()[j] == name);
        }
        lemma_ranked_is_sound(config.tasks@, visited.deep_view());
    }
    Ok(())
}

/// The position of the first task, at or after `from`, that is not valid;
/// the number of tasks where there is none.
pub open spec fn first_invalid_task(config: &Config, from: int) -> int
    decreases config.tasks.values().len() - from,
{
    if from < 0 || from >= config.tasks.values().len() {
        config.tasks.values().len() as int
    } else if !task_valid(&config.tasks.values()[from]) {
        from
    } else {
        first_invalid_task(config, from + 1)
    }
}

/// Whether every task of `config` is valid, no task reaches itself through
/// references, and every task referred to is defined.
pub open spec fn config_valid(config: &Config) -> bool {
    &&& first_invalid_task(config, 0) == config.tasks.values().len()
    &&& !has_cycle(config.tasks@)
    &&& resolves(config.tasks@)
}

/// Whether `e` is the error that validation reports for `config`: that of
/// the first task that is not valid, or else the first defect that the
/// walk through the references meets.
pub open spec fn config_defect(config: &Config, e: ConfigError) -> bool {
    if first_invalid_task(config, 0) < config.tasks.values().len() {
        task_defect(&config.tasks.values()[first_invalid_task(config, 0)], e)
    } else {
        reports(config_walk(config), Err(e)) && reference_defect(config.tasks@, e)
    }
}

/// A circle among the references is reported as one: where every task is
/// valid and every task referred to is defined, but some task reaches
/// itself, the error that validation gives is a circular dependency whose
/// text is a walk along references that ends on a name it has passed.
pub proof fn lemma_cycle_is_reported(config: &Config, e: ConfigError)
    requires
        first_invalid_task(config, 0) == config.tasks.values().len(),
        resolves(config.tasks@),
        has_cycle(config.tasks@),
        config_defect(config, e),
    ensures
        e is CircularDependency,
        reference_defect(config.tasks@, e),
{
    if e is TaskNotFound {
        let name = e->TaskNotFound_0;
        let from = choose|from: Seq<char>| #[trigger] refers(config.tasks@, from, name@);
        assert(refers(config.tasks@, from, name@));
    }
}

/// Validates a complete configuration: each task in order, then the
/// references between them.
pub fn validate_config(config: &Config) -> (r: ConfigResult<()>)
    ensures
        match r {
            Ok(()) => config_valid(config),
            Err(e) => !config_valid(config) && config_defect(config, e),
        },
{
    let n = config.tasks.len();
    let mut i: usize = 0;
    while i < n
        invariant
            i <= n,
            n == config.tasks.keys().len(),
            config.tasks.consistent(),
            first_invalid_task(config, 0) == first_invalid_task(config, i as int),
        decreases n - i,
    {
        let name = config.tasks.key_at(i);
        let task = config.tasks.value_at(i);
        match validate_task(name.as_str(), task) {
            Ok(()) => {},
            Err(e) => {
                return Err(e);
            },
        }
        i += 1;
    }
    detect_circular_task_dependencies(config)
}

} // verus!

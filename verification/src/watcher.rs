use crate::logs_manager::line_texts;
use crate::task::{stop_rule_of, task_views, Task, TaskView, Type};
use vstd::prelude::*;

verus! {

/// The seconds between two rounds of the watcher.
pub const WATCH_INTERVAL: u64 = 60;

/// How many of the lines of a log are the given message, to the letter.
pub open spec fn hits(logs: Seq<(Seq<char>, Seq<char>, Seq<char>)>, message: Seq<char>) -> nat
    decreases logs.len(),
{
    if logs.len() == 0 {
        0
    } else if logs.last().2 == message {
        hits(logs.drop_last(), message) + 1
    } else {
        hits(logs.drop_last(), message)
    }
}

/// A rule that stops a deployment is fulfilled: the message occurs in the logs
/// as often as the rule requires, or more often. Where there is no rule,
/// nothing is fulfilled.
pub open spec fn fulfilled(
    rule: Option<(Seq<char>, i64)>,
    logs: Seq<(Seq<char>, Seq<char>, Seq<char>)>,
) -> bool {
    match rule {
        Some(rule) => hits(logs, rule.0) >= rule.1,
        None => false,
    }
}

/// Counts the lines of a log that are the given message.
pub fn count_hits(logs: &Vec<(String, String, String)>, message: &str) -> (n: usize)
    ensures
        n == hits(line_texts(logs@), message@),
{
    let mut n: usize = 0;
    let mut i: usize = 0;
    assert(line_texts(logs@).take(0) =~= Seq::<(Seq<char>, Seq<char>, Seq<char>)>::empty());
    while i < logs.len()
        invariant
            i <= logs.len(),
            n <= i,
            n == hits(line_texts(logs@).take(i as int), message@),
        decreases logs.len() - i,
    {
        proof {
            let next = line_texts(logs@).take(i + 1);
            assert(next.drop_last() =~= line_texts(logs@).take(i as int));
            assert(next.last() == (logs@[i as int].0@, logs@[i as int].1@, logs@[i as int].2@));
        }
        if crate::text::str_eq(logs[i].2.as_str(), message) {
            n += 1;
        }
        i += 1;
    }
    assert(line_texts(logs@).take(i as int) =~= line_texts(logs@));
    n
}

/// Whether a rule that was read from a task is fulfilled by the logs.
pub fn rule_fulfilled(rule: Option<(String, i64)>, logs: &Vec<(String, String, String)>) -> (r: bool)
    ensures
        r == fulfilled(
            match rule {
                Some(rule) => Some((rule.0@, rule.1)),
                None => None,
            },
            line_texts(logs@),
        ),
{
    match rule {
        Some(rule) => {
            let n = count_hits(logs, rule.0.as_str());
            if rule.1 <= 0 {
                true
            } else {
                n as u64 >= rule.1 as u64
            }
        },
        None => false,
    }
}

/// Whether the rule of a task is fulfilled by the logs of its deployment. A
/// task whose parameters hold no rule is never fulfilled.
pub fn log_task_fulfilled(task: &Task, logs: &Vec<(String, String, String)>) -> (r: bool)
    ensures
        r == fulfilled(stop_rule_of(task@.parameters), line_texts(logs@)),
{
    rule_fulfilled(task.stop_rule(), logs)
}

/// A task asks for its deployment to be stopped: it is watched while the
/// deployment runs, it is a rule that stops the deployment, and the rule is
/// fulfilled.
pub open spec fn asks_stop(task: TaskView, logs: Seq<(Seq<char>, Seq<char>, Seq<char>)>) -> bool {
    &&& task.during_deployment
    &&& task.task_type == Type::StopIfTrue
    &&& fulfilled(stop_rule_of(task.parameters), logs)
}

/// Whether a deployment with the given tasks is to be stopped: one of its
/// tasks asks for it. Tasks of other kinds ask for nothing.
pub fn watch(tasks: &Vec<Task>, logs: &Vec<(String, String, String)>) -> (stop: bool)
    ensures
        stop == exists|i: int|
            0 <= i < tasks@.len() && asks_stop(#[trigger] task_views(tasks@)[i], line_texts(logs@)),
{
    let mut i: usize = 0;
    while i < tasks.len()
        invariant
            i <= tasks.len(),
            forall|k: int| 0 <= k < i ==> !asks_stop(#[trigger] task_views(tasks@)[k], line_texts(logs@)),
        decreases tasks.len() - i,
    {
        assert(task_views(tasks@)[i as int] == tasks@[i as int]@);
        if tasks[i].during_deployment {
            match tasks[i].task_type {
                Type::StopIfTrue => {
                    if log_task_fulfilled(&tasks[i], logs) {
                        return true;
                    }
                },
                Type::NoOp | Type::PurgeLocalStorage | Type::DeleteLocalStorage | Type::GetResults => {},
            }
        }
        i += 1;
    }
    false
}

/// A task is watched: it is looked at while the deployment runs, it is a rule
/// that stops the deployment, and its parameters hold a rule.
pub open spec fn watched(task: TaskView) -> bool {
    &&& task.during_deployment
    &&& task.task_type == Type::StopIfTrue
    &&& stop_rule_of(task.parameters) is Some
}

/// Whether the logs of a deployment with the given tasks have to be read: they
/// have where one of its tasks is watched. The logs of a deployment without a
/// watched task are left alone.
pub fn needs_logs(tasks: &Vec<Task>) -> (needed: bool)
    ensures
        needed == exists|i: int| 0 <= i < tasks@.len() && watched(#[trigger] task_views(tasks@)[i]),
{
    let mut i: usize = 0;
    while i < tasks.len()
        invariant
            i <= tasks.len(),
            forall|k: int| 0 <= k < i ==> !watched(#[trigger] task_views(tasks@)[k]),
        decreases tasks.len() - i,
    {
        assert(task_views(tasks@)[i as int] == tasks@[i as int]@);
        if tasks[i].during_deployment {
            match tasks[i].task_type {
                Type::StopIfTrue => {
                    if tasks[i].stop_rule().is_some() {
                        return true;
                    }
                },
                Type::NoOp | Type::PurgeLocalStorage | Type::DeleteLocalStorage | Type::GetResults => {},
            }
        }
        i += 1;
    }
    false
}

/// A task that is not watched asks for nothing, whatever the logs hold: so a
/// deployment whose logs need not be read is not stopped.
pub proof fn lemma_unwatched_asks_nothing(
    task: TaskView,
    logs: Seq<(Seq<char>, Seq<char>, Seq<char>)>,
)
    requires
        !watched(task),
    ensures
        !asks_stop(task, logs),
{
}

} // verus!

use crate::task::{task_views, Task, TaskView, Type};
use crate::text::{opt_text, pieces, replaced, split_char, str_eq, str_replace, texts};
use vstd::prelude::*;

verus! {

/// A task fetches the results of the service of the given identifier.
pub open spec fn fetches_for(task: TaskView, service: i64) -> bool {
    task.task_type == Type::GetResults && task.service == Some(service)
}

/// The tasks of the list that fetch the results of the service, in order.
pub open spec fn results_tasks_of(tasks: Seq<TaskView>, service: i64) -> Seq<TaskView>
    decreases tasks.len(),
{
    if tasks.len() == 0 {
        seq![]
    } else if fetches_for(tasks.last(), service) {
        results_tasks_of(tasks.drop_last(), service).push(tasks.last())
    } else {
        results_tasks_of(tasks.drop_last(), service)
    }
}

/// The tasks that fetch the results of a service before it is stopped.
pub fn results_tasks(tasks: &Vec<Task>, service: i64) -> (found: Vec<Task>)
    ensures
        task_views(found@) == results_tasks_of(task_views(tasks@), service),
{
    let mut found: Vec<Task> = Vec::new();
    let mut i: usize = 0;
    assert(task_views(found@) =~= results_tasks_of(task_views(tasks@).take(0), service));
    while i < tasks.len()
        invariant
            i <= tasks.len(),
            task_views(found@) == results_tasks_of(task_views(tasks@).take(i as int), service),
        decreases tasks.len() - i,
    {
        let ghost before = task_views(found@);
        proof {
            let next = task_views(tasks@).take(i + 1);
            assert(next.drop_last() =~= task_views(tasks@).take(i as int));
            assert(next.last() == tasks@[i as int]@);
        }
        let for_service = match tasks[i].service {
            Some(id) => id == service,
            None => false,
        };
        let fetches = match tasks[i].task_type {
            Type::GetResults => true,
            _ => false,
        };
        if fetches && for_service {
            let task = tasks[i].clone();
            found.push(task);
            assert(task_views(found@) =~= before.push(task@));
        }
        i += 1;
    }
    assert(task_views(tasks@).take(i as int) =~= task_views(tasks@));
    found
}

/// The name of the image that a file of the image directory holds: the name
/// of the file without its ending, where the ending is that of an archive.
pub open spec fn image_of(filename: Seq<char>) -> Option<Seq<char>> {
    if pieces(filename, '.').last() == "zip"@ {
        Some(replaced(filename, ".zip"@, ""@))
    } else {
        None
    }
}

/// The name of the image that a file of the image directory holds.
pub fn image_name(filename: &str) -> (r: Option<String>)
    ensures
        opt_text(r) == image_of(filename@),
{
    let items = split_char(filename, '.');
    proof {
        crate::text::lemma_pieces_len(filename@, '.');
        assert(texts(items@).len() == items@.len());
        assert(texts(items@).last() == items@[items.len() - 1]@);
    }
    if str_eq(items[items.len() - 1].as_str(), "zip") {
        Some(str_replace(filename, ".zip", ""))
    } else {
        None
    }
}

} // verus!

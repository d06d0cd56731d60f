//! The operations on a task list: the next identifier, adding a task,
//! listing, removing and completing the selected tasks.
//!
//! A list is a `Vec<TodoItem>` in display order. Contracts speak of the
//! sequence of [`TaskView`]s that it stands for, and of the set of
//! identifiers that a selection stands for.

use vstd::prelude::*;
use crate::task::{list_view, TaskView, TodoItem};

verus! {

/// The greatest identifier in the list, 0 for the empty list.
pub open spec fn max_id(list: Seq<TaskView>) -> nat
    decreases list.len(),
{
    if list.len() == 0 {
        0
    } else {
        let before = max_id(list.drop_last());
        if list.last().id > before {
            list.last().id
        } else {
            before
        }
    }
}

/// The identifier that the next task gets: one more than the greatest in
/// the list, so 1 for the empty list.
pub open spec fn fresh_id(list: Seq<TaskView>) -> nat {
    max_id(list) + 1
}

/// No identifier occurs twice.
pub open spec fn unique_ids(list: Seq<TaskView>) -> bool {
    forall|i: int, j: int| 0 <= i < j < list.len() ==> list[i].id != list[j].id
}

/// The invariant of a task list: identifiers are positive and unique.
pub open spec fn well_formed(list: Seq<TaskView>) -> bool {
    &&& unique_ids(list)
    &&& forall|i: int| 0 <= i < list.len() ==> (#[trigger] list[i]).id > 0
}

/// The identifiers that occur in the list.
pub open spec fn all_ids(list: Seq<TaskView>) -> Set<nat> {
    Set::new(|id: nat| exists|i: int| 0 <= i < list.len() && (#[trigger] list[i]).id == id)
}

/// The set of identifiers that a selection names. An identifier may be
/// named more than once, and need not belong to any task.
pub open spec fn id_set(ids: Seq<usize>) -> Set<nat> {
    Set::new(|id: nat| exists|i: int| 0 <= i < ids.len() && #[trigger] ids[i] as nat == id)
}

/// The list with a new, uncompleted task at its end.
pub open spec fn with_task(list: Seq<TaskView>, task: Seq<char>) -> Seq<TaskView> {
    list.push(TaskView { id: fresh_id(list), task, completed: false })
}

/// The test that a task passes if its identifier is not in `ids`.
pub open spec fn kept_by(ids: Set<nat>) -> spec_fn(TaskView) -> bool {
    |t: TaskView| !ids.contains(t.id)
}

/// The list without the tasks whose identifier is in `ids`: the others, in
/// their order.
pub open spec fn without(list: Seq<TaskView>, ids: Set<nat>) -> Seq<TaskView> {
    list.filter(kept_by(ids))
}

/// The task, completed if its identifier is in `ids`.
pub open spec fn completed_if(t: TaskView, ids: Set<nat>) -> TaskView {
    if ids.contains(t.id) {
        TaskView { completed: true, ..t }
    } else {
        t
    }
}

/// The list in which every task whose identifier is in `ids` is completed.
pub open spec fn with_completed(list: Seq<TaskView>, ids: Set<nat>) -> Seq<TaskView> {
    list.map_values(|t: TaskView| completed_if(t, ids))
}

/// Every identifier in the list is at most `max_id`, and a non-empty list
/// holds a task that has it.
pub proof fn lemma_max_id(list: Seq<TaskView>)
    ensures
        forall|i: int| 0 <= i < list.len() ==> (#[trigger] list[i]).id <= max_id(list),
        list.len() > 0 ==> exists|i: int| 0 <= i < list.len() && (#[trigger] list[i]).id == max_id(list),
    decreases list.len(),
{
    if list.len() > 0 {
        let front = list.drop_last();
        lemma_max_id(front);
        assert forall|i: int| 0 <= i < list.len() implies (#[trigger] list[i]).id <= max_id(list) by {
            if i < front.len() {
                assert(list[i] == front[i]);
            }
        }
        if list.last().id <= max_id(front) && front.len() > 0 {
            let i = choose|i: int| 0 <= i < front.len() && (#[trigger] front[i]).id == max_id(front);
            assert(list[i].id == max_id(list));
        } else {
            assert(list.last().id == max_id(list));
        }
    }
}

/// The greatest identifier in the list, 0 for the empty list.
pub fn greatest_id(tasks: &Vec<TodoItem>) -> (greatest: usize)
    ensures
        greatest as nat == max_id(list_view(tasks@)),
{
    let mut greatest: usize = 0;
    let mut i: usize = 0;
    while i < tasks.len()
        invariant
            0 <= i <= tasks.len(),
            greatest as nat == max_id(list_view(tasks@).take(i as int)),
        decreases tasks.len() - i,
    {
        proof {
            let list = list_view(tasks@);
            assert(list.take(i + 1).drop_last() == list.take(i as int));
        }
        if tasks[i].id > greatest {
            greatest = tasks[i].id;
        }
        i += 1;
    }
    proof {
        let list = list_view(tasks@);
        assert(list.take(tasks.len() as int) == list);
    }
    greatest
}

/// The identifier for the next task: 1 for the empty list, else one more
/// than the greatest identifier in it, wherever in the list that stands.
pub fn next_id(tasks: &Vec<TodoItem>) -> (id: usize)
    requires
        max_id(list_view(tasks@)) < usize::MAX,
    ensures
        id as nat == fresh_id(list_view(tasks@)),
        id >= 1,
        forall|i: int| 0 <= i < tasks.len() ==> (#[trigger] tasks[i]).id != id,
{
    proof {
        lemma_max_id(list_view(tasks@));
        assert forall|i: int| 0 <= i < tasks.len() implies (#[trigger] tasks[i]).id != max_id(
            list_view(tasks@),
        ) + 1 by {
            assert(list_view(tasks@)[i].id == tasks[i].id);
        }
    }
    greatest_id(tasks) + 1
}

/// Appends a task with the next identifier and the given description, not
/// completed. The description is taken as it is.
pub fn add_task(tasks: &mut Vec<TodoItem>, task: String)
    requires
        max_id(list_view(old(tasks)@)) < usize::MAX,
    ensures
        list_view(final(tasks)@) == with_task(list_view(old(tasks)@), task@),
        well_formed(list_view(old(tasks)@)) ==> well_formed(list_view(final(tasks)@)),
{
    let id = next_id(tasks);
    let ghost before = list_view(tasks@);
    let ghost text = task@;
    tasks.push(TodoItem { id, task, completed: false });
    proof {
        if well_formed(before) {
            lemma_with_task_well_formed(before, text);
        }
    }
}

/// The tasks in list order, as they are.
pub fn list_tasks(tasks: &Vec<TodoItem>) -> (listed: &[TodoItem])
    ensures
        listed@ == tasks@,
{
    tasks.as_slice()
}

/// Whether the selection names the identifier.
pub fn is_selected(ids: &Vec<usize>, id: usize) -> (selected: bool)
    ensures
        selected == id_set(ids@).contains(id as nat),
{
    let mut i: usize = 0;
    while i < ids.len()
        invariant
            0 <= i <= ids.len(),
            forall|j: int| 0 <= j < i ==> ids[j] != id,
        decreases ids.len() - i,
    {
        if ids[i] == id {
            return true;
        }
        i += 1;
    }
    false
}

/// Removes every task whose identifier the selection names, and keeps the
/// others in their order. Identifiers that belong to no task are ignored.
pub fn remove_tasks(tasks: &mut Vec<TodoItem>, ids: &Vec<usize>)
    ensures
        list_view(final(tasks)@) == without(list_view(old(tasks)@), id_set(ids@)),
        well_formed(list_view(old(tasks)@)) ==> well_formed(list_view(final(tasks)@)),
{
    let ghost before = tasks@;
    let ghost chosen = id_set(ids@);
    let ghost mut seen: int = 0;
    let mut i: usize = 0;
    while i < tasks.len()
        invariant
            0 <= i <= tasks.len(),
            0 <= seen <= before.len(),
            tasks.len() - i == before.len() - seen,
            chosen == id_set(ids@),
            list_view(tasks@.take(i as int)) == without(list_view(before).take(seen), chosen),
            tasks@.skip(i as int) == before.skip(seen),
        decreases tasks.len() - i,
    {
        proof {
            let list = list_view(before);
            reveal(Seq::filter);
            assert(before[seen] == before.skip(seen)[0]);
            assert(list.take(seen + 1).drop_last() == list.take(seen));
            assert(list.take(seen + 1).last() == before[seen]@);
        }
        let ghost current = tasks@;
        let ghost kept = tasks@.take(i as int);
        if is_selected(ids, tasks[i].id) {
            tasks.remove(i);
            proof {
                assert(tasks@.take(i as int) == kept);
                assert forall|k: int| 0 <= k < tasks.len() - i implies tasks@.skip(i as int)[k]
                    == before.skip(seen + 1)[k] by {
                    assert(current.skip(i as int)[k + 1] == before.skip(seen)[k + 1]);
                }
            }
        } else {
            i += 1;
            proof {
                assert(tasks@.take(i as int) == kept.push(before[seen]));
                assert(list_view(kept.push(before[seen])) == list_view(kept).push(before[seen]@));
                assert forall|k: int| 0 <= k < tasks.len() - i implies tasks@.skip(i as int)[k]
                    == before.skip(seen + 1)[k] by {
                    assert(current.skip(i - 1)[k + 1] == before.skip(seen)[k + 1]);
                }
            }
        }
        proof {
            seen = seen + 1;
        }
    }
    proof {
        assert(list_view(before).take(before.len() as int) == list_view(before));
        if well_formed(list_view(before)) {
            lemma_without_well_formed(list_view(before), chosen);
        }
    }
}

/// Marks every task whose identifier the selection names as completed, and
/// leaves the others as they are. Identifiers that belong to no task are
/// ignored, and a task that was completed stays so.
pub fn complete_tasks(tasks: &mut Vec<TodoItem>, ids: &Vec<usize>)
    ensures
        list_view(final(tasks)@) == with_completed(list_view(old(tasks)@), id_set(ids@)),
        well_formed(list_view(old(tasks)@)) ==> well_formed(list_view(final(tasks)@)),
{
    let ghost before = tasks@;
    let ghost chosen = id_set(ids@);
    let mut i: usize = 0;
    while i < tasks.len()
        invariant
            0 <= i <= tasks.len(),
            tasks.len() == before.len(),
            chosen == id_set(ids@),
            forall|j: int| 0 <= j < i ==> (#[trigger] tasks@[j])@ == completed_if(before[j]@, chosen),
            forall|j: int| i <= j < tasks.len() ==> tasks@[j] == before[j],
        decreases tasks.len() - i,
    {
        if is_selected(ids, tasks[i].id) {
            tasks[i].completed = true;
        }
        i += 1;
    }
    proof {
        if well_formed(list_view(before)) {
            lemma_with_completed_well_formed(list_view(before), chosen);
        }
    }
}

/// Adding a task keeps the invariant of the list.
pub proof fn lemma_with_task_well_formed(list: Seq<TaskView>, task: Seq<char>)
    requires
        well_formed(list),
    ensures
        well_formed(with_task(list, task)),
{
    lemma_max_id(list);
}

/// Removing tasks keeps the invariant of the list.
pub proof fn lemma_without_well_formed(list: Seq<TaskView>, ids: Set<nat>)
    requires
        well_formed(list),
    ensures
        well_formed(without(list, ids)),
    decreases list.len(),
{
    if list.len() > 0 {
        let front = list.drop_last();
        let keep = kept_by(ids);
        let kept = front.filter(keep);
        assert(well_formed(front)) by {
            assert forall|i: int| 0 <= i < front.len() implies front[i] == list[i] by {}
        }
        lemma_without_well_formed(front, ids);
        reveal(Seq::filter);
        if keep(list.last()) {
            let result = kept.push(list.last());
            assert forall|i: int, j: int| 0 <= i < j < result.len() implies result[i].id
                != result[j].id by {
                if j == kept.len() {
                    front.lemma_filter_contains_rev(keep, kept[i]);
                    let m = choose|m: int| 0 <= m < front.len() && front[m] == kept[i];
                    assert(list[m].id != list.last().id);
                }
            }
        }
    }
}

/// Completing tasks keeps the invariant of the list.
pub proof fn lemma_with_completed_well_formed(list: Seq<TaskView>, ids: Set<nat>)
    requires
        well_formed(list),
    ensures
        well_formed(with_completed(list, ids)),
{
}

/// The identifier that a list gets next, after a task was added to it and
/// nothing was removed, belongs to no task of the list before the addition.
pub proof fn lemma_fresh_id_never_collides(list: Seq<TaskView>, task: Seq<char>)
    ensures
        forall|i: int|
            0 <= i < list.len() ==> (#[trigger] list[i]).id != fresh_id(
                without(with_task(list, task), Set::empty()),
            ),
{
    let grown = with_task(list, task);
    lemma_remove_nothing(grown);
    lemma_max_id(grown);
    assert forall|i: int| 0 <= i < list.len() implies (#[trigger] list[i]).id != fresh_id(grown) by {
        assert(grown[i] == list[i]);
    }
}

/// Completing the same selection twice gives what completing it once gives.
pub proof fn lemma_complete_idempotent(list: Seq<TaskView>, ids: Set<nat>)
    ensures
        with_completed(with_completed(list, ids), ids) == with_completed(list, ids),
{
}

/// Removing the empty selection leaves the list as it is, and a selection
/// without identifiers is the empty one.
pub proof fn lemma_remove_nothing(list: Seq<TaskView>)
    ensures
        without(list, Set::empty()) == list,
        id_set(Seq::empty()) == Set::<nat>::empty(),
    decreases list.len(),
{
    reveal(Seq::filter);
    if list.len() > 0 {
        lemma_remove_nothing(list.drop_last());
    }
}

/// Removing a selection that names every identifier of the list leaves the
/// empty list.
pub proof fn lemma_remove_covering(list: Seq<TaskView>, ids: Set<nat>)
    requires
        all_ids(list).subset_of(ids),
    ensures
        without(list, ids) == Seq::<TaskView>::empty(),
    decreases list.len(),
{
    reveal(Seq::filter);
    if list.len() > 0 {
        let front = list.drop_last();
        assert forall|id: nat| all_ids(front).contains(id) implies all_ids(list).contains(id) by {
            let i = choose|i: int| 0 <= i < front.len() && (#[trigger] front[i]).id == id;
            assert(list[i].id == id);
        }
        lemma_remove_covering(front, ids);
        assert(all_ids(list).contains(list.last().id));
    }
}

/// Removing the selection of all identifiers of the list leaves the empty
/// list.
pub proof fn lemma_remove_everything(list: Seq<TaskView>)
    ensures
        without(list, all_ids(list)) == Seq::<TaskView>::empty(),
{
    lemma_remove_covering(list, all_ids(list));
}

} // verus!

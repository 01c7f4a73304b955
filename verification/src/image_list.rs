//! The list of images the interface shows, and the steps that change it: adding files,
//! removing one, starting a batch and recording the outcome of each task.
use crate::worker::task::TaskStatus;
use vstd::prelude::*;

verus! {

/// One row of the list: its id, the file's path and where its compression stands.
#[derive(Debug, Clone)]
pub struct ImageItem {
    pub id: u64,
    pub filepath: String,
    pub status: TaskStatus,
}

/// Ids grow strictly along the list, so no id occurs twice.
pub open spec fn list_wf(items: Seq<ImageItem>) -> bool {
    forall|i: int, j: int| 0 <= i < j < items.len() ==> items[i].id < items[j].id
}

/// The id the next added file gets: one past the largest id in the list, zero for an
/// empty list.
pub open spec fn fresh_id(items: Seq<ImageItem>) -> int {
    if items.len() == 0 {
        0
    } else {
        items.last().id + 1
    }
}

/// The rows that adding `paths` appends: consecutive ids from `start`, all pending.
pub open spec fn added_rows(start: int, paths: Seq<String>) -> Seq<ImageItem> {
    Seq::new(
        paths.len(),
        |k: int| ImageItem { id: (start + k) as u64, filepath: paths[k], status: TaskStatus::Pending },
    )
}

/// The position of the row with id `id`, if there is one.
pub open spec fn has_id(items: Seq<ImageItem>, id: u64) -> bool {
    exists|i: int| 0 <= i < items.len() && items[i].id == id
}

/// The (id, path) pairs of the pending rows, in list order.
pub open spec fn pending_tasks(items: Seq<ImageItem>) -> Seq<(u64, String)>
    decreases items.len(),
{
    if items.len() == 0 {
        Seq::empty()
    } else {
        let rest = pending_tasks(items.drop_last());
        let last = items.last();
        if last.status is Pending {
            rest.push((last.id, last.filepath))
        } else {
            rest
        }
    }
}

/// A row once its batch has started: pending becomes processing, any other status stays.
pub open spec fn started(item: ImageItem) -> ImageItem {
    if item.status is Pending {
        ImageItem { status: TaskStatus::Processing, ..item }
    } else {
        item
    }
}

/// The status a finished task gets: completed with both sizes, or failed with the error.
pub open spec fn finished_status(outcome: Result<(u64, u64), String>) -> TaskStatus {
    match outcome {
        Ok((original_size, compressed_size)) => TaskStatus::Completed {
            original_size,
            compressed_size,
        },
        Err(error) => TaskStatus::Failed { error },
    }
}

/// A row after the task with id `id` finished: that row gets the new status, every
/// other row stays as it was.
pub open spec fn finished(item: ImageItem, id: u64, outcome: Result<(u64, u64), String>) -> ImageItem {
    if item.id == id {
        ImageItem { status: finished_status(outcome), ..item }
    } else {
        item
    }
}

/// Ids handed to added files are new: none of them is the id of a row already in the
/// list, and they grow with the position of the file.
pub proof fn law_added_ids_are_new(items: Seq<ImageItem>, paths: Seq<String>)
    requires
        list_wf(items),
        fresh_id(items) + paths.len() <= u64::MAX,
    ensures
        forall|i: int, k: int|
            0 <= i < items.len() && 0 <= k < paths.len() ==> #[trigger] items[i].id
                < #[trigger] added_rows(fresh_id(items), paths)[k].id,
        forall|k: int, l: int|
            0 <= k < l < paths.len() ==> #[trigger] added_rows(fresh_id(items), paths)[k].id
                < #[trigger] added_rows(fresh_id(items), paths)[l].id,
{
    assert forall|i: int, k: int|
        0 <= i < items.len() && 0 <= k < paths.len() implies #[trigger] items[i].id
            < #[trigger] added_rows(fresh_id(items), paths)[k].id by {
        if i < items.len() - 1 {
            assert(items[i].id < items.last().id);
        }
    }
}

/// The handed-out pairs are exactly those of the pending rows.
proof fn lemma_pending_tasks_members(items: Seq<ImageItem>, x: (u64, String))
    ensures
        pending_tasks(items).contains(x) <==> exists|j: int|
            0 <= j < items.len() && items[j].status is Pending && x == (
                items[j].id,
                items[j].filepath,
            ),
    decreases items.len(),
{
    if items.len() > 0 {
        let rest = items.drop_last();
        lemma_pending_tasks_members(rest, x);
        let last = items.last();
        if pending_tasks(items).contains(x) {
            if last.status is Pending && x == (last.id, last.filepath) {
                assert(items[items.len() - 1] == last);
            } else {
                let pt = pending_tasks(rest);
                if last.status is Pending {
                    let k = choose|k: int| 0 <= k < pt.push((last.id, last.filepath)).len() && pt.push((last.id, last.filepath))[k] == x;
                    assert(k < pt.len());
                    assert(pt[k] == x);
                }
                let j = choose|j: int| 0 <= j < rest.len() && rest[j].status is Pending && x == (
                    rest[j].id,
                    rest[j].filepath,
                );
                assert(items[j] == rest[j]);
            }
        } else {
            if exists|j: int|
                0 <= j < items.len() && items[j].status is Pending && x == (
                    items[j].id,
                    items[j].filepath,
                ) {
                let j = choose|j: int|
                    0 <= j < items.len() && items[j].status is Pending && x == (
                        items[j].id,
                        items[j].filepath,
                    );
                if j == items.len() - 1 {
                    let pt = pending_tasks(rest).push((last.id, last.filepath));
                    assert(pt[pt.len() - 1] == x);
                } else {
                    assert(rest[j] == items[j]);
                    let pt = pending_tasks(rest);
                    let k = choose|k: int| 0 <= k < pt.len() && pt[k] == x;
                    if last.status is Pending {
                        assert(pt.push((last.id, last.filepath))[k] == x);
                    }
                }
            }
        }
    }
}

/// Law: a batch hands out exactly the pending rows, and a row is processing after the
/// start exactly when it was processing before or was handed out; every row not handed
/// out is left as it was, and no row changes its id or path.
pub proof fn law_start_changes_only_handed_out_rows(items: Seq<ImageItem>)
    requires
        list_wf(items),
    ensures
        forall|j: int|
            0 <= j < items.len() ==> (pending_tasks(items).contains(
                (items[j].id, items[j].filepath),
            ) <==> items[j].status is Pending),
        forall|x: (u64, String)|
            #[trigger] pending_tasks(items).contains(x) <==> exists|j: int|
                0 <= j < items.len() && items[j].status is Pending && x == (
                    items[j].id,
                    items[j].filepath,
                ),
        forall|j: int|
            0 <= j < items.len() ==> (#[trigger] started(items[j]).status is Processing <==> (
            items[j].status is Processing || pending_tasks(items).contains(
                (items[j].id, items[j].filepath),
            ))),
        forall|j: int|
            0 <= j < items.len() && !pending_tasks(items).contains(
                (items[j].id, items[j].filepath),
            ) ==> #[trigger] started(items[j]) == items[j],
        forall|j: int|
            0 <= j < items.len() ==> #[trigger] started(items[j]).id == items[j].id
                && started(items[j]).filepath == items[j].filepath,
{
    assert forall|j: int| 0 <= j < items.len() implies (pending_tasks(items).contains(
        (items[j].id, items[j].filepath),
    ) <==> items[j].status is Pending) by {
        let x = (items[j].id, items[j].filepath);
        lemma_pending_tasks_members(items, x);
        if pending_tasks(items).contains(x) {
            let j2 = choose|j2: int|
                0 <= j2 < items.len() && items[j2].status is Pending && x == (
                    items[j2].id,
                    items[j2].filepath,
                );
            if j2 != j {
                if j2 < j {
                    assert(items[j2].id < items[j].id);
                } else {
                    assert(items[j].id < items[j2].id);
                }
            }
        }
    }
    assert forall|x: (u64, String)|
        #[trigger] pending_tasks(items).contains(x) <==> exists|j: int|
            0 <= j < items.len() && items[j].status is Pending && x == (
                items[j].id,
                items[j].filepath,
            ) by {
        lemma_pending_tasks_members(items, x);
    }
}

/// The id the next added file gets.
pub fn next_image_id(items: &Vec<ImageItem>) -> (r: u64)
    requires
        fresh_id(items@) <= u64::MAX,
    ensures
        r == fresh_id(items@),
{
    if items.len() == 0 {
        0
    } else {
        items[items.len() - 1].id + 1
    }
}

/// Appends one pending row per path, with fresh ids counting up from one past the
/// largest id in the list.
pub fn add_images(items: &mut Vec<ImageItem>, paths: Vec<String>)
    requires
        list_wf(old(items)@),
        fresh_id(old(items)@) + paths@.len() <= u64::MAX,
    ensures
        final(items)@ == old(items)@ + added_rows(fresh_id(old(items)@), paths@),
        list_wf(final(items)@),
{
    let start = next_image_id(items);
    let ghost old_items = items@;
    let mut k: usize = 0;
    while k < paths.len()
        invariant
            list_wf(old_items),
            start == fresh_id(old_items),
            start + paths@.len() <= u64::MAX,
            k <= paths@.len(),
            items@ == old_items + added_rows(start as int, paths@.take(k as int)),
        decreases paths.len() - k,
    {
        let row = ImageItem { id: start + k as u64, filepath: paths[k].clone(), status: TaskStatus::Pending };
        items.push(row);
        k = k + 1;
        assert(items@ =~= old_items + added_rows(start as int, paths@.take(k as int)));
    }
    assert(paths@.take(paths@.len() as int) =~= paths@);
    assert forall|i: int, j: int| 0 <= i < j < items@.len() implies items@[i].id < items@[j].id by {
        if j >= old_items.len() && i < old_items.len() {
            assert(old_items[i].id <= old_items.last().id);
        }
    }
}

/// Removes the row with id `id`; false, and the list unchanged, when there is none.
pub fn remove_image(items: &mut Vec<ImageItem>, id: u64) -> (removed: bool)
    requires
        list_wf(old(items)@),
    ensures
        removed == has_id(old(items)@, id),
        removed ==> exists|i: int|
            0 <= i < old(items)@.len() && old(items)@[i].id == id && final(items)@ == old(
                items,
            )@.remove(i),
        !removed ==> final(items)@ == old(items)@,
        list_wf(final(items)@),
        forall|i: int| 0 <= i < final(items)@.len() ==> final(items)@[i].id != id,
{
    let ghost old_items = items@;
    let mut i: usize = 0;
    while i < items.len()
        invariant
            items@ == old_items,
            old_items == old(items)@,
            list_wf(items@),
            i <= items@.len(),
            forall|j: int| 0 <= j < i ==> items@[j].id != id,
        decreases items.len() - i,
    {
        if items[i].id == id {
            let ghost before = items@;
            assert(has_id(old_items, id));
            items.remove(i);
            assert forall|a: int, b: int| 0 <= a < b < items@.len() implies items@[a].id
                < items@[b].id by {
                let a2 = if a < i { a } else { a + 1 };
                let b2 = if b < i { b } else { b + 1 };
                assert(items@[a] == before[a2] && items@[b] == before[b2]);
            }
            assert forall|j: int| 0 <= j < items@.len() implies items@[j].id != id by {
                if j < i {
                } else {
                    assert(items@[j] == before[j + 1]);
                }
            }
            return true;
        }
        i = i + 1;
    }
    assert(!has_id(old_items, id));
    false
}

/// Empties the list.
pub fn clear_images(items: &mut Vec<ImageItem>)
    ensures
        final(items)@ == Seq::<ImageItem>::empty(),
{
    items.clear();
}

/// Starts a batch: hands out the (id, path) of every pending row in list order and marks
/// those rows processing; the other rows are left as they are.
pub fn start_batch(items: &mut Vec<ImageItem>) -> (tasks: Vec<(u64, String)>)
    ensures
        tasks@ == pending_tasks(old(items)@),
        final(items)@ == old(items)@.map_values(|item: ImageItem| started(item)),
{
    let ghost old_items = items@;
    let mut tasks: Vec<(u64, String)> = Vec::new();
    let mut i: usize = 0;
    while i < items.len()
        invariant
            old_items == old(items)@,
            items@.len() == old_items.len(),
            i <= items@.len(),
            tasks@ == pending_tasks(old_items.take(i as int)),
            forall|j: int| 0 <= j < i ==> items@[j] == started(old_items[j]),
            forall|j: int| i <= j < items@.len() ==> items@[j] == old_items[j],
        decreases items.len() - i,
    {
        assert(old_items.take(i as int + 1).drop_last() =~= old_items.take(i as int));
        if items[i].status.is_pending() {
            tasks.push((items[i].id, items[i].filepath.clone()));
            let item = items.remove(i);
            items.insert(i, ImageItem { id: item.id, filepath: item.filepath, status: TaskStatus::Processing });
        }
        i = i + 1;
    }
    assert(old_items.take(old_items.len() as int) =~= old_items);
    assert(items@ =~= old_items.map_values(|item: ImageItem| started(item)));
    tasks
}

/// Records the outcome of the task with id `id` on its row and counts it done; true once
/// every task of the batch is done.
pub fn finish_task(
    items: &mut Vec<ImageItem>,
    id: u64,
    outcome: Result<(u64, u64), String>,
    done: &mut u64,
    total: u64,
) -> (all_done: bool)
    requires
        list_wf(old(items)@),
        *old(done) < total,
    ensures
        final(items)@ == old(items)@.map_values(|item: ImageItem| finished(item, id, outcome)),
        list_wf(final(items)@),
        *final(done) == *old(done) + 1,
        all_done == (*final(done) == total),
{
    let ghost old_items = items@;
    let mut i: usize = 0;
    while i < items.len()
        invariant
            items@ == old_items,
            old_items == old(items)@,
            list_wf(old_items),
            *done == *old(done),
            *old(done) < total,
            i <= items@.len(),
            forall|j: int| 0 <= j < i ==> items@[j].id != id,
        decreases items.len() - i,
    {
        if items[i].id == id {
            let item = items.remove(i);
            let status = match outcome {
                Ok((original_size, compressed_size)) => TaskStatus::Completed {
                    original_size,
                    compressed_size,
                },
                Err(error) => TaskStatus::Failed { error },
            };
            items.insert(i, ImageItem { id: item.id, filepath: item.filepath, status });
            assert forall|j: int| 0 <= j < items@.len() implies items@[j] == finished(
                old_items[j],
                id,
                outcome,
            ) by {
                if j != i {
                    assert(old_items[j].id != id) by {
                        if j > i {
                            assert(old_items[i as int].id < old_items[j].id);
                        }
                    }
                }
            }
            assert(items@ =~= old_items.map_values(|item: ImageItem| finished(item, id, outcome)));
            assert forall|a: int, b: int| 0 <= a < b < items@.len() implies items@[a].id
                < items@[b].id by {
                assert(items@[a].id == old_items[a].id && items@[b].id == old_items[b].id);
            }
            *done = *done + 1;
            return *done == total;
        }
        i = i + 1;
    }
    assert(items@ =~= old_items.map_values(|item: ImageItem| finished(item, id, outcome)));
    *done = *done + 1;
    *done == total
}

} // verus!

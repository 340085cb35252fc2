//! Thumbnail scheduling: which tasks still need work, how many workers run
//! them, and the conversion that each one asks of the image tool.

use vstd::prelude::*;
use vstd::string::StringExecFns;

verus! {

/// Turns the image at `source` into a thumbnail at `destination`.
#[derive(Debug)]
pub struct ThumbnailTask {
    pub source: String,
    pub destination: String,
}

/// The worker count used when the machine's parallelism is not known.
pub const FALLBACK_WORKERS: usize = 4;

/// The box that a thumbnail fills; the image is scaled to cover it.
pub const THUMBNAIL_GEOMETRY: &'static str = "400x200^";

/// The colour that transparent pixels are laid on, JPEG having no alpha.
pub const THUMBNAIL_BACKGROUND: &'static str = "white";

/// The tasks of `tasks` whose destination is not present, in order.
/// `present[i]` tells whether the destination of `tasks[i]` already exists.
pub open spec fn pending_tasks(tasks: Seq<ThumbnailTask>, present: Seq<bool>) -> Seq<ThumbnailTask>
    decreases tasks.len(),
{
    if tasks.len() == 0 || present.len() != tasks.len() {
        Seq::empty()
    } else {
        let prev = pending_tasks(tasks.drop_last(), present.drop_last());
        if present.last() {
            prev
        } else {
            prev.push(tasks.last())
        }
    }
}

proof fn lemma_pending_were_absent(tasks: Seq<ThumbnailTask>, present: Seq<bool>)
    requires
        present.len() == tasks.len(),
    ensures
        forall|k: int|
            0 <= k < pending_tasks(tasks, present).len() ==> exists|j: int|
                0 <= j < tasks.len() && !present[j] && #[trigger] pending_tasks(tasks, present)[k]
                    == tasks[j],
    decreases tasks.len(),
{
    if tasks.len() > 0 {
        let prev = pending_tasks(tasks.drop_last(), present.drop_last());
        lemma_pending_were_absent(tasks.drop_last(), present.drop_last());
        let cur = pending_tasks(tasks, present);
        assert forall|k: int| 0 <= k < cur.len() implies exists|j: int|
            0 <= j < tasks.len() && !present[j] && #[trigger] cur[k] == tasks[j] by {
            if k < prev.len() {
                let j = choose|j: int|
                    0 <= j < tasks.drop_last().len() && !present.drop_last()[j]
                        && #[trigger] prev[k] == tasks.drop_last()[j];
                assert(cur[k] == tasks[j]);
            } else {
                assert(cur[k] == tasks[tasks.len() - 1]);
            }
        }
    }
}

/// A thumbnail that is already there is not made again: when every task
/// with destination `d` finds `d` present, no pending task writes `d`.
pub proof fn lemma_present_thumbnail_skipped(
    tasks: Seq<ThumbnailTask>,
    present: Seq<bool>,
    d: Seq<char>,
)
    requires
        present.len() == tasks.len(),
        forall|j: int| 0 <= j < tasks.len() && (#[trigger] tasks[j]).destination@ == d ==> present[j],
    ensures
        forall|k: int|
            0 <= k < pending_tasks(tasks, present).len() ==> (#[trigger] pending_tasks(
                tasks,
                present,
            )[k]).destination@ != d,
{
    lemma_pending_were_absent(tasks, present);
    assert forall|k: int| 0 <= k < pending_tasks(tasks, present).len() implies (
    #[trigger] pending_tasks(tasks, present)[k]).destination@ != d by {
        let j = choose|j: int|
            0 <= j < tasks.len() && !present[j] && #[trigger] pending_tasks(tasks, present)[k]
                == tasks[j];
    }
}

/// Once every thumbnail of a scan exists, scanning again makes none.
pub proof fn lemma_all_present_no_work(tasks: Seq<ThumbnailTask>, present: Seq<bool>)
    requires
        present.len() == tasks.len(),
        forall|j: int| 0 <= j < present.len() ==> #[trigger] present[j],
    ensures
        pending_tasks(tasks, present).len() == 0,
    decreases tasks.len(),
{
    if tasks.len() > 0 {
        lemma_all_present_no_work(tasks.drop_last(), present.drop_last());
        assert(present[present.len() - 1]);
    }
}

/// The tasks that still need work: a task whose destination already exists
/// is skipped, so that making thumbnails again does no work twice.
pub fn pending_thumbnail_tasks(tasks: &Vec<ThumbnailTask>, present: &Vec<bool>) -> (r: Vec<
    ThumbnailTask,
>)
    requires
        present@.len() == tasks@.len(),
    ensures
        r@ == pending_tasks(tasks@, present@),
{
    let mut out: Vec<ThumbnailTask> = Vec::new();
    let mut i: usize = 0;
    while i < tasks.len()
        invariant
            i <= tasks@.len(),
            present@.len() == tasks@.len(),
            out@ == pending_tasks(tasks@.subrange(0, i as int), present@.subrange(0, i as int)),
        decreases tasks.len() - i,
    {
        assert(tasks@.subrange(0, i + 1).drop_last() =~= tasks@.subrange(0, i as int));
        assert(present@.subrange(0, i + 1).drop_last() =~= present@.subrange(0, i as int));
        if !present[i] {
            let t = &tasks[i];
            out.push(ThumbnailTask { source: t.source.clone(), destination: t.destination.clone() });
        }
        i = i + 1;
    }
    assert(tasks@.subrange(0, tasks@.len() as int) =~= tasks@);
    assert(present@.subrange(0, present@.len() as int) =~= present@);
    out
}

/// The size of the worker pool: the machine's parallelism where it is known
/// and positive, else the fallback.
pub fn worker_count(available: Option<usize>) -> (r: usize)
    ensures
        r == match available {
            Some(n) => if n > 0 {
                n
            } else {
                FALLBACK_WORKERS
            },
            None => FALLBACK_WORKERS,
        },
        r > 0,
{
    match available {
        Some(n) => if n > 0 {
            n
        } else {
            FALLBACK_WORKERS
        },
        None => FALLBACK_WORKERS,
    }
}

/// The arguments given to the image tool for a task: scale the source to
/// cover the thumbnail box, lay any transparency on the background colour,
/// and write JPEG to the destination.
pub open spec fn conversion_args(source: Seq<char>, destination: Seq<char>) -> Seq<Seq<char>> {
    seq![
        source,
        "-thumbnail"@,
        THUMBNAIL_GEOMETRY@,
        "-background"@,
        THUMBNAIL_BACKGROUND@,
        "-alpha"@,
        "remove"@,
        "-format"@,
        "jpeg"@,
        destination,
    ]
}

pub fn thumbnail_command_args(task: &ThumbnailTask) -> (r: Vec<String>)
    ensures
        r@.map_values(|a: String| a@) == conversion_args(task.source@, task.destination@),
{
    let mut args: Vec<String> = Vec::new();
    args.push(task.source.clone());
    args.push(String::from_str("-thumbnail"));
    args.push(String::from_str(THUMBNAIL_GEOMETRY));
    args.push(String::from_str("-background"));
    args.push(String::from_str(THUMBNAIL_BACKGROUND));
    args.push(String::from_str("-alpha"));
    args.push(String::from_str("remove"));
    args.push(String::from_str("-format"));
    args.push(String::from_str("jpeg"));
    args.push(task.destination.clone());
    assert(args@.map_values(|a: String| a@) =~= conversion_args(task.source@, task.destination@));
    args
}

} // verus!

//! The tasks of a node: when they are due, and what resources the node tells of.

use vstd::prelude::*;

use crate::args::Args;
use crate::models::Resources;
use crate::paths::same_path_as;
use crate::tasks::{
    before,
    count_before,
    first_free,
    first_queue,
    get_resources,
    in_order,
    law_added_tasks_displace_none,
    law_due_tasks_are_the_ones_before,
    storage_of,
    taken,
    with_task,
    Disk,
    TaskQueue,
    Tasks,
};
use crate::time::UtcTime;

verus! {

/// Updates are looked for every 31 seconds, and resources are told of every 18 seconds.
pub proof fn law_tasks_have_their_delays(
    update: u64,
    resources: u64,
    update_name: &str,
    resources_name: &str,
)
    requires
        call_ensures(Tasks::delay, (&Tasks::Update,), update),
        call_ensures(Tasks::delay, (&Tasks::Resources,), resources),
        call_ensures(Tasks::as_str, (&Tasks::Update,), update_name),
        call_ensures(Tasks::as_str, (&Tasks::Resources,), resources_name),
    ensures
        update == 31,
        resources == 18,
        update_name@ == "Update"@,
        resources_name@ == "Resources"@,
{
}

/// A queue starts empty, and tells its tasks in order.
pub proof fn law_queues_tell_their_tasks(
    new: TaskQueue,
    queue: TaskQueue,
    len: usize,
    i: usize,
    entry: Option<(UtcTime, Tasks)>,
    time: UtcTime,
    is_taken: bool,
)
    requires
        call_ensures(TaskQueue::new, (), new),
        call_ensures(TaskQueue::len, (&queue,), len),
        call_ensures(TaskQueue::get, (&queue, i), entry),
        call_ensures(TaskQueue::is_taken, (&queue, time), is_taken),
    ensures
        new.entries().len() == 0,
        len == queue.entries().len(),
        entry is Some <==> i < len,
        entry matches Some(found) ==> found == queue.entries()[i as int],
        is_taken <==> exists|j: int| 0 <= j < len && (#[trigger] queue.entries()[j]).0 == time,
{
}

/// What is put in at a time is there then, and all that is in at other times stays.
pub proof fn law_tasks_are_put_in_at_their_time(
    queue: &mut TaskQueue,
    time: UtcTime,
    task: Tasks,
    entry: (UtcTime, Tasks),
)
    requires
        in_order(queue.entries()),
        call_ensures(TaskQueue::insert, (queue, time, task), ()),
    ensures
        final(queue).entries().contains((time, task)),
        entry.0 != time ==> (final(queue).entries().contains(entry) <==> old(
            queue
        ).entries().contains(entry)),
        entry.0 == time && final(queue).entries().contains(entry) ==> entry.1 == task,
        in_order(final(queue).entries()),
{
    let all = old(queue).entries();
    let after = final(queue).entries();
    law_due_tasks_are_the_ones_before(all, time);
    lemma_count(all, time);
    let n = count_before(all, time) as int;
    assert(after[n] == (time, task));
    let replaced = n < all.len() && all[n].0 == time;
    assert forall|i: int, j: int| 0 <= i < j < after.len() implies before(
        (#[trigger] after[i]).0,
        (#[trigger] after[j]).0,
    ) by {
        if replaced {
            assert(after[i].0 == all[i].0 && after[j].0 == all[j].0);
        } else {
            let p = if i < n {
                i
            } else {
                i - 1
            };
            let q = if j < n {
                j
            } else {
                j - 1
            };
            if i != n {
                assert(after[i] == all[p]);
            }
            if j != n {
                assert(after[j] == all[q]);
            }
            if i == n && j > n {
                assert(!before(all[q].0, time) && all[q].0 != time) by {
                    if all[q].0 == time {
                        if q > n {
                            assert(before(all[n].0, all[q].0));
                            assert(!before(all[n].0, time));
                        }
                    }
                }
            }
        }
    }
    if all.contains(entry) && entry.0 != time {
        let i = all.index_of(entry);
        if replaced {
            assert(after[i] == entry);
        } else if i < n {
            assert(after[i] == entry);
        } else {
            assert(after[i + 1] == entry);
        }
    }
    if after.contains(entry) {
        let i = after.index_of(entry);
        if i == n {
        } else if replaced || i < n {
            assert(all[i] == entry);
        } else {
            assert(all[i - 1] == entry);
        }
        if entry.0 == time && i != n {
            assert(before(after[i].0, after[n].0) || before(after[n].0, after[i].0));
        }
    }
}

/// No more tasks come before a time than there are.
proof fn lemma_count(entries: Seq<(UtcTime, Tasks)>, time: UtcTime)
    ensures
        count_before(entries, time) <= entries.len(),
    decreases entries.len(),
{
    if entries.len() > 0 && before(entries[0].0, time) {
        lemma_count(entries.skip(1), time);
    }
}

/// A task is added back once its delay has passed: at the first second from then on at which no
/// other task starts. All other tasks stay.
pub proof fn law_tasks_come_back_after_their_delay(
    queue: &mut TaskQueue,
    task: Tasks,
    time: UtcTime,
    delay: u64,
    entry: (UtcTime, Tasks),
) -> (wait: nat)
    requires
        in_order(queue.entries()),
        call_ensures(Tasks::delay, (&task,), delay),
        call_ensures(TaskQueue::add_task, (queue, task, time), ()),
        time.secs + delay + queue.entries().len() < 8_210_266_876_799,
    ensures
        final(queue).entries().len() == old(queue).entries().len() + 1,
        final(queue).entries().contains(
            (
                UtcTime { secs: (time.secs + delay + wait) as i64, nanos: time.nanos },
                task,
            ),
        ),
        forall|earlier: nat|
            earlier < wait ==> #[trigger] taken(
                old(queue).entries(),
                UtcTime { secs: (time.secs + delay + earlier) as i64, nanos: time.nanos },
            ),
        !taken(
            old(queue).entries(),
            UtcTime { secs: (time.secs + delay + wait) as i64, nanos: time.nanos },
        ),
        old(queue).entries().contains(entry) ==> final(queue).entries().contains(entry),
{
    let all = old(queue).entries();
    let from = time.later(delay as nat);
    assert(from.secs == time.secs + delay);
    let wait = lemma_first_free(all, from, 0, all.len());
    let start = first_free(all, from, 0);
    law_added_tasks_displace_none(all, start, task);
    if all.contains(entry) {
        assert(final(queue).entries().contains(entry));
    }
    assert(start == UtcTime { secs: (time.secs + delay + wait) as i64, nanos: time.nanos });
    assert forall|earlier: nat| earlier < wait implies #[trigger] taken(
        all,
        UtcTime { secs: (time.secs + delay + earlier) as i64, nanos: time.nanos },
    ) by {
        assert(from.later(earlier) == UtcTime {
            secs: (time.secs + delay + earlier) as i64,
            nanos: time.nanos,
        });
    }
    wait
}

/// The first free second is found before as many seconds have passed as there are tasks.
proof fn lemma_first_free(
    entries: Seq<(UtcTime, Tasks)>,
    from: UtcTime,
    wait: nat,
    left: nat,
) -> (found: nat)
    requires
        from.secs + wait + left < 8_210_266_876_799,
        forall|earlier: nat| earlier < wait ==> taken(entries, #[trigger] from.later(earlier)),
        wait + left == entries.len(),
    ensures
        wait <= found <= entries.len(),
        first_free(entries, from, wait) == from.later(found),
        first_free(entries, from, wait).secs == from.secs + found,
        first_free(entries, from, wait).nanos == from.nanos,
        !taken(entries, from.later(found)),
        forall|earlier: nat| earlier < found ==> taken(entries, #[trigger] from.later(earlier)),
    decreases left,
{
    if taken(entries, from.later(wait)) {
        if left == 0 {
            lemma_too_many_taken(entries, from, wait);
            wait
        } else {
            lemma_first_free(entries, from, wait + 1, (left - 1) as nat)
        }
    } else {
        wait
    }
}

/// Not more seconds are taken than there are tasks.
proof fn lemma_too_many_taken(entries: Seq<(UtcTime, Tasks)>, from: UtcTime, wait: nat)
    requires
        from.secs + wait < 8_210_266_876_799,
        forall|earlier: nat| earlier < wait ==> taken(entries, #[trigger] from.later(earlier)),
        taken(entries, from.later(wait)),
    ensures
        wait < entries.len(),
    decreases wait,
{
    let time = from.later(wait);
    let i = choose|i: int| 0 <= i < entries.len() && (#[trigger] entries[i]).0 == time;
    let rest = entries.remove(i);
    if wait > 0 {
        assert forall|earlier: nat| earlier < wait implies taken(
            rest,
            #[trigger] from.later(earlier),
        ) by {
            let t = from.later(earlier);
            assert(taken(entries, t));
            let j = choose|j: int| 0 <= j < entries.len() && (#[trigger] entries[j]).0 == t;
            assert(t.secs == from.secs + earlier && time.secs == from.secs + wait);
            assert(j != i);
            if j < i {
                assert(rest[j] == entries[j]);
            } else {
                assert(rest[j - 1] == entries[j]);
            }
        }
        assert(taken(rest, from.later((wait - 1) as nat)));
        lemma_too_many_taken(rest, from, (wait - 1) as nat);
    }
}

/// The tasks that are due are those that start before the time, in their order. The others stay.
pub proof fn law_due_tasks_are_taken_out(queue: &mut TaskQueue, time: UtcTime, due: Vec<Tasks>)
    requires
        in_order(queue.entries()),
        call_ensures(TaskQueue::take_due, (queue, time), due),
    ensures
        due@.len() + final(queue).entries().len() == old(queue).entries().len(),
        forall|i: int|
            0 <= i < old(queue).entries().len() ==> {
                let entry = #[trigger] old(queue).entries()[i];
                if entry.0.secs < time.secs || (entry.0.secs == time.secs && entry.0.nanos
                    < time.nanos) {
                    i < due@.len() && due@[i] == entry.1
                } else {
                    i >= due@.len() && final(queue).entries()[i - due@.len()] == entry
                }
            },
{
    law_due_tasks_are_the_ones_before(old(queue).entries(), time);
    lemma_count(old(queue).entries(), time);
}

/// A node that skips updates starts with the task for its resources alone. Any other starts with
/// the one for updates too, unless both come at one time.
pub proof fn law_skipped_updates_have_no_task(args: Args, queue: TaskQueue)
    requires
        call_ensures(Tasks::setup_queue, (&args,), queue),
    ensures
        args.skip_update ==> queue.entries().len() == 1 && queue.entries()[0].1 == Tasks::Resources,
        !args.skip_update ==> exists|i: int|
            0 <= i < queue.entries().len() && (#[trigger] queue.entries()[i]).1 == Tasks::Resources,
        !args.skip_update && queue.entries().len() != 1 ==> queue.entries().len() == 2 && exists|
            i: int,
        |
            0 <= i < queue.entries().len() && (#[trigger] queue.entries()[i]).1 == Tasks::Update,
{
    let (update_base, resources_base) = choose|update_base: UtcTime, resources_base: UtcTime|
        queue.entries() == #[trigger] first_queue(args.skip_update, update_base, resources_base);
    let none = Seq::<(UtcTime, Tasks)>::empty();
    let update = update_base.later(31);
    let resources = resources_base.later(18);
    law_added_tasks_displace_none(none, resources, Tasks::Resources);
    law_added_tasks_displace_none(none, update, Tasks::Update);
    let first = with_task(none, update, Tasks::Update);
    assert(first.len() == 1);
    assert(first[0] == (update, Tasks::Update)) by {
        let i = choose|i: int| 0 <= i < first.len() && first[i] == (update, Tasks::Update);
        assert(i == 0);
    }
    if args.skip_update {
        let entries = queue.entries();
        let i = choose|i: int| 0 <= i < entries.len() && entries[i] == (resources, Tasks::Resources);
        assert(i == 0);
    } else if update != resources {
        assert(!taken(first, resources));
        law_added_tasks_displace_none(first, resources, Tasks::Resources);
        let entries = queue.entries();
        let i = choose|i: int| 0 <= i < entries.len() && entries[i] == (resources, Tasks::Resources);
        assert(entries[i].1 == Tasks::Resources);
        assert(first.contains(first[0]));
        assert(with_task(first, resources, Tasks::Resources).contains((update, Tasks::Update)));
        let j = choose|j: int| 0 <= j < entries.len() && entries[j] == (update, Tasks::Update);
        assert(entries[j].1 == Tasks::Update);
    } else {
        let entries = queue.entries();
        assert(count_before(first, resources) == 0);
        assert(entries.len() == 1);
        assert(entries[0].1 == Tasks::Resources);
    }
}

/// A node starts with both tasks, or without the one for updates where those are skipped.
pub proof fn law_nodes_start_with_their_tasks(
    skip_update: bool,
    update_base: UtcTime,
    resources_base: UtcTime,
    queue: TaskQueue,
)
    requires
        call_ensures(Tasks::setup_queue_at, (skip_update, update_base, resources_base), queue),
        update_base.secs + 31 <= 8_210_266_876_799,
        resources_base.secs + 18 <= 8_210_266_876_799,
        update_base.secs + 31 != resources_base.secs + 18,
    ensures
        queue.entries().len() == (if skip_update {
            1int
        } else {
            2int
        }),
        queue.entries().contains(
            (
                UtcTime { secs: (resources_base.secs + 18) as i64, nanos: resources_base.nanos },
                Tasks::Resources,
            ),
        ),
        !skip_update ==> queue.entries().contains(
            (
                UtcTime { secs: (update_base.secs + 31) as i64, nanos: update_base.nanos },
                Tasks::Update,
            ),
        ),
{
    let none = Seq::<(UtcTime, Tasks)>::empty();
    let update = update_base.later(31);
    let resources = resources_base.later(18);
    law_added_tasks_displace_none(none, update, Tasks::Update);
    let first = if skip_update {
        none
    } else {
        with_task(none, update, Tasks::Update)
    };
    assert(first.len() <= 1);
    assert(!skip_update ==> first[0] == (update, Tasks::Update)) by {
        if !skip_update {
            assert(first.contains((update, Tasks::Update)));
        }
    }
    assert(!taken(first, resources));
    law_added_tasks_displace_none(first, resources, Tasks::Resources);
    if !skip_update {
        assert(first.contains((update, Tasks::Update)));
        assert(queue.entries().contains((update, Tasks::Update)));
    }
}

/// A node keeps one and a half cores, 2 GiB of memory and 8 GiB of storage for itself, and tells
/// of the rest, in millicpu and MiB. It has room for a hundred workers and no GPUs.
pub proof fn law_the_host_keeps_its_share(
    cpus: u64,
    total_memory: u64,
    disks: Vec<Disk>,
    r: Resources,
)
    requires
        cpus * 1000 <= u64::MAX,
        call_ensures(get_resources, (cpus, total_memory, &disks), r),
    ensures
        cpus >= 2 ==> r.cpu == 1000 * cpus - 1500,
        cpus < 2 ==> r.cpu == 0,
        total_memory >= 2_147_483_648 ==> r.memory == total_memory / 1_048_576 - 2048,
        total_memory < 2_147_483_648 ==> r.memory == 0,
        r.worker_slots == 100,
        r.nvidia_gpu == 0 && r.amd_gpu == 0,
{
}

/// The storage is that of the first disk for temporary files, or else that of the last disk of the
/// root. A node with neither has none.
pub proof fn law_storage_is_that_of_temporary_files(
    cpus: u64,
    total_memory: u64,
    disks: Vec<Disk>,
    r: Resources,
    i: int,
)
    requires
        cpus * 1000 <= u64::MAX,
        call_ensures(get_resources, (cpus, total_memory, &disks), r),
    ensures
        0 <= i < disks@.len() && same_path_as(disks@[i].mount_point@, "/tmp"@) && (forall|j: int|
            0 <= j < i ==> !same_path_as((#[trigger] disks@[j]).mount_point@, "/tmp"@))
            ==> r.ephemeral_storage == (if disks@[i].available_space / 1_048_576 >= 8192 {
            disks@[i].available_space / 1_048_576 - 8192
        } else {
            0
        }),
        0 <= i < disks@.len() && same_path_as(disks@[i].mount_point@, "/"@) && !same_path_as(
            disks@[i].mount_point@,
            "/tmp"@,
        ) && (forall|j: int|
            0 <= j < disks@.len() ==> !same_path_as((#[trigger] disks@[j]).mount_point@, "/tmp"@))
            && (forall|j: int|
            i < j < disks@.len() ==> !same_path_as((#[trigger] disks@[j]).mount_point@, "/"@))
            ==> r.ephemeral_storage == (if disks@[i].available_space / 1_048_576 >= 8192 {
            disks@[i].available_space / 1_048_576 - 8192
        } else {
            0
        }),
        (forall|j: int|
            0 <= j < disks@.len() ==> !same_path_as((#[trigger] disks@[j]).mount_point@, "/tmp"@)
                && !same_path_as(disks@[j].mount_point@, "/"@)) ==> r.ephemeral_storage == 0,
{
    let d = disks@;
    if 0 <= i < d.len() && same_path_as(d[i].mount_point@, "/tmp"@) && (forall|j: int|
        0 <= j < i ==> !same_path_as((#[trigger] d[j]).mount_point@, "/tmp"@)) {
        lemma_first_temporary(d, 0, 0, i);
    }
    if 0 <= i < d.len() && same_path_as(d[i].mount_point@, "/"@) && (forall|j: int|
        0 <= j < d.len() ==> !same_path_as((#[trigger] d[j]).mount_point@, "/tmp"@)) && (forall|
        j: int,
    |
        i < j < d.len() ==> !same_path_as((#[trigger] d[j]).mount_point@, "/"@)) {
        lemma_last_root(d, 0, 0, i);
    }
    if forall|j: int|
        0 <= j < d.len() ==> !same_path_as((#[trigger] d[j]).mount_point@, "/tmp"@)
            && !same_path_as(d[j].mount_point@, "/"@) {
        lemma_no_storage(d, 0, 0);
    }
}

/// The first disk for temporary files settles the storage.
proof fn lemma_first_temporary(disks: Seq<Disk>, from: nat, found: u64, i: int)
    requires
        from <= i < disks.len(),
        same_path_as(disks[i].mount_point@, "/tmp"@),
        forall|j: int| 0 <= j < i ==> !same_path_as((#[trigger] disks[j]).mount_point@, "/tmp"@),
    ensures
        storage_of(disks, from, found) == disks[i].available_space / 1_048_576,
    decreases i - from,
{
    if from < i {
        assert(!same_path_as(disks[from as int].mount_point@, "/tmp"@));
        let here = if same_path_as(disks[from as int].mount_point@, "/"@) {
            disks[from as int].available_space / 1_048_576
        } else {
            found
        };
        lemma_first_temporary(disks, from + 1, here, i);
    }
}

/// The last disk at the root settles the storage where none is for temporary files.
proof fn lemma_last_root(disks: Seq<Disk>, from: nat, found: u64, i: int)
    requires
        from <= i < disks.len(),
        same_path_as(disks[i].mount_point@, "/"@),
        forall|j: int|
            0 <= j < disks.len() ==> !same_path_as((#[trigger] disks[j]).mount_point@, "/tmp"@),
        forall|j: int|
            i < j < disks.len() ==> !same_path_as((#[trigger] disks[j]).mount_point@, "/"@),
    ensures
        storage_of(disks, from, found) == disks[i].available_space / 1_048_576,
    decreases i - from,
{
    assert(!same_path_as(disks[from as int].mount_point@, "/tmp"@));
    let here = if same_path_as(disks[from as int].mount_point@, "/"@) {
        disks[from as int].available_space / 1_048_576
    } else {
        found
    };
    if from < i {
        lemma_last_root(disks, from + 1, here, i);
    } else {
        lemma_no_storage(disks, from + 1, here);
    }
}

/// Without such disks the storage stays what it was.
proof fn lemma_no_storage(disks: Seq<Disk>, from: nat, found: u64)
    requires
        forall|j: int|
            from <= j < disks.len() ==> !same_path_as((#[trigger] disks[j]).mount_point@, "/tmp"@)
                && !same_path_as(disks[j].mount_point@, "/"@),
    ensures
        storage_of(disks, from, found) == found,
    decreases disks.len() - from,
{
    if from < disks.len() {
        assert(!same_path_as(disks[from as int].mount_point@, "/tmp"@));
        lemma_no_storage(disks, from + 1, found);
    }
}

} // verus!

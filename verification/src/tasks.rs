//! The tasks the node reactor needs to periodically execute/handle.

use vstd::prelude::*;

use crate::args::Args;
use crate::models::Resources;
use crate::paths::{same_path, same_path_as};
use crate::time::{now, UtcTime, MAX_SECS};
use crate::xml::BYTES_IN_MIB;

verus! {

/// The tasks a node reactor needs to periodically execute/handle
#[derive(Debug, Clone, Copy, PartialEq, Eq, Structural)]
pub enum Tasks {
    /// Check for reactor/agent updates
    Update,
    /// Update the amount of resources on this node
    Resources,
}

/// The amount of time in seconds to wait before executing a task.
pub open spec fn delay_of(task: Tasks) -> u64 {
    match task {
        Tasks::Update => 31,
        Tasks::Resources => 18,
    }
}

/// The name of a task.
pub open spec fn task_name(task: Tasks) -> Seq<char> {
    match task {
        Tasks::Update => "Update"@,
        Tasks::Resources => "Resources"@,
    }
}

/// Whether a point in time is before another.
pub open spec fn before(a: UtcTime, b: UtcTime) -> bool {
    !a.at_or_after(b)
}

/// A queue of tasks sorted by the time to start executing them. No two start at the same time.
#[derive(Debug)]
pub struct TaskQueue {
    entries: Vec<(UtcTime, Tasks)>,
}

/// Whether each entry is before all that come behind it.
pub open spec fn in_order(entries: Seq<(UtcTime, Tasks)>) -> bool {
    forall|i: int, j: int|
        0 <= i < j < entries.len() ==> before((#[trigger] entries[i]).0, (#[trigger] entries[j]).0)
}

/// Whether a task starts at a time.
pub open spec fn taken(entries: Seq<(UtcTime, Tasks)>, time: UtcTime) -> bool {
    exists|i: int| 0 <= i < entries.len() && (#[trigger] entries[i]).0 == time
}

/// The number of entries that start before a time.
pub open spec fn count_before(entries: Seq<(UtcTime, Tasks)>, time: UtcTime) -> nat
    decreases entries.len(),
{
    if entries.len() == 0 || !before(entries[0].0, time) {
        0
    } else {
        1 + count_before(entries.skip(1), time)
    }
}

/// The entries with one more, in place of the one that starts at that time if there is one.
pub open spec fn with_task(
    entries: Seq<(UtcTime, Tasks)>,
    time: UtcTime,
    task: Tasks,
) -> Seq<(UtcTime, Tasks)> {
    let n = count_before(entries, time) as int;
    if n < entries.len() && entries[n].0 == time {
        entries.update(n, (time, task))
    } else {
        entries.insert(n, (time, task))
    }
}

/// The first second from a time on at which no task starts.
pub open spec fn first_free(entries: Seq<(UtcTime, Tasks)>, from: UtcTime, wait: nat) -> UtcTime
    decreases MAX_SECS - (from.secs + wait),
{
    let time = from.later(wait);
    if taken(entries, time) && from.secs + wait < MAX_SECS {
        first_free(entries, from, wait + 1)
    } else {
        time
    }
}

/// What is known of the number of entries before a time.
proof fn lemma_count_before(entries: Seq<(UtcTime, Tasks)>, time: UtcTime)
    requires
        in_order(entries),
    ensures
        count_before(entries, time) <= entries.len(),
        forall|i: int|
            0 <= i < count_before(entries, time) ==> before((#[trigger] entries[i]).0, time),
        forall|i: int|
            count_before(entries, time) <= i < entries.len() ==> !before(
                (#[trigger] entries[i]).0,
                time,
            ),
    decreases entries.len(),
{
    if entries.len() == 0 {
    } else if !before(entries[0].0, time) {
        assert forall|i: int| 0 <= i < entries.len() implies !before((#[trigger] entries[i]).0, time)
            by {
            if i > 0 {
                assert(before(entries[0].0, entries[i].0));
            }
        }
    } else {
        let rest = entries.skip(1);
        assert forall|i: int, j: int| 0 <= i < j < rest.len() implies before(
            (#[trigger] rest[i]).0,
            (#[trigger] rest[j]).0,
        ) by {
            assert(rest[i] == entries[i + 1]);
            assert(rest[j] == entries[j + 1]);
        }
        lemma_count_before(rest, time);
        let n = count_before(rest, time) as int;
        assert forall|i: int| 0 <= i < n + 1 implies before((#[trigger] entries[i]).0, time) by {
            if i > 0 {
                assert(rest[i - 1] == entries[i]);
            }
        }
        assert forall|i: int| n + 1 <= i < entries.len() implies !before(
            (#[trigger] entries[i]).0,
            time,
        ) by {
            assert(rest[i - 1] == entries[i]);
        }
    }
}

/// One more entry where it belongs keeps the order.
proof fn lemma_with_task(entries: Seq<(UtcTime, Tasks)>, time: UtcTime, task: Tasks)
    requires
        in_order(entries),
    ensures
        in_order(with_task(entries, time, task)),
{
    lemma_count_before(entries, time);
    let n = count_before(entries, time) as int;
    let after = with_task(entries, time, task);
    assert forall|i: int, j: int| 0 <= i < j < after.len() implies before(
        (#[trigger] after[i]).0,
        (#[trigger] after[j]).0,
    ) by {
        if n < entries.len() && entries[n].0 == time {
            assert(after[i].0 == entries[i].0);
            assert(after[j].0 == entries[j].0);
        } else {
            if i < n {
                assert(after[i] == entries[i]);
            } else if i > n {
                assert(after[i] == entries[i - 1]);
            }
            if j < n {
                assert(after[j] == entries[j]);
            } else if j > n {
                assert(after[j] == entries[j - 1]);
            }
        }
    }
}

impl TaskQueue {
    #[verifier::type_invariant]
    spec fn wf(self) -> bool {
        in_order(self.entries@)
    }

    /// The tasks and when they start, in order.
    pub closed spec fn entries(self) -> Seq<(UtcTime, Tasks)> {
        self.entries@
    }

    /// An empty queue.
    pub fn new() -> (r: TaskQueue)
        ensures
            r.entries() == Seq::<(UtcTime, Tasks)>::empty(),
    {
        TaskQueue { entries: Vec::new() }
    }

    /// The number of tasks.
    pub fn len(&self) -> (r: usize)
        ensures
            r == self.entries().len(),
    {
        self.entries.len()
    }

    /// The task at a place in the order, and when it starts.
    pub fn get(&self, i: usize) -> (r: Option<(UtcTime, Tasks)>)
        ensures
            r == (if i < self.entries().len() {
                Some(self.entries()[i as int])
            } else {
                None
            }),
    {
        if i < self.entries.len() {
            Some(self.entries[i])
        } else {
            None
        }
    }

    /// The number of entries that start before a time.
    fn position(&self, time: UtcTime) -> (r: usize)
        ensures
            r == count_before(self.entries@, time),
            r <= self.entries@.len(),
            in_order(self.entries@),
    {
        proof {
            use_type_invariant(&*self);
            lemma_count_before(self.entries@, time);
        }
        let mut i: usize = 0;
        while i < self.entries.len() && !self.entries[i].0.reached(time)
            invariant
                i <= count_before(self.entries@, time) <= self.entries@.len(),
                forall|j: int|
                    0 <= j < count_before(self.entries@, time) ==> before(
                        (#[trigger] self.entries@[j]).0,
                        time,
                    ),
                forall|j: int|
                    count_before(self.entries@, time) <= j < self.entries@.len() ==> !before(
                        (#[trigger] self.entries@[j]).0,
                        time,
                    ),
            decreases self.entries.len() - i,
        {
            i = i + 1;
        }
        i
    }

    /// Whether a task starts at a time.
    pub fn is_taken(&self, time: UtcTime) -> (r: bool)
        ensures
            r == taken(self.entries(), time),
    {
        for i in 0..self.entries.len()
            invariant
                forall|j: int| 0 <= j < i ==> (#[trigger] self.entries@[j]).0 != time,
        {
            if self.entries[i].0 == time {
                assert(self.entries@[i as int].0 == time);
                return true;
            }
        }
        false
    }

    /// Put a task in at a time, in place of the one that starts then if there is one.
    pub fn insert(&mut self, time: UtcTime, task: Tasks)
        ensures
            final(self).entries() == with_task(old(self).entries(), time, task),
    {
        let n: usize = self.position(time);
        proof {
            lemma_with_task(self.entries@, time, task);
        }
        let mut entries: Vec<(UtcTime, Tasks)> = Vec::new();
        std::mem::swap(&mut entries, &mut self.entries);
        if n < entries.len() && entries[n].0 == time {
            entries.set(n, (time, task));
        } else {
            entries.insert(n, (time, task));
        }
        self.entries = entries;
    }

    /// Adds a task back into the queue at the right time: once its delay has passed, in the
    /// first second at which no other task starts.
    ///
    /// * `task` - The task
    /// * `time` - The time to count the delay from
    pub fn add_task(&mut self, task: Tasks, time: UtcTime)
        ensures
            final(self).entries() == with_task(
                old(self).entries(),
                first_free(old(self).entries(), time.later(delay_of(task) as nat), 0),
                task,
            ),
    {
        let from: UtcTime = time.add_secs(task.delay());
        let mut wait: u64 = 0;
        let mut start: UtcTime = from.add_secs(0);
        while self.is_taken(start) && from.secs as i128 + (wait as i128) < MAX_SECS as i128
            invariant
                start == from.later(wait as nat),
                wait == 0 || from.secs + wait <= MAX_SECS,
                first_free(self.entries(), from, 0) == first_free(
                    self.entries(),
                    from,
                    wait as nat,
                ),
            decreases MAX_SECS - (from.secs + wait),
        {
            wait = wait + 1;
            start = from.add_secs(wait);
        }
        self.insert(start, task);
    }

    /// Take out the tasks that are due at a time: the ones that start before it, in order.
    ///
    /// * `time` - The time
    pub fn take_due(&mut self, time: UtcTime) -> (r: Vec<Tasks>)
        ensures
            final(self).entries() == old(self).entries().skip(
                count_before(old(self).entries(), time) as int,
            ),
            r@ == old(self).entries().take(
                count_before(old(self).entries(), time) as int,
            ).map_values(|entry: (UtcTime, Tasks)| entry.1),
    {
        let n: usize = self.position(time);
        let ghost all = self.entries@;
        let mut due: Vec<Tasks> = Vec::new();
        let mut rest: Vec<(UtcTime, Tasks)> = Vec::new();
        let ghost pick = |entry: (UtcTime, Tasks)| entry.1;
        for i in 0..self.entries.len()
            invariant
                all == self.entries@,
                n <= all.len(),
                due@.len() == if i < n {
                    i as nat
                } else {
                    n as nat
                },
                rest@.len() == if i < n {
                    0
                } else {
                    (i - n) as nat
                },
                forall|j: int| 0 <= j < due@.len() ==> #[trigger] due@[j] == all[j].1,
                forall|j: int| 0 <= j < rest@.len() ==> #[trigger] rest@[j] == all[n + j],
        {
            let entry: (UtcTime, Tasks) = self.entries[i];
            if i < n {
                due.push(entry.1);
            } else {
                rest.push(entry);
            }
        }
        proof {
            assert(rest@ =~= all.skip(n as int));
            assert(due@ =~= all.take(n as int).map_values(pick));
            assert forall|i: int, j: int| 0 <= i < j < rest@.len() implies before(
                (#[trigger] rest@[i]).0,
                (#[trigger] rest@[j]).0,
            ) by {
                assert(before(all[n + i].0, all[n + j].0));
            }
        }
        self.entries = rest;
        due
    }
}

/// The queue that a reactor starts with. The update task is left out where updates are to be
/// skipped.
pub open spec fn first_queue(
    skip_update: bool,
    update_base: UtcTime,
    resources_base: UtcTime,
) -> Seq<(UtcTime, Tasks)> {
    let start = if skip_update {
        Seq::empty()
    } else {
        with_task(Seq::empty(), update_base.later(31), Tasks::Update)
    };
    with_task(start, resources_base.later(18), Tasks::Resources)
}

impl Tasks {
    /// Setup a tasks queue with for all tasks, counting the delays from the given times.
    pub fn setup_queue_at(skip_update: bool, update_base: UtcTime, resources_base: UtcTime) -> (r:
        TaskQueue)
        ensures
            r.entries() == first_queue(skip_update, update_base, resources_base),
    {
        let mut queue: TaskQueue = TaskQueue::new();
        if !skip_update {
            queue.insert(update_base.add_secs(Tasks::Update.delay()), Tasks::Update);
        }
        queue.insert(resources_base.add_secs(Tasks::Resources.delay()), Tasks::Resources);
        queue
    }

    /// Setup a tasks queue with for all tasks.
    pub fn setup_queue(args: &Args) -> (r: TaskQueue)
        ensures
            exists|update_base: UtcTime, resources_base: UtcTime|
                r.entries() == #[trigger] first_queue(
                    args.skip_update,
                    update_base,
                    resources_base,
                ),
    {
        let update_base: UtcTime = now();
        let resources_base: UtcTime = now();
        Tasks::setup_queue_at(args.skip_update, update_base, resources_base)
    }

    /// Get the amount of time to wait before the task is executed.
    pub fn delay(&self) -> (r: u64)
        ensures
            r == delay_of(*self),
    {
        match self {
            Tasks::Update => 31,
            Tasks::Resources => 18,
        }
    }

    /// Get the task as a str.
    pub fn as_str(&self) -> (r: &str)
        ensures
            r@ == task_name(*self),
    {
        match self {
            Tasks::Update => "Update",
            Tasks::Resources => "Resources",
        }
    }
}

/// A task that is added back does not displace another one: all that was in the queue stays.
pub proof fn law_added_tasks_displace_none(
    entries: Seq<(UtcTime, Tasks)>,
    time: UtcTime,
    task: Tasks,
)
    requires
        in_order(entries),
        !taken(entries, time),
    ensures
        with_task(entries, time, task).len() == entries.len() + 1,
        with_task(entries, time, task).contains((time, task)),
        forall|entry: (UtcTime, Tasks)|
            entries.contains(entry) ==> #[trigger] with_task(entries, time, task).contains(entry),
{
    lemma_count_before(entries, time);
    let n = count_before(entries, time) as int;
    let after = with_task(entries, time, task);
    assert(!(n < entries.len() && entries[n].0 == time));
    assert(after[n] == (time, task));
    assert forall|entry: (UtcTime, Tasks)| entries.contains(entry) implies #[trigger] after.contains(
        entry,
    ) by {
        let i = choose|i: int| 0 <= i < entries.len() && entries[i] == entry;
        if i < n {
            assert(after[i] == entry);
        } else {
            assert(after[i + 1] == entry);
        }
    }
}

/// The second that is found for a task is free, unless time ends before there is one.
pub proof fn law_the_second_found_is_free(
    entries: Seq<(UtcTime, Tasks)>,
    from: UtcTime,
    wait: nat,
)
    requires
        from.secs + wait <= MAX_SECS,
    ensures
        !taken(entries, first_free(entries, from, wait)) || first_free(entries, from, wait).secs
            == MAX_SECS,
    decreases MAX_SECS - (from.secs + wait),
{
    if taken(entries, from.later(wait)) && from.secs + wait < MAX_SECS {
        law_the_second_found_is_free(entries, from, wait + 1);
    }
}

/// Due tasks are all the tasks that start before a time, and only those.
pub proof fn law_due_tasks_are_the_ones_before(entries: Seq<(UtcTime, Tasks)>, time: UtcTime)
    requires
        in_order(entries),
    ensures
        forall|i: int|
            0 <= i < entries.len() ==> (i < count_before(entries, time) <==> before(
                (#[trigger] entries[i]).0,
                time,
            )),
{
    lemma_count_before(entries, time);
}

/// A disk of a node
#[derive(Debug)]
pub struct Disk {
    /// Where the disk is mounted
    pub mount_point: String,
    /// The available space in bytes
    pub available_space: u64,
}

/// The storage that the disks from the `i`-th on make available, in MiB: that of the disk
/// mounted to `/tmp`, and else that of the last one mounted to `/`.
pub open spec fn storage_of(disks: Seq<Disk>, i: nat, found: u64) -> u64
    decreases disks.len() - i,
{
    if i >= disks.len() {
        found
    } else if same_path_as(disks[i as int].mount_point@, "/tmp"@) {
        disks[i as int].available_space / BYTES_IN_MIB
    } else if same_path_as(disks[i as int].mount_point@, "/"@) {
        storage_of(disks, i + 1, disks[i as int].available_space / BYTES_IN_MIB)
    } else {
        storage_of(disks, i + 1, found)
    }
}

/// What is left of an amount when some of it is reserved.
pub open spec fn without(amount: u64, reserved: u64) -> u64 {
    if amount >= reserved {
        (amount - reserved) as u64
    } else {
        0
    }
}

/// What is left of an amount when some of it is reserved.
fn subtract(amount: u64, reserved: u64) -> (r: u64)
    ensures
        r == without(amount, reserved),
{
    if amount >= reserved {
        amount - reserved
    } else {
        0
    }
}

/// Gets the currently available resources on this node.
///
/// This will reserve 1.5 cores, 2 GiB of ram, and 8 GiB of storage for the host.
///
/// * `cpus` - The number of CPUs
/// * `total_memory` - The total memory in bytes
/// * `disks` - The disks
pub fn get_resources(cpus: u64, total_memory: u64, disks: &Vec<Disk>) -> (r: Resources)
    requires
        cpus * 1000 <= u64::MAX,
    ensures
        r == (Resources {
            cpu: without((cpus * 1000) as u64, 1500),
            memory: without(total_memory / BYTES_IN_MIB, 2048),
            ephemeral_storage: without(storage_of(disks@, 0, 0), 8192),
            worker_slots: 100,
            nvidia_gpu: 0,
            amd_gpu: 0,
        }),
{
    let mut storage: u64 = 0;
    let mut i: usize = 0;
    let mut stop: bool = false;
    while i < disks.len() && !stop
        invariant
            i <= disks@.len(),
            if stop {
                storage == storage_of(disks@, 0, 0)
            } else {
                storage_of(disks@, i as nat, storage) == storage_of(disks@, 0, 0)
            },
        decreases disks.len() - i,
    {
        let mount: &str = disks[i].mount_point.as_str();
        if same_path(mount, "/tmp") {
            storage = disks[i].available_space / BYTES_IN_MIB;
            stop = true;
        } else if same_path(mount, "/") {
            storage = disks[i].available_space / BYTES_IN_MIB;
        }
        i = i + 1;
    }
    Resources {
        cpu: subtract(cpus * 1000, 1500),
        memory: subtract(total_memory / BYTES_IN_MIB, 2048),
        ephemeral_storage: subtract(storage, 8192),
        worker_slots: 100,
        nvidia_gpu: 0,
        amd_gpu: 0,
    }
}

} // verus!

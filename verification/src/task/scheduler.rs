use vstd::prelude::*;
use crossbeam_queue::ArrayQueue;

verus! {

/// The bounded queue of `crossbeam_queue`, whose content is seen only through
/// `queue_items` and `queue_capacity`.
#[verifier::external_type_specification]
#[verifier::external_body]
#[verifier::reject_recursive_types(T)]
pub struct ExArrayQueue<T>(ArrayQueue<T>);

/// The items a queue holds, oldest first.
pub uninterp spec fn queue_items(q: ArrayQueue<u8>) -> Seq<u8>;

/// The number of items a queue was made to hold.
pub uninterp spec fn queue_capacity(q: ArrayQueue<u8>) -> nat;

/// Calls `ArrayQueue::new`, which makes an empty queue holding at most `cap`
/// items; it panics on a zero capacity, and on one so large that no power of
/// two above it fits in 64 bits, which the bound here rules out.
#[verifier::external_body]
fn queue_new(cap: usize) -> (q: ArrayQueue<u8>)
    requires
        0 < cap <= 0x1_0000_0000,
    ensures
        queue_items(q) == Seq::<u8>::empty(),
        queue_capacity(q) == cap,
{
    ArrayQueue::new(cap)
}

/// Calls `ArrayQueue::push`, which appends `value` when the queue holds fewer
/// items than its capacity, and otherwise hands `value` back unchanged.
#[verifier::external_body]
fn queue_push(q: &mut ArrayQueue<u8>, value: u8) -> (r: Result<(), u8>)
    ensures
        queue_capacity(*final(q)) == queue_capacity(*old(q)),
        queue_items(*final(q)).len() <= queue_capacity(*final(q)),
        queue_items(*old(q)).len() < queue_capacity(*old(q)) ==> r is Ok && queue_items(*final(q))
            == queue_items(*old(q)).push(value),
        queue_items(*old(q)).len() >= queue_capacity(*old(q)) ==> (r matches Err(v) && v == value)
            && queue_items(*final(q)) == queue_items(*old(q)),
{
    q.push(value)
}

/// Calls `ArrayQueue::pop`, which removes and returns the oldest item, or
/// returns `None` when the queue is empty.
#[verifier::external_body]
fn queue_pop(q: &mut ArrayQueue<u8>) -> (r: Option<u8>)
    ensures
        queue_capacity(*final(q)) == queue_capacity(*old(q)),
        queue_items(*final(q)).len() <= queue_capacity(*final(q)),
        queue_items(*old(q)).len() == 0 ==> r is None && queue_items(*final(q)) == queue_items(*old(q)),
        queue_items(*old(q)).len() > 0 ==> r == Some(queue_items(*old(q))[0]) && queue_items(*final(q))
            == queue_items(*old(q)).drop_first(),
{
    q.pop()
}

/// Number of spawn requests that can wait at once.
pub const SPAWN_QUEUE_CAPACITY: usize = 10;

/// The item a spawn request puts in the queue.
pub const SPAWN_REQUEST: u8 = 1;

/// The queue of pending spawn requests; it exists only once `init` has run.
pub struct SpawnQueue {
    queue: Option<ArrayQueue<u8>>,
}

impl View for SpawnQueue {
    type V = Option<Seq<u8>>;

    /// `None` before `init`; then the pending requests, oldest first.
    closed spec fn view(&self) -> Option<Seq<u8>> {
        match self.queue {
            Some(q) => Some(queue_items(q)),
            None => None,
        }
    }
}

/// The pending requests after a spawn request.
pub open spec fn requested(v: Option<Seq<u8>>) -> Option<Seq<u8>> {
    match v {
        Some(items) => Some(
            if items.len() < SPAWN_QUEUE_CAPACITY {
                items.push(SPAWN_REQUEST)
            } else {
                items
            },
        ),
        None => None,
    }
}

/// The pending requests after one is served.
pub open spec fn served(v: Option<Seq<u8>>) -> Option<Seq<u8>> {
    match v {
        Some(items) => Some(if items.len() > 0 { items.drop_first() } else { items }),
        None => None,
    }
}

/// Whether a request is pending.
pub open spec fn has_pending(v: Option<Seq<u8>>) -> bool {
    v matches Some(items) && items.len() > 0
}

impl SpawnQueue {
    /// Once made, the queue holds `SPAWN_QUEUE_CAPACITY` items at most.
    pub closed spec fn wf(&self) -> bool {
        match self.queue {
            Some(q) => queue_capacity(q) == SPAWN_QUEUE_CAPACITY && queue_items(q).len()
                <= SPAWN_QUEUE_CAPACITY,
            None => true,
        }
    }

    /// A spawn queue that `init` has not made yet.
    pub fn new() -> (s: Self)
        ensures
            s.wf(),
            s@ is None,
    {
        SpawnQueue { queue: None }
    }
}

/// Makes the spawn queue, empty, with room for `SPAWN_QUEUE_CAPACITY` requests.
/// It may be made only once.
pub fn init(spawner: &mut SpawnQueue)
    requires
        old(spawner).wf(),
        old(spawner)@ is None,
    ensures
        final(spawner).wf(),
        final(spawner)@ == Some(Seq::<u8>::empty()),
{
    spawner.queue = Some(queue_new(SPAWN_QUEUE_CAPACITY));
}

/// Queues a spawn request when the queue exists and has room; returns whether
/// the queue exists (a request to a full queue is dropped).
pub fn request_spawn(spawner: &mut SpawnQueue) -> (made: bool)
    requires
        old(spawner).wf(),
    ensures
        final(spawner).wf(),
        made == old(spawner)@ is Some,
        final(spawner)@ == requested(old(spawner)@),
{
    match spawner.queue.take() {
        Some(mut q) => {
            let _ = queue_push(&mut q, SPAWN_REQUEST);
            spawner.queue = Some(q);
            true
        },
        None => false,
    }
}

/// Serves the oldest pending spawn request; returns whether there was one.
pub fn should_spawn(spawner: &mut SpawnQueue) -> (spawn: bool)
    requires
        old(spawner).wf(),
    ensures
        final(spawner).wf(),
        spawn == has_pending(old(spawner)@),
        final(spawner)@ == served(old(spawner)@),
{
    match spawner.queue.take() {
        Some(mut q) => {
            let popped = queue_pop(&mut q);
            spawner.queue = Some(q);
            popped.is_some()
        },
        None => false,
    }
}

/// Serving a request that was just made to an empty queue finds it, and
/// leaves the queue empty again.
pub proof fn lemma_request_then_serve(v: Option<Seq<u8>>)
    requires
        v == Some(Seq::<u8>::empty()),
    ensures
        has_pending(requested(v)),
        served(requested(v)) == v,
{
    assert(Seq::<u8>::empty().push(SPAWN_REQUEST).drop_first() =~= Seq::<u8>::empty());
}

/// Requests wait in the order they were made, at most `SPAWN_QUEUE_CAPACITY`
/// of them: `n` requests made to an empty queue leave `min(n, capacity)`
/// requests pending.
pub proof fn lemma_requests_pending(n: nat)
    ensures
        requests(Some(Seq::<u8>::empty()), n) matches Some(items) && items.len() == (if n
            < SPAWN_QUEUE_CAPACITY {
            n
        } else {
            SPAWN_QUEUE_CAPACITY as nat
        }),
    decreases n,
{
    if n > 0 {
        lemma_requests_pending((n - 1) as nat);
    }
}

/// The pending requests after `n` spawn requests.
pub open spec fn requests(v: Option<Seq<u8>>, n: nat) -> Option<Seq<u8>>
    decreases n,
{
    if n == 0 {
        v
    } else {
        requested(requests(v, (n - 1) as nat))
    }
}

/// Before `init`, requests are dropped and none is ever served.
pub proof fn lemma_uninitialised_never_spawns(n: nat)
    ensures
        requests(None, n) is None,
        !has_pending(requests(None, n)),
    decreases n,
{
    if n > 0 {
        lemma_uninitialised_never_spawns((n - 1) as nat);
    }
}

/// Number of tasks spawned together.
pub const TASK_COUNT: u8 = 5;

/// The completion counter after one more task completes, and whether that
/// completion was the last of the batch (the counter then starts over).
pub open spec fn completion(done: u8) -> (u8, bool) {
    if done + 1 >= TASK_COUNT {
        (0u8, true)
    } else {
        ((done + 1) as u8, false)
    }
}

/// Records that a task completed: returns whether all `TASK_COUNT` tasks have
/// now completed, in which case the count starts over from zero.
pub fn check_all_done(tasks_done: &mut u8) -> (all_done: bool)
    requires
        *old(tasks_done) < u8::MAX,
    ensures
        (*final(tasks_done), all_done) == completion(*old(tasks_done)),
{
    let done = *tasks_done + 1;
    *tasks_done = done;
    if done >= TASK_COUNT {
        *tasks_done = 0;
        true
    } else {
        false
    }
}

/// A count below `TASK_COUNT` stays below it, and a completion is the last of
/// the batch exactly when `TASK_COUNT - 1` tasks had completed before it.
pub proof fn lemma_completion_cycle(done: u8)
    requires
        done < TASK_COUNT,
    ensures
        completion(done).0 < TASK_COUNT,
        completion(done).1 <==> done == TASK_COUNT - 1,
{
}

/// The five tasks of a batch.
#[derive(Clone, Copy, PartialEq, Eq, Structural, Debug)]
pub enum TaskId {
    One,
    Two,
    Three,
    Four,
    Five,
}

/// The order in which batch number `order` spawns the five tasks; it cycles
/// through five orders.
pub open spec fn spawn_order_of(order: u64) -> Seq<TaskId> {
    let k = order % 5;
    if k == 0 {
        seq![TaskId::One, TaskId::Two, TaskId::Three, TaskId::Four, TaskId::Five]
    } else if k == 1 {
        seq![TaskId::Three, TaskId::One, TaskId::Five, TaskId::Two, TaskId::Four]
    } else if k == 2 {
        seq![TaskId::Five, TaskId::Four, TaskId::Three, TaskId::Two, TaskId::One]
    } else if k == 3 {
        seq![TaskId::Two, TaskId::Four, TaskId::One, TaskId::Five, TaskId::Three]
    } else {
        seq![TaskId::Four, TaskId::Two, TaskId::Five, TaskId::One, TaskId::Three]
    }
}

/// The order in which batch number `order` spawns the five tasks.
pub fn spawn_order(order: u64) -> (tasks: [TaskId; 5])
    ensures
        tasks@ == spawn_order_of(order),
{
    let tasks = match order % 5 {
        0 => [TaskId::One, TaskId::Two, TaskId::Three, TaskId::Four, TaskId::Five],
        1 => [TaskId::Three, TaskId::One, TaskId::Five, TaskId::Two, TaskId::Four],
        2 => [TaskId::Five, TaskId::Four, TaskId::Three, TaskId::Two, TaskId::One],
        3 => [TaskId::Two, TaskId::Four, TaskId::One, TaskId::Five, TaskId::Three],
        _ => [TaskId::Four, TaskId::Two, TaskId::Five, TaskId::One, TaskId::Three],
    };
    assert(tasks@ =~= spawn_order_of(order));
    tasks
}

/// Takes the next batch number from the batch counter, which wraps around.
pub fn next_spawn_order(counter: &mut u64) -> (order: u64)
    ensures
        order == *old(counter),
        *final(counter) == (*old(counter) + 1) % 0x1_0000_0000_0000_0000,
{
    let order = *counter;
    *counter = counter.wrapping_add(1);
    order
}

/// Every batch spawns each of the five tasks exactly once.
pub proof fn lemma_spawn_order_is_permutation(order: u64)
    ensures
        spawn_order_of(order).len() == 5,
        spawn_order_of(order).no_duplicates(),
        spawn_order_of(order).to_set() == set![
            TaskId::One,
            TaskId::Two,
            TaskId::Three,
            TaskId::Four,
            TaskId::Five,
        ],
{
    let s = spawn_order_of(order);
    let all = set![TaskId::One, TaskId::Two, TaskId::Three, TaskId::Four, TaskId::Five];
    assert forall|t: TaskId| s.to_set().contains(t) <==> all.contains(t) by {
        match t {
            TaskId::One => {},
            TaskId::Two => {},
            TaskId::Three => {},
            TaskId::Four => {},
            TaskId::Five => {},
        }
        if all.contains(t) {
            assert(s.contains(t));
        }
    }
    assert(s.to_set() =~= all);
}

/// The spawn order depends on the batch number only through its remainder
/// modulo 5: batches five apart spawn their tasks in the same order, and so
/// does batch `order % 5`; the five consecutive batches 0 to 4 use five
/// different orders.
pub proof fn lemma_spawn_order_period(order: u64)
    ensures
        spawn_order_of(order) == spawn_order_of(order % 5),
        order <= u64::MAX - 5 ==> spawn_order_of((order + 5) as u64) == spawn_order_of(order),
        forall|a: u64, b: u64|
            a < 5 && b < 5 && a != b ==> #[trigger] spawn_order_of(a) != #[trigger] spawn_order_of(b),
{
    assert forall|a: u64, b: u64|
        a < 5 && b < 5 && a != b implies #[trigger] spawn_order_of(a) != #[trigger] spawn_order_of(b) by {
        assert(spawn_order_of(a)[0] != spawn_order_of(b)[0] || spawn_order_of(a)[1] != spawn_order_of(b)[1]);
    }
}

/// A future that is pending the first time it is polled and ready after.
pub struct YieldNow {
    yielded: bool,
}

impl YieldNow {
    /// Whether it has been polled already.
    pub closed spec fn has_yielded(&self) -> bool {
        self.yielded
    }

    /// A future not yet polled.
    pub fn new() -> (y: Self)
        ensures
            !y.has_yielded(),
    {
        YieldNow { yielded: false }
    }

    /// Polls: ready when it was polled before; otherwise pending (the caller
    /// then wakes the task), and ready from the next poll on.
    pub fn poll_ready(&mut self) -> (ready: bool)
        ensures
            ready == old(self).has_yielded(),
            final(self).has_yielded(),
    {
        if self.yielded {
            true
        } else {
            self.yielded = true;
            false
        }
    }
}

} // verus!

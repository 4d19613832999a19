//! The background task scheduler: task descriptors, the scheduler state with
//! its poll-tick transition, and the registry that maps a task kind to its
//! handler.
//!
//! The scheduler here is the decision half of a background polling loop: the
//! application drives it by reading the clock, calling [`ProcessQueue::tick`],
//! dispatching the returned due tasks through a [`HandlerRegistry`], and
//! blocking on a notify-or-timeout wait whose pending-wake state is the
//! [`WakeSignal`] field. Every transition is a plain verified function.
use vstd::prelude::*;

use crate::utils::current_timestamp_secs;
use crate::utils::generate_rand_numberstring;
use crate::utils::is_shifted_decimal_char;
use vstd::assert_by_contradiction;

verus! {

/// The pending wake state of a loop's notify-or-timeout wait: nothing
/// pending, one waiter to be woken (a task was added), or every waiter to
/// be woken (shutdown, or a manual notify).
#[derive(Clone, Copy, PartialEq, Eq, Structural, Debug)]
pub enum WakeSignal {
    /// No wake is pending; a wait blocks until its timeout.
    Quiet,
    /// One waiter is to be woken.
    WakeOne,
    /// Every waiter is to be woken.
    WakeAll,
}

/// One schedulable unit of work: a named kind to look the handler up by, a
/// period, whether it survives execution, and the time it last ran.
#[derive(Debug, Clone)]
pub struct ProcessTask {
    /// Identifier, unique among the live tasks of a scheduler.
    pub task_id: String,
    /// Name used to look up a handler in the registry.
    pub handler_type: String,
    /// A periodic task survives execution; a one-shot task is removed
    /// after its first execution.
    pub cyclicity: bool,
    /// The task is due when more than `period` time units passed since
    /// `last_time`.
    pub period: u64,
    /// When the task last ran, updated just before dispatch.
    pub last_time: u64,
    /// Caller-supplied opaque string, passed through to the handler.
    pub cookie: Option<String>,
}

impl ProcessTask {
    /// A task with a fresh random 16-digit identifier, last run set to the
    /// clock's present reading.
    pub fn new(h: bool, p: u64, ck: &str, hfn: &str) -> (r: Self)
        ensures
            r.cyclicity == h,
            r.period == p,
            r.handler_type@ == hfn@,
            r.cookie matches Some(c) && c@ == ck@,
            r.task_id@.len() == 16,
            forall|i: int| 0 <= i < r.task_id@.len() ==> is_shifted_decimal_char(
                #[trigger] r.task_id@[i],
            ),
    {
        ProcessTask {
            task_id: generate_rand_numberstring(16),
            cyclicity: h,
            period: p,
            last_time: current_timestamp_secs(),
            handler_type: hfn.to_owned(),
            cookie: Some(ck.to_owned()),
        }
    }

    /// The same as [`ProcessTask::new`] with the arguments in another order.
    pub fn new_with_cookie_fn(ck: &str, cycle: bool, p: u64, hfn: &str) -> (r: Self)
        ensures
            r.cyclicity == cycle,
            r.period == p,
            r.handler_type@ == hfn@,
            r.cookie matches Some(c) && c@ == ck@,
            r.task_id@.len() == 16,
            forall|i: int| 0 <= i < r.task_id@.len() ==> is_shifted_decimal_char(
                #[trigger] r.task_id@[i],
            ),
    {
        ProcessTask {
            task_id: generate_rand_numberstring(16),
            cyclicity: cycle,
            period: p,
            last_time: current_timestamp_secs(),
            handler_type: hfn.to_owned(),
            cookie: Some(ck.to_owned()),
        }
    }

    /// A task with every field given, for callers that pick identifiers
    /// and timestamps themselves.
    pub fn new_at(id: &str, cycle: bool, p: u64, last: u64, ck: &str, hfn: &str) -> (r: Self)
        ensures
            r.task_id@ == id@,
            r.cyclicity == cycle,
            r.period == p,
            r.last_time == last,
            r.handler_type@ == hfn@,
            r.cookie matches Some(c) && c@ == ck@,
    {
        ProcessTask {
            task_id: id.to_owned(),
            cyclicity: cycle,
            period: p,
            last_time: last,
            handler_type: hfn.to_owned(),
            cookie: Some(ck.to_owned()),
        }
    }

    /// An exact copy, field for field.
    pub fn duplicate(&self) -> (r: Self)
        ensures
            r == *self,
    {
        ProcessTask {
            task_id: self.task_id.clone(),
            cyclicity: self.cyclicity,
            period: self.period,
            last_time: self.last_time,
            handler_type: self.handler_type.clone(),
            cookie: match &self.cookie {
                Some(c) => Some(c.clone()),
                None => None,
            },
        }
    }
}

/// A task is due when more than its period passed since it last ran.
pub open spec fn task_due(t: ProcessTask, now: u64) -> bool {
    now > t.last_time + t.period
}

/// The task as it stands after being marked for dispatch: its last run
/// time moved up to the present tick's clock reading.
pub open spec fn fire(t: ProcessTask, now: u64) -> ProcessTask {
    ProcessTask { last_time: now, ..t }
}

/// The tasks of `q` that are due at `now`, in queue order, as the scan
/// snapshots them before their last run time moves.
pub open spec fn due_tasks(q: Seq<ProcessTask>, now: u64) -> Seq<ProcessTask>
    decreases q.len(),
{
    if q.len() == 0 {
        Seq::empty()
    } else if task_due(q.last(), now) {
        due_tasks(q.drop_last(), now).push(q.last())
    } else {
        due_tasks(q.drop_last(), now)
    }
}

/// The queue as it stands after one tick at `now`: tasks that were not due
/// keep their place unchanged; due periodic tasks stay with their last run
/// time set to `now`; due one-shot tasks are removed.
pub open spec fn after_tick(q: Seq<ProcessTask>, now: u64) -> Seq<ProcessTask>
    decreases q.len(),
{
    if q.len() == 0 {
        Seq::empty()
    } else {
        let rest = after_tick(q.drop_last(), now);
        if !task_due(q.last(), now) {
            rest.push(q.last())
        } else if q.last().cyclicity {
            rest.push(fire(q.last(), now))
        } else {
            rest
        }
    }
}

/// True when some task of `q` carries the identifier.
pub open spec fn has_task_id(q: Seq<ProcessTask>, id: Seq<char>) -> bool {
    exists|i: int| 0 <= i < q.len() && q[i].task_id@ == id
}

/// No two tasks of `q` share an identifier.
pub open spec fn unique_ids(q: Seq<ProcessTask>) -> bool {
    forall|i: int, j: int| 0 <= i < j < q.len() ==> q[i].task_id@ != q[j].task_id@
}

/// What `add` does to the task collection: a task whose identifier is
/// already live is left out, any other is appended.
pub open spec fn add_spec(q: Seq<ProcessTask>, t: ProcessTask) -> Seq<ProcessTask> {
    if has_task_id(q, t.task_id@) {
        q
    } else {
        q.push(t)
    }
}

/// What `add` and a manual notify do to the pending wake state: an add
/// wakes at least one waiter, and never lowers a pending wake-all.
pub open spec fn wake_after_add(w: WakeSignal) -> WakeSignal {
    if w == WakeSignal::WakeAll {
        WakeSignal::WakeAll
    } else {
        WakeSignal::WakeOne
    }
}

/// What `shutdown` and a manual notify do to the pending wake state: a
/// running loop has all its waiters woken; a stopped one is left as it
/// stands.
pub open spec fn wake_broadcast(started: bool, w: WakeSignal) -> WakeSignal {
    if started {
        WakeSignal::WakeAll
    } else {
        w
    }
}

/// The scheduler state: the live tasks, the running flag of its loop, the
/// configured bounds, and the pending wake state of its wait step.
#[derive(Debug, Clone)]
pub struct ProcessQueue {
    /// The live tasks, in insertion order.
    pub queue: Vec<ProcessTask>,
    /// Whether the background loop runs.
    pub started: bool,
    /// Informational bound on the task count; `queue_add` does not
    /// enforce it, `is_queue_full` reports it.
    pub max_tasks: usize,
    /// Configured waiting timeout; stored, and not consulted by the loop,
    /// which waits one fixed time unit.
    pub waiting_timeout: u64,
    /// The pending wake state of the loop's wait step.
    pub wake: WakeSignal,
}

impl ProcessQueue {
    /// An empty, stopped scheduler with the default bounds.
    pub fn new() -> (r: Self)
        ensures
            r.queue@.len() == 0,
            r.started == false,
            r.max_tasks == 1000,
            r.waiting_timeout == 30,
            r.wake == WakeSignal::Quiet,
    {
        ProcessQueue {
            queue: Vec::new(),
            started: false,
            max_tasks: 1000,
            waiting_timeout: 30,
            wake: WakeSignal::Quiet,
        }
    }

    /// Adds a task and signals the loop to wake. A task whose identifier
    /// is already live is not inserted again, so identifiers stay unique
    /// over every sequence of adds.
    pub fn queue_add(&mut self, emb: ProcessTask)
        requires
            unique_ids(old(self).queue@),
        ensures
            final(self).queue@ == add_spec(old(self).queue@, emb),
            unique_ids(final(self).queue@),
            final(self).wake == wake_after_add(old(self).wake),
            final(self).started == old(self).started,
            final(self).max_tasks == old(self).max_tasks,
            final(self).waiting_timeout == old(self).waiting_timeout,
    {
        let mut found: bool = false;
        let mut i: usize = 0;
        let n = self.queue.len();
        while i < n
            invariant
                *self == *old(self),
                n == self.queue@.len(),
                i <= n,
                found == has_task_id(self.queue@.take(i as int), emb.task_id@),
            decreases n - i,
        {
            let ghost pre = self.queue@.take(i as int);
            if self.queue[i].task_id == emb.task_id {
                found = true;
            }
            i += 1;
            proof {
                assert(self.queue@.take(i as int) =~= pre.push(self.queue@[i - 1]));
                assert(forall|j: int|
                    0 <= j < i ==> self.queue@.take(i as int)[j] == self.queue@[j]);
                if found {
                    if has_task_id(pre, emb.task_id@) {
                        let j = choose|j: int|
                            0 <= j < pre.len() && pre[j].task_id@ == emb.task_id@;
                        assert(self.queue@.take(i as int)[j].task_id@ == emb.task_id@);
                    } else {
                        assert(self.queue@.take(i as int)[i - 1].task_id@ == emb.task_id@);
                    }
                }
            }
        }
        proof {
            assert(self.queue@.take(n as int) =~= self.queue@);
        }
        if !found {
            let ghost pre = self.queue@;
            self.queue.push(emb);
            proof {
                assert(!has_task_id(pre, emb.task_id@));
                assert(self.queue@ == add_spec(pre, emb));
                assert forall|a: int, b: int| 0 <= a < b < self.queue@.len() implies self.queue@[a].task_id@
                    != self.queue@[b].task_id@ by {
                    if b < pre.len() {
                    } else {
                        assert(self.queue@[b] == emb);
                        assert(self.queue@[a] == pre[a]);
                    }
                }
            }
        }
        self.wake = if self.wake == WakeSignal::WakeAll {
            WakeSignal::WakeAll
        } else {
            WakeSignal::WakeOne
        };
    }

    /// Removes the task that carries the given task's identifier, if any;
    /// absent identifiers are a no-op.
    pub fn queue_remove(&mut self, emb: &ProcessTask)
        requires
            unique_ids(old(self).queue@),
        ensures
            unique_ids(final(self).queue@),
            !has_task_id(old(self).queue@, emb.task_id@) ==> final(self).queue@ == old(
                self,
            ).queue@,
            forall|i: int|
                0 <= i < old(self).queue@.len() && old(self).queue@[i].task_id@ == emb.task_id@
                    ==> final(self).queue@ == old(self).queue@.remove(i),
            final(self).wake == old(self).wake,
            final(self).started == old(self).started,
            final(self).max_tasks == old(self).max_tasks,
            final(self).waiting_timeout == old(self).waiting_timeout,
    {
        let mut i: usize = 0;
        let n = self.queue.len();
        while i < n
            invariant
                *self == *old(self),
                unique_ids(old(self).queue@),
                n == self.queue@.len(),
                i <= n,
                forall|j: int| 0 <= j < i ==> self.queue@[j].task_id@ != emb.task_id@,
            decreases n - i,
        {
            if self.queue[i].task_id == emb.task_id {
                let ghost pre = self.queue@;
                let ghost found = i as int;
                self.queue.remove(i);
                proof {
                    assert(pre == old(self).queue@);
                    assert(unique_ids(pre));
                    assert(self.queue@ == pre.remove(found));
                    pre.remove_ensures(found);
                    assert forall|a: int, b: int|
                        0 <= a < b < self.queue@.len() implies self.queue@[a].task_id@
                        != self.queue@[b].task_id@ by {
                        let a0 = if a < found {
                            a
                        } else {
                            a + 1
                        };
                        let b0 = if b < found {
                            b
                        } else {
                            b + 1
                        };
                        assert(self.queue@[a] == pre[a0]);
                        assert(self.queue@[b] == pre[b0]);
                        assert(pre[a0].task_id@ != pre[b0].task_id@);
                    }
                    assert forall|k: int|
                        0 <= k < pre.len() && pre[k].task_id@ == emb.task_id@ implies self.queue@
                        == pre.remove(k) by {
                        if k < found {
                            assert(pre[k].task_id@ != pre[found].task_id@);
                        } else if k > found {
                            assert(pre[found].task_id@ != pre[k].task_id@);
                        }
                        assert(k == found);
                    }
                }
                return ;
            }
            i += 1;
        }
        proof {
            assert(!has_task_id(self.queue@, emb.task_id@));
        }
    }

    /// One poll tick at time `now`: returns the tasks that were due, in
    /// queue order and as the scan saw them; moves the last run time of
    /// each due task up to `now`; and removes the due one-shot tasks after
    /// the scan.
    pub fn tick(&mut self, now: u64) -> (due: Vec<ProcessTask>)
        requires
            unique_ids(old(self).queue@),
        ensures
            due@ == due_tasks(old(self).queue@, now),
            final(self).queue@ == after_tick(old(self).queue@, now),
            unique_ids(final(self).queue@),
            final(self).wake == old(self).wake,
            final(self).started == old(self).started,
            final(self).max_tasks == old(self).max_tasks,
            final(self).waiting_timeout == old(self).waiting_timeout,
    {
        let mut due: Vec<ProcessTask> = Vec::new();
        let mut kept: Vec<ProcessTask> = Vec::new();
        let n = self.queue.len();
        let mut i: usize = 0;
        while i < n
            invariant
                *self == *old(self),
                n == self.queue@.len(),
                i <= n,
                due@ == due_tasks(self.queue@.take(i as int), now),
                kept@ == after_tick(self.queue@.take(i as int), now),
            decreases n - i,
        {
            let ghost pre = self.queue@.take(i as int);
            let t = &self.queue[i];
            let is_due = now > t.last_time && now - t.last_time > t.period;
            proof {
                assert(is_due == task_due(self.queue@[i as int], now));
            }
            if is_due {
                due.push(t.duplicate());
                if t.cyclicity {
                    let mut ft = t.duplicate();
                    ft.last_time = now;
                    proof {
                        assert(ft == fire(self.queue@[i as int], now));
                    }
                    kept.push(ft);
                }
            } else {
                kept.push(t.duplicate());
            }
            i += 1;
            proof {
                assert(self.queue@.take(i as int) =~= pre.push(self.queue@[i - 1]));
                assert(self.queue@.take(i as int).drop_last() =~= pre);
                assert(due@ == due_tasks(self.queue@.take(i as int), now));
                assert(kept@ == after_tick(self.queue@.take(i as int), now));
            }
        }
        proof {
            assert(self.queue@.take(n as int) =~= self.queue@);
            lemma_after_tick_provenance(self.queue@, now);
            lemma_after_tick_unique(self.queue@, now);
        }
        self.queue = kept;
        due
    }

    /// Looks up the handler for one task's kind; a missing kind is no
    /// error and must be treated as a silent skip.
    pub fn process_task<'a, H>(&self, registry: &'a HandlerRegistry<H>, task: &ProcessTask) -> (r:
        Option<&'a H>)
        ensures
            match r {
                Some(h) => registry.map_view().contains_key(task.handler_type@) && *h
                    == registry.map_view()[task.handler_type@],
                None => !registry.map_view().contains_key(task.handler_type@),
            },
    {
        registry.lookup(task.handler_type.as_str())
    }

    /// Marks the loop as running; reports whether it was stopped before,
    /// so that the caller spawns the loop exactly once.
    pub fn start(&mut self) -> (spawn: bool)
        ensures
            final(self).started == true,
            spawn == !old(self).started,
            final(self).queue@ == old(self).queue@,
            final(self).wake == old(self).wake,
            final(self).max_tasks == old(self).max_tasks,
            final(self).waiting_timeout == old(self).waiting_timeout,
    {
        let spawn = !self.started;
        self.started = true;
        spawn
    }

    /// Requests the loop to stop and wakes all its waiters; it does not
    /// wait for the loop to exit.
    pub fn shutdown(&mut self)
        ensures
            final(self).started == false,
            final(self).wake == wake_broadcast(old(self).started, old(self).wake),
            final(self).queue@ == old(self).queue@,
            final(self).max_tasks == old(self).max_tasks,
            final(self).waiting_timeout == old(self).waiting_timeout,
    {
        if self.started {
            self.started = false;
            self.wake = WakeSignal::WakeAll;
        }
    }

    /// Wakes all waiters of a running loop by hand.
    pub fn notify(&mut self)
        ensures
            final(self).wake == wake_broadcast(old(self).started, old(self).wake),
            final(self).started == old(self).started,
            final(self).queue@ == old(self).queue@,
            final(self).max_tasks == old(self).max_tasks,
            final(self).waiting_timeout == old(self).waiting_timeout,
    {
        if self.started {
            self.wake = WakeSignal::WakeAll;
        }
    }

    /// The wait step's check: reports whether a wake was pending and
    /// consumes it. A pending wake means the wait returns at once instead
    /// of sleeping through its timeout.
    pub fn take_wake_signal(&mut self) -> (woken: bool)
        ensures
            woken == (old(self).wake != WakeSignal::Quiet),
            final(self).wake == WakeSignal::Quiet,
            final(self).started == old(self).started,
            final(self).queue@ == old(self).queue@,
            final(self).max_tasks == old(self).max_tasks,
            final(self).waiting_timeout == old(self).waiting_timeout,
    {
        let woken = !(self.wake == WakeSignal::Quiet);
        self.wake = WakeSignal::Quiet;
        woken
    }

    /// How many tasks are live.
    pub fn count(&self) -> (r: usize)
        ensures
            r == self.queue@.len(),
    {
        self.queue.len()
    }

    /// Whether the live task count reached the configured bound. The bound
    /// is informational: `queue_add` does not consult it.
    pub fn is_queue_full(&self) -> (r: bool)
        ensures
            r == (self.queue@.len() >= self.max_tasks),
    {
        self.queue.len() >= self.max_tasks
    }
}

impl Default for ProcessQueue {
    /// The same empty, stopped scheduler that `new` builds.
    fn default() -> (r: Self)
        ensures
            r.queue@.len() == 0,
            r.started == false,
            r.max_tasks == 1000,
            r.waiting_timeout == 30,
            r.wake == WakeSignal::Quiet,
    {
        ProcessQueue::new()
    }
}

/// Sets the stored waiting timeout. The loop's wait step does not consult
/// it; the knob is kept as configuration state only.
pub fn config_task_queue_wait_timeout(q: &mut ProcessQueue, tmt: u64, _period: u64)
    ensures
        final(q).waiting_timeout == tmt,
        final(q).queue@ == old(q).queue@,
        final(q).started == old(q).started,
        final(q).max_tasks == old(q).max_tasks,
        final(q).wake == old(q).wake,
{
    q.waiting_timeout = tmt;
}

/// Sets the informational bound on the task count.
pub fn config_task_queue_max_tasks(q: &mut ProcessQueue, max: usize)
    ensures
        final(q).max_tasks == max,
        final(q).queue@ == old(q).queue@,
        final(q).started == old(q).started,
        final(q).waiting_timeout == old(q).waiting_timeout,
        final(q).wake == old(q).wake,
{
    q.max_tasks = max;
}

/// Marks the scheduler's loop as running; reports whether the caller must
/// spawn it.
pub fn start_task_queue_thread(q: &mut ProcessQueue) -> (spawn: bool)
    ensures
        final(q).started == true,
        spawn == !old(q).started,
        final(q).queue@ == old(q).queue@,
        final(q).wake == old(q).wake,
        final(q).max_tasks == old(q).max_tasks,
        final(q).waiting_timeout == old(q).waiting_timeout,
{
    q.start()
}

/// Requests the scheduler's loop to stop and wakes all waiters.
pub fn stop_task_queue_thread(q: &mut ProcessQueue)
    ensures
        final(q).started == false,
        final(q).wake == wake_broadcast(old(q).started, old(q).wake),
        final(q).queue@ == old(q).queue@,
        final(q).max_tasks == old(q).max_tasks,
        final(q).waiting_timeout == old(q).waiting_timeout,
{
    q.shutdown()
}

/// Wakes the scheduler's loop by hand.
pub fn notify_queue_process(q: &mut ProcessQueue)
    ensures
        final(q).wake == wake_broadcast(old(q).started, old(q).wake),
        final(q).started == old(q).started,
        final(q).queue@ == old(q).queue@,
        final(q).max_tasks == old(q).max_tasks,
        final(q).waiting_timeout == old(q).waiting_timeout,
{
    q.notify()
}

/// How many tasks the scheduler holds.
pub fn count_queue_tasks(q: &ProcessQueue) -> (r: usize)
    ensures
        r == q.queue@.len(),
{
    q.count()
}

/// Whether the scheduler reached its informational bound.
pub fn task_queue_is_full(q: &ProcessQueue) -> (r: bool)
    ensures
        r == (q.queue@.len() >= q.max_tasks),
{
    q.is_queue_full()
}

/// The registry that maps a task kind to its handler. Registration
/// appends; lookup answers for the latest registration of a kind, so the
/// last writer wins.
pub struct HandlerRegistry<H> {
    /// The registrations, in order of arrival.
    pub entries: Vec<(String, H)>,
}

/// The mapping that a registration list stands for: later entries
/// overwrite earlier ones of the same kind.
pub open spec fn entries_map<H>(s: Seq<(String, H)>) -> Map<Seq<char>, H>
    decreases s.len(),
{
    if s.len() == 0 {
        Map::empty()
    } else {
        entries_map(s.drop_last()).insert(s.last().0@, s.last().1)
    }
}

/// Entries past `i` that do not carry the kind leave its mapping as the
/// first `i` entries set it.
proof fn lemma_entries_map_skip_unmatched<H>(s: Seq<(String, H)>, k: Seq<char>, i: int)
    requires
        0 <= i <= s.len(),
        forall|j: int| i <= j < s.len() ==> s[j].0@ != k,
    ensures
        entries_map(s).contains_key(k) == entries_map(s.take(i)).contains_key(k),
        entries_map(s).contains_key(k) ==> entries_map(s)[k] == entries_map(s.take(i))[k],
    decreases s.len() - i,
{
    if i < s.len() {
        let shorter = s.drop_last();
        assert(s.take(i) =~= shorter.take(i));
        lemma_entries_map_skip_unmatched(shorter, k, i);
        assert(s.last().0@ != k);
    } else {
        assert(s.take(i) =~= s);
    }
}

impl<H> HandlerRegistry<H> {
    /// The kind-to-handler mapping this registry answers with.
    pub open spec fn map_view(&self) -> Map<Seq<char>, H> {
        entries_map(self.entries@)
    }

    /// An empty registry.
    pub fn new() -> (r: Self)
        ensures
            r.map_view() == Map::<Seq<char>, H>::empty(),
    {
        HandlerRegistry { entries: Vec::new() }
    }

    /// Registers a handler for a kind; an earlier handler of the same kind
    /// is overwritten, silently.
    pub fn register(&mut self, handler_type: &str, fun: H)
        ensures
            final(self).map_view() == old(self).map_view().insert(handler_type@, fun),
    {
        let ghost pre = self.entries@;
        self.entries.push((handler_type.to_owned(), fun));
        proof {
            assert(self.entries@.drop_last() =~= pre);
        }
    }

    /// Looks a kind up: the latest handler registered for it, or nothing.
    pub fn lookup<'a>(&'a self, kind: &str) -> (r: Option<&'a H>)
        ensures
            match r {
                Some(h) => self.map_view().contains_key(kind@) && *h == self.map_view()[kind@],
                None => !self.map_view().contains_key(kind@),
            },
    {
        let k: String = kind.to_owned();
        let mut i: usize = self.entries.len();
        while i > 0
            invariant
                i <= self.entries@.len(),
                k@ == kind@,
                forall|j: int| i <= j < self.entries@.len() ==> self.entries@[j].0@ != kind@,
            decreases i,
        {
            i -= 1;
            if self.entries[i].0 == k {
                proof {
                    lemma_entries_map_skip_unmatched(self.entries@, kind@, i + 1);
                    let prefix = self.entries@.take(i + 1);
                    assert(prefix.last() == self.entries@[i as int]);
                    assert(entries_map(prefix) == entries_map(prefix.drop_last()).insert(
                        prefix.last().0@,
                        prefix.last().1,
                    ));
                }
                return Some(&self.entries[i].1);
            }
        }
        proof {
            lemma_entries_map_skip_unmatched(self.entries@, kind@, 0);
            assert(self.entries@.take(0) =~= Seq::<(String, H)>::empty());
        }
        None
    }

    /// Empties the registry.
    pub fn clear(&mut self)
        ensures
            final(self).map_view() == Map::<Seq<char>, H>::empty(),
    {
        self.entries.clear();
    }

    /// Whether a kind has a handler.
    pub fn contains(&self, kind: &str) -> (r: bool)
        ensures
            r == self.map_view().contains_key(kind@),
    {
        match self.lookup(kind) {
            Some(_) => true,
            None => false,
        }
    }
}

/// Registers a handler for a kind in the given registry; an earlier
/// handler of the same kind is overwritten, silently.
pub fn queue_registry_handler<H>(registry: &mut HandlerRegistry<H>, handler_type: &str, fun: H)
    ensures
        final(registry).map_view() == old(registry).map_view().insert(handler_type@, fun),
{
    registry.register(handler_type, fun)
}

/// Every task that a tick keeps stems from a task of the queue: unchanged
/// when it was not due, or with its last run time moved up to `now` when
/// it was due and periodic. In both shapes the identifier is kept and the
/// last run time never decreases.
pub proof fn lemma_after_tick_provenance(q: Seq<ProcessTask>, now: u64)
    ensures
        forall|j: int|
            0 <= j < after_tick(q, now).len() ==> exists|i: int|
                0 <= i < q.len() && (#[trigger] after_tick(q, now)[j] == q[i] && !task_due(q[i], now)
                    || after_tick(q, now)[j] == fire(q[i], now) && task_due(q[i], now)
                    && q[i].cyclicity),
    decreases q.len(),
{
    if q.len() > 0 {
        let shorter = q.drop_last();
        lemma_after_tick_provenance(shorter, now);
        assert forall|j: int| 0 <= j < after_tick(q, now).len() implies exists|i: int|
            0 <= i < q.len() && (#[trigger] after_tick(q, now)[j] == q[i] && !task_due(q[i], now)
                || after_tick(q, now)[j] == fire(q[i], now) && task_due(q[i], now)
                && q[i].cyclicity) by {
            let rest = after_tick(shorter, now);
            if j < rest.len() {
                let i = choose|i: int|
                    0 <= i < shorter.len() && (#[trigger] rest[j] == shorter[i] && !task_due(
                        shorter[i],
                        now,
                    ) || rest[j] == fire(shorter[i], now) && task_due(shorter[i], now)
                        && shorter[i].cyclicity);
                assert(q[i] == shorter[i]);
                assert(after_tick(q, now)[j] == rest[j]);
            } else {
                let i = q.len() - 1;
                assert(after_tick(q, now)[j] == after_tick(q, now).last());
            }
        }
    }
}

/// A tick keeps identifiers unique.
pub proof fn lemma_after_tick_unique(q: Seq<ProcessTask>, now: u64)
    requires
        unique_ids(q),
    ensures
        unique_ids(after_tick(q, now)),
    decreases q.len(),
{
    if q.len() > 0 {
        let shorter = q.drop_last();
        assert(unique_ids(shorter));
        lemma_after_tick_unique(shorter, now);
        lemma_after_tick_provenance(shorter, now);
        let rest = after_tick(shorter, now);
        let t = q.last();
        if !task_due(t, now) || t.cyclicity {
            assert forall|a: int, b: int|
                0 <= a < b < after_tick(q, now).len() implies after_tick(q, now)[a].task_id@
                != after_tick(q, now)[b].task_id@ by {
                if b < rest.len() {
                    assert(after_tick(q, now)[a] == rest[a]);
                    assert(after_tick(q, now)[b] == rest[b]);
                } else {
                    assert(after_tick(q, now)[b].task_id@ == t.task_id@);
                    assert(after_tick(q, now)[a] == rest[a]);
                    let i = choose|i: int|
                        0 <= i < shorter.len() && (#[trigger] rest[a] == shorter[i] && !task_due(
                            shorter[i],
                            now,
                        ) || rest[a] == fire(shorter[i], now) && task_due(shorter[i], now)
                            && shorter[i].cyclicity);
                    assert(rest[a].task_id@ == shorter[i].task_id@);
                    assert(shorter[i].task_id@ == q[i].task_id@);
                    assert(q[i].task_id@ != t.task_id@);
                }
            }
        }
    }
}

/// Adding keeps identifiers unique, for every starting collection: the
/// uniqueness of live task identifiers is an invariant of add.
pub proof fn lemma_add_keeps_ids_unique(q: Seq<ProcessTask>, t: ProcessTask)
    requires
        unique_ids(q),
    ensures
        unique_ids(add_spec(q, t)),
{
    if !has_task_id(q, t.task_id@) {
        assert forall|a: int, b: int| 0 <= a < b < add_spec(q, t).len() implies add_spec(
            q,
            t,
        )[a].task_id@ != add_spec(q, t)[b].task_id@ by {
            if b < q.len() {
            } else {
                assert(add_spec(q, t)[b] == t);
                assert(add_spec(q, t)[a] == q[a]);
            }
        }
    }
}

/// A due periodic task is dispatched by the tick, stays in the collection
/// under its identifier, and its last run time moves up to `now`, which is
/// no earlier than its previous last run time.
pub proof fn lemma_periodic_task_refires(q: Seq<ProcessTask>, now: u64, i: int)
    requires
        0 <= i < q.len(),
        q[i].cyclicity,
        task_due(q[i], now),
    ensures
        due_tasks(q, now).contains(q[i]),
        has_task_id(after_tick(q, now), q[i].task_id@),
        exists|j: int|
            0 <= j < after_tick(q, now).len() && (#[trigger] after_tick(q, now)[j]).task_id@
                == q[i].task_id@ && after_tick(q, now)[j].last_time == now,
        now >= q[i].last_time,
    decreases q.len(),
{
    lemma_due_tasks_contain(q, now, i);
    if i == q.len() - 1 {
        let rest = after_tick(q.drop_last(), now);
        let j = rest.len() as int;
        assert(after_tick(q, now)[j] == fire(q.last(), now));
        assert(after_tick(q, now)[j].task_id@ == q[i].task_id@);
    } else {
        let shorter = q.drop_last();
        assert(shorter[i] == q[i]);
        lemma_periodic_task_refires(shorter, now, i);
        let rest = after_tick(shorter, now);
        let j = choose|j: int|
            0 <= j < rest.len() && (#[trigger] rest[j]).task_id@ == shorter[i].task_id@
                && rest[j].last_time == now;
        assert(after_tick(q, now)[j] == rest[j]);
    }
}

/// Every due task is in the tick's dispatch list.
pub proof fn lemma_due_tasks_contain(q: Seq<ProcessTask>, now: u64, i: int)
    requires
        0 <= i < q.len(),
        task_due(q[i], now),
    ensures
        due_tasks(q, now).contains(q[i]),
    decreases q.len(),
{
    if i == q.len() - 1 {
        assert(due_tasks(q, now).last() == q[i]);
    } else {
        let shorter = q.drop_last();
        assert(shorter[i] == q[i]);
        lemma_due_tasks_contain(shorter, now, i);
        let rest = due_tasks(shorter, now);
        let j = choose|j: int| 0 <= j < rest.len() && rest[j] == q[i];
        if task_due(q.last(), now) {
            assert(due_tasks(q, now)[j] == rest[j]);
        } else {
            assert(due_tasks(q, now) == rest);
        }
    }
}

/// How often an identifier occurs in a task list.
pub open spec fn count_id(q: Seq<ProcessTask>, id: Seq<char>) -> int
    decreases q.len(),
{
    if q.len() == 0 {
        0
    } else {
        count_id(q.drop_last(), id) + if q.last().task_id@ == id {
            1int
        } else {
            0int
        }
    }
}

/// A due one-shot task is dispatched exactly once by the tick that catches
/// it, and afterwards the collection no longer holds its identifier, so a
/// later tick cannot dispatch it again.
pub proof fn lemma_one_shot_fires_once(q: Seq<ProcessTask>, now: u64, i: int)
    requires
        unique_ids(q),
        0 <= i < q.len(),
        !q[i].cyclicity,
        task_due(q[i], now),
    ensures
        due_tasks(q, now).contains(q[i]),
        count_id(due_tasks(q, now), q[i].task_id@) == 1,
        !has_task_id(after_tick(q, now), q[i].task_id@),
{
    lemma_due_tasks_contain(q, now, i);
    lemma_due_count(q, now, i, q[i].task_id@);
    lemma_after_tick_provenance(q, now);
    assert forall|j: int| 0 <= j < after_tick(q, now).len() implies (#[trigger] after_tick(
        q,
        now,
    )[j]).task_id@ != q[i].task_id@ by {
        let k = choose|k: int|
            0 <= k < q.len() && (#[trigger] after_tick(q, now)[j] == q[k] && !task_due(q[k], now)
                || after_tick(q, now)[j] == fire(q[k], now) && task_due(q[k], now)
                && q[k].cyclicity);
        if k == i {
        } else {
            assert(q[k].task_id@ != q[i].task_id@);
        }
    }
}

/// In a collection with unique identifiers, the dispatch list of a tick
/// carries an identifier at most once; for a due task's identifier,
/// exactly once.
proof fn lemma_due_count(q: Seq<ProcessTask>, now: u64, i: int, id: Seq<char>)
    requires
        unique_ids(q),
        0 <= i < q.len(),
        q[i].task_id@ == id,
        task_due(q[i], now),
    ensures
        count_id(due_tasks(q, now), id) == 1,
    decreases q.len(),
{
    let shorter = q.drop_last();
    let rest = due_tasks(shorter, now);
    let d = due_tasks(q, now);
    if i == q.len() - 1 {
        assert(q.last() == q[i]);
        assert forall|j: int| 0 <= j < shorter.len() implies shorter[j].task_id@ != id by {
            assert(q[j].task_id@ != q[i].task_id@);
        }
        lemma_count_absent(shorter, now, id);
        assert(d == rest.push(q.last()));
        assert(d.drop_last() =~= rest);
        assert(d.last() == q.last());
        assert(count_id(d, id) == count_id(rest, id) + 1);
    } else {
        assert(shorter[i] == q[i]);
        assert(unique_ids(shorter));
        lemma_due_count(shorter, now, i, id);
        if task_due(q.last(), now) {
            assert(q[i].task_id@ != q.last().task_id@);
            assert(d == rest.push(q.last()));
            assert(d.drop_last() =~= rest);
            assert(d.last() == q.last());
            assert(count_id(d, id) == count_id(rest, id));
        } else {
            assert(d == rest);
        }
    }
}

/// An identifier that no task of the queue carries does not occur in the
/// dispatch list either.
proof fn lemma_count_absent(q: Seq<ProcessTask>, now: u64, id: Seq<char>)
    requires
        forall|j: int| 0 <= j < q.len() ==> q[j].task_id@ != id,
    ensures
        count_id(due_tasks(q, now), id) == 0,
    decreases q.len(),
{
    if q.len() > 0 {
        let shorter = q.drop_last();
        let rest = due_tasks(shorter, now);
        assert(forall|j: int| 0 <= j < shorter.len() ==> shorter[j].task_id@ != id);
        lemma_count_absent(shorter, now, id);
        if task_due(q.last(), now) {
            let d = due_tasks(q, now);
            assert(d == rest.push(q.last()));
            assert(d.drop_last() =~= rest);
            assert(d.last() == q.last());
            assert(q.last().task_id@ != id);
            assert(count_id(d, id) == count_id(rest, id));
        }
    }
}

/// The tasks of a dispatch list whose kind has a handler under the given
/// mapping, in order: what the dispatch loop hands to handlers.
pub open spec fn dispatched_tasks<H>(m: Map<Seq<char>, H>, due: Seq<ProcessTask>) -> Seq<
    ProcessTask,
>
    decreases due.len(),
{
    if due.len() == 0 {
        Seq::empty()
    } else {
        let rest = dispatched_tasks(m, due.drop_last());
        if m.contains_key(due.last().handler_type@) {
            rest.push(due.last())
        } else {
            rest
        }
    }
}

/// Everything the dispatch loop hands out has a handler.
proof fn lemma_dispatched_have_handlers<H>(m: Map<Seq<char>, H>, due: Seq<ProcessTask>)
    ensures
        forall|k: int|
            0 <= k < dispatched_tasks(m, due).len() ==> m.contains_key(
                (#[trigger] dispatched_tasks(m, due)[k]).handler_type@,
            ),
    decreases due.len(),
{
    if due.len() > 0 {
        let shorter = due.drop_last();
        lemma_dispatched_have_handlers(m, shorter);
        let rest = dispatched_tasks(m, shorter);
        assert forall|k: int| 0 <= k < dispatched_tasks(m, due).len() implies m.contains_key(
            (#[trigger] dispatched_tasks(m, due)[k]).handler_type@,
        ) by {
            if k < rest.len() {
                assert(dispatched_tasks(m, due)[k] == rest[k]);
            } else {
                assert(dispatched_tasks(m, due)[k] == due.last());
            }
        }
    }
}

/// A due task whose kind has a handler is dispatched.
proof fn lemma_dispatched_contains<H>(m: Map<Seq<char>, H>, due: Seq<ProcessTask>, j: int)
    requires
        0 <= j < due.len(),
        m.contains_key(due[j].handler_type@),
    ensures
        dispatched_tasks(m, due).contains(due[j]),
    decreases due.len(),
{
    if j == due.len() - 1 {
        let rest = dispatched_tasks(m, due.drop_last());
        assert(dispatched_tasks(m, due)[rest.len() as int] == due[j]);
    } else {
        let shorter = due.drop_last();
        assert(shorter[j] == due[j]);
        lemma_dispatched_contains(m, shorter, j);
        let rest = dispatched_tasks(m, shorter);
        let k = choose|k: int| 0 <= k < rest.len() && rest[k] == due[j];
        assert(dispatched_tasks(m, due)[k] == due[j]);
    }
}

/// A due task whose kind has no handler is skipped silently: it is not
/// dispatched, and it does not block the other due tasks of the same
/// tick, for each of them with a handler is dispatched all the same.
pub proof fn lemma_lookup_miss_is_silent<H>(
    m: Map<Seq<char>, H>,
    due: Seq<ProcessTask>,
    i: int,
    j: int,
)
    requires
        0 <= i < due.len(),
        !m.contains_key(due[i].handler_type@),
        0 <= j < due.len(),
        m.contains_key(due[j].handler_type@),
    ensures
        !dispatched_tasks(m, due).contains(due[i]),
        dispatched_tasks(m, due).contains(due[j]),
{
    lemma_dispatched_have_handlers(m, due);
    assert_by_contradiction!(!dispatched_tasks(m, due).contains(due[i]), {
        let k = choose|k: int|
            0 <= k < dispatched_tasks(m, due).len() && dispatched_tasks(m, due)[k] == due[i];
        assert(m.contains_key(dispatched_tasks(m, due)[k].handler_type@));
    });
    lemma_dispatched_contains(m, due, j);
}

/// Once a task's period and one more time unit have passed since its last
/// run, it is due: a periodic task observed over any stretch of at least
/// its period plus one tick is caught by the tick that ends the stretch.
pub proof fn lemma_period_elapsed_makes_due(t: ProcessTask, now: u64)
    requires
        now >= t.last_time + t.period + 1,
    ensures
        task_due(t, now),
{
}

/// An add always leaves a wake pending: an idle loop blocked on its wait
/// step returns at once rather than sleeping through the timeout.
pub proof fn lemma_add_wakes_waiter(w: WakeSignal)
    ensures
        wake_after_add(w) != WakeSignal::Quiet,
{
}

/// A shutdown of a running scheduler wakes every waiter, and the running
/// flag is false afterwards, so the loop observes the stop request within
/// one wake cycle.
pub proof fn lemma_shutdown_wakes_waiters(w: WakeSignal)
    ensures
        wake_broadcast(true, w) == WakeSignal::WakeAll,
        wake_broadcast(true, w) != WakeSignal::Quiet,
{
}

} // verus!

use crate::error::Error;
use crate::error::ErrorKind;
use vstd::prelude::*;

verus! {

pub const MSG_UNKNOWN_WORKER: &'static str = "Received a response from an unknown worker.";

pub const MSG_IDLE_WORKER: &'static str = "Received a response from a worker that has no task.";

pub const MSG_ALREADY_STARTED: &'static str = "The task queue has already been started.";

pub const MSG_NO_SEND_DUE: &'static str = "No task is due to be sent.";

pub const MSG_NOT_FEEDING: &'static str = "The task queue is not taking tasks.";

pub const MSG_NOT_COMPLETE: &'static str = "The task queue has not completed.";

/// The filled slots of a list, in their order.
pub open spec fn present<I>(slots: Seq<Option<I>>) -> Seq<I>
    decreases slots.len(),
{
    if slots.len() == 0 {
        Seq::empty()
    } else {
        match slots.last() {
            Some(item) => present(slots.drop_last()).push(item),
            None => present(slots.drop_last()),
        }
    }
}

/// Whether every slot of a list is filled.
pub open spec fn all_present<I>(slots: Seq<Option<I>>) -> bool {
    forall|i: int| 0 <= i < slots.len() ==> (#[trigger] slots[i]) is Some
}

/// Where every slot is filled, the filled slots are the list itself, slot by slot.
pub proof fn lemma_present_of_full<I>(slots: Seq<Option<I>>)
    requires
        all_present(slots),
    ensures
        present(slots).len() == slots.len(),
        forall|i: int| 0 <= i < slots.len() ==> (#[trigger] present(slots)[i]) == slots[i]->0,
    decreases slots.len(),
{
    if slots.len() > 0 {
        lemma_present_of_full(slots.drop_last());
    }
}

/// Moves the filled slots out of a list, keeping their order.
fn into_present<I>(slots: Vec<Option<I>>) -> (items: Vec<I>)
    ensures
        items@ == present(slots@),
{
    let ghost all = slots@;
    let mut slots = slots;
    let mut reversed: Vec<I> = Vec::new();
    while slots.len() > 0
        invariant
            slots@.len() <= all.len(),
            slots@ == all.subrange(0, slots@.len() as int),
            present(all) == present(slots@) + reversed@.reverse(),
        decreases slots@.len(),
    {
        let ghost before = slots@;
        let ghost gathered = reversed@;
        let slot = slots.pop();
        proof {
            assert(before.drop_last() == slots@);
            assert(slots@ == all.subrange(0, slots@.len() as int));
        }
        match slot {
            Some(Some(item)) => {
                reversed.push(item);
                proof {
                    assert(reversed@.reverse() == seq![item] + gathered.reverse());
                    assert(present(before) == present(slots@).push(item));
                    assert(present(slots@).push(item) + gathered.reverse() == present(slots@) + (
                    seq![item] + gathered.reverse()));
                }
            },
            _ => {},
        }
    }
    let mut items: Vec<I> = Vec::new();
    let ghost gathered = reversed@;
    proof {
        assert(slots@ == Seq::<Option<I>>::empty());
        assert(present(all) == gathered.reverse());
    }
    while reversed.len() > 0
        invariant
            reversed@.len() <= gathered.len(),
            reversed@ == gathered.subrange(0, reversed@.len() as int),
            items@ == gathered.subrange(reversed@.len() as int, gathered.len() as int).reverse(),
        decreases reversed@.len(),
    {
        let ghost before = reversed@;
        let ghost moved = items@;
        let item = reversed.pop();
        match item {
            Some(item) => {
                items.push(item);
                proof {
                    assert(reversed@ == gathered.subrange(0, reversed@.len() as int));
                    assert(items@ == gathered.subrange(
                        reversed@.len() as int,
                        gathered.len() as int,
                    ).reverse());
                }
            },
            None => {},
        }
    }
    proof {
        assert(gathered.subrange(0, gathered.len() as int) == gathered);
    }
    items
}

/// Gathers one response from each worker of a pool, each in the slot of the
/// worker it came from, whatever the order of arrival.
pub struct Collector<I> {
    slots: Vec<Option<I>>,
}

impl<I> View for Collector<I> {
    type V = Seq<Option<I>>;

    /// The slots, one per worker: what each worker has answered last, if anything.
    closed spec fn view(&self) -> Seq<Option<I>> {
        self.slots@
    }
}

impl<I> Collector<I> {
    /// A collector for `n_threads` workers, none of which has answered.
    pub fn new(n_threads: usize) -> (collector: Self)
        ensures
            collector@ == Seq::new(n_threads as nat, |i: int| None::<I>),
    {
        let mut slots: Vec<Option<I>> = Vec::new();
        while slots.len() < n_threads
            invariant
                slots@.len() <= n_threads,
                slots@ == Seq::new(slots@.len(), |i: int| None::<I>),
            decreases n_threads - slots@.len(),
        {
            slots.push(None);
            proof {
                assert(slots@ == Seq::new(slots@.len(), |i: int| None::<I>));
            }
        }
        Collector { slots }
    }

    pub fn n_threads(&self) -> (n: usize)
        ensures
            n == self@.len(),
    {
        self.slots.len()
    }

    /// Whether every worker has answered.
    pub fn is_complete(&self) -> (complete: bool)
        ensures
            complete == all_present(self@),
    {
        let mut i: usize = 0;
        while i < self.slots.len()
            invariant
                i <= self.slots@.len(),
                forall|j: int| 0 <= j < i ==> (#[trigger] self.slots@[j]) is Some,
            decreases self.slots@.len() - i,
        {
            if self.slots[i].is_none() {
                return false;
            }
            i += 1;
        }
        true
    }

    /// Files the response of worker `i_thread`, in place of an earlier one if
    /// there is one. A worker that the pool does not have is refused.
    pub fn accept(&mut self, i_thread: usize, response: I) -> (outcome: Result<(), Error>)
        ensures
            i_thread < old(self)@.len() ==> outcome is Ok && final(self)@ == old(self)@.update(
                i_thread as int,
                Some(response),
            ),
            i_thread >= old(self)@.len() ==> outcome is Err && final(self)@ == old(self)@
                && outcome->Err_0.kind == ErrorKind::Mocasa && outcome->Err_0.message@
                == MSG_UNKNOWN_WORKER@,
    {
        if i_thread < self.slots.len() {
            self.slots.set(i_thread, Some(response));
            Ok(())
        } else {
            Err(Error::mocasa(MSG_UNKNOWN_WORKER))
        }
    }

    /// The responses gathered, ordered by worker: where every worker has
    /// answered, one of each, that of worker `i` at place `i`.
    pub fn into_responses(self) -> (responses: Vec<I>)
        ensures
            responses@ == present(self@),
            all_present(self@) ==> responses@.len() == self@.len() && forall|i: int|
                0 <= i < self@.len() ==> (#[trigger] responses@[i]) == self@[i]->0,
    {
        proof {
            if all_present(self@) {
                lemma_present_of_full(self@);
            }
        }
        into_present(self.slots)
    }
}

/// How far a task queue has come.
#[derive(Clone, Copy, PartialEq, Eq, Debug, Structural)]
pub enum Phase {
    /// Not started yet.
    Fresh,
    /// Started, and the supply of tasks may hold more.
    Feeding,
    /// The supply of tasks has run out.
    Draining,
}

/// What the one who drives a task queue is to do next.
#[derive(Clone, Copy, PartialEq, Eq, Debug, Structural)]
pub enum Directive {
    /// Announce the start of the queue.
    Start,
    /// Take the next task from the supply, which will be task number `i_task`,
    /// and send it to worker `i_thread`; or find that the supply has run out.
    Send { i_task: usize, i_thread: usize },
    /// Wait for the next response of any worker.
    Receive,
    /// Announce the completion of the queue and take the results.
    Complete,
}

/// What happens to a task queue.
pub enum Event<I> {
    /// The start was announced.
    Started,
    /// The task that was due went out to the worker that was due.
    Sent,
    /// The supply of tasks had no more.
    Exhausted,
    /// Worker `i_thread` answered with `in_message`.
    Received { i_thread: usize, in_message: I },
}

/// A task queue as a mathematical value.
pub struct QueueState<I> {
    pub phase: Phase,
    /// For each worker, the number of the task it is working on, if any.
    pub assigned: Seq<Option<usize>>,
    /// For each task sent so far, by its number, the response to it, if it has come.
    pub answers: Seq<Option<I>>,
}

impl<I> QueueState<I> {
    /// The queue before its start, with `n_threads` idle workers.
    pub open spec fn initial(n_threads: nat) -> Self {
        QueueState {
            phase: Phase::Fresh,
            assigned: Seq::new(n_threads, |t: int| None::<usize>),
            answers: Seq::empty(),
        }
    }

    pub open spec fn n_threads(self) -> nat {
        self.assigned.len()
    }

    /// The number of tasks sent so far.
    pub open spec fn n_sent(self) -> nat {
        self.answers.len()
    }

    /// Whether worker `t` is idle and every worker before it is busy.
    pub open spec fn is_first_idle(self, t: int) -> bool {
        &&& 0 <= t < self.assigned.len()
        &&& self.assigned[t] is None
        &&& forall|u: int| 0 <= u < t ==> (#[trigger] self.assigned[u]) is Some
    }

    pub open spec fn has_idle(self) -> bool {
        exists|t: int| self.is_first_idle(t)
    }

    /// The idle worker of lowest index, where there is one.
    pub open spec fn first_idle(self) -> int {
        choose|t: int| self.is_first_idle(t)
    }

    pub open spec fn any_busy(self) -> bool {
        exists|t: int| 0 <= t < self.assigned.len() && (#[trigger] self.assigned[t]) is Some
    }

    /// Whether task `k` is out with some worker.
    pub open spec fn in_flight(self, k: int) -> bool {
        exists|t: int| 0 <= t < self.assigned.len() && #[trigger] self.assigned[t] == Some(
            k as usize,
        )
    }

    /// What is to be done next: start first; then, while tasks may be left,
    /// keep every idle worker supplied, lowest index first; wait for a response
    /// while any worker is busy; complete when none is.
    pub open spec fn directive(self) -> Directive {
        if self.phase == Phase::Fresh {
            Directive::Start
        } else if self.phase == Phase::Feeding && self.has_idle() {
            Directive::Send { i_task: self.n_sent() as usize, i_thread: self.first_idle() as usize }
        } else if self.any_busy() {
            Directive::Receive
        } else {
            Directive::Complete
        }
    }

    /// There is at least one worker; each busy worker holds a task of its own
    /// that was sent and is not answered; and each task that was sent is either
    /// answered or out with a worker.
    pub open spec fn wf(self) -> bool {
        &&& self.assigned.len() >= 1
        &&& self.answers.len() <= usize::MAX
        &&& self.phase == Phase::Fresh ==> self.answers.len() == 0
        &&& forall|t: int|
            0 <= t < self.assigned.len() && (#[trigger] self.assigned[t]) is Some ==> {
                &&& self.assigned[t]->0 < self.answers.len()
                &&& self.answers[self.assigned[t]->0 as int] is None
            }
        &&& forall|t: int, u: int|
            0 <= t < u < self.assigned.len() && (#[trigger] self.assigned[t]) is Some && (
            #[trigger] self.assigned[u]) is Some ==> self.assigned[t] != self.assigned[u]
        &&& forall|k: int|
            0 <= k < self.answers.len() && (#[trigger] self.answers[k]) is None
                ==> self.in_flight(k)
    }

    pub open spec fn can_start(self) -> bool {
        self.phase == Phase::Fresh
    }

    pub open spec fn can_send(self) -> bool {
        self.phase == Phase::Feeding && self.has_idle() && self.n_sent() < usize::MAX
    }

    pub open spec fn can_exhaust(self) -> bool {
        self.phase == Phase::Feeding
    }

    pub open spec fn can_receive(self, i_thread: usize) -> bool {
        i_thread < self.assigned.len() && self.assigned[i_thread as int] is Some
    }

    pub open spec fn can_finish(self) -> bool {
        self.directive() == Directive::Complete
    }

    pub open spec fn after_start(self) -> Self {
        QueueState { phase: Phase::Feeding, ..self }
    }

    /// The next task goes to the first idle worker.
    pub open spec fn after_send(self) -> Self {
        QueueState {
            assigned: self.assigned.update(self.first_idle(), Some(self.n_sent() as usize)),
            answers: self.answers.push(None),
            ..self
        }
    }

    pub open spec fn after_exhaust(self) -> Self {
        QueueState { phase: Phase::Draining, ..self }
    }

    /// The response is filed under the task that the worker held, and the
    /// worker is idle again.
    pub open spec fn after_receive(self, i_thread: usize, in_message: I) -> Self {
        QueueState {
            assigned: self.assigned.update(i_thread as int, None),
            answers: self.answers.update(
                self.assigned[i_thread as int]->0 as int,
                Some(in_message),
            ),
            ..self
        }
    }

    /// The responses in the order of their tasks.
    pub open spec fn results(self) -> Seq<I> {
        present(self.answers)
    }

    pub open spec fn enabled(self, event: Event<I>) -> bool {
        match event {
            Event::Started => self.can_start(),
            Event::Sent => self.can_send(),
            Event::Exhausted => self.can_exhaust(),
            Event::Received { i_thread, in_message } => self.can_receive(i_thread),
        }
    }

    /// The queue after an event; an event that cannot happen leaves it as it is.
    pub open spec fn apply(self, event: Event<I>) -> Self {
        if !self.enabled(event) {
            self
        } else {
            match event {
                Event::Started => self.after_start(),
                Event::Sent => self.after_send(),
                Event::Exhausted => self.after_exhaust(),
                Event::Received { i_thread, in_message } => self.after_receive(
                    i_thread,
                    in_message,
                ),
            }
        }
    }

    /// Whether an event is what the directive asks for.
    pub open spec fn obeys(self, event: Event<I>) -> bool {
        match self.directive() {
            Directive::Start => event is Started,
            Directive::Send { i_task, i_thread } => (event is Sent && self.n_sent() < usize::MAX)
                || event is Exhausted,
            Directive::Receive => event is Received && self.can_receive(event->i_thread),
            Directive::Complete => false,
        }
    }

    /// The queue after a list of events.
    pub open spec fn run(self, events: Seq<Event<I>>) -> Self
        decreases events.len(),
    {
        if events.len() == 0 {
            self
        } else {
            self.run(events.drop_last()).apply(events.last())
        }
    }

    /// Whether each event of a list is what the directive asked for when it came.
    pub open spec fn driven(self, events: Seq<Event<I>>) -> bool
        decreases events.len(),
    {
        events.len() == 0 || (self.driven(events.drop_last()) && self.run(
            events.drop_last(),
        ).obeys(events.last()))
    }

    /// Whether each response of a list of events is `reply` of the task that
    /// its worker held when it came.
    pub open spec fn faithful(self, events: Seq<Event<I>>, reply: spec_fn(int) -> I) -> bool
        decreases events.len(),
    {
        events.len() == 0 || (self.faithful(events.drop_last(), reply) && match events.last() {
            Event::Received { i_thread, in_message } => {
                let before = self.run(events.drop_last());
                before.can_receive(i_thread) ==> in_message == reply(
                    before.assigned[i_thread as int]->0 as int,
                )
            },
            _ => true,
        })
    }
}

/// How many times the start was announced in a list of events.
pub open spec fn count_started<I>(events: Seq<Event<I>>) -> nat
    decreases events.len(),
{
    if events.len() == 0 {
        0
    } else {
        count_started(events.drop_last()) + if events.last() is Started {
            1nat
        } else {
            0nat
        }
    }
}

/// How many tasks went out in a list of events.
pub open spec fn count_sent<I>(events: Seq<Event<I>>) -> nat
    decreases events.len(),
{
    if events.len() == 0 {
        0
    } else {
        count_sent(events.drop_last()) + if events.last() is Sent {
            1nat
        } else {
            0nat
        }
    }
}

/// How many times the supply of tasks was found empty in a list of events.
pub open spec fn count_exhausted<I>(events: Seq<Event<I>>) -> nat
    decreases events.len(),
{
    if events.len() == 0 {
        0
    } else {
        count_exhausted(events.drop_last()) + if events.last() is Exhausted {
            1nat
        } else {
            0nat
        }
    }
}

/// How many responses came in a list of events.
pub open spec fn count_received<I>(events: Seq<Event<I>>) -> nat
    decreases events.len(),
{
    if events.len() == 0 {
        0
    } else {
        count_received(events.drop_last()) + if events.last() is Received {
            1nat
        } else {
            0nat
        }
    }
}

/// An empty slot more leaves the filled slots as they are, and filling an
/// empty slot makes them one more.
pub proof fn lemma_present_grows<I>(slots: Seq<Option<I>>, k: int, item: I)
    requires
        0 <= k < slots.len(),
        slots[k] is None,
    ensures
        present(slots.push(None)).len() == present(slots).len(),
        present(slots.update(k, Some(item))).len() == present(slots).len() + 1,
    decreases slots.len(),
{
    assert(slots.push(None).drop_last() =~= slots);
    let filled = slots.update(k, Some(item));
    if k == slots.len() - 1 {
        assert(filled.drop_last() =~= slots.drop_last());
    } else {
        lemma_present_grows(slots.drop_last(), k, item);
        assert(filled.drop_last() =~= slots.drop_last().update(k, Some(item)));
        assert(filled.last() == slots.last());
    }
}

/// At most one worker is the first idle one.
pub proof fn lemma_first_idle_unique<I>(state: QueueState<I>, t: int)
    requires
        state.is_first_idle(t),
    ensures
        state.has_idle(),
        state.first_idle() == t,
{
    let chosen = state.first_idle();
    assert(state.is_first_idle(chosen));
    if chosen < t {
        assert(state.assigned[chosen] is Some);
    }
    if t < chosen {
        assert(state.assigned[t] is Some);
    }
}

/// Where a worker is idle, there is a first idle one.
pub proof fn lemma_idle_has_first<I>(state: QueueState<I>, t: int)
    requires
        0 <= t < state.assigned.len(),
        state.assigned[t] is None,
    ensures
        state.has_idle(),
    decreases t,
{
    if forall|u: int| 0 <= u < t ==> (#[trigger] state.assigned[u]) is Some {
        assert(state.is_first_idle(t));
    } else {
        let u = choose|u: int| 0 <= u < t && !((#[trigger] state.assigned[u]) is Some);
        lemma_idle_has_first(state, u);
    }
}

/// Completion is not due while the supply of tasks may hold more.
pub proof fn lemma_complete_is_draining<I>(state: QueueState<I>)
    requires
        state.wf(),
        state.can_finish(),
    ensures
        state.phase == Phase::Draining,
{
    if state.phase == Phase::Feeding {
        if state.assigned[0] is None {
            lemma_idle_has_first(state, 0);
        } else {
            assert(state.any_busy());
        }
    }
}

/// Sending the next task keeps a queue well formed.
pub proof fn lemma_send_keeps_wf<I>(state: QueueState<I>)
    requires
        state.wf(),
        state.can_send(),
    ensures
        state.after_send().wf(),
{
    let next = state.after_send();
    let t0 = state.first_idle();
    let n = state.n_sent() as int;
    assert(state.is_first_idle(t0));
    assert forall|k: int| 0 <= k < next.answers.len() && (#[trigger] next.answers[k]) is None
        implies next.in_flight(k) by {
        if k < n {
            assert(state.answers[k] is None);
            let t = choose|t: int|
                0 <= t < state.assigned.len() && #[trigger] state.assigned[t] == Some(k as usize);
            assert(next.assigned[t] == Some(k as usize));
        } else {
            assert(next.assigned[t0] == Some(k as usize));
        }
    }
}

/// Filing a response keeps a queue well formed.
pub proof fn lemma_receive_keeps_wf<I>(state: QueueState<I>, i_thread: usize, in_message: I)
    requires
        state.wf(),
        state.can_receive(i_thread),
    ensures
        state.after_receive(i_thread, in_message).wf(),
{
    let next = state.after_receive(i_thread, in_message);
    let k0 = state.assigned[i_thread as int]->0 as int;
    assert forall|t: int|
        0 <= t < next.assigned.len() && (#[trigger] next.assigned[t]) is Some implies {
        &&& next.assigned[t]->0 < next.answers.len()
        &&& next.answers[next.assigned[t]->0 as int] is None
    } by {
        assert(state.assigned[t] is Some);
        assert(state.assigned[i_thread as int] is Some);
        assert(t != i_thread);
    }
    assert forall|k: int| 0 <= k < next.answers.len() && (#[trigger] next.answers[k]) is None
        implies next.in_flight(k) by {
        assert(k != k0);
        assert(state.answers[k] is None);
        let t = choose|t: int|
            0 <= t < state.assigned.len() && #[trigger] state.assigned[t] == Some(k as usize);
        assert(next.assigned[t] == Some(k as usize));
    }
}

/// An event that can happen keeps a queue well formed.
pub proof fn lemma_apply_keeps_wf<I>(state: QueueState<I>, event: Event<I>)
    requires
        state.wf(),
    ensures
        state.apply(event).wf(),
{
    if state.enabled(event) {
        match event {
            Event::Started => {},
            Event::Sent => {
                lemma_send_keeps_wf(state);
            },
            Event::Exhausted => {},
            Event::Received { i_thread, in_message } => {
                lemma_receive_keeps_wf(state, i_thread, in_message);
            },
        }
    }
}

/// When completion is due, every task that was sent has its response: the
/// results are as many as the tasks, and the result at each place is the
/// response to the task of that number.
pub proof fn lemma_complete_has_all<I>(state: QueueState<I>)
    requires
        state.wf(),
        state.can_finish(),
    ensures
        all_present(state.answers),
        state.results().len() == state.n_sent(),
        forall|k: int|
            0 <= k < state.n_sent() ==> (#[trigger] state.results()[k]) == state.answers[k]->0,
{
    assert forall|k: int| 0 <= k < state.answers.len() implies (#[trigger] state.answers[k])
        is Some by {
        if state.answers[k] is None {
            assert(state.in_flight(k));
            assert(state.any_busy());
        }
    }
    lemma_present_of_full(state.answers);
}

/// What holds of a queue that was driven from its start by a list of events
/// whose responses are `reply` of their tasks.
pub open spec fn run_invariant<I>(
    state: QueueState<I>,
    events: Seq<Event<I>>,
    reply: spec_fn(int) -> I,
) -> bool {
    &&& state.wf()
    &&& state.n_sent() == count_sent(events)
    &&& count_started(events) == if state.phase == Phase::Fresh {
        0nat
    } else {
        1nat
    }
    &&& count_exhausted(events) == if state.phase == Phase::Draining {
        1nat
    } else {
        0nat
    }
    &&& count_received(events) == present(state.answers).len()
    &&& events.len() == count_started(events) + count_sent(events) + count_exhausted(events)
        + count_received(events)
    &&& forall|k: int|
        0 <= k < state.answers.len() && (#[trigger] state.answers[k]) is Some
            ==> state.answers[k]->0 == reply(k)
}

/// A driven run from the start keeps the invariant of runs.
pub proof fn lemma_run_invariant<I>(
    n_threads: nat,
    events: Seq<Event<I>>,
    reply: spec_fn(int) -> I,
)
    requires
        n_threads >= 1,
        QueueState::<I>::initial(n_threads).driven(events),
        QueueState::<I>::initial(n_threads).faithful(events, reply),
    ensures
        run_invariant(QueueState::<I>::initial(n_threads).run(events), events, reply),
    decreases events.len(),
{
    let start = QueueState::<I>::initial(n_threads);
    if events.len() == 0 {
        assert(start.wf());
    } else {
        let earlier = events.drop_last();
        let event = events.last();
        lemma_run_invariant(n_threads, earlier, reply);
        let before = start.run(earlier);
        let after = before.apply(event);
        assert(before.obeys(event));
        lemma_apply_keeps_wf(before, event);
        match event {
            Event::Started => {
                assert(before.phase == Phase::Fresh);
            },
            Event::Sent => {
                assert(before.can_send());
                assert(after.answers.drop_last() =~= before.answers);
            },
            Event::Exhausted => {
                assert(before.can_exhaust());
            },
            Event::Received { i_thread, in_message } => {
                assert(before.can_receive(i_thread));
                lemma_present_grows(
                    before.answers,
                    before.assigned[i_thread as int]->0 as int,
                    in_message,
                );
            },
        }
    }
}

/// A prefix of a driven run is a driven run, and the directive at its end is
/// not to complete, since something followed.
pub proof fn lemma_driven_prefix<I>(state: QueueState<I>, events: Seq<Event<I>>, n: int)
    requires
        state.driven(events),
        0 <= n < events.len(),
    ensures
        state.driven(events.take(n)),
        state.run(events.take(n)).directive() != Directive::Complete,
    decreases events.len(),
{
    if n == events.len() - 1 {
        assert(events.take(n) == events.drop_last());
    } else {
        lemma_driven_prefix(state, events.drop_last(), n);
        assert(events.drop_last().take(n) == events.take(n));
    }
}

/// Each run of a task queue returns as many results as tasks were submitted,
/// in the order of submission, and announces its start and its completion once
/// each; it finds the supply of tasks empty once, takes one response for each
/// task, and nothing else happens in it. Stated of any number of workers, of
/// any list of events that follows the directives from the start until
/// completion is due, and of workers that answer task `k` with `reply(k)`.
pub proof fn lemma_task_queue_correspondence<I>(
    n_threads: nat,
    events: Seq<Event<I>>,
    reply: spec_fn(int) -> I,
)
    requires
        n_threads >= 1,
        QueueState::<I>::initial(n_threads).driven(events),
        QueueState::<I>::initial(n_threads).faithful(events, reply),
        QueueState::<I>::initial(n_threads).run(events).can_finish(),
    ensures
        QueueState::<I>::initial(n_threads).run(events).results().len() == count_sent(events),
        forall|k: int|
            0 <= k < count_sent(events) ==> (#[trigger] QueueState::<I>::initial(n_threads).run(
                events,
            ).results()[k]) == reply(k),
        count_started(events) == 1,
        count_exhausted(events) == 1,
        count_received(events) == count_sent(events),
        events.len() == 2 * count_sent(events) + 2,
        forall|n: int|
            0 <= n < events.len() ==> !(#[trigger] QueueState::<I>::initial(n_threads).run(
                events.take(n),
            )).can_finish(),
{
    let start = QueueState::<I>::initial(n_threads);
    let end = start.run(events);
    lemma_run_invariant(n_threads, events, reply);
    lemma_complete_has_all(end);
    lemma_complete_is_draining(end);
    assert forall|n: int| 0 <= n < events.len() implies !(#[trigger] start.run(
        events.take(n),
    )).can_finish() by {
        lemma_driven_prefix(start, events, n);
    }
}

/// Keeps every idle worker of a pool supplied with one task at a time, files
/// each response under the number of its task, and hands the responses back in
/// the order of the tasks. The one who drives it asks for the directive, does
/// what it says, and reports what happened.
pub struct TaskQueue<I> {
    phase: Phase,
    task_by_thread: Vec<Option<usize>>,
    in_messages: Vec<Option<I>>,
}

impl<I> View for TaskQueue<I> {
    type V = QueueState<I>;

    closed spec fn view(&self) -> QueueState<I> {
        QueueState {
            phase: self.phase,
            assigned: self.task_by_thread@,
            answers: self.in_messages@,
        }
    }
}

impl<I> TaskQueue<I> {
    /// A queue for `n_threads` workers, not started.
    pub fn new(n_threads: usize) -> (queue: Self)
        requires
            n_threads >= 1,
        ensures
            queue@ == QueueState::<I>::initial(n_threads as nat),
            queue@.wf(),
    {
        let mut task_by_thread: Vec<Option<usize>> = Vec::new();
        while task_by_thread.len() < n_threads
            invariant
                task_by_thread@.len() <= n_threads,
                task_by_thread@ == Seq::new(task_by_thread@.len(), |t: int| None::<usize>),
            decreases n_threads - task_by_thread@.len(),
        {
            task_by_thread.push(None);
            proof {
                assert(task_by_thread@ == Seq::new(
                    task_by_thread@.len(),
                    |t: int| None::<usize>,
                ));
            }
        }
        let queue = TaskQueue { phase: Phase::Fresh, task_by_thread, in_messages: Vec::new() };
        proof {
            assert(queue@.answers == Seq::<Option<I>>::empty());
            assert(queue@ == QueueState::<I>::initial(n_threads as nat));
        }
        queue
    }

    pub fn n_threads(&self) -> (n: usize)
        ensures
            n == self@.n_threads(),
    {
        self.task_by_thread.len()
    }

    /// The number of tasks sent so far.
    pub fn n_sent(&self) -> (n: usize)
        ensures
            n == self@.n_sent(),
    {
        self.in_messages.len()
    }

    pub fn phase(&self) -> (phase: Phase)
        ensures
            phase == self@.phase,
    {
        self.phase
    }

    /// The task that worker `i_thread` is working on, if it is a worker of the
    /// pool and has one.
    pub fn task_of(&self, i_thread: usize) -> (task: Option<usize>)
        ensures
            task == if i_thread < self@.n_threads() {
                self@.assigned[i_thread as int]
            } else {
                None
            },
    {
        if i_thread < self.task_by_thread.len() {
            self.task_by_thread[i_thread]
        } else {
            None
        }
    }

    fn first_idle(&self) -> (found: Option<usize>)
        ensures
            found is Some ==> self@.is_first_idle(found->0 as int),
            found is Some ==> self@.has_idle() && self@.first_idle() == found->0,
            found is None ==> !self@.has_idle(),
    {
        let mut t: usize = 0;
        while t < self.task_by_thread.len()
            invariant
                t <= self.task_by_thread@.len(),
                forall|u: int| 0 <= u < t ==> (#[trigger] self.task_by_thread@[u]) is Some,
            decreases self.task_by_thread@.len() - t,
        {
            if self.task_by_thread[t].is_none() {
                proof {
                    lemma_first_idle_unique(self@, t as int);
                }
                return Some(t);
            }
            t += 1;
        }
        proof {
            assert forall|u: int| !self@.is_first_idle(u) by {
                if 0 <= u < self.task_by_thread@.len() {
                    assert(self.task_by_thread@[u] is Some);
                }
            }
        }
        None
    }

    fn any_busy(&self) -> (busy: bool)
        ensures
            busy == self@.any_busy(),
    {
        let mut t: usize = 0;
        while t < self.task_by_thread.len()
            invariant
                t <= self.task_by_thread@.len(),
                forall|u: int| 0 <= u < t ==> (#[trigger] self.task_by_thread@[u]) is None,
            decreases self.task_by_thread@.len() - t,
        {
            if self.task_by_thread[t].is_some() {
                return true;
            }
            t += 1;
        }
        false
    }

    /// What is to be done next.
    pub fn directive(&self) -> (directive: Directive)
        ensures
            directive == self@.directive(),
    {
        match self.phase {
            Phase::Fresh => Directive::Start,
            Phase::Feeding => {
                match self.first_idle() {
                    Some(i_thread) => Directive::Send {
                        i_task: self.in_messages.len(),
                        i_thread,
                    },
                    None => if self.any_busy() {
                        Directive::Receive
                    } else {
                        Directive::Complete
                    },
                }
            },
            Phase::Draining => if self.any_busy() {
                Directive::Receive
            } else {
                Directive::Complete
            },
        }
    }

    /// Reports that the start was announced. Refused once the queue has started.
    pub fn started(&mut self) -> (outcome: Result<(), Error>)
        requires
            old(self)@.wf(),
        ensures
            final(self)@.wf(),
            old(self)@.can_start() ==> outcome is Ok && final(self)@ == old(self)@.after_start(),
            !old(self)@.can_start() ==> outcome is Err && final(self)@ == old(self)@
                && outcome->Err_0.kind == ErrorKind::Mocasa && outcome->Err_0.message@
                == MSG_ALREADY_STARTED@,
    {
        match self.phase {
            Phase::Fresh => {
                self.phase = Phase::Feeding;
                Ok(())
            },
            _ => Err(Error::mocasa(MSG_ALREADY_STARTED)),
        }
    }

    /// Reports that the task that was due went out to the worker that was due.
    /// Refused where the directive is not to send, and at the limit of the
    /// machine's counters.
    pub fn sent(&mut self) -> (outcome: Result<(), Error>)
        requires
            old(self)@.wf(),
        ensures
            final(self)@.wf(),
            old(self)@.can_send() ==> outcome is Ok && final(self)@ == old(self)@.after_send(),
            !old(self)@.can_send() ==> outcome is Err && final(self)@ == old(self)@
                && outcome->Err_0.kind == ErrorKind::Mocasa && outcome->Err_0.message@
                == MSG_NO_SEND_DUE@,
    {
        if self.in_messages.len() == usize::MAX {
            return Err(Error::mocasa(MSG_NO_SEND_DUE));
        }
        match self.phase {
            Phase::Feeding => {
                match self.first_idle() {
                    Some(i_thread) => {
                        proof {
                            lemma_send_keeps_wf(self@);
                        }
                        let i_task = self.in_messages.len();
                        self.task_by_thread.set(i_thread, Some(i_task));
                        self.in_messages.push(None);
                        Ok(())
                    },
                    None => Err(Error::mocasa(MSG_NO_SEND_DUE)),
                }
            },
            _ => Err(Error::mocasa(MSG_NO_SEND_DUE)),
        }
    }

    /// Reports that the supply of tasks has run out. Refused before the start
    /// and after an earlier such report.
    pub fn nothing_more_to_send(&mut self) -> (outcome: Result<(), Error>)
        requires
            old(self)@.wf(),
        ensures
            final(self)@.wf(),
            old(self)@.can_exhaust() ==> outcome is Ok && final(self)@
                == old(self)@.after_exhaust(),
            !old(self)@.can_exhaust() ==> outcome is Err && final(self)@ == old(self)@
                && outcome->Err_0.kind == ErrorKind::Mocasa && outcome->Err_0.message@
                == MSG_NOT_FEEDING@,
    {
        match self.phase {
            Phase::Feeding => {
                self.phase = Phase::Draining;
                Ok(())
            },
            _ => Err(Error::mocasa(MSG_NOT_FEEDING)),
        }
    }

    /// Files the response of worker `i_thread` under the task that the worker
    /// held, and returns the number of that task. Refused where the pool has no
    /// such worker, or the worker holds no task.
    pub fn received(&mut self, i_thread: usize, in_message: I) -> (outcome: Result<usize, Error>)
        requires
            old(self)@.wf(),
        ensures
            final(self)@.wf(),
            old(self)@.can_receive(i_thread) ==> outcome == Ok::<usize, Error>(
                old(self)@.assigned[i_thread as int]->0,
            ) && final(self)@ == old(self)@.after_receive(i_thread, in_message),
            !old(self)@.can_receive(i_thread) ==> outcome is Err && final(self)@ == old(self)@
                && outcome->Err_0.kind == ErrorKind::Mocasa,
            i_thread >= old(self)@.n_threads() ==> outcome->Err_0.message@ == MSG_UNKNOWN_WORKER@,
            i_thread < old(self)@.n_threads() && !old(self)@.can_receive(i_thread)
                ==> outcome->Err_0.message@ == MSG_IDLE_WORKER@,
    {
        if i_thread >= self.task_by_thread.len() {
            return Err(Error::mocasa(MSG_UNKNOWN_WORKER));
        }
        match self.task_by_thread[i_thread] {
            None => Err(Error::mocasa(MSG_IDLE_WORKER)),
            Some(i_task) => {
                proof {
                    lemma_receive_keeps_wf(self@, i_thread, in_message);
                }
                self.task_by_thread.set(i_thread, None);
                self.in_messages.set(i_task, Some(in_message));
                Ok(i_task)
            },
        }
    }

    /// Ends the queue and hands out the responses, ordered by task: as many as
    /// tasks were sent, each the response to the task of its place. Refused
    /// until completion is due.
    pub fn finish(self) -> (outcome: Result<Vec<I>, Error>)
        requires
            self@.wf(),
        ensures
            self@.can_finish() ==> outcome is Ok && outcome->Ok_0@ == self@.results()
                && outcome->Ok_0@.len() == self@.n_sent() && forall|k: int|
                0 <= k < self@.n_sent() ==> (#[trigger] outcome->Ok_0@[k]) == self@.answers[k]->0,
            !self@.can_finish() ==> outcome is Err && outcome->Err_0.kind == ErrorKind::Mocasa
                && outcome->Err_0.message@ == MSG_NOT_COMPLETE@,
    {
        match self.directive() {
            Directive::Complete => {
                proof {
                    lemma_complete_has_all(self@);
                }
                Ok(into_present(self.in_messages))
            },
            _ => Err(Error::mocasa(MSG_NOT_COMPLETE)),
        }
    }
}

} // verus!

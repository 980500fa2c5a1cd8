//! The selection engine: the decisions of one selection call, as a state machine.
//!
//! The engine never touches a channel or a thread. It names the next thing to do (an
//! `Action`); the driver does it on the handle at that position and hands the result
//! back as an `Event`. Positions are those of the handle list that the engine was built
//! for; the engine visits them in a shuffled order.

use crate::operation::{Operation, Selected, RESERVED};
use crate::shuffle::{is_permutation, permutes, shuffle, shuffled, XorShift};
use crate::snapshot::{words_of, Snapshot, MAX_WORDS};
use vstd::prelude::*;

verus! {

/// The most handles one selection takes.
pub const MAX_HANDLES: usize = MAX_WORDS;

/// How long a selection may block. Instants are nanoseconds on the driver's clock.
#[derive(Clone, Copy, PartialEq, Eq, Structural, Debug)]
pub enum Timeout {
    /// Do not block at all.
    Now,
    /// Block until an operation fires.
    Never,
    /// Block until the given instant at the latest.
    At(u64),
}

/// What the driver must do next.
#[derive(Clone, Copy, PartialEq, Eq, Structural, Debug)]
pub enum Action {
    /// Call `try` on the handle at this position; answer with `Event::Flag`.
    Try(usize),
    /// Call `retry` on the handle; answer with `Event::Flag`.
    Retry(usize),
    /// Read `state` of the handle; answer with `Event::Word`.
    State(usize),
    /// Register the operation with the handle; answer with `Event::Flag`.
    Register(usize, Operation),
    /// Try to move the context from `Waiting` to `Aborted`; answer with `Event::Claimed` or `Event::Held`.
    Abort,
    /// Read the context's selection; answer with `Event::Outcome`.
    ReadSelected,
    /// Ask the handle for its own deadline; answer with `Event::Moment`.
    Deadline(usize),
    /// Park the thread until the instant, if any; answer with `Event::Outcome`.
    Park(Option<u64>),
    /// Unregister the operation from the handle; answer with `Event::Finished`.
    Unregister(usize, Operation),
    /// Complete the operation signalled by the handle's peer; answer with `Event::Flag`.
    Accept(usize),
    /// Read the clock; answer with `Event::Time`.
    Clock,
    /// Sleep until the instant, if any; answer with `Event::Finished`.
    Sleep(Option<u64>),
    /// The selection is over: the position whose operation fired, or none.
    Done(Option<usize>),
}

/// What the driver observed while doing an action.
#[derive(Clone, Copy, PartialEq, Eq, Structural, Debug)]
pub enum Event {
    /// The boolean answer of `try`, `retry`, `register` or `accept`.
    Flag(bool),
    /// The answer of `state`.
    Word(usize),
    /// The answer of `deadline`.
    Moment(Option<u64>),
    /// The time read from the clock.
    Time(u64),
    /// The abort attempt moved the context from `Waiting` to `Aborted`.
    Claimed,
    /// The abort attempt failed: the context already held this selection.
    Held(Selected),
    /// The selection read from the context, or handed back by the park.
    Outcome(Selected),
    /// The action had no answer.
    Finished,
}

/// The earlier of two optional instants; an absent instant is no bound.
pub open spec fn earlier_spec(a: Option<u64>, b: Option<u64>) -> Option<u64> {
    match (a, b) {
        (Some(x), Some(y)) => Some(if x <= y { x } else { y }),
        (Some(x), None) => Some(x),
        (None, _) => b,
    }
}

/// The earlier of two optional instants; an absent instant is no bound.
pub fn earlier(a: Option<u64>, b: Option<u64>) -> (r: Option<u64>)
    ensures
        r == earlier_spec(a, b),
{
    match (a, b) {
        (Some(x), Some(y)) => Some(if x <= y { x } else { y }),
        (Some(x), None) => Some(x),
        (None, _) => b,
    }
}

/// The position whose operation the answer `ev` to `a` completes, if any.
pub open spec fn fired_by(a: Action, ev: Event) -> Option<usize> {
    if ev == Event::Flag(true) {
        match a {
            Action::Try(p) => Some(p),
            Action::Retry(p) => Some(p),
            Action::Accept(p) => Some(p),
            _ => None,
        }
    } else {
        None
    }
}

/// Whether the action touches a handle's operation or ends the call; no operation may
/// stay registered then.
pub open spec fn needs_clean(a: Action) -> bool {
    match a {
        Action::Try(_) | Action::Retry(_) | Action::State(_) | Action::Accept(_) | Action::Clock
        | Action::Sleep(_) | Action::Done(_) => true,
        _ => false,
    }
}

#[derive(Clone, Copy, PartialEq, Eq, Structural, Debug)]
enum Phase {
    Quick,
    Snap,
    Probe,
    Recheck,
    Try,
    Retry,
    Register,
    Aborting,
    Reading,
    Deadlines,
    Parked,
    Unregister,
    Accepting,
    Clock,
    Sleeping,
    Done,
}

/// The state of one selection over `n` handles.
pub struct Engine {
    n: usize,
    timeout: Timeout,
    order: Vec<usize>,
    ops: Vec<Operation>,
    rng: XorShift,
    states: Snapshot,
    phase: Phase,
    cursor: usize,
    registered: usize,
    changed: bool,
    sel: Selected,
    deadline: Option<u64>,
    last: Action,
    failed: Ghost<nat>,
    steady: Ghost<nat>,
    expired: Ghost<bool>,
}

/// Whether the action ends the call with a fired operation.
pub open spec fn is_fire(a: Action) -> bool {
    match a {
        Action::Done(Some(_)) => true,
        _ => false,
    }
}

/// Whether `ev` is the kind of answer that the action `a` waits for.
pub open spec fn answers(a: Action, ev: Event) -> bool {
    match a {
        Action::Try(_) | Action::Retry(_) | Action::Register(_, _) | Action::Accept(_) => ev is Flag,
        Action::State(_) => ev is Word,
        Action::Abort => ev is Claimed || ev is Held,
        Action::ReadSelected | Action::Park(_) => ev is Outcome,
        Action::Deadline(_) => ev is Moment,
        Action::Unregister(_, _) | Action::Sleep(_) => ev is Finished,
        Action::Clock => ev is Time,
        Action::Done(_) => false,
    }
}

/// The user's own deadline, before the handles' deadlines are folded in.
pub open spec fn deadline_of(t: Timeout) -> Option<u64> {
    match t {
        Timeout::At(w) => Some(w),
        _ => None,
    }
}

/// The visiting order and the generator stay as they were.
pub open spec fn kept_order(pre: Engine, post: Engine) -> bool {
    post.order() == pre.order() && post.rng_of() == pre.rng_of()
}

/// The visiting order was shuffled with the engine's generator: the new order and the
/// generator's new state are what `shuffled` gives from the old ones.
pub open spec fn reshuffled(pre: Engine, post: Engine) -> bool {
    (post.order(), post.rng_of()@) == shuffled(pre.order(), pre.rng_of()@)
}

/// What follows a round in which nothing fired: a clock read under a deadline, else a
/// new round, which reshuffles and starts with a try in the new visiting order.
pub open spec fn round_over(pre: Engine, post: Engine, a: Action) -> bool {
    match post.timeout_of() {
        Timeout::At(_) => a == Action::Clock && kept_order(pre, post),
        _ => post.size() > 0 && a == Action::Try(post.order()[0]) && reshuffled(pre, post),
    }
}

/// What follows unregistering: accepting the operation that the context published, when
/// it is one of ours, else the end of the round.
pub open spec fn woken(pre: Engine, post: Engine, a: Action) -> bool {
    if post.published() matches Selected::Operation(op) && exists|p: int|
        0 <= p < post.size() && #[trigger] post.op_at(p) == op {
        a is Accept && kept_order(pre, post)
    } else {
        round_over(pre, post, a)
    }
}

/// The pass goes on with the next slot of the same visiting order.
pub open spec fn moved_on(pre: Engine, post: Engine) -> bool {
    &&& post.slot() == pre.slot() + 1
    &&& post.order() == pre.order()
    &&& post.in_pass() == pre.in_pass()
    &&& post.rechecking() == pre.rechecking()
}

/// A new sweep starts at the first slot of the same visiting order.
pub open spec fn restarted(pre: Engine, post: Engine) -> bool {
    post.slot() == 0 && post.order() == pre.order()
}

/// The next action, for each action and each answer of the right kind.
pub open spec fn progress(pre: Engine, ev: Event, post: Engine, a: Action) -> bool {
    let n = pre.size();
    let k = pre.slot() as int;
    let o = pre.order();
    &&& (!answers(pre.pending(), ev) ==> post == pre && a == pre.pending())
    &&& (pre.pending() is Try && ev == Event::Flag(false) ==> post.recorded() == pre.recorded())
    &&& (pre.pending() is Try && ev == Event::Flag(false) ==> if k + 1 < n {
        a == Action::Try(o[k + 1]) && moved_on(pre, post)
    } else if pre.in_pass() {
        a == (if n == 1 { Action::Done(None) } else { Action::State(o[0]) }) && (n >= 2 ==> (
        restarted(pre, post) && post.in_pass() && post.rechecking() && !post.changed_seen()
            && post.recorded() == pre.recorded()))
    } else {
        a == Action::Retry(o[0]) && restarted(pre, post) && !post.in_pass()
    })
    &&& (pre.pending() is Retry && ev == Event::Flag(false) ==> if k + 1 < n {
        a == Action::Retry(o[k + 1]) && moved_on(pre, post)
    } else {
        a == Action::Register(o[0], pre.op_at(o[0] as int)) && post.published() == Selected::Waiting
            && restarted(pre, post)
    })
    &&& (pre.pending() is Register && ev == Event::Flag(true) ==> a == Action::ReadSelected
        && post.slot() == pre.slot() && post.order() == o)
    &&& (pre.pending() is Register && ev == Event::Flag(false) ==> post.slot() == pre.slot()
        && post.order() == o)
    &&& (pre.pending() is Abort && ev == Event::Claimed ==> a == Action::Unregister(
        o[0],
        pre.op_at(o[0] as int),
    ) && post.published() == Selected::Aborted && restarted(pre, post))
    &&& (pre.pending() is Abort ==> (ev matches Event::Held(s) ==> (a == Action::Unregister(
        o[0],
        pre.op_at(o[0] as int),
    ) && post.published() == s && restarted(pre, post))))
    &&& (pre.pending() is ReadSelected ==> (ev matches Event::Outcome(s) ==> (post.published()
        == s && if s != Selected::Waiting {
        a == Action::Unregister(o[0], pre.op_at(o[0] as int)) && restarted(pre, post)
    } else if k + 1 < n {
        a == Action::Register(o[k + 1], pre.op_at(o[k + 1] as int)) && moved_on(pre, post)
    } else {
        a == Action::Deadline(o[0]) && post.deadline_so_far() == deadline_of(pre.timeout_of())
            && restarted(pre, post)
    })))
    &&& (pre.pending() is Deadline ==> (ev matches Event::Moment(d) ==> (post.deadline_so_far()
        == earlier_spec(pre.deadline_so_far(), d) && if k + 1 < n {
        a == Action::Deadline(o[k + 1]) && moved_on(pre, post)
    } else {
        a == Action::Park(post.deadline_so_far()) && post.order() == o
    })))
    &&& (pre.pending() is Park ==> (ev matches Event::Outcome(s) ==> (post.published() == s && a
        == Action::Unregister(o[0], pre.op_at(o[0] as int)) && restarted(pre, post))))
    &&& (pre.pending() is Unregister && ev == Event::Finished ==> if pre.live() > 1 {
        a == Action::Unregister(o[k + 1], pre.op_at(o[k + 1] as int)) && moved_on(pre, post)
    } else {
        woken(pre, post, a) && post.published() == pre.published()
    })
    &&& (pre.pending() is Accept && ev == Event::Flag(false) ==> round_over(pre, post, a))
    &&& (pre.pending() is Clock ==> (ev matches Event::Time(t) ==> (if pre.timeout_of() matches Timeout::At(w) && t >= w {
        post.in_pass() && !post.rechecking() && post.slot() == 0 && a == (if n == 1 {
            Action::Try(0)
        } else {
            Action::State(post.order()[0])
        }) && (n >= 2 ==> post.recorded() == Seq::<usize>::empty()) && reshuffled(pre, post)
    } else {
        a == Action::Try(post.order()[0]) && post.slot() == 0 && !post.in_pass() && reshuffled(
            pre,
            post,
        )
    })))
    &&& (pre.pending() is Sleep && ev == Event::Finished ==> a == (if pre.timeout_of() is At {
        Action::Done(None)
    } else {
        Action::Sleep(None)
    }))
    &&& (pre.pending() is State ==> (ev matches Event::Word(w) ==> (if !pre.rechecking() {
        post.recorded() == pre.recorded().push(w) && if k + 1 < n {
            a == Action::State(o[k + 1]) && moved_on(pre, post)
        } else {
            a == Action::Try(o[0]) && restarted(pre, post) && post.in_pass()
                && !post.rechecking()
        }
    } else {
        post.recorded() == pre.recorded().update(k, w) && if k + 1 < n {
            a == Action::State(o[k + 1]) && moved_on(pre, post) && post.changed_seen() == (
            pre.changed_seen() || w != pre.recorded()[k])
        } else if pre.changed_seen() || w != pre.recorded()[k] {
            a == Action::Try(o[0]) && restarted(pre, post) && post.in_pass()
                && !post.rechecking()
        } else {
            a == Action::Done(None)
        }
    })))
}

/// What each step of the engine guarantees, from the state before (`pre`), the event
/// handed in, the state after (`post`) and the action handed out (`a`).
pub open spec fn transition(pre: Engine, ev: Event, post: Engine, a: Action) -> bool {
    &&& post.wf()
    &&& post.pending() == a
    &&& progress(pre, ev, post, a)
    &&& post.size() == pre.size()
    &&& post.order().len() == post.size()
    &&& forall|k: int| 0 <= k < post.size() ==> #[trigger] post.order()[k] < post.size()
    // The order changes only by a shuffle with the engine's own generator.
    &&& (kept_order(pre, post) || reshuffled(pre, post))
    // Each sweep visits every handle exactly once.
    &&& is_permutation(post.order().map_values(|v: usize| v as int), post.size() as int)
    &&& post.timeout_of() == pre.timeout_of()
    &&& forall|p: int| 0 <= p < pre.size() ==> post.op_at(p) == pre.op_at(p)
    // An operation that reports success ends the call with its position.
    &&& (fired_by(pre.pending(), ev) matches Some(p) ==> a == Action::Done(Some(p)))
    // The call ends with a position only where that operation reported success.
    &&& (a matches Action::Done(Some(p)) ==> fired_by(pre.pending(), ev) == Some(p) || pre.pending() == a)
    // Once over, the call stays over.
    &&& (pre.pending() matches Action::Done(_) ==> a == pre.pending())
    // A blocking call without deadline never ends empty-handed.
    &&& (a == Action::Done(None) ==> post.timeout_of() != Timeout::Never)
    // It ends empty-handed only after a full quiet pass, and past its deadline.
    &&& (a == Action::Done(None) ==> post.quiet())
    &&& (a == Action::Done(None) && post.timeout_of() is At ==> post.size() == 0 || post.expired())
    // The counts behind a quiet pass grow only by a failed try, or by a state read that
    // matches the word recorded for that slot.
    &&& (post.tries_failed() > pre.tries_failed() ==> post.tries_failed() == pre.tries_failed() + 1
        && pre.pending() is Try && ev == Event::Flag(false))
    &&& (post.states_steady() > pre.states_steady() ==> post.states_steady() == pre.states_steady()
        + 1 && pre.pending() is State && pre.slot() < pre.recorded().len() && ev == Event::Word(
        pre.recorded()[pre.slot() as int],
    ))
    // The deadline counts as passed only once the clock was read at or after it.
    &&& (!pre.expired() && post.expired() ==> pre.pending() == Action::Clock && (ev matches Event::Time(t)
        && post.timeout_of() matches Timeout::At(w) && t >= w))
    // Registration: each operation is registered under its own identifier, all of them
    // before parking, and every one is unregistered before the engine goes on.
    &&& (a matches Action::Register(p, op) ==> p < post.size() && op == post.op_at(p as int))
    &&& (a matches Action::Unregister(p, op) ==> p < post.size() && op == post.op_at(p as int)
        && post.live() > 0)
    &&& (pre.pending() is Unregister && ev == Event::Finished ==> post.live() + 1 == pre.live())
    &&& (a is Park ==> post.live() == post.size())
    &&& (a is Register && !(pre.pending() is Register) ==> post.live() == pre.live() + 1)
    &&& (a is Abort || a is ReadSelected || a is Deadline || a is Park ==> post.live() == pre.live())
    &&& (a is Unregister && !(pre.pending() is Unregister) ==> post.live() == pre.live())
    // An operation that turns ready while it registers stops the registration, and the
    // engine parks only while the context still waits.
    &&& (pre.pending() is Register && ev == Event::Flag(false) ==> a == Action::Abort)
    &&& (a is Park ==> post.published() == Selected::Waiting)
    // The park never outlasts the caller's deadline.
    &&& (a matches Action::Park(d) ==> (post.timeout_of() matches Timeout::At(w) ==> d matches Some(
        x,
    ) && x <= w))
    &&& (needs_clean(a) ==> post.live() == 0)
    // Only the operation that the context published is accepted.
    &&& (a matches Action::Accept(p) ==> p < post.size() && post.published() == Selected::Operation(
        post.op_at(p as int),
    ))
    // Every probe names a handle of the list.
    &&& (a matches Action::Try(p) ==> p < post.size())
    &&& (a matches Action::Retry(p) ==> p < post.size())
    &&& (a matches Action::State(p) ==> p < post.size())
    &&& (a matches Action::Deadline(p) ==> p < post.size())
    &&& (a matches Action::Done(Some(p)) ==> p < post.size())
}

impl Engine {
    /// The number of handles.
    pub closed spec fn size(self) -> nat {
        self.n as nat
    }

    /// The timeout of the call.
    pub closed spec fn timeout_of(self) -> Timeout {
        self.timeout
    }

    /// The action that waits for its answer.
    pub closed spec fn pending(self) -> Action {
        self.last
    }

    /// The identifier of the operation at position `p`.
    pub closed spec fn op_at(self, p: int) -> Operation {
        self.ops@[p]
    }

    /// The order in which the current pass visits the positions.
    pub closed spec fn order(self) -> Seq<usize> {
        self.order@
    }

    /// What the context published, as last seen.
    pub closed spec fn published(self) -> Selected {
        self.sel
    }

    /// The number of operations registered and not yet unregistered.
    pub closed spec fn live(self) -> nat {
        match self.phase {
            Phase::Register | Phase::Aborting | Phase::Reading | Phase::Deadlines
            | Phase::Parked => self.registered as nat,
            Phase::Unregister => (self.registered - self.cursor) as nat,
            _ => 0,
        }
    }

    /// Whether the clock was seen at or past the deadline.
    pub closed spec fn expired(self) -> bool {
        self.expired@
    }

    /// The number of handles whose `try` failed so far in the current non-blocking pass.
    pub closed spec fn tries_failed(self) -> nat {
        self.failed@
    }

    /// The number of state reads in the current re-check that matched the snapshot.
    pub closed spec fn states_steady(self) -> nat {
        self.steady@
    }

    /// The channel states recorded by the current non-blocking pass, in visiting order.
    pub closed spec fn recorded(self) -> Seq<usize> {
        words_of(self.states)
    }

    /// How far the current pass has come through the visiting order.
    pub closed spec fn slot(self) -> nat {
        self.cursor as nat
    }

    /// The last non-blocking pass saw every handle fail its `try`, and, with two or more
    /// handles, a following read of every handle's state matched the snapshot taken
    /// before those tries.
    pub open spec fn quiet(self) -> bool {
        self.size() == 0 || (self.tries_failed() == self.size() && (self.size() >= 2
            ==> self.states_steady() == self.size()))
    }

    /// Whether a non-blocking pass is under way (the call is non-blocking, or its deadline
    /// passed).
    pub closed spec fn in_pass(self) -> bool {
        self.phase is Quick || self.phase is Snap || self.phase is Probe || self.phase is Recheck
    }

    /// Whether the pending state read belongs to the re-check after the tries (and not to
    /// the snapshot before them).
    pub closed spec fn rechecking(self) -> bool {
        self.phase is Recheck
    }

    /// Whether the re-check so far saw a state that differs from the snapshot.
    pub closed spec fn changed_seen(self) -> bool {
        self.changed
    }

    /// The earliest deadline folded in so far, before parking.
    pub closed spec fn deadline_so_far(self) -> Option<u64> {
        self.deadline
    }

    /// The generator that the engine draws from.
    pub closed spec fn rng_of(self) -> XorShift {
        self.rng
    }

    closed spec fn sound(self) -> bool {
        &&& self.order@.len() == self.n
        &&& self.ops@.len() == self.n
        &&& is_permutation(self.order@.map_values(|v: usize| v as int), self.n as int)
        &&& forall|k: int| 0 <= k < self.n ==> #[trigger] self.order@[k] < self.n
        &&& forall|p: int| 0 <= p < self.n ==> (#[trigger] self.ops@[p]).id() >= RESERVED
        &&& forall|p: int, q: int|
            0 <= p < self.n && 0 <= q < self.n && p != q ==> #[trigger] self.ops@[p]
                != #[trigger] self.ops@[q]
        &&& self.n < usize::MAX
        &&& self.n <= MAX_HANDLES
        &&& (self.expired@ ==> self.timeout is At)
    }

    /// The engine's internal consistency.
    pub closed spec fn wf(self) -> bool {
        &&& self.sound()
        &&& match self.phase {
            Phase::Quick | Phase::Snap | Phase::Probe | Phase::Recheck => self.timeout
                == Timeout::Now || self.expired@,
            _ => true,
        }
        &&& match self.phase {
            Phase::Quick => self.n == 1 && self.cursor == 0 && self.last == Action::Try(
                self.order@[0],
            ) && self.failed@ == 0,
            Phase::Snap => 2 <= self.n && self.cursor < self.n && words_of(self.states).len()
                == self.cursor && self.last == Action::State(self.order@[self.cursor as int]),
            Phase::Probe => 2 <= self.n && self.cursor < self.n && words_of(self.states).len()
                == self.n && self.last == Action::Try(self.order@[self.cursor as int])
                && self.failed@ == self.cursor,
            Phase::Recheck => 2 <= self.n && self.cursor < self.n && words_of(self.states).len()
                == self.n && self.last == Action::State(self.order@[self.cursor as int])
                && self.failed@ == self.n && (!self.changed ==> self.steady@
                == self.cursor),
            Phase::Try => self.timeout != Timeout::Now && self.cursor < self.n && self.last
                == Action::Try(self.order@[self.cursor as int]),
            Phase::Retry => self.timeout != Timeout::Now && self.cursor < self.n && self.last
                == Action::Retry(self.order@[self.cursor as int]),
            Phase::Register => self.timeout != Timeout::Now && self.cursor < self.n
                && self.registered == self.cursor + 1 && self.last == Action::Register(
                self.order@[self.cursor as int],
                self.ops@[self.order@[self.cursor as int] as int],
            ),
            Phase::Aborting => self.timeout != Timeout::Now && self.cursor < self.n
                && self.registered == self.cursor + 1 && self.last == Action::Abort,
            Phase::Reading => self.timeout != Timeout::Now && self.cursor < self.n
                && self.registered == self.cursor + 1 && self.last == Action::ReadSelected,
            Phase::Deadlines => self.timeout != Timeout::Now && self.cursor < self.n
                && self.registered == self.n && self.sel == Selected::Waiting && (self.timeout matches Timeout::At(w)
                ==> self.deadline matches Some(x) && x <= w) && self.last == Action::Deadline(
                self.order@[self.cursor as int],
            ),
            Phase::Parked => self.timeout != Timeout::Now && 1 <= self.n && self.registered
                == self.n && self.sel == Selected::Waiting && (self.timeout matches Timeout::At(w)
                ==> self.deadline matches Some(x) && x <= w) && self.last == Action::Park(self.deadline),
            Phase::Unregister => self.timeout != Timeout::Now && 1 <= self.registered <= self.n
                && self.cursor < self.registered && self.last == Action::Unregister(
                self.order@[self.cursor as int],
                self.ops@[self.order@[self.cursor as int] as int],
            ),
            Phase::Accepting => self.timeout != Timeout::Now && self.cursor < self.n && self.last
                == Action::Accept(self.cursor) && self.sel == Selected::Operation(
                self.ops@[self.cursor as int],
            ),
            Phase::Clock => self.timeout is At && 1 <= self.n && self.last == Action::Clock,
            Phase::Sleeping => self.n == 0 && self.timeout != Timeout::Now && self.last
                == Action::Sleep(
                match self.timeout {
                    Timeout::At(w) => Some(w),
                    _ => None,
                },
            ),
            Phase::Done => match self.last {
                Action::Done(Some(p)) => p < self.n,
                Action::Done(None) => self.quiet() && self.timeout != Timeout::Never && (
                self.timeout is At ==> self.n == 0 || self.expired@),
                _ => false,
            },
        }
    }
}


/// Every entry of a permutation of `0..n` lies below `n`.
proof fn lemma_permutation_bound(s: Seq<usize>, n: int)
    requires
        is_permutation(s.map_values(|v: usize| v as int), n),
    ensures
        forall|k: int| 0 <= k < n ==> #[trigger] s[k] < n,
{
    let sm = s.map_values(|v: usize| v as int);
    assert forall|k: int| 0 <= k < n implies #[trigger] s[k] < n by {
        assert(sm[k] == s[k] as int);
    }
}

/// Reordering a permutation of `0..n` gives a permutation of `0..n`.
proof fn lemma_permutes_keeps(a: Seq<usize>, b: Seq<usize>, n: int)
    requires
        permutes(a, b),
        is_permutation(b.map_values(|v: usize| v as int), n),
    ensures
        is_permutation(a.map_values(|v: usize| v as int), n),
{
    let p = choose|p: Seq<int>|
        is_permutation(p, a.len() as int) && forall|k: int| 0 <= k < a.len() ==> #[trigger] a[k] == b[p[k]];
    let am = a.map_values(|v: usize| v as int);
    let bm = b.map_values(|v: usize| v as int);
    assert forall|k: int| 0 <= k < n implies 0 <= #[trigger] am[k] < n by {
        assert(a[k] == b[p[k]]);
        assert(bm[p[k]] == b[p[k]] as int);
    }
    assert forall|x: int, y: int| 0 <= x < n && 0 <= y < n && x != y implies #[trigger] am[x]
        != #[trigger] am[y] by {
        assert(a[x] == b[p[x]]);
        assert(a[y] == b[p[y]]);
        assert(bm[p[x]] == b[p[x]] as int);
        assert(bm[p[y]] == b[p[y]] as int);
        assert(p[x] != p[y]);
    }
}

impl Engine {
    /// Builds the engine for `n` handles. The operation at position `p` gets the
    /// identifier `first_id + p`; the generator drives the shuffles.
    pub fn new(n: usize, timeout: Timeout, rng: XorShift, first_id: usize) -> (e: Engine)
        requires
            first_id >= RESERVED,
            n < usize::MAX - first_id,
            n <= MAX_HANDLES,
        ensures
            e.wf(),
            e.size() == n,
            e.timeout_of() == timeout,
            forall|p: int| 0 <= p < n ==> (#[trigger] e.op_at(p)).id() == first_id + p,
            e.live() == 0,
            !e.expired(),
            n == 0 ==> e.pending() == (match timeout {
                Timeout::Now => Action::Done(None),
                Timeout::Never => Action::Sleep(None),
                Timeout::At(w) => Action::Sleep(Some(w)),
            }),
            n == 1 && !(timeout is At) ==> e.pending() == Action::Try(0),
            n >= 1 && timeout is At ==> e.pending() == Action::Clock && e.order() == Seq::new(
                n as nat,
                |k: int| k as usize,
            ) && e.rng_of() == rng,
            n >= 1 && !(timeout is At) ==> (e.order(), e.rng_of()@) == shuffled(
                Seq::new(n as nat, |k: int| k as usize),
                rng@,
            ),
            e.slot() == 0,
            !e.rechecking(),
            e.order().len() == n,
            forall|k: int| 0 <= k < n ==> #[trigger] e.order()[k] < n,
            n > 0 ==> (e.in_pass() <==> timeout == Timeout::Now),
            n >= 2 && timeout == Timeout::Now ==> e.recorded() == Seq::<usize>::empty(),
            n >= 2 && timeout == Timeout::Now ==> e.pending() is State,
            n >= 2 && timeout == Timeout::Never ==> e.pending() is Try,
    {
        let mut order: Vec<usize> = Vec::new();
        let mut ops: Vec<Operation> = Vec::new();
        let mut next: usize = first_id;
        let mut i: usize = 0;
        while i < n
            invariant
                i <= n,
                n < usize::MAX - first_id,
                first_id >= RESERVED,
                next == first_id + i,
                order@.len() == i,
                ops@.len() == i,
                forall|k: int| 0 <= k < i ==> #[trigger] order@[k] == k,
                forall|k: int| 0 <= k < i ==> (#[trigger] ops@[k]).id() == first_id + k,
            decreases n - i,
        {
            order.push(i);
            let op = Operation::hook(&mut next);
            ops.push(op);
            i = i + 1;
        }
        proof {
            let om = order@.map_values(|v: usize| v as int);
            assert forall|k: int| 0 <= k < n implies #[trigger] om[k] == k by {
                assert(order@[k] == k);
            }
            assert forall|p: int, q: int|
                0 <= p < n && 0 <= q < n && p != q implies #[trigger] ops@[p] != #[trigger] ops@[q] by {
                crate::operation::lemma_id_injective(ops@[p], ops@[q]);
            }
        }
        let mut e = Engine {
            n,
            timeout,
            order,
            ops,
            rng,
            states: Snapshot::with_capacity(0),
            phase: Phase::Done,
            cursor: 0,
            registered: 0,
            changed: false,
            sel: Selected::Waiting,
            deadline: None,
            last: Action::Done(None),
            failed: Ghost(0),
            steady: Ghost(0),
            expired: Ghost(false),
        };
        assert(e.order@ =~= Seq::new(n as nat, |k: int| k as usize));
        let _ = e.begin(true);
        e
    }

    /// The action that waits for its answer.
    pub fn action(&self) -> (a: Action)
        ensures
            a == self.pending(),
    {
        self.last
    }

    /// The generator, advanced by the shuffles made so far.
    pub fn rng(&self) -> (r: XorShift)
        ensures
            r == self.rng_of(),
    {
        self.rng
    }

    /// Starts the call (`fresh`), or starts over after a round without fire: blocking
    /// calls begin a round, non-blocking ones (and the final pass after the deadline)
    /// begin a pass.
    fn begin(&mut self, fresh: bool) -> (a: Action)
        requires
            old(self).sound(),
            fresh || old(self).n >= 1,
            !fresh ==> old(self).timeout == Timeout::Now || old(self).expired@,
        ensures
            final(self).wf(),
            final(self).last == a,
            final(self).n == old(self).n,
            final(self).timeout == old(self).timeout,
            final(self).ops == old(self).ops,
            final(self).expired == old(self).expired,
            final(self).live() == 0,
            !is_fire(a),
            old(self).n == 0 ==> a == (match old(self).timeout {
                Timeout::Now => Action::Done(None),
                Timeout::Never => Action::Sleep(None),
                Timeout::At(w) => Action::Sleep(Some(w)),
            }),
            old(self).n >= 1 && fresh && old(self).timeout is At ==> a == Action::Clock
                && final(self).order == old(self).order && final(self).rng == old(self).rng,
            old(self).n >= 1 && !(fresh && old(self).timeout is At) ==> (final(self).order@,
            final(self).rng@) == shuffled(old(self).order@, old(self).rng@),
            old(self).n == 0 ==> final(self).order == old(self).order && final(self).rng
                == old(self).rng,
            old(self).n == 1 && !(fresh && old(self).timeout is At) ==> a == Action::Try(0),
            old(self).n >= 2 && (old(self).timeout == Timeout::Now || !fresh) ==> a is State,
            old(self).n >= 2 && old(self).timeout == Timeout::Never && fresh ==> a is Try,
            final(self).cursor == 0,
            final(self).phase != Phase::Recheck,
            old(self).n > 0 ==> (final(self).in_pass() <==> (old(self).timeout == Timeout::Now || !fresh)),
            old(self).n >= 2 && (old(self).timeout == Timeout::Now || !fresh) ==> words_of(final(self).states) == Seq::<usize>::empty(),
    {
        self.cursor = 0;
        if self.n == 0 {
            match self.timeout {
                Timeout::Now => {
                    self.phase = Phase::Done;
                    self.last = Action::Done(None);
                },
                Timeout::Never => {
                    self.phase = Phase::Sleeping;
                    self.last = Action::Sleep(None);
                },
                Timeout::At(w) => {
                    self.phase = Phase::Sleeping;
                    self.last = Action::Sleep(Some(w));
                },
            }
            return self.last;
        }
        if self.timeout == Timeout::Now || !fresh {
            self.begin_pass()
        } else if let Timeout::At(_) = self.timeout {
            // A deadline that has already passed must lead straight to a non-blocking pass,
            // so a call with a deadline reads the clock first.
            self.phase = Phase::Clock;
            self.last = Action::Clock;
            self.last
        } else {
            self.begin_round()
        }
    }

    /// Starts a non-blocking pass.
    fn begin_pass(&mut self) -> (a: Action)
        requires
            old(self).sound(),
            old(self).n >= 1,
            old(self).timeout == Timeout::Now || old(self).expired@,
        ensures
            final(self).wf(),
            final(self).last == a,
            final(self).n == old(self).n,
            final(self).timeout == old(self).timeout,
            final(self).ops == old(self).ops,
            final(self).expired == old(self).expired,
            final(self).live() == 0,
            !is_fire(a),
            old(self).n == 1 ==> a == Action::Try(0),
            old(self).n >= 2 ==> a is State,
            final(self).failed@ == 0,
            final(self).steady@ == 0,
            a == (if old(self).n == 1 { Action::Try(0) } else { Action::State(final(self).order@[0]) }),
            final(self).phase is Quick || final(self).phase is Snap,
            final(self).sel == old(self).sel,
            final(self).cursor == 0,
            old(self).n >= 2 ==> words_of(final(self).states) == Seq::<usize>::empty(),
            (final(self).order@, final(self).rng@) == shuffled(old(self).order@, old(self).rng@),
    {
        self.failed = Ghost(0);
        self.steady = Ghost(0);
        let ghost before = self.order@;
        shuffle(&mut self.order, &mut self.rng);
        proof {
            lemma_permutes_keeps(self.order@, before, self.n as int);
            lemma_permutation_bound(self.order@, self.n as int);
        }
        if self.n == 1 {
            self.phase = Phase::Quick;
            self.cursor = 0;
            self.last = Action::Try(self.order[0]);
            return self.last;
        }
        self.states = Snapshot::with_capacity(self.n);
        self.phase = Phase::Snap;
        self.cursor = 0;
        self.last = Action::State(self.order[0]);
        self.last
    }

    /// Starts a blocking round: shuffle, then try every handle.
    fn begin_round(&mut self) -> (a: Action)
        requires
            old(self).sound(),
            old(self).n >= 1,
            old(self).timeout != Timeout::Now,
        ensures
            final(self).wf(),
            final(self).last == a,
            final(self).n == old(self).n,
            final(self).timeout == old(self).timeout,
            final(self).ops == old(self).ops,
            final(self).expired == old(self).expired,
            final(self).live() == 0,
            !is_fire(a),
            old(self).n == 1 ==> a == Action::Try(0),
            final(self).failed == old(self).failed,
            final(self).steady == old(self).steady,
            a is Try,
            a == Action::Try(final(self).order@[0]),
            final(self).sel == old(self).sel,
            final(self).deadline == old(self).deadline,
            final(self).cursor == 0,
            final(self).phase == Phase::Try,
            (final(self).order@, final(self).rng@) == shuffled(old(self).order@, old(self).rng@),
    {
        let ghost before = self.order@;
        shuffle(&mut self.order, &mut self.rng);
        proof {
            lemma_permutes_keeps(self.order@, before, self.n as int);
            lemma_permutation_bound(self.order@, self.n as int);
        }
        self.phase = Phase::Try;
        self.cursor = 0;
        self.last = Action::Try(self.order[0]);
        self.last
    }
}


impl Engine {
    /// Every entry of the visiting order is a position of the list.
    proof fn lemma_order_bound(self, k: int)
        requires
            self.sound(),
            0 <= k < self.n,
        ensures
            self.order@[k] < self.n,
    {
        let om = self.order@.map_values(|v: usize| v as int);
        assert(om[k] == self.order@[k] as int);
    }

    /// The facts on the order that a handler needs about the current and next entries.
    proof fn lemma_order_near(self)
        requires
            self.sound(),
        ensures
            self.n > 0 ==> self.order@[0] < self.n,
            self.cursor < self.n ==> self.order@[self.cursor as int] < self.n,
            self.cursor + 1 < self.n ==> self.order@[self.cursor + 1] < self.n,
    {
        if self.n > 0 {
            self.lemma_order_bound(0);
        }
        if self.cursor < self.n {
            self.lemma_order_bound(self.cursor as int);
        }
        if self.cursor + 1 < self.n {
            self.lemma_order_bound(self.cursor + 1);
        }
    }

    /// Ends a round in which nothing fired: read the clock if there is a deadline, else
    /// begin the next round.
    fn after_round(&mut self) -> (a: Action)
        requires
            old(self).sound(),
            old(self).n >= 1,
            old(self).timeout != Timeout::Now,
        ensures
            final(self).wf(),
            final(self).last == a,
            final(self).n == old(self).n,
            final(self).timeout == old(self).timeout,
            final(self).ops == old(self).ops,
            final(self).expired == old(self).expired,
            final(self).live() == 0,
            !is_fire(a),
            final(self).failed == old(self).failed,
            final(self).steady == old(self).steady,
            round_over(*old(self), *final(self), a),
            final(self).sel == old(self).sel,
    {
        match self.timeout {
            Timeout::At(_) => {
                self.phase = Phase::Clock;
                self.last = Action::Clock;
                self.last
            },
            _ => self.begin_round(),
        }
    }

    /// After unregistering: accept the operation that the context published, if it is
    /// one of ours.
    fn dispatch(&mut self) -> (a: Action)
        requires
            old(self).sound(),
            old(self).n >= 1,
            old(self).timeout != Timeout::Now,
        ensures
            final(self).wf(),
            final(self).last == a,
            final(self).n == old(self).n,
            final(self).timeout == old(self).timeout,
            final(self).ops == old(self).ops,
            final(self).expired == old(self).expired,
            final(self).live() == 0,
            !is_fire(a),
            a matches Action::Accept(p) ==> final(self).sel == Selected::Operation(
                final(self).ops@[p as int],
            ),
            final(self).failed == old(self).failed,
            final(self).steady == old(self).steady,
            woken(*old(self), *final(self), a),
            final(self).sel == old(self).sel,
    {
        if let Selected::Operation(op) = self.sel {
            if let Some(p) = self.position_of(op) {
                self.phase = Phase::Accepting;
                self.cursor = p;
                self.last = Action::Accept(p);
                assert(self.op_at(p as int) == op);
                return self.last;
            }
        }
        self.after_round()
    }

    /// The position whose operation has the identifier `op`, if any.
    fn position_of(&self, op: Operation) -> (r: Option<usize>)
        requires
            self.ops@.len() == self.n,
        ensures
            r matches Some(p) ==> p < self.n && self.ops@[p as int] == op,
            r is None ==> forall|q: int| 0 <= q < self.n ==> self.ops@[q] != op,
    {
        let mut p: usize = 0;
        while p < self.n
            invariant
                self.ops@.len() == self.n,
                p <= self.n,
                forall|q: int| 0 <= q < p ==> self.ops@[q] != op,
            decreases self.n - p,
        {
            if self.ops[p] == op {
                return Some(p);
            }
            p = p + 1;
        }
        None
    }

    /// Starts unregistering the operations registered so far.
    fn begin_unregister(&mut self) -> (a: Action)
        requires
            old(self).sound(),
            old(self).timeout != Timeout::Now,
            1 <= old(self).registered <= old(self).n,
        ensures
            final(self).wf(),
            final(self).last == a,
            final(self).n == old(self).n,
            final(self).timeout == old(self).timeout,
            final(self).ops == old(self).ops,
            final(self).expired == old(self).expired,
            final(self).sel == old(self).sel,
            final(self).live() == old(self).registered,
            a is Unregister,
            final(self).failed == old(self).failed,
            final(self).steady == old(self).steady,
            a == Action::Unregister(old(self).order@[0], old(self).ops@[old(self).order@[0] as int]),
            final(self).order == old(self).order,
            final(self).deadline == old(self).deadline,
            final(self).cursor == 0,
            final(self).rng == old(self).rng,
    {
        proof {
            let om = self.order@.map_values(|v: usize| v as int);
            assert(om[0] == self.order@[0] as int);
        }
        self.phase = Phase::Unregister;
        self.cursor = 0;
        let p = self.order[0];
        self.last = Action::Unregister(p, self.ops[p]);
        self.last
    }

    fn on_quick(&mut self, ev: Event) -> (a: Action)
        requires
            old(self).wf(),
            old(self).phase == Phase::Quick,
        ensures
            transition(*old(self), ev, *final(self), a),
    {
        proof {
            self.lemma_order_near();
        }
        match ev {
            Event::Flag(true) => {
                self.phase = Phase::Done;
                self.last = Action::Done(Some(self.order[0]));
            },
            Event::Flag(false) => {
                self.failed = Ghost(1);
                self.phase = Phase::Done;
                self.last = Action::Done(None);
            },
            _ => {},
        }
        self.last
    }

    fn on_snap(&mut self, ev: Event) -> (a: Action)
        requires
            old(self).wf(),
            old(self).phase == Phase::Snap,
        ensures
            transition(*old(self), ev, *final(self), a),
    {
        proof {
            self.lemma_order_near();
        }
        if let Event::Word(w) = ev {
            self.states.push(w);
            let c = self.cursor + 1;
            if c == self.n {
                self.phase = Phase::Probe;
                self.cursor = 0;
                self.failed = Ghost(0);
                self.last = Action::Try(self.order[0]);
            } else {
                self.cursor = c;
                self.last = Action::State(self.order[c]);
            }
        }
        self.last
    }

    fn on_probe(&mut self, ev: Event) -> (a: Action)
        requires
            old(self).wf(),
            old(self).phase == Phase::Probe,
        ensures
            transition(*old(self), ev, *final(self), a),
    {
        proof {
            self.lemma_order_near();
        }
        match ev {
            Event::Flag(true) => {
                self.phase = Phase::Done;
                self.last = Action::Done(Some(self.order[self.cursor]));
            },
            Event::Flag(false) => {
                self.failed = Ghost(self.failed@ + 1);
                let c = self.cursor + 1;
                if c == self.n {
                    self.phase = Phase::Recheck;
                    self.cursor = 0;
                    self.changed = false;
                    self.steady = Ghost(0);
                    self.last = Action::State(self.order[0]);
                } else {
                    self.cursor = c;
                    self.last = Action::Try(self.order[c]);
                }
            },
            _ => {},
        }
        self.last
    }

    fn on_recheck(&mut self, ev: Event) -> (a: Action)
        requires
            old(self).wf(),
            old(self).phase == Phase::Recheck,
        ensures
            transition(*old(self), ev, *final(self), a),
    {
        proof {
            self.lemma_order_near();
        }
        if let Event::Word(w) = ev {
            let seen = self.states.get(self.cursor);
            if seen != w {
                self.states.set(self.cursor, w);
                self.changed = true;
            } else {
                assert(words_of(self.states) =~= words_of(self.states).update(self.cursor as int, w));
                self.steady = Ghost(self.steady@ + 1);
            }
            let c = self.cursor + 1;
            if c == self.n {
                if self.changed {
                    self.phase = Phase::Probe;
                    self.cursor = 0;
                    self.failed = Ghost(0);
                    self.last = Action::Try(self.order[0]);
                } else {
                    self.phase = Phase::Done;
                    self.last = Action::Done(None);
                }
            } else {
                self.cursor = c;
                self.last = Action::State(self.order[c]);
            }
        }
        self.last
    }
}


impl Engine {
    fn on_try(&mut self, ev: Event) -> (a: Action)
        requires
            old(self).wf(),
            old(self).phase == Phase::Try,
        ensures
            transition(*old(self), ev, *final(self), a),
    {
        proof {
            self.lemma_order_near();
        }
        match ev {
            Event::Flag(true) => {
                self.phase = Phase::Done;
                self.last = Action::Done(Some(self.order[self.cursor]));
            },
            Event::Flag(false) => {
                let c = self.cursor + 1;
                if c == self.n {
                    self.phase = Phase::Retry;
                    self.cursor = 0;
                    self.last = Action::Retry(self.order[0]);
                } else {
                    self.cursor = c;
                    self.last = Action::Try(self.order[c]);
                }
            },
            _ => {},
        }
        self.last
    }

    fn on_retry(&mut self, ev: Event) -> (a: Action)
        requires
            old(self).wf(),
            old(self).phase == Phase::Retry,
        ensures
            transition(*old(self), ev, *final(self), a),
    {
        proof {
            self.lemma_order_near();
        }
        match ev {
            Event::Flag(true) => {
                self.phase = Phase::Done;
                self.last = Action::Done(Some(self.order[self.cursor]));
            },
            Event::Flag(false) => {
                let c = self.cursor + 1;
                if c == self.n {
                    // Prepare for blocking: the context starts out waiting.
                    self.sel = Selected::Waiting;
                    self.phase = Phase::Register;
                    self.cursor = 0;
                    self.registered = 1;
                    let p = self.order[0];
                    self.last = Action::Register(p, self.ops[p]);
                } else {
                    self.cursor = c;
                    self.last = Action::Retry(self.order[c]);
                }
            },
            _ => {},
        }
        self.last
    }

    fn on_register(&mut self, ev: Event) -> (a: Action)
        requires
            old(self).wf(),
            old(self).phase == Phase::Register,
        ensures
            transition(*old(self), ev, *final(self), a),
    {
        proof {
            self.lemma_order_near();
        }
        match ev {
            // The operation became ready while registering: try to abort the selection.
            Event::Flag(false) => {
                self.phase = Phase::Aborting;
                self.last = Action::Abort;
            },
            // Registered: see whether another thread already selected an operation.
            Event::Flag(true) => {
                self.phase = Phase::Reading;
                self.last = Action::ReadSelected;
            },
            _ => {},
        }
        self.last
    }

    fn on_aborting(&mut self, ev: Event) -> (a: Action)
        requires
            old(self).wf(),
            old(self).phase == Phase::Aborting,
        ensures
            transition(*old(self), ev, *final(self), a),
    {
        proof {
            self.lemma_order_near();
        }
        match ev {
            Event::Claimed => {
                self.sel = Selected::Aborted;
                self.begin_unregister()
            },
            Event::Held(s) => {
                self.sel = s;
                self.begin_unregister()
            },
            _ => self.last,
        }
    }

    fn on_reading(&mut self, ev: Event) -> (a: Action)
        requires
            old(self).wf(),
            old(self).phase == Phase::Reading,
        ensures
            transition(*old(self), ev, *final(self), a),
    {
        proof {
            self.lemma_order_near();
        }
        if let Event::Outcome(s) = ev {
            self.sel = s;
            if let Selected::Waiting = s {
                let c = self.cursor + 1;
                if c == self.n {
                    self.phase = Phase::Deadlines;
                    self.cursor = 0;
                    self.deadline = match self.timeout {
                        Timeout::At(w) => Some(w),
                        _ => None,
                    };
                    self.last = Action::Deadline(self.order[0]);
                } else {
                    self.phase = Phase::Register;
                    self.cursor = c;
                    self.registered = c + 1;
                    let p = self.order[c];
                    self.last = Action::Register(p, self.ops[p]);
                }
                self.last
            } else {
                self.begin_unregister()
            }
        } else {
            self.last
        }
    }

    fn on_deadlines(&mut self, ev: Event) -> (a: Action)
        requires
            old(self).wf(),
            old(self).phase == Phase::Deadlines,
        ensures
            transition(*old(self), ev, *final(self), a),
    {
        proof {
            self.lemma_order_near();
        }
        if let Event::Moment(d) = ev {
            self.deadline = earlier(self.deadline, d);
            let c = self.cursor + 1;
            if c == self.n {
                self.phase = Phase::Parked;
                self.last = Action::Park(self.deadline);
            } else {
                self.cursor = c;
                self.last = Action::Deadline(self.order[c]);
            }
        }
        self.last
    }

    fn on_parked(&mut self, ev: Event) -> (a: Action)
        requires
            old(self).wf(),
            old(self).phase == Phase::Parked,
        ensures
            transition(*old(self), ev, *final(self), a),
    {
        proof {
            self.lemma_order_near();
        }
        if let Event::Outcome(s) = ev {
            self.sel = s;
            self.begin_unregister()
        } else {
            self.last
        }
    }

    fn on_unregister(&mut self, ev: Event) -> (a: Action)
        requires
            old(self).wf(),
            old(self).phase == Phase::Unregister,
        ensures
            transition(*old(self), ev, *final(self), a),
    {
        proof {
            self.lemma_order_near();
        }
        if let Event::Finished = ev {
            let c = self.cursor + 1;
            if c == self.registered {
                self.dispatch()
            } else {
                proof {
                    self.lemma_order_bound(c as int);
                }
                self.cursor = c;
                let p = self.order[c];
                self.last = Action::Unregister(p, self.ops[p]);
                self.last
            }
        } else {
            self.last
        }
    }

    fn on_accepting(&mut self, ev: Event) -> (a: Action)
        requires
            old(self).wf(),
            old(self).phase == Phase::Accepting,
        ensures
            transition(*old(self), ev, *final(self), a),
    {
        match ev {
            Event::Flag(true) => {
                self.phase = Phase::Done;
                self.last = Action::Done(Some(self.cursor));
                self.last
            },
            Event::Flag(false) => self.after_round(),
            _ => self.last,
        }
    }

    fn on_clock(&mut self, ev: Event) -> (a: Action)
        requires
            old(self).wf(),
            old(self).phase == Phase::Clock,
        ensures
            transition(*old(self), ev, *final(self), a),
    {
        if let Event::Time(t) = ev {
            if let Timeout::At(w) = self.timeout {
                if t >= w {
                    // Past the deadline: one final non-blocking pass, so that the whole call
                    // looks like one operation from outside.
                    self.expired = Ghost(true);
                    return self.begin_pass();
                }
            }
            self.begin_round()
        } else {
            self.last
        }
    }

    fn on_sleeping(&mut self, ev: Event) -> (a: Action)
        requires
            old(self).wf(),
            old(self).phase == Phase::Sleeping,
        ensures
            transition(*old(self), ev, *final(self), a),
    {
        if let Event::Finished = ev {
            if let Timeout::At(_) = self.timeout {
                self.phase = Phase::Done;
                self.last = Action::Done(None);
            }
        }
        self.last
    }

    /// Hands the engine the answer to its pending action and returns the next action.
    /// An event of the wrong kind for the pending action changes nothing.
    pub fn step(&mut self, ev: Event) -> (a: Action)
        requires
            old(self).wf(),
        ensures
            transition(*old(self), ev, *final(self), a),
    {
        match self.phase {
            Phase::Quick => self.on_quick(ev),
            Phase::Snap => self.on_snap(ev),
            Phase::Probe => self.on_probe(ev),
            Phase::Recheck => self.on_recheck(ev),
            Phase::Try => self.on_try(ev),
            Phase::Retry => self.on_retry(ev),
            Phase::Register => self.on_register(ev),
            Phase::Aborting => self.on_aborting(ev),
            Phase::Reading => self.on_reading(ev),
            Phase::Deadlines => self.on_deadlines(ev),
            Phase::Parked => self.on_parked(ev),
            Phase::Unregister => self.on_unregister(ev),
            Phase::Accepting => self.on_accepting(ev),
            Phase::Clock => self.on_clock(ev),
            Phase::Sleeping => self.on_sleeping(ev),
            Phase::Done => self.last,
        }
    }
}


/// Single fire: a step that ends the call with a position does so exactly when the
/// operation at that position reported success, and no later step fires another.
pub proof fn lemma_single_fire(pre: Engine, ev: Event, post: Engine, a: Action, later: Event, next: Engine, b: Action)
    requires
        !(pre.pending() is Done),
        transition(pre, ev, post, a),
        transition(post, later, next, b),
    ensures
        is_fire(a) <==> fired_by(pre.pending(), ev) is Some,
        a matches Action::Done(Some(p)) ==> fired_by(pre.pending(), ev) == Some(p) && b == a,
{
}

/// Stable non-fire: a call ends without an operation only after a pass in which every
/// handle failed its try and every state read matched the snapshot; a call without
/// deadline never ends so; a call with a deadline ends so only once the clock has
/// reached the deadline.
pub proof fn lemma_stable_non_fire(pre: Engine, ev: Event, post: Engine)
    requires
        transition(pre, ev, post, Action::Done(None)),
    ensures
        post.quiet(),
        post.timeout_of() != Timeout::Never,
        post.timeout_of() is At ==> post.size() == 0 || post.expired(),
{
}

/// No registration is left behind: from the park on, each step of unregistering frees
/// one operation, and the engine probes, accepts or ends only once none is left.
pub proof fn lemma_no_stuck_registration(pre: Engine, ev: Event, post: Engine, a: Action)
    requires
        transition(pre, ev, post, a),
    ensures
        a is Park ==> post.live() == post.size(),
        pre.pending() is Unregister && ev == Event::Finished ==> post.live() + 1 == pre.live(),
        needs_clean(a) ==> post.live() == 0,
{
}

/// No lost wakeup: an operation that turns ready while it registers makes the engine
/// abort instead of parking, and the engine parks only while the context waits.
pub proof fn lemma_no_lost_wakeup(pre: Engine, ev: Event, post: Engine, a: Action)
    requires
        transition(pre, ev, post, a),
    ensures
        pre.pending() is Register && ev == Event::Flag(false) ==> a == Action::Abort,
        a is Park ==> post.published() == Selected::Waiting,
        a matches Action::Accept(p) ==> post.published() == Selected::Operation(post.op_at(p as int)),
{
}

} // verus!

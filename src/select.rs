//! The builder of a selection and the case that a selection hands back.

use crate::engine::{transition, Action, Engine, Event};
use vstd::prelude::*;

verus! {

/// A list of send and receive cases to select over.
///
/// Each case holds the handle that the driver probes, the index that adding it returned,
/// and the address of its endpoint, against which the chosen case is redeemed.
pub struct Select<H> {
    handles: Vec<(H, usize, usize)>,
}

/// The case that a selection chose. It must be redeemed with the endpoint it was
/// added with.
#[derive(Clone, Copy, PartialEq, Eq, Structural, Debug)]
pub struct SelectedCase {
    index: usize,
    ptr: usize,
}

impl SelectedCase {
    /// The index that adding the case returned.
    pub closed spec fn index_of(self) -> usize {
        self.index
    }

    /// The address of the case's endpoint.
    pub closed spec fn endpoint_of(self) -> usize {
        self.ptr
    }

    /// The index that adding the case returned.
    pub fn index(&self) -> (r: usize)
        ensures
            r == self.index_of(),
    {
        self.index
    }

    /// The address of the case's endpoint.
    pub fn endpoint(&self) -> (r: usize)
        ensures
            r == self.endpoint_of(),
    {
        self.ptr
    }

    /// Whether the endpoint at `addr` is the one this case must be redeemed with.
    pub fn is_for(&self, addr: usize) -> (r: bool)
        ensures
            r == (addr == self.endpoint_of()),
    {
        self.ptr == addr
    }
}

impl<H> Select<H> {
    /// The cases, in the order they were added.
    pub closed spec fn view(self) -> Seq<(H, usize, usize)> {
        self.handles@
    }

    /// Each case sits at the position of the index that adding it returned.
    pub open spec fn wf(self) -> bool {
        forall|i: int| 0 <= i < self@.len() ==> (#[trigger] self@[i]).1 == i
    }

    /// The case that the outcome of the engine stands for.
    pub closed spec fn case_spec(self, p: usize) -> SelectedCase {
        SelectedCase { index: self@[p as int].1, ptr: self@[p as int].2 }
    }

    /// An empty list.
    pub fn new() -> (s: Select<H>)
        ensures
            s@ == Seq::<(H, usize, usize)>::empty(),
            s.wf(),
    {
        Select { handles: Vec::new() }
    }

    fn add(&mut self, handle: H, ptr: usize) -> (i: usize)
        requires
            old(self).wf(),
            old(self)@.len() < usize::MAX,
        ensures
            i == old(self)@.len(),
            final(self)@ == old(self)@.push((handle, i, ptr)),
            final(self).wf(),
    {
        let i = self.handles.len();
        self.handles.push((handle, i, ptr));
        proof {
            assert forall|k: int| 0 <= k < self@.len() implies (#[trigger] self@[k]).1 == k by {
                if k < i {
                    assert(self@[k] == old(self)@[k]);
                }
            }
        }
        i
    }

    /// Adds a receive case for the receiver at address `ptr`, probed through `handle`.
    /// Returns the index of the case.
    pub fn recv(&mut self, handle: H, ptr: usize) -> (i: usize)
        requires
            old(self).wf(),
            old(self)@.len() < usize::MAX,
        ensures
            i == old(self)@.len(),
            final(self)@ == old(self)@.push((handle, i, ptr)),
            final(self).wf(),
    {
        self.add(handle, ptr)
    }

    /// Adds a send case for the sender at address `ptr`, probed through `handle`.
    /// Returns the index of the case.
    pub fn send(&mut self, handle: H, ptr: usize) -> (i: usize)
        requires
            old(self).wf(),
            old(self)@.len() < usize::MAX,
        ensures
            i == old(self)@.len(),
            final(self)@ == old(self)@.push((handle, i, ptr)),
            final(self).wf(),
    {
        self.add(handle, ptr)
    }

    /// The number of cases.
    pub fn len(&self) -> (r: usize)
        ensures
            r == self@.len(),
    {
        self.handles.len()
    }

    /// The handle of the case at position `p`.
    pub fn handle(&self, p: usize) -> (h: &H)
        requires
            p < self@.len(),
        ensures
            *h == self@[p as int].0,
    {
        &self.handles[p].0
    }

    /// The case that a finished engine chose, if any; `None` while it is not finished.
    pub fn outcome(&self, a: Action) -> (r: Option<SelectedCase>)
        ensures
            r == (match a {
                Action::Done(Some(p)) => if p < self@.len() {
                    Some(self.case_spec(p))
                } else {
                    None
                },
                _ => None,
            }),
    {
        match a {
            Action::Done(Some(p)) => {
                if p < self.handles.len() {
                    Some(SelectedCase { index: self.handles[p].1, ptr: self.handles[p].2 })
                } else {
                    None
                }
            },
            _ => None,
        }
    }
}

/// The case at position `p` of a well-formed list carries index `p` and the endpoint
/// that it was added with.
pub proof fn lemma_case_at<H>(s: Select<H>, p: usize)
    requires
        s.wf(),
        p < s@.len(),
    ensures
        s.case_spec(p).index_of() == p,
        s.case_spec(p).endpoint_of() == s@[p as int].2,
{
}

/// A selection run by an engine over the cases of a well-formed list hands back, when
/// it fires, the case whose index is the position that fired and whose endpoint is the
/// one that case was added with; that position is one whose operation reported success.
pub proof fn lemma_fired_case<H>(s: Select<H>, pre: Engine, ev: Event, post: Engine, a: Action)
    requires
        s.wf(),
        pre.size() == s@.len(),
        transition(pre, ev, post, a),
        !(pre.pending() is Done),
    ensures
        a matches Action::Done(Some(p)) ==> p < s@.len() && s.case_spec(p).index_of() == p
            && s.case_spec(p).endpoint_of() == s@[p as int].2
            && crate::engine::fired_by(pre.pending(), ev) == Some(p),
{
}

/// A case added at index `i` with the endpoint at `ptr` comes back, when a selection
/// chooses it, with index `i`, and redeeming it with the same endpoint passes the
/// identity check.
pub proof fn lemma_round_trip<H>(before: Select<H>, after: Select<H>, handle: H, i: usize, ptr: usize)
    requires
        before.wf(),
        i == before@.len(),
        after@ == before@.push((handle, i, ptr)),
    ensures
        after.wf(),
        after.case_spec(i).index_of() == i,
        after.case_spec(i).endpoint_of() == ptr,
{
    assert(after@[i as int] == (handle, i, ptr));
    assert forall|k: int| 0 <= k < after@.len() implies (#[trigger] after@[k]).1 == k by {
        if k < i {
            assert(after@[k] == before@[k]);
        }
    }
}

impl<H: Copy> Clone for Select<H> {
    fn clone(&self) -> (r: Select<H>)
        ensures
            r@ == self@,
    {
        let mut handles: Vec<(H, usize, usize)> = Vec::new();
        let mut i: usize = 0;
        while i < self.handles.len()
            invariant
                i <= self.handles@.len(),
                handles@ == self.handles@.subrange(0, i as int),
            decreases self.handles@.len() - i,
        {
            handles.push(self.handles[i]);
            i = i + 1;
            assert(handles@ =~= self.handles@.subrange(0, i as int));
        }
        assert(handles@ =~= self.handles@);
        Select { handles }
    }
}

} // verus!

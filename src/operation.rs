//! Operation identifiers and the state that a selection publishes.

use vstd::prelude::*;

verus! {

/// Identifier of one operation by one thread on one channel.
///
/// Its value never equals the encoding of `Selected::{Waiting, Aborted, Disconnected}`.
#[derive(Clone, Copy, PartialEq, Eq, Structural, Debug)]
pub struct Operation(usize);

/// The three values that the packed form of `Selected` reserves.
pub const RESERVED: usize = 3;

impl Operation {
    /// The numeric value of the identifier.
    pub closed spec fn id(self) -> usize {
        self.0
    }

    /// The identifier whose value is `v`.
    pub closed spec fn from_id(v: usize) -> Operation {
        Operation(v)
    }

    /// Creates an operation identifier from a per-thread counter and advances it.
    ///
    /// The counter must already lie above the reserved values, so that the identifier
    /// never collides with `Selected::{Waiting, Aborted, Disconnected}`.
    pub fn hook(next: &mut usize) -> (op: Operation)
        requires
            *old(next) >= RESERVED,
            *old(next) < usize::MAX,
        ensures
            op.id() == *old(next),
            *final(next) == *old(next) + 1,
            op.id() >= RESERVED,
    {
        let val = *next;
        *next = val + 1;
        Operation(val)
    }

    /// The numeric value of the identifier.
    pub fn value(&self) -> (r: usize)
        ensures
            r == self.id(),
    {
        self.0
    }
}

/// Current state of a selection or of a blocking operation.
#[derive(Clone, Copy, PartialEq, Eq, Structural, Debug)]
pub enum Selected {
    /// Still waiting for an operation.
    Waiting,
    /// The attempt to block the current thread has been aborted.
    Aborted,
    /// A channel was disconnected.
    Disconnected,
    /// An operation became ready.
    Operation(Operation),
}

impl Selected {
    /// Every identifier that the value carries lies outside the reserved values.
    pub open spec fn wf(self) -> bool {
        match self {
            Selected::Operation(op) => op.id() >= RESERVED,
            _ => true,
        }
    }

    /// The machine word that stands for the state.
    pub open spec fn encode(self) -> usize {
        match self {
            Selected::Waiting => 0,
            Selected::Aborted => 1,
            Selected::Disconnected => 2,
            Selected::Operation(op) => op.id(),
        }
    }

    /// The state that a machine word stands for.
    pub open spec fn decode(val: usize) -> Selected {
        if val == 0 {
            Selected::Waiting
        } else if val == 1 {
            Selected::Aborted
        } else if val == 2 {
            Selected::Disconnected
        } else {
            Selected::Operation(Operation::from_id(val))
        }
    }

    /// Packs the state into one machine word.
    pub fn to_usize(self) -> (r: usize)
        ensures
            r == self.encode(),
    {
        match self {
            Selected::Waiting => 0,
            Selected::Aborted => 1,
            Selected::Disconnected => 2,
            Selected::Operation(op) => op.0,
        }
    }

    /// Unpacks a machine word into a state.
    pub fn from_usize(val: usize) -> (r: Selected)
        ensures
            r == Selected::decode(val),
            r.wf(),
    {
        match val {
            0 => Selected::Waiting,
            1 => Selected::Aborted,
            2 => Selected::Disconnected,
            oper => {
                proof { lemma_id_from_id(oper); }
                Selected::Operation(Operation(oper))
            },
        }
    }
}

impl From<usize> for Selected {
    fn from(val: usize) -> (r: Selected) {
        Selected::from_usize(val)
    }
}

impl vstd::std_specs::convert::FromSpecImpl<usize> for Selected {
    open spec fn obeys_from_spec() -> bool {
        true
    }

    open spec fn from_spec(val: usize) -> Selected {
        Selected::decode(val)
    }
}

impl From<Selected> for usize {
    fn from(sel: Selected) -> (r: usize) {
        sel.to_usize()
    }
}

impl vstd::std_specs::convert::FromSpecImpl<Selected> for usize {
    open spec fn obeys_from_spec() -> bool {
        true
    }

    open spec fn from_spec(sel: Selected) -> usize {
        sel.encode()
    }
}

/// Packing a well-formed state and unpacking the word gives the state back.
pub proof fn lemma_decode_encode(s: Selected)
    requires
        s.wf(),
    ensures
        Selected::decode(s.encode()) == s,
{
    match s {
        Selected::Operation(op) => {
            assert(Selected::decode(op.id()) == Selected::Operation(Operation(op.id())));
        },
        _ => {},
    }
}

/// The identifier made from a value has that value.
pub proof fn lemma_id_from_id(v: usize)
    ensures
        Operation::from_id(v).id() == v,
{
}

/// Two identifiers with the same value are the same identifier.
pub proof fn lemma_id_injective(a: Operation, b: Operation)
    ensures
        a.id() == b.id() <==> a == b,
{
}

/// Unpacking any word and packing the state gives the word back.
pub proof fn lemma_encode_decode(val: usize)
    ensures
        Selected::decode(val).encode() == val,
        Selected::decode(val).wf(),
{
    lemma_id_from_id(val);
}

/// An identifier never packs to the word of a sentinel state, and two identifiers
/// pack alike only when they are the same.
pub proof fn lemma_operation_disjoint(op: Operation, other: Operation)
    requires
        op.id() >= RESERVED,
    ensures
        Selected::Operation(op).encode() != Selected::Waiting.encode(),
        Selected::Operation(op).encode() != Selected::Aborted.encode(),
        Selected::Operation(op).encode() != Selected::Disconnected.encode(),
        Selected::Operation(op).encode() == Selected::Operation(other).encode() <==> op == other,
{
    lemma_id_injective(op, other);
}

} // verus!

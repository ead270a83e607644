//! Combined sequence numbers: 48-bit monotone counters, split on the wire
//! into a 16-bit overflow number and a 32-bit sequence number.

use vstd::prelude::*;

use crate::bytes::read_be32;
use crate::crypto::random_bytes;
use crate::errors::{SignalingError, SignalingResult};

verus! {

/// The largest value a combined sequence number can reach.
pub open spec fn spec_csn_max() -> int {
    0xFFFF_FFFF_FFFF
}

/// One observed value of a peer's combined sequence number.
#[derive(Debug, PartialEq, Eq, Copy, Clone, Structural)]
pub struct CombinedSequenceSnapshot {
    /// The 16-bit overflow number.
    pub overflow: u16,
    /// The 32-bit sequence number.
    pub sequence: u32,
}

impl CombinedSequenceSnapshot {
    /// The 48-bit value of the counter.
    pub open spec fn value(self) -> int {
        self.overflow * 0x1_0000_0000 + self.sequence
    }

    pub fn new(overflow: u16, sequence: u32) -> (r: Self)
        ensures
            r.overflow == overflow,
            r.sequence == sequence,
    {
        CombinedSequenceSnapshot { overflow, sequence }
    }

    /// A snapshot with overflow number zero and a random sequence number.
    pub fn random() -> (r: Self)
        ensures
            r.overflow == 0,
    {
        let v = random_bytes(4);
        CombinedSequenceSnapshot { overflow: 0, sequence: read_be32(&v, 0) }
    }

    pub fn overflow_number(&self) -> (r: u16)
        ensures
            r == self.overflow,
    {
        self.overflow
    }

    pub fn sequence_number(&self) -> (r: u32)
        ensures
            r == self.sequence,
    {
        self.sequence
    }

    /// Whether this counter value is strictly below the other.
    pub fn lt(&self, other: &Self) -> (r: bool)
        ensures
            r == (self.value() < other.value()),
    {
        self.overflow < other.overflow || (self.overflow == other.overflow && self.sequence
            < other.sequence)
    }
}

/// Our own combined sequence number for one peer: incremented for every
/// frame sent to that peer.
#[derive(Debug, PartialEq, Eq, Copy, Clone, Structural)]
pub struct CombinedSequence {
    /// The 16-bit overflow number.
    pub overflow: u16,
    /// The 32-bit sequence number.
    pub sequence: u32,
}

impl CombinedSequence {
    /// The 48-bit value of the counter.
    pub open spec fn value(self) -> int {
        self.overflow * 0x1_0000_0000 + self.sequence
    }

    pub fn new(overflow: u16, sequence: u32) -> (r: Self)
        ensures
            r.overflow == overflow,
            r.sequence == sequence,
    {
        CombinedSequence { overflow, sequence }
    }

    /// The counter starting at zero.
    pub fn zero() -> (r: Self)
        ensures
            r.value() == 0,
    {
        CombinedSequence { overflow: 0, sequence: 0 }
    }

    /// Step the counter by one and return a snapshot of the new value.
    /// Fails with `CsnOverflow` exactly when both fields are saturated.
    pub fn increment(&mut self) -> (r: SignalingResult<CombinedSequenceSnapshot>)
        ensures
            match r {
                Ok(snap) => {
                    &&& old(self).value() < spec_csn_max()
                    &&& final(self).value() == old(self).value() + 1
                    &&& snap.overflow == final(self).overflow
                    &&& snap.sequence == final(self).sequence
                    &&& snap.value() == final(self).value()
                },
                Err(e) => {
                    &&& e == SignalingError::CsnOverflow
                    &&& old(self).value() == spec_csn_max()
                    &&& *final(self) == *old(self)
                },
            },
    {
        if self.sequence == 0xFFFF_FFFFu32 {
            if self.overflow == 0xFFFFu16 {
                return Err(SignalingError::CsnOverflow);
            }
            self.overflow = self.overflow + 1;
            self.sequence = 0;
        } else {
            self.sequence = self.sequence + 1;
        }
        Ok(CombinedSequenceSnapshot { overflow: self.overflow, sequence: self.sequence })
    }
}

/// Our own combined sequence number for a peer, and the peer's last seen
/// value once one was validated.
#[derive(Debug, PartialEq, Eq, Copy, Clone, Structural)]
pub struct CsnPair {
    /// The counter for frames this side sends to the peer.
    pub ours: CombinedSequence,
    /// The peer's last validated counter value.
    pub theirs: Option<CombinedSequenceSnapshot>,
}

impl CsnPair {
    /// A pair with our counter at zero and no peer value yet.
    pub fn new() -> (r: Self)
        ensures
            r.ours.value() == 0,
            r.theirs is None,
    {
        CsnPair { ours: CombinedSequence::zero(), theirs: None }
    }
}

} // verus!

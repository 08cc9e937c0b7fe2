use vstd::prelude::*;

verus! {

/// Width of the close group: the peers that are authoritative holders of a key.
pub const CLOSE_GROUP_SIZE: usize = 5;

/// How many agreeing answers a fetch waits for.
#[derive(Clone, Copy, Debug, PartialEq, Eq, Structural)]
pub enum Quorum {
    ExactlyOne,
    Majority,
    All,
    AtLeastN(usize),
}

/// A strict majority of a group of `width` peers.
pub open spec fn majority_of(width: nat) -> nat {
    width / 2 + 1
}

/// The number of distinct responders of one version that resolves a fetch.
pub open spec fn threshold(quorum: Quorum, width: nat) -> nat {
    match quorum {
        Quorum::ExactlyOne => 1,
        Quorum::Majority => majority_of(width),
        Quorum::All => width,
        Quorum::AtLeastN(n) => n as nat,
    }
}

/// A strict majority of a close group of `width` peers.
pub fn close_group_majority(width: usize) -> (r: usize)
    ensures
        r == majority_of(width as nat),
{
    width / 2 + 1
}

/// The answers that `quorum` expects from a close group of `width` peers.
pub fn expected_answers(quorum: Quorum, width: usize) -> (r: usize)
    ensures
        r == threshold(quorum, width as nat),
{
    match quorum {
        Quorum::ExactlyOne => 1,
        Quorum::Majority => close_group_majority(width),
        Quorum::All => width,
        Quorum::AtLeastN(n) => n,
    }
}

} // verus!

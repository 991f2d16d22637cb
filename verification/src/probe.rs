//! Discovery by probing: several peripherals share the same generic USB
//! serial signature, so each candidate endpoint is opened and given a
//! bounded chance to send its fixed greeting. The candidate that greets
//! correctly is the right one; any other is abandoned - closed, never
//! probed again - and the next is tried in order. The decisions live
//! here; opening, reading and closing ports is the caller's I/O.

use crate::line::LineConnection;
use vstd::prelude::*;

verus! {

/// The USB identity of a serial endpoint candidate.
#[derive(Clone, Copy, PartialEq, Eq, Structural)]
pub struct CandidateId {
    pub vendor_id: u16,
    pub product_id: u16,
}

/// Whether two byte strings are equal.
pub fn bytes_equal(a: &Vec<u8>, b: &Vec<u8>) -> (r: bool)
    ensures
        r == (a@ == b@),
{
    if a.len() != b.len() {
        proof {
            assert(a@ != b@);
        }
        return false;
    }
    let mut k: usize = 0;
    while k < a.len()
        invariant
            k <= a@.len(),
            a@.len() == b@.len(),
            forall|j: int| 0 <= j < k ==> a@[j] == b@[j],
        decreases a@.len() - k,
    {
        if a[k] != b[k] {
            return false;
        }
        k = k + 1;
    }
    proof {
        assert(a@ =~= b@);
    }
    true
}

/// Whether a candidate carries the vendor/product identity the caller is
/// looking for (exact match).
pub fn matches_filter(candidate: &CandidateId, vendor_id: u16, product_id: u16) -> (r: bool)
    ensures
        r == (candidate.vendor_id == vendor_id && candidate.product_id == product_id),
{
    candidate.vendor_id == vendor_id && candidate.product_id == product_id
}

/// What one probe attempt yielded.
pub enum ProbeOutcome {
    /// The candidate opened and these bytes arrived within the bound.
    Greeting(Vec<u8>),
    /// The candidate could not be opened, or nothing readable arrived
    /// within the bound.
    NoReply,
}

/// What discovery asks the caller to do next.
pub enum ProbeStep {
    /// Open candidate `index`, read the greeting within the bound, close
    /// it unless it is accepted, and report the outcome.
    Try(usize),
    /// Every candidate was tried; discovery failed this round.
    GiveUp,
}

/// The discovery state machine for one round over a filtered candidate
/// list: candidates are tried strictly in order, each exactly once.
pub struct Discovery {
    next_index: usize,
    total: usize,
    expected: Vec<u8>,
}

impl Discovery {
    /// The index of the next candidate to probe.
    pub closed spec fn spec_next_index(self) -> int {
        self.next_index as int
    }

    /// How many candidates this round has.
    pub closed spec fn spec_total(self) -> int {
        self.total as int
    }

    /// The greeting that identifies the right peripheral.
    pub closed spec fn spec_expected(self) -> Seq<u8> {
        self.expected@
    }

    /// Starts a discovery round over `total` filtered candidates, looking
    /// for the given greeting.
    pub fn new(total: usize, expected: Vec<u8>) -> (r: Discovery)
        ensures
            r.spec_next_index() == 0,
            r.spec_total() == total,
            r.spec_expected() == expected@,
    {
        Discovery { next_index: 0, total, expected }
    }

    /// What to do next: probe the next untried candidate, or give up once
    /// all have been tried.
    pub fn step(&self) -> (r: ProbeStep)
        ensures
            match r {
                ProbeStep::Try(i) => i == self.spec_next_index() && i < self.spec_total(),
                ProbeStep::GiveUp => self.spec_next_index() >= self.spec_total(),
            },
    {
        if self.next_index < self.total {
            ProbeStep::Try(self.next_index)
        } else {
            ProbeStep::GiveUp
        }
    }

    /// Judges one probe outcome: the candidate is accepted exactly when
    /// it replied with the expected greeting, and a fresh connection is
    /// handed out for it. Any other candidate is passed over for good -
    /// the index advances and is never revisited.
    pub fn on_outcome(&mut self, outcome: ProbeOutcome) -> (r: Option<LineConnection>)
        requires
            old(self).spec_next_index() < old(self).spec_total(),
        ensures
            final (self).spec_total() == old(self).spec_total(),
            final (self).spec_expected() == old(self).spec_expected(),
            match r {
                Some(conn) => {
                    &&& outcome matches ProbeOutcome::Greeting(g) && g@ == old(
                        self,
                    ).spec_expected()
                    &&& conn.spec_alive()
                    &&& conn.spec_inbound() == Seq::<u8>::empty()
                    &&& conn.spec_outbound() == Seq::<u8>::empty()
                    &&& final (self).spec_next_index() == old(self).spec_next_index()
                },
                None => {
                    &&& !(outcome matches ProbeOutcome::Greeting(g) && g@ == old(
                        self,
                    ).spec_expected())
                    &&& final (self).spec_next_index() == old(self).spec_next_index() + 1
                },
            },
    {
        let accepted: bool = match &outcome {
            ProbeOutcome::Greeting(g) => bytes_equal(g, &self.expected),
            ProbeOutcome::NoReply => false,
        };
        if accepted {
            Some(LineConnection::new())
        } else {
            self.next_index = self.next_index + 1;
            None
        }
    }
}

} // verus!

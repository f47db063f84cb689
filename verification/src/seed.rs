//! A deterministic id generator, used to mint fresh identities while
//! cloning templates and creating variable graphs.

use vstd::prelude::*;

verus! {

/// Mints identity numbers one after another. Every graph created while
/// building or cloning draws its id from the one shared seed, so ids taken
/// from the same seed never repeat while the counter has headroom.
#[derive(Debug)]
pub struct Seed {
    next: u64,
}

impl Seed {
    /// The first id this seed will hand out.
    pub closed spec fn peek(&self) -> u64 {
        self.next
    }

    pub fn new() -> (r: Seed)
        ensures
            r.peek() == 0,
    {
        Seed { next: 0 }
    }

    /// Hands out the next id. Once the counter is exhausted the same
    /// id is handed out again; callers that care keep the counter far
    /// from the end.
    pub fn generate(&mut self) -> (r: u64)
        ensures
            r == old(self).peek(),
            old(self).peek() < u64::MAX ==> final(self).peek() == old(self).peek() + 1,
            old(self).peek() == u64::MAX ==> final(self).peek() == u64::MAX,
    {
        let id = self.next;
        if self.next < u64::MAX {
            self.next = self.next + 1;
        }
        id
    }
}

} // verus!

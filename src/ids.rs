//! Identities handed out to segments and food items.
use vstd::prelude::*;

verus! {

/// Hands out identities in increasing order, so no two are alike.
#[derive(Clone, Copy, Debug, PartialEq, Eq, Structural)]
pub struct EntityIds {
    pub next: u64,
}

impl EntityIds {
    /// An allocator that has handed out nothing yet.
    pub fn new() -> (r: Self)
        ensures
            r.next == 0,
    {
        EntityIds { next: 0 }
    }

    /// True while another identity can be handed out.
    pub fn has_room(&self, n: u64) -> (r: bool)
        ensures
            r == (self.next as int + n as int <= u64::MAX as int),
    {
        self.next <= u64::MAX - n
    }

    /// Hands out the next identity.
    pub fn fresh(&mut self) -> (r: u64)
        requires
            old(self).next < u64::MAX,
        ensures
            r == old(self).next,
            final(self).next == old(self).next + 1,
    {
        let r = self.next;
        self.next = self.next + 1;
        r
    }
}

} // verus!

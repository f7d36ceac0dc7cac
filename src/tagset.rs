use vstd::prelude::*;

use crate::util::zeroed;

verus! {

/// The maximum amount of tags a monitor can have.
pub const MAX_TAGS: usize = 10;

/// A set of tags where slot `i` holds `i` when tag `i` is active and `0` otherwise.
#[derive(Clone, Copy, Debug)]
pub struct Tagset(pub [u8; MAX_TAGS]);

impl Tagset {
    /// The slots of this tagset.
    pub open spec fn slots(self) -> Seq<u8> {
        self.0@
    }

    /// Whether slot `tag` holds `tag` itself.
    pub open spec fn activated_spec(self, tag: u8) -> bool {
        self.0@[tag as int] == tag
    }

    /// Every slot holds either zero or its own index.
    pub open spec fn wf(self) -> bool {
        forall|i: int| 0 <= i < MAX_TAGS ==> #[trigger] self.0@[i] == 0 || self.0@[i] == i
    }

    /// All tags in this tagset, regardless of their status.
    pub fn tags(&self) -> (r: [u8; MAX_TAGS])
        ensures
            r@ == self.0@,
    {
        self.0
    }

    /// Whether the given tag is activated and set to itself.
    pub fn activated(&self, tag: u8) -> (r: bool)
        requires
            (tag as usize) < MAX_TAGS,
        ensures
            r == self.activated_spec(tag),
    {
        self.0[tag as usize] == tag
    }

    /// Activates the given tag; no other slot changes.
    pub fn activate(&mut self, tag: u8)
        requires
            (tag as usize) < MAX_TAGS,
        ensures
            final(self).0@ == old(self).0@.update(tag as int, tag),
            old(self).wf() ==> final(self).wf(),
    {
        self.0[tag as usize] = tag;
    }

    /// Deactivates the given tag; no other slot changes.
    pub fn deactivate(&mut self, tag: u8)
        requires
            (tag as usize) < MAX_TAGS,
        ensures
            final(self).0@ == old(self).0@.update(tag as int, 0),
            old(self).wf() ==> final(self).wf(),
    {
        self.0[tag as usize] = 0;
    }
}

impl Default for Tagset {
    /// A tagset with every tag inactive.
    fn default() -> (r: Tagset)
        ensures
            forall|i: int| 0 <= i < MAX_TAGS ==> r.0@[i] == 0,
            r.wf(),
    {
        Tagset(zeroed::<MAX_TAGS>())
    }
}

/// After `activate(tag)`, `activated(tag)` holds, and every other slot is as it was.
pub proof fn lemma_activate_then_activated(before: Tagset, after: Tagset, tag: u8)
    requires
        (tag as usize) < MAX_TAGS,
        after.0@ == before.0@.update(tag as int, tag),
    ensures
        after.activated_spec(tag),
        forall|i: int| 0 <= i < MAX_TAGS && i != tag ==> after.0@[i] == before.0@[i],
{
}

/// After `deactivate(tag)` on a tag index other than zero, `activated(tag)` is false,
/// and every other slot is as it was. Index zero is the edge case: its slot is
/// zero whether active or not, so only the other slots are promised.
pub proof fn lemma_deactivate_then_not_activated(before: Tagset, after: Tagset, tag: u8)
    requires
        (tag as usize) < MAX_TAGS,
        after.0@ == before.0@.update(tag as int, 0),
    ensures
        tag != 0 ==> !after.activated_spec(tag),
        forall|i: int| 0 <= i < MAX_TAGS && i != tag ==> after.0@[i] == before.0@[i],
{
}

} // verus!

//! Correlation tags: every outbound message is minted a tag when it is
//! created, and the tag is echoed in the outcome event for that message.
//! Tags come from a minter that hands them out in strictly increasing order,
//! so no tag is ever reused.

use vstd::prelude::*;

verus! {

/// An opaque correlation identifier minted once per message and echoed in
/// every outcome event for that message.
#[derive(Clone, Copy, PartialEq, Eq, Structural, Debug, Hash)]
pub struct MessageTag {
    pub value: u64,
}

/// Mints tags in strictly increasing order, so every minted tag is distinct
/// from every tag minted before it.
pub struct TagMinter {
    next: u64,
}

impl TagMinter {
    /// The value the next minted tag will carry.
    pub closed spec fn next_tag(&self) -> u64 {
        self.next
    }

    pub fn new() -> (m: TagMinter)
        ensures
            m.next_tag() == 0,
    {
        TagMinter { next: 0 }
    }

    /// Whether another tag can still be minted.
    pub fn can_mint(&self) -> (r: bool)
        ensures
            r == (self.next_tag() < u64::MAX),
    {
        self.next < u64::MAX
    }

    /// Mints a fresh tag: it carries the minter's current counter, and the
    /// counter advances, so no later mint returns the same tag.
    pub fn mint(&mut self) -> (t: MessageTag)
        requires
            old(self).next_tag() < u64::MAX,
        ensures
            t.value == old(self).next_tag(),
            final(self).next_tag() == old(self).next_tag() + 1,
    {
        let t = MessageTag { value: self.next };
        self.next = self.next + 1;
        t
    }
}

/// Tags at consecutive values starting from `base`: the shape a run of
/// successive mints produces.
pub open spec fn tags_sequential_from(tags: Seq<MessageTag>, base: u64) -> bool {
    forall|i: int| 0 <= i < tags.len() ==> #[trigger] tags[i].value == base + i
}

/// Tags minted by successive mints are pairwise distinct.
pub proof fn lemma_sequential_tags_distinct(tags: Seq<MessageTag>, base: u64)
    requires
        tags_sequential_from(tags, base),
    ensures
        forall|i: int, j: int|
            0 <= i < tags.len() && 0 <= j < tags.len() && i != j ==> #[trigger] tags[i]
                != #[trigger] tags[j],
{
    assert forall|i: int, j: int|
        0 <= i < tags.len() && 0 <= j < tags.len() && i != j implies #[trigger] tags[i]
        != #[trigger] tags[j] by {
        assert(tags[i].value == base + i);
        assert(tags[j].value == base + j);
    }
}

} // verus!

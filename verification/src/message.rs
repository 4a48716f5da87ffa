//! The message data model: peer identifiers, flags, and the outbound and
//! inbound message records that the engine moves around.

use vstd::prelude::*;

use crate::tag::{MessageTag, TagMinter};

verus! {

/// Identifier of a peer node, an opaque byte string.
pub struct NodeId {
    pub bytes: Vec<u8>,
}

impl View for NodeId {
    type V = Seq<u8>;

    open spec fn view(&self) -> Seq<u8> {
        self.bytes@
    }
}

impl NodeId {
    pub fn new(bytes: Vec<u8>) -> (r: NodeId)
        ensures
            r@ == bytes@,
    {
        NodeId { bytes }
    }

    /// Byte-wise equality of peer identifiers.
    pub fn equals(&self, other: &NodeId) -> (r: bool)
        ensures
            r == (self@ == other@),
    {
        if self.bytes.len() != other.bytes.len() {
            assert(self@.len() != other@.len());
            return false;
        }
        let n: usize = self.bytes.len();
        let mut i: usize = 0;
        while i < n
            invariant
                0 <= i <= n,
                n == self.bytes.len() == other.bytes.len(),
                forall|k: int| 0 <= k < i ==> self@[k] == other@[k],
            decreases n - i,
        {
            if self.bytes[i] != other.bytes[i] {
                return false;
            }
            i = i + 1;
        }
        assert(self@ =~= other@);
        true
    }
}

impl Clone for NodeId {
    fn clone(&self) -> (r: NodeId)
        ensures
            r@ == self@,
    {
        NodeId { bytes: crate::bytesutil::copy_bytes(&self.bytes) }
    }
}

/// Per-message flags carried alongside the payload on the wire.
#[derive(Clone, Copy, PartialEq, Eq, Structural, Debug)]
pub struct MessageFlags {
    pub bits: u8,
}

impl MessageFlags {
    /// No flags set.
    pub fn none() -> (r: MessageFlags)
        ensures
            r.bits == 0,
    {
        MessageFlags { bits: 0 }
    }

    /// The payload is encrypted for the destination peer.
    pub fn encrypted() -> (r: MessageFlags)
        ensures
            r.bits == 1,
    {
        MessageFlags { bits: 1 }
    }
}

/// A message a caller submits for delivery: destination, flags, payload and
/// the tag minted at creation. It is consumed exactly once by the dispatcher
/// and never mutated after creation.
pub struct OutboundMessage {
    pub peer: NodeId,
    pub flags: MessageFlags,
    pub body: Vec<u8>,
    pub tag: MessageTag,
}

impl OutboundMessage {
    /// Creates a message for `peer`, minting it a fresh tag.
    pub fn new(minter: &mut TagMinter, peer: NodeId, flags: MessageFlags, body: Vec<u8>) -> (m:
        OutboundMessage)
        requires
            old(minter).next_tag() < u64::MAX,
        ensures
            m.tag.value == old(minter).next_tag(),
            final(minter).next_tag() == old(minter).next_tag() + 1,
            m.peer@ == peer@,
            m.flags == flags,
            m.body@ == body@,
    {
        let tag = minter.mint();
        OutboundMessage { peer, flags, body, tag }
    }
}

impl Clone for OutboundMessage {
    fn clone(&self) -> (r: OutboundMessage)
        ensures
            r.peer@ == self.peer@,
            r.flags == self.flags,
            r.body@ == self.body@,
            r.tag == self.tag,
    {
        OutboundMessage {
            peer: self.peer.clone(),
            flags: self.flags,
            body: crate::bytesutil::copy_bytes(&self.body),
            tag: self.tag,
        }
    }
}

/// A message received from a peer: source, flags, payload, and a tag freshly
/// minted on receipt. Handed by value to the inbound sink; the engine keeps
/// no copy.
pub struct InboundMessage {
    pub source: NodeId,
    pub flags: MessageFlags,
    pub body: Vec<u8>,
    pub tag: MessageTag,
}

} // verus!

//! The engine's record of the server's setup reply: the plain values the
//! protocol machinery reads from it. The full reply (vendor string, pixmap
//! formats, screen descriptions) stays with the embedding application; the
//! engine needs only the resource-id range, the advertised maximum request
//! length, and how many screens the server offers.

use vstd::prelude::*;

verus! {

/// What the engine keeps of the server's setup reply.
#[derive(Debug, Clone, Copy, PartialEq, Eq, Structural)]
pub struct Setup {
    /// Base value of the client's resource identifiers.
    pub resource_id_base: u32,
    /// Mask of the identifier bits the client may vary.
    pub resource_id_mask: u32,
    /// The server's maximum request length, in 4-byte words, before
    /// big-request negotiation.
    pub maximum_request_length: u16,
    /// How many screens (roots) the server advertises.
    pub roots_len: usize,
}

} // verus!

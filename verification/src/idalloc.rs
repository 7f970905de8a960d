//! Allocation of 32-bit resource identifiers from a server-assigned
//! base/mask range.
//!
//! The server's setup reply carries a `resource_id_base` and a
//! `resource_id_mask`; the client owns every identifier formed by combining
//! the base with a subset of the mask bits. The allocator walks that range in
//! steps of the mask's lowest set bit. When the range is exhausted it can be
//! handed a fresh range obtained from the server, after which allocation
//! resumes from the new range only.

use vstd::prelude::*;

use crate::errors::{ConnectError, ReplyOrIdError};

verus! {

/// Mathematical model of an allocator: the range cursor together with the
/// set of identifiers already handed out and still believed to be in use.
pub struct IdAllocatorModel {
    /// The identifier the next successful allocation returns.
    pub next_id: int,
    /// The largest identifier of the current range.
    pub max_id: int,
    /// Distance between two consecutively allocated identifiers.
    pub increment: int,
    /// Identifiers handed out from the current range.
    pub issued: Set<u32>,
}

impl IdAllocatorModel {
    /// Every identifier already issued lies strictly below the cursor, so a
    /// fresh allocation can never repeat one.
    pub open spec fn wf(self) -> bool {
        &&& 1 <= self.increment
        &&& forall|i: u32| self.issued.contains(i) ==> (i as int) < self.next_id
    }
}

/// An allocator for X11 resource identifiers.
pub struct IdAllocator {
    next_id: u64,
    max_id: u64,
    increment: u32,
    issued: Ghost<Set<u32>>,
}

impl View for IdAllocator {
    type V = IdAllocatorModel;

    closed spec fn view(&self) -> IdAllocatorModel {
        IdAllocatorModel {
            next_id: self.next_id as int,
            max_id: self.max_id as int,
            increment: self.increment as int,
            issued: self.issued@,
        }
    }
}

impl IdAllocator {
    /// Create an allocator from the `resource_id_base` and `resource_id_mask`
    /// values of the server's setup reply. A zero mask leaves the client no
    /// usable identifier bits and is rejected.
    pub fn new(id_base: u32, id_mask: u32) -> (r: Result<IdAllocator, ConnectError>)
        ensures
            match r {
                Ok(a) => {
                    &&& id_mask != 0
                    &&& a@.wf()
                    &&& a@.next_id == id_base as int
                    &&& a@.max_id == (id_base | id_mask) as int
                    &&& a@.increment == (id_mask & ((!id_mask + 1) as u32)) as int
                    &&& a@.issued == Set::<u32>::empty()
                },
                Err(e) => id_mask == 0 && e == ConnectError::ZeroIdMask,
            },
    {
        if id_mask == 0 {
            return Err(ConnectError::ZeroIdMask);
        }
        // The lowest set bit of the mask: adding one to the complement is the
        // two's-complement negation, which isolates that bit.
        assert(!id_mask <= 0xffff_fffeu32) by (bit_vector)
            requires id_mask != 0u32;
        let increment = id_mask & (!id_mask + 1u32);
        proof {
            assert(id_mask & ((!id_mask + 1) as u32) >= 1u32) by (bit_vector)
                requires id_mask != 0u32;
            assert(increment == (id_mask & ((!id_mask + 1) as u32)));
        }
        Ok(IdAllocator {
            next_id: id_base as u64,
            max_id: (id_base | id_mask) as u64,
            increment,
            issued: Ghost(Set::empty()),
        })
    }

    /// Hand out the next identifier of the current range, or report that the
    /// range is exhausted.
    pub fn generate_id(&mut self) -> (r: Option<u32>)
        requires
            old(self)@.wf(),
        ensures
            final(self)@.wf(),
            final(self)@.max_id == old(self)@.max_id,
            final(self)@.increment == old(self)@.increment,
            match r {
                Some(id) => {
                    &&& old(self)@.next_id <= old(self)@.max_id
                    &&& old(self)@.next_id <= u32::MAX as int
                    &&& id as int == old(self)@.next_id
                    &&& !old(self)@.issued.contains(id)
                    &&& final(self)@.issued == old(self)@.issued.insert(id)
                    &&& final(self)@.next_id == old(self)@.next_id + old(self)@.increment
                },
                None => {
                    &&& final(self)@ == old(self)@
                    &&& (old(self)@.next_id > old(self)@.max_id
                        || old(self)@.next_id > u32::MAX as int)
                },
            },
    {
        if self.next_id > self.max_id || self.next_id > 0xffff_ffffu64 {
            return None;
        }
        let id = self.next_id as u32;
        self.next_id = self.next_id + self.increment as u64;
        proof {
            self.issued@ = self.issued@.insert(id);
            assert forall|i: u32| self.issued@.contains(i) implies (
            i as int) < self.next_id as int by {
                if i != id {
                    assert(old(self)@.issued.contains(i));
                }
            }
        }
        Some(id)
    }

    /// Install a fresh range obtained from the server. `(0, 1)` is how the
    /// server signals that it is itself out of identifiers, and a zero count
    /// carries no identifier at all; both leave the allocator unchanged.
    /// Identifiers of the abandoned range are no longer considered in use.
    pub fn update_xid_range(&mut self, start_id: u32, count: u32) -> (r: Result<
        (),
        ReplyOrIdError,
    >)
        requires
            old(self)@.wf(),
        ensures
            final(self)@.wf(),
            match r {
                Ok(()) => {
                    &&& !((start_id == 0 && count == 1) || count == 0)
                    &&& final(self)@.next_id == start_id as int
                    &&& final(self)@.max_id == start_id as int + (count - 1) * old(self)@.increment
                    &&& final(self)@.increment == old(self)@.increment
                    &&& final(self)@.issued == Set::<u32>::empty()
                },
                Err(e) => {
                    &&& ((start_id == 0 && count == 1) || count == 0)
                    &&& e == ReplyOrIdError::IdsExhausted
                    &&& final(self)@ == old(self)@
                },
            },
    {
        if (start_id == 0 && count == 1) || count == 0 {
            return Err(ReplyOrIdError::IdsExhausted);
        }
        let stride: u64 = count as u64 - 1;
        proof {
            assert(stride * self.increment as u64 <= 0xffff_fffeu64 * 0xffff_ffffu64)
                by (nonlinear_arith)
                requires
                    stride <= 0xffff_fffeu64,
                    self.increment as u64 <= 0xffff_ffffu64,
            ;
        }
        let span: u64 = stride * self.increment as u64;
        self.next_id = start_id as u64;
        self.max_id = start_id as u64 + span;
        proof {
            self.issued@ = Set::empty();
        }
        Ok(())
    }
}

/// Law: an allocator never hands out an identifier it still believes to be
/// in use. The identifier a successful allocation returns is the range
/// cursor, and every issued identifier lies strictly below the cursor.
pub proof fn lemma_generated_id_is_fresh(m: IdAllocatorModel, id: u32)
    requires
        m.wf(),
        id as int == m.next_id,
    ensures
        !m.issued.contains(id),
{
}

/// The allocator's cursor after `k` further successful allocations: each
/// allocation hands out the cursor and advances it by the increment.
pub open spec fn cursor_after(m: IdAllocatorModel, k: nat) -> int {
    m.next_id + k * m.increment
}

/// Law: allocation draws from the current range only, moving upward. After
/// a range update puts the cursor at the new range's start, the identifier
/// handed out by the k-th following allocation is the cursor advanced k
/// steps: never below the start, and strictly above its predecessor — so
/// nothing below the new range is ever handed out again in this epoch.
pub proof fn lemma_new_range_only(m: IdAllocatorModel, k: nat)
    requires
        m.wf(),
    ensures
        cursor_after(m, k) >= m.next_id,
        k > 0 ==> cursor_after(m, k) > cursor_after(m, (k - 1) as nat),
{
    assert(k * m.increment >= 0) by (nonlinear_arith)
        requires m.increment >= 1, k >= 0,
    ;
    if k > 0 {
        assert(k * m.increment == (k - 1) as nat * m.increment + m.increment)
            by (nonlinear_arith)
            requires k >= 1,
        ;
    }
}

} // verus!

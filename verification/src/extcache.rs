//! The extension-information cache.
//!
//! Per extension name the connection remembers whether a presence query is in
//! flight (`Pending` with its sequence number) or answered (`Resolved`, with
//! the extension's opcode information when the server has it). A name that
//! was never asked about has no entry. Entries are append-only and the newest
//! entry for a name is authoritative, so a state transition is a single push.

use vstd::prelude::*;

verus! {

/// Opcode information of a present extension.
#[derive(Debug, Clone, Copy, PartialEq, Eq, Structural)]
pub struct ExtensionInfo {
    /// The extension's major opcode, used as the opcode byte of its requests.
    pub major_opcode: u8,
    /// The number of the extension's first event.
    pub first_event: u8,
    /// The number of the extension's first error.
    pub first_error: u8,
}

/// What the cache knows about one extension name.
#[derive(Debug, Clone, Copy, PartialEq, Eq, Structural)]
pub enum ExtensionState {
    /// A presence query was dispatched with this sequence number and its
    /// reply is still outstanding.
    Pending(u64),
    /// The query was answered: `None` means the server lacks the extension.
    Resolved(Option<ExtensionInfo>),
}

/// What the cache answers for `name`: the newest entry for that name, if any.
pub open spec fn lookup(entries: Seq<(Vec<u8>, ExtensionState)>, name: Seq<u8>) -> Option<
    ExtensionState,
>
    decreases entries.len(),
{
    if entries.len() == 0 {
        None
    } else if entries.last().0@ == name {
        Some(entries.last().1)
    } else {
        lookup(entries.drop_last(), name)
    }
}

/// The per-connection extension cache.
pub struct ExtensionCache {
    entries: Vec<(Vec<u8>, ExtensionState)>,
}

impl View for ExtensionCache {
    type V = Seq<(Vec<u8>, ExtensionState)>;

    closed spec fn view(&self) -> Seq<(Vec<u8>, ExtensionState)> {
        self.entries@
    }
}

/// Whether the bytes of `a` and `b` are equal.
fn bytes_eq(a: &Vec<u8>, b: &Vec<u8>) -> (r: bool)
    ensures
        r == (a@ == b@),
{
    if a.len() != b.len() {
        proof {
            assert(a@ != b@);
        }
        return false;
    }
    let mut i: usize = 0;
    while i < a.len()
        invariant
            i <= a@.len(),
            a@.len() == b@.len(),
            forall|j: int| 0 <= j < i ==> a@[j] == b@[j],
        decreases a@.len() - i,
    {
        if a[i] != b[i] {
            return false;
        }
        i = i + 1;
    }
    proof {
        assert(a@ =~= b@);
    }
    true
}

impl ExtensionCache {
    /// A cache that knows nothing yet.
    pub fn new() -> (r: ExtensionCache)
        ensures
            r@ == Seq::<(Vec<u8>, ExtensionState)>::empty(),
    {
        ExtensionCache { entries: Vec::new() }
    }

    /// What the cache knows about `name`.
    pub fn get(&self, name: &Vec<u8>) -> (r: Option<ExtensionState>)
        ensures
            r == lookup(self@, name@),
    {
        let mut i: usize = self.entries.len();
        proof {
            assert(self@.take(i as int) =~= self@);
        }
        while i > 0
            invariant
                i <= self@.len(),
                lookup(self@, name@) == lookup(self@.take(i as int), name@),
            decreases i,
        {
            i = i - 1;
            proof {
                assert(self@.take(i + 1).last() == self@[i as int]);
                assert(self@.take(i + 1).drop_last() =~= self@.take(i as int));
            }
            if bytes_eq(&self.entries[i].0, name) {
                return Some(self.entries[i].1);
            }
        }
        proof {
            assert(self@.take(0).len() == 0);
        }
        None
    }

    /// Record a new state for `name`; it shadows whatever was known before.
    pub fn set(&mut self, name: Vec<u8>, state: ExtensionState)
        ensures
            lookup(final(self)@, name@) == Some(state),
            forall|other: Seq<u8>| other != name@ ==> lookup(final(self)@, other) == lookup(
                old(self)@,
                other,
            ),
            final(self)@.len() == old(self)@.len() + 1,
    {
        let ghost pre = self.entries@;
        let ghost n = name@;
        let ghost st = state;
        self.entries.push((name, state));
        proof {
            assert(self.entries@.last().0@ == n);
            assert(self.entries@.drop_last() =~= pre);
        }
    }
}

} // verus!

//! A multi-approver action-authorization state machine.
//!
//! An authority freezes a set of approver identities and a threshold in a
//! `Blueprint` record; anyone may register a `Proposal` (a commitment to an
//! off-ledger action identified by a payload hash); each approver may approve
//! a proposal at most once; once approvals reach the threshold the proposal
//! may be transitioned, exactly once, to a terminal executed state.
//!
//! Records live in addressable storage slots whose addresses are derived
//! deterministically from seeds under the program identity. The library holds
//! the deterministic binary codec, the record invariants, and the transition
//! logic of the four handlers; performing the resulting storage effects is
//! left to the embedding runtime.

use vstd::prelude::*;

pub mod codec;
pub mod error;
pub mod instruction;
pub mod laws;
pub mod pda;
pub mod processor;
pub mod state;

verus! {

/// Number of bytes in a public identity (a key) and in a payload hash.
pub const KEY_LEN: usize = 32;

/// A byte string is a key when it is exactly `KEY_LEN` bytes long.
pub open spec fn is_key(s: Seq<u8>) -> bool {
    s.len() == KEY_LEN
}

/// Byte-for-byte equality of two byte vectors.
pub fn bytes_equal(a: &Vec<u8>, b: &Vec<u8>) -> (r: bool)
    ensures
        r == (a@ == b@),
{
    if a.len() != b.len() {
        return false;
    }
    let mut i: usize = 0;
    while i < a.len()
        invariant
            i <= a.len(),
            a@.len() == b@.len(),
            forall|j: int| 0 <= j < i ==> a@[j] == b@[j],
        decreases a.len() - i,
    {
        if a[i] != b[i] {
            return false;
        }
        i += 1;
    }
    proof {
        assert(a@ =~= b@);
    }
    true
}

} // verus!

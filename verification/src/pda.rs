//! Derivation of stable per-entity slot addresses from seeds.
//!
//! The runtime provides a deterministic primitive that maps a seed list and
//! the program identity to a derived address together with a one-byte bump
//! witness; the program only ever compares the derived address to a supplied
//! slot address and hands the seeds, bump appended, on as signing material.

use vstd::prelude::*;

use crate::KEY_LEN;
use crate::codec::write_bytes;

verus! {

/// What the runtime's derivation primitive returns for a seed list under a
/// program identity: the derived address and its bump witness, or nothing in
/// the statistically improbable event that no bump works, and whenever a
/// seed is over-long or the list over-large. A function of its arguments
/// alone.
pub uninterp spec fn derive_of(seeds: Seq<Seq<u8>>, program_id: Seq<u8>) -> Option<(Seq<u8>, u8)>;

/// The seed tag of a blueprint slot: the bytes of "blueprint".
pub open spec fn blueprint_tag() -> Seq<u8> {
    seq![98u8, 108u8, 117u8, 101u8, 112u8, 114u8, 105u8, 110u8, 116u8]
}

/// The seed tag of a proposal slot: the bytes of "proposal".
pub open spec fn proposal_tag() -> Seq<u8> {
    seq![112u8, 114u8, 111u8, 112u8, 111u8, 115u8, 97u8, 108u8]
}

/// The defining seeds of a blueprint slot.
pub open spec fn blueprint_seeds(authority: Seq<u8>) -> Seq<Seq<u8>> {
    seq![blueprint_tag(), authority]
}

/// The defining seeds of a proposal slot.
pub open spec fn proposal_seeds(blueprint_addr: Seq<u8>, payload_hash: Seq<u8>) -> Seq<Seq<u8>> {
    seq![proposal_tag(), blueprint_addr, payload_hash]
}

/// Relies on solana_program's `Pubkey::try_find_program_address`: the result
/// is computed from the seed bytes and the program identity alone, never
/// panics, and a returned address is exactly 32 bytes.
#[verifier::external_body]
pub(crate) fn derive_address(seeds: &Vec<Vec<u8>>, program_id: &Vec<u8>) -> (r: Option<
    (Vec<u8>, u8),
>)
    requires
        program_id@.len() == KEY_LEN,
    ensures
        match r {
            Some((addr, bump)) => derive_of(seeds.deep_view(), program_id@) == Some((addr@, bump))
                && addr@.len() == KEY_LEN,
            None => derive_of(seeds.deep_view(), program_id@) is None,
        },
{
    let pid = solana_program::pubkey::Pubkey::new_from_array(
        program_id.as_slice().try_into().unwrap(),
    );
    let refs: Vec<&[u8]> = seeds.iter().map(|s| s.as_slice()).collect();
    match solana_program::pubkey::Pubkey::try_find_program_address(&refs, &pid) {
        Some((addr, bump)) => Some((addr.to_bytes().to_vec(), bump)),
        None => None,
    }
}

/// Builds the bytes of the blueprint seed tag.
fn blueprint_tag_bytes() -> (r: Vec<u8>)
    ensures
        r@ == blueprint_tag(),
{
    let mut v: Vec<u8> = Vec::new();
    v.push(98);
    v.push(108);
    v.push(117);
    v.push(101);
    v.push(112);
    v.push(114);
    v.push(105);
    v.push(110);
    v.push(116);
    proof {
        assert(v@ =~= blueprint_tag());
    }
    v
}

/// Builds the bytes of the proposal seed tag.
fn proposal_tag_bytes() -> (r: Vec<u8>)
    ensures
        r@ == proposal_tag(),
{
    let mut v: Vec<u8> = Vec::new();
    v.push(112);
    v.push(114);
    v.push(111);
    v.push(112);
    v.push(111);
    v.push(115);
    v.push(97);
    v.push(108);
    proof {
        assert(v@ =~= proposal_tag());
    }
    v
}

/// Copies a byte vector.
pub(crate) fn copy_bytes(src: &Vec<u8>) -> (r: Vec<u8>)
    ensures
        r@ == src@,
{
    let mut v: Vec<u8> = Vec::new();
    write_bytes(&mut v, src);
    v
}

/// Builds the defining seeds of a blueprint slot.
pub(crate) fn blueprint_seed_vec(authority: &Vec<u8>) -> (r: Vec<Vec<u8>>)
    ensures
        r.deep_view() == blueprint_seeds(authority@),
{
    let mut seeds: Vec<Vec<u8>> = Vec::new();
    seeds.push(blueprint_tag_bytes());
    seeds.push(copy_bytes(authority));
    proof {
        assert(seeds.deep_view() =~~= blueprint_seeds(authority@));
    }
    seeds
}

/// Builds the defining seeds of a proposal slot.
pub(crate) fn proposal_seed_vec(blueprint_addr: &Vec<u8>, payload_hash: &Vec<u8>) -> (r: Vec<
    Vec<u8>,
>)
    ensures
        r.deep_view() == proposal_seeds(blueprint_addr@, payload_hash@),
{
    let mut seeds: Vec<Vec<u8>> = Vec::new();
    seeds.push(proposal_tag_bytes());
    seeds.push(copy_bytes(blueprint_addr));
    seeds.push(copy_bytes(payload_hash));
    proof {
        assert(seeds.deep_view() =~~= proposal_seeds(blueprint_addr@, payload_hash@));
    }
    seeds
}

} // verus!

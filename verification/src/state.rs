//! The two entity kinds, their invariants, and their stored encodings.
//!
//! A `Blueprint` freezes an authority, an ordered approver set and a
//! threshold; a `Proposal` commits to an action under a blueprint and
//! gathers approvals. Each is stored as its canonical encoding; a reader
//! stops at the schema-implied length and ignores trailing slot padding.

use vstd::prelude::*;

use crate::KEY_LEN;
use crate::is_key;
use crate::codec::all_keys;
use crate::codec::bool_byte;
use crate::codec::keys_bytes;
use crate::codec::le16;
use crate::codec::le32;
use crate::codec::lemma_bytes_of_le32;
use crate::codec::lemma_keys_bytes_len;
use crate::codec::lemma_keys_bytes_push;
use crate::codec::lemma_parse_keys_exact;
use crate::codec::lemma_parse_keys_of_bytes;
use crate::codec::parse_keys;
use crate::codec::read_key;
use crate::codec::read_keys;
use crate::codec::read_u16;
use crate::codec::read_u32;
use crate::codec::u16_bytes;
use crate::codec::u32_bytes;
use crate::codec::write_bytes;
use crate::codec::write_u16;
use crate::codec::write_u32;

verus! {

/// The most approvers a blueprint may enumerate.
pub const MAX_APPROVERS: usize = 255;

/// Configuration record: an authority, its frozen approver set, and the
/// approval threshold.
pub struct Blueprint {
    /// The 32-byte identity that created the blueprint.
    pub authority: Vec<u8>,
    /// The ordered 32-byte approver identities.
    pub approvers: Vec<Vec<u8>>,
    /// How many distinct approvals execution requires.
    pub threshold: u8,
}

/// The mathematical value of a `Blueprint`.
pub ghost struct BlueprintV {
    pub authority: Seq<u8>,
    pub approvers: Seq<Seq<u8>>,
    pub threshold: u8,
}

impl View for Blueprint {
    type V = BlueprintV;

    open spec fn view(&self) -> BlueprintV {
        BlueprintV {
            authority: self.authority@,
            approvers: self.approvers.deep_view(),
            threshold: self.threshold,
        }
    }
}

/// A candidate action under a blueprint, identified by a payload hash.
pub struct Proposal {
    /// Address of the parent blueprint's slot.
    pub blueprint: Vec<u8>,
    /// Identity that registered the proposal; recorded, never authorizing.
    pub proposer: Vec<u8>,
    /// Opaque 16-bit action tag.
    pub action_type: u16,
    /// 32-byte digest of the off-ledger action.
    pub payload_hash: Vec<u8>,
    /// Identities that approved so far, in approval order.
    pub approvals: Vec<Vec<u8>>,
    /// Whether the proposal reached its terminal executed state.
    pub executed: bool,
}

/// The mathematical value of a `Proposal`.
pub ghost struct ProposalV {
    pub blueprint: Seq<u8>,
    pub proposer: Seq<u8>,
    pub action_type: u16,
    pub payload_hash: Seq<u8>,
    pub approvals: Seq<Seq<u8>>,
    pub executed: bool,
}

impl View for Proposal {
    type V = ProposalV;

    open spec fn view(&self) -> ProposalV {
        ProposalV {
            blueprint: self.blueprint@,
            proposer: self.proposer@,
            action_type: self.action_type,
            payload_hash: self.payload_hash@,
            approvals: self.approvals.deep_view(),
            executed: self.executed,
        }
    }
}

/// The blueprint's fields have the shape the schema stores: 32-byte keys and
/// a bounded approver list.
pub open spec fn blueprint_shaped(b: BlueprintV) -> bool {
    &&& is_key(b.authority)
    &&& b.approvers.len() <= MAX_APPROVERS
    &&& all_keys(b.approvers)
}

/// The blueprint invariant: shaped, with a threshold its approver set can
/// satisfy.
pub open spec fn wf_blueprint(b: BlueprintV) -> bool {
    &&& blueprint_shaped(b)
    &&& 1 <= b.threshold <= b.approvers.len()
}

/// The proposal's fields have the shape the schema stores.
pub open spec fn proposal_shaped(p: ProposalV) -> bool {
    &&& is_key(p.blueprint)
    &&& is_key(p.proposer)
    &&& is_key(p.payload_hash)
    &&& p.approvals.len() <= MAX_APPROVERS
    &&& all_keys(p.approvals)
}

/// The proposal invariant relative to its parent blueprint: shaped, no
/// identity approves twice, and every approval is by a blueprint approver.
pub open spec fn wf_proposal(p: ProposalV, b: BlueprintV) -> bool {
    &&& proposal_shaped(p)
    &&& p.approvals.no_duplicates()
    &&& forall|i: int| 0 <= i < p.approvals.len() ==> b.approvers.contains(#[trigger] p.approvals[i])
}

/// The canonical encoding of a blueprint.
pub open spec fn enc_blueprint(b: BlueprintV) -> Seq<u8> {
    b.authority + u32_bytes(b.approvers.len() as u32) + keys_bytes(b.approvers) + seq![b.threshold]
}

/// Parses a blueprint from the front of `s`; trailing bytes are ignored.
/// Returns the value and the number of bytes consumed.
pub open spec fn parse_blueprint(s: Seq<u8>) -> Option<(BlueprintV, int)> {
    if s.len() < 36 {
        None
    } else {
        let n = le32(s[32], s[33], s[34], s[35]);
        if n > MAX_APPROVERS {
            None
        } else {
            match parse_keys(s.skip(36), n as nat) {
                Some((ks, c)) => if s.len() >= 37 + c {
                    Some(
                        (
                            BlueprintV {
                                authority: s.take(32),
                                approvers: ks,
                                threshold: s[36 + c],
                            },
                            37 + c,
                        ),
                    )
                } else {
                    None
                },
                None => None,
            }
        }
    }
}

/// The canonical encoding of a proposal.
pub open spec fn enc_proposal(p: ProposalV) -> Seq<u8> {
    p.blueprint + p.proposer + u16_bytes(p.action_type) + p.payload_hash + u32_bytes(
        p.approvals.len() as u32,
    ) + keys_bytes(p.approvals) + seq![bool_byte(p.executed)]
}

/// Parses a proposal from the front of `s`; trailing bytes are ignored.
/// The executed byte must be zero or one.
pub open spec fn parse_proposal(s: Seq<u8>) -> Option<(ProposalV, int)> {
    if s.len() < 102 {
        None
    } else {
        let m = le32(s[98], s[99], s[100], s[101]);
        if m > MAX_APPROVERS {
            None
        } else {
            match parse_keys(s.skip(102), m as nat) {
                Some((ks, c)) => if s.len() >= 103 + c && (s[102 + c] == 0 || s[102 + c] == 1) {
                    Some(
                        (
                            ProposalV {
                                blueprint: s.take(32),
                                proposer: s.subrange(32, 64),
                                action_type: le16(s[64], s[65]),
                                payload_hash: s.subrange(66, 98),
                                approvals: ks,
                                executed: s[102 + c] == 1,
                            },
                            103 + c,
                        ),
                    )
                } else {
                    None
                },
                None => None,
            }
        }
    }
}

/// A reader stops at the schema-implied length: parsing a blueprint's
/// encoding with any trailing bytes after it yields the blueprint back and
/// consumes exactly the encoding.
pub proof fn lemma_blueprint_parse_ignores_trailing(b: BlueprintV, tail: Seq<u8>)
    requires
        blueprint_shaped(b),
    ensures
        enc_blueprint(b).len() == 37 + KEY_LEN * b.approvers.len(),
        parse_blueprint(enc_blueprint(b) + tail) == Some((b, enc_blueprint(b).len() as int)),
{
    let s = enc_blueprint(b) + tail;
    let n = b.approvers.len();
    lemma_keys_bytes_len(b.approvers);
    lemma_bytes_of_le32(s[32], s[33], s[34], s[35]);
    assert(seq![s[32], s[33], s[34], s[35]] =~= u32_bytes(n as u32));
    assert(le32(s[32], s[33], s[34], s[35]) == n as u32);
    assert(s.take(32) =~= b.authority);
    assert(s.skip(36) =~= keys_bytes(b.approvers) + (seq![b.threshold] + tail));
    lemma_parse_keys_of_bytes(b.approvers, seq![b.threshold] + tail);
    assert(s[36 + KEY_LEN * n] == b.threshold);
}

/// Decoding the encoding of a shaped blueprint gives the blueprint back and
/// consumes every byte: the first round-trip direction.
pub proof fn lemma_blueprint_round_trip(b: BlueprintV)
    requires
        blueprint_shaped(b),
    ensures
        enc_blueprint(b).len() == 37 + KEY_LEN * b.approvers.len(),
        parse_blueprint(enc_blueprint(b)) == Some((b, enc_blueprint(b).len() as int)),
{
    lemma_blueprint_parse_ignores_trailing(b, Seq::empty());
    assert(enc_blueprint(b) + Seq::<u8>::empty() =~= enc_blueprint(b));
}

/// A successful blueprint parse is shaped, consumed at least the header, and
/// re-encodes to exactly the bytes consumed: the second round-trip direction.
pub proof fn lemma_blueprint_canonical(s: Seq<u8>)
    requires
        parse_blueprint(s) is Some,
    ensures
        match parse_blueprint(s) {
            Some((b, c)) => {
                &&& blueprint_shaped(b)
                &&& c == 37 + KEY_LEN * b.approvers.len()
                &&& 37 <= c <= s.len()
                &&& enc_blueprint(b) == s.take(c)
            },
            None => false,
        },
{
    let n = le32(s[32], s[33], s[34], s[35]);
    lemma_parse_keys_exact(s.skip(36), n as nat);
    match parse_blueprint(s) {
        Some((b, c)) => {
            lemma_bytes_of_le32(s[32], s[33], s[34], s[35]);
            assert(b.approvers.len() as u32 == n);
            assert(keys_bytes(b.approvers) == s.skip(36).take(KEY_LEN * n as int));
            assert(enc_blueprint(b) =~= s.take(c)) by {
                assert(forall|i: int|
                    0 <= i < KEY_LEN * n as int ==> #[trigger] s.skip(36).take(KEY_LEN * n as int)[i]
                        == s[36 + i]);
            }
        },
        None => {},
    }
}

/// A reader stops at the schema-implied length: parsing a proposal's
/// encoding with any trailing bytes after it, the reserved slot padding in
/// particular, yields the proposal back and consumes exactly the encoding.
pub proof fn lemma_proposal_parse_ignores_trailing(p: ProposalV, tail: Seq<u8>)
    requires
        proposal_shaped(p),
    ensures
        enc_proposal(p).len() == 103 + KEY_LEN * p.approvals.len(),
        parse_proposal(enc_proposal(p) + tail) == Some((p, enc_proposal(p).len() as int)),
{
    let s = enc_proposal(p) + tail;
    let m = p.approvals.len();
    lemma_keys_bytes_len(p.approvals);
    lemma_bytes_of_le32(s[98], s[99], s[100], s[101]);
    assert(seq![s[98], s[99], s[100], s[101]] =~= u32_bytes(m as u32));
    assert(le32(s[98], s[99], s[100], s[101]) == m as u32);
    assert(s.take(32) =~= p.blueprint);
    assert(s.subrange(32, 64) =~= p.proposer);
    assert(seq![s[64], s[65]] =~= u16_bytes(p.action_type));
    crate::codec::lemma_le16_of_bytes(p.action_type);
    assert(s.subrange(66, 98) =~= p.payload_hash);
    assert(s.skip(102) =~= keys_bytes(p.approvals) + (seq![bool_byte(p.executed)] + tail));
    lemma_parse_keys_of_bytes(p.approvals, seq![bool_byte(p.executed)] + tail);
    assert(s[102 + KEY_LEN * m] == bool_byte(p.executed));
}

/// Decoding the encoding of a shaped proposal gives the proposal back and
/// consumes every byte: the first round-trip direction.
pub proof fn lemma_proposal_round_trip(p: ProposalV)
    requires
        proposal_shaped(p),
    ensures
        enc_proposal(p).len() == 103 + KEY_LEN * p.approvals.len(),
        parse_proposal(enc_proposal(p)) == Some((p, enc_proposal(p).len() as int)),
{
    lemma_proposal_parse_ignores_trailing(p, Seq::empty());
    assert(enc_proposal(p) + Seq::<u8>::empty() =~= enc_proposal(p));
}

/// Encodes a blueprint canonically.
pub fn encode_blueprint(b: &Blueprint) -> (r: Vec<u8>)
    requires
        blueprint_shaped(b@),
    ensures
        r@ == enc_blueprint(b@),
        r@.len() == 37 + KEY_LEN * b@.approvers.len(),
{
    let mut out: Vec<u8> = Vec::new();
    write_bytes(&mut out, &b.authority);
    write_u32(&mut out, b.approvers.len() as u32);
    let ghost header = b@.authority + u32_bytes(b@.approvers.len() as u32);
    let mut k: usize = 0;
    while k < b.approvers.len()
        invariant
            k <= b@.approvers.len(),
            blueprint_shaped(b@),
            out@ == header + keys_bytes(b@.approvers.take(k as int)),
        decreases b@.approvers.len() - k,
    {
        write_bytes(&mut out, &b.approvers[k]);
        proof {
            lemma_keys_bytes_push(b@.approvers.take(k as int), b@.approvers[k as int]);
            assert(b@.approvers.take(k as int).push(b@.approvers[k as int]) =~~= b@.approvers.take(
                k as int + 1,
            ));
        }
        k += 1;
    }
    proof {
        assert(b@.approvers.take(b@.approvers.len() as int) =~~= b@.approvers);
        lemma_keys_bytes_len(b@.approvers);
    }
    out.push(b.threshold);
    proof {
        assert(out@ =~= enc_blueprint(b@));
    }
    out
}

/// Encodes a proposal canonically.
pub fn encode_proposal(p: &Proposal) -> (r: Vec<u8>)
    requires
        proposal_shaped(p@),
    ensures
        r@ == enc_proposal(p@),
        r@.len() == 103 + KEY_LEN * p@.approvals.len(),
{
    let mut out: Vec<u8> = Vec::new();
    write_bytes(&mut out, &p.blueprint);
    write_bytes(&mut out, &p.proposer);
    write_u16(&mut out, p.action_type);
    write_bytes(&mut out, &p.payload_hash);
    write_u32(&mut out, p.approvals.len() as u32);
    let ghost header = p@.blueprint + p@.proposer + u16_bytes(p@.action_type) + p@.payload_hash
        + u32_bytes(p@.approvals.len() as u32);
    let mut k: usize = 0;
    while k < p.approvals.len()
        invariant
            k <= p@.approvals.len(),
            proposal_shaped(p@),
            out@ == header + keys_bytes(p@.approvals.take(k as int)),
        decreases p@.approvals.len() - k,
    {
        write_bytes(&mut out, &p.approvals[k]);
        proof {
            lemma_keys_bytes_push(p@.approvals.take(k as int), p@.approvals[k as int]);
            assert(p@.approvals.take(k as int).push(p@.approvals[k as int]) =~~= p@.approvals.take(
                k as int + 1,
            ));
        }
        k += 1;
    }
    proof {
        assert(p@.approvals.take(p@.approvals.len() as int) =~~= p@.approvals);
        lemma_keys_bytes_len(p@.approvals);
    }
    out.push(if p.executed {
        1
    } else {
        0
    });
    proof {
        assert(out@ =~= enc_proposal(p@));
    }
    out
}

/// Decodes a blueprint from the front of a slot's bytes, ignoring trailing
/// padding; returns the record and how many bytes the record occupies.
pub fn decode_blueprint(data: &Vec<u8>) -> (r: Option<(Blueprint, usize)>)
    ensures
        match r {
            Some((b, c)) => {
                &&& parse_blueprint(data@) == Some((b@, c as int))
                &&& blueprint_shaped(b@)
                &&& 37 <= c <= data@.len()
            },
            None => parse_blueprint(data@) is None,
        },
{
    let n_data: usize = data.len();
    if n_data < 36 {
        return None;
    }
    let count: u32 = read_u32(data, 32);
    if count > MAX_APPROVERS as u32 {
        return None;
    }
    match read_keys(data, 36, count) {
        None => None,
        Some((ks, end)) => {
            proof {
                lemma_parse_keys_exact(data@.skip(36), count as nat);
            }
            if end >= n_data {
                return None;
            }
            let threshold = data[end];
            let authority = read_key(data, 0);
            proof {
                assert(authority@ =~= data@.take(32));
            }
            Some((Blueprint { authority, approvers: ks, threshold }, end + 1))
        },
    }
}

/// Decodes a proposal from the front of a slot's bytes, ignoring trailing
/// padding; returns the record and how many bytes the record occupies.
pub fn decode_proposal(data: &Vec<u8>) -> (r: Option<(Proposal, usize)>)
    ensures
        match r {
            Some((p, c)) => {
                &&& parse_proposal(data@) == Some((p@, c as int))
                &&& proposal_shaped(p@)
                &&& 103 <= c <= data@.len()
            },
            None => parse_proposal(data@) is None,
        },
{
    let n_data: usize = data.len();
    if n_data < 102 {
        return None;
    }
    let count: u32 = read_u32(data, 98);
    if count > MAX_APPROVERS as u32 {
        return None;
    }
    match read_keys(data, 102, count) {
        None => None,
        Some((ks, end)) => {
            proof {
                lemma_parse_keys_exact(data@.skip(102), count as nat);
            }
            if end >= n_data {
                return None;
            }
            let flag = data[end];
            if flag > 1 {
                return None;
            }
            let blueprint = read_key(data, 0);
            let proposer = read_key(data, 32);
            let action_type = read_u16(data, 64);
            let payload_hash = read_key(data, 66);
            proof {
                assert(blueprint@ =~= data@.take(32));
                assert(proposer@ =~= data@.subrange(32, 64));
                assert(payload_hash@ =~= data@.subrange(66, 98));
            }
            Some(
                (
                    Proposal {
                        blueprint,
                        proposer,
                        action_type,
                        payload_hash,
                        approvals: ks,
                        executed: flag == 1,
                    },
                    end + 1,
                ),
            )
        },
    }
}

/// A successful proposal parse is shaped, and re-encodes to exactly the
/// bytes consumed: the second round-trip direction.
pub proof fn lemma_proposal_canonical(s: Seq<u8>)
    requires
        parse_proposal(s) is Some,
    ensures
        match parse_proposal(s) {
            Some((p, c)) => {
                &&& proposal_shaped(p)
                &&& c == 103 + KEY_LEN * p.approvals.len()
                &&& 103 <= c <= s.len()
                &&& enc_proposal(p) == s.take(c)
            },
            None => false,
        },
{
    let m = le32(s[98], s[99], s[100], s[101]);
    lemma_parse_keys_exact(s.skip(102), m as nat);
    match parse_proposal(s) {
        Some((p, c)) => {
            lemma_bytes_of_le32(s[98], s[99], s[100], s[101]);
            crate::codec::lemma_bytes_of_le16(s[64], s[65]);
            assert(p.approvals.len() as u32 == m);
            assert(keys_bytes(p.approvals) == s.skip(102).take(KEY_LEN * m as int));
            assert(enc_proposal(p) =~= s.take(c)) by {
                assert(forall|i: int|
                    0 <= i < KEY_LEN * m as int ==> #[trigger] s.skip(102).take(
                        KEY_LEN * m as int,
                    )[i] == s[102 + i]);
            }
        },
        None => {},
    }
}

} // verus!

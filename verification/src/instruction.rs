//! The tagged command that the dispatch surface decodes.
//!
//! A command is a 32-bit little-endian tag followed by the variant's fields
//! in declaration order; the whole input must be consumed, or the command is
//! malformed.

use vstd::prelude::*;

use crate::KEY_LEN;
use crate::codec::all_keys;
use crate::codec::keys_bytes;
use crate::codec::le16;
use crate::codec::le32;
use crate::codec::lemma_bytes_of_le32;
use crate::codec::lemma_keys_bytes_len;
use crate::codec::lemma_keys_bytes_push;
use crate::codec::lemma_parse_keys_exact;
use crate::codec::lemma_parse_keys_of_bytes;
use crate::codec::parse_keys;
use crate::codec::read_key;
use crate::codec::read_keys;
use crate::codec::read_u16;
use crate::codec::read_u32;
use crate::codec::u16_bytes;
use crate::codec::u32_bytes;
use crate::codec::write_bytes;
use crate::codec::write_u16;
use crate::codec::write_u32;
use crate::state::MAX_APPROVERS;

verus! {

/// One command to the program.
#[derive(Debug, PartialEq, Eq)]
pub enum BlueprintInstruction {
    /// Create a blueprint bound to the signing authority.
    InitializeBlueprint { approvers: Vec<Vec<u8>>, threshold: u8 },
    /// Register a proposal under a blueprint.
    ProposeAction { action_type: u16, payload_hash: Vec<u8> },
    /// Append the signing approver to a proposal's approvals.
    ApproveAction,
    /// Transition a proposal to its terminal executed state.
    ExecuteAction,
}

/// The mathematical value of a command.
pub ghost enum InstructionV {
    InitializeBlueprint { approvers: Seq<Seq<u8>>, threshold: u8 },
    ProposeAction { action_type: u16, payload_hash: Seq<u8> },
    ApproveAction,
    ExecuteAction,
}

impl View for BlueprintInstruction {
    type V = InstructionV;

    open spec fn view(&self) -> InstructionV {
        match self {
            BlueprintInstruction::InitializeBlueprint { approvers, threshold } =>
                InstructionV::InitializeBlueprint {
                    approvers: approvers.deep_view(),
                    threshold: *threshold,
                },
            BlueprintInstruction::ProposeAction { action_type, payload_hash } =>
                InstructionV::ProposeAction {
                    action_type: *action_type,
                    payload_hash: payload_hash@,
                },
            BlueprintInstruction::ApproveAction => InstructionV::ApproveAction,
            BlueprintInstruction::ExecuteAction => InstructionV::ExecuteAction,
        }
    }
}

/// The canonical encoding of a command.
pub open spec fn enc_instruction(ix: InstructionV) -> Seq<u8> {
    match ix {
        InstructionV::InitializeBlueprint { approvers, threshold } => u32_bytes(0) + u32_bytes(
            approvers.len() as u32,
        ) + keys_bytes(approvers) + seq![threshold],
        InstructionV::ProposeAction { action_type, payload_hash } => u32_bytes(1) + u16_bytes(
            action_type,
        ) + payload_hash,
        InstructionV::ApproveAction => u32_bytes(2),
        InstructionV::ExecuteAction => u32_bytes(3),
    }
}

/// Parses a command; every byte of `s` must belong to it.
pub open spec fn parse_instruction(s: Seq<u8>) -> Option<InstructionV> {
    if s.len() < 4 {
        None
    } else {
        let tag = le32(s[0], s[1], s[2], s[3]);
        if tag == 0 {
            if s.len() < 9 {
                None
            } else {
                let n = le32(s[4], s[5], s[6], s[7]);
                if s.len() != 9 + KEY_LEN * n {
                    None
                } else {
                    match parse_keys(s.skip(8), n as nat) {
                        Some((ks, c)) => Some(
                            InstructionV::InitializeBlueprint {
                                approvers: ks,
                                threshold: s[8 + c],
                            },
                        ),
                        None => None,
                    }
                }
            }
        } else if tag == 1 {
            if s.len() == 38 {
                Some(
                    InstructionV::ProposeAction {
                        action_type: le16(s[4], s[5]),
                        payload_hash: s.subrange(6, 38),
                    },
                )
            } else {
                None
            }
        } else if tag == 2 {
            if s.len() == 4 {
                Some(InstructionV::ApproveAction)
            } else {
                None
            }
        } else if tag == 3 {
            if s.len() == 4 {
                Some(InstructionV::ExecuteAction)
            } else {
                None
            }
        } else {
            None
        }
    }
}

/// The field shapes a decoded command is guaranteed to have: every listed
/// approver and the payload hash are 32-byte keys.
pub open spec fn ix_shaped(ix: InstructionV) -> bool {
    match ix {
        InstructionV::InitializeBlueprint { approvers, threshold } => all_keys(approvers),
        InstructionV::ProposeAction { action_type, payload_hash } => payload_hash.len() == KEY_LEN,
        _ => true,
    }
}

/// Decodes a command from the full input, or nothing when it is malformed.
pub fn decode_instruction(input: &Vec<u8>) -> (r: Option<BlueprintInstruction>)
    ensures
        match r {
            Some(ix) => parse_instruction(input@) == Some(ix@) && ix_shaped(ix@),
            None => parse_instruction(input@) is None,
        },
{
    let n_data: usize = input.len();
    if n_data < 4 {
        return None;
    }
    let tag = read_u32(input, 0);
    if tag == 0 {
        if n_data < 9 {
            return None;
        }
        let count: u32 = read_u32(input, 4);
        let rem: usize = n_data - 9;
        if rem % KEY_LEN != 0 || rem / KEY_LEN != count as usize {
            proof {
                assert(input@.len() != 9 + KEY_LEN * count) by (nonlinear_arith)
                    requires
                        rem == input@.len() - 9,
                        rem as int % 32 != 0 || rem as int / 32 != count,
                        KEY_LEN == 32,
                ;
            }
            return None;
        }
        proof {
            assert(input@.len() == 9 + KEY_LEN * count) by (nonlinear_arith)
                requires
                    rem == input@.len() - 9,
                    rem as int % 32 == 0,
                    rem as int / 32 == count,
                    KEY_LEN == 32,
            ;
        }
        match read_keys(input, 8, count) {
            None => None,
            Some((ks, end)) => {
                proof {
                    lemma_parse_keys_exact(input@.skip(8), count as nat);
                }
                let threshold = input[end];
                Some(BlueprintInstruction::InitializeBlueprint { approvers: ks, threshold })
            },
        }
    } else if tag == 1 {
        if n_data != 38 {
            return None;
        }
        let action_type = read_u16(input, 4);
        let payload_hash = read_key(input, 6);
        proof {
            assert(payload_hash@ =~= input@.subrange(6, 38));
        }
        Some(BlueprintInstruction::ProposeAction { action_type, payload_hash })
    } else if tag == 2 {
        if n_data != 4 {
            return None;
        }
        Some(BlueprintInstruction::ApproveAction)
    } else if tag == 3 {
        if n_data != 4 {
            return None;
        }
        Some(BlueprintInstruction::ExecuteAction)
    } else {
        None
    }
}

/// Encodes a command canonically; what `decode_instruction` accepts is
/// exactly what this produces.
pub fn encode_instruction(ix: &BlueprintInstruction) -> (r: Vec<u8>)
    requires
        match ix@ {
            InstructionV::InitializeBlueprint { approvers, threshold } => approvers.len()
                <= MAX_APPROVERS && all_keys(approvers),
            InstructionV::ProposeAction { action_type, payload_hash } => payload_hash.len()
                == KEY_LEN,
            _ => true,
        },
    ensures
        r@ == enc_instruction(ix@),
{
    match ix {
        BlueprintInstruction::InitializeBlueprint { approvers, threshold } => {
            let mut out: Vec<u8> = Vec::new();
            write_u32(&mut out, 0);
            write_u32(&mut out, approvers.len() as u32);
            let ghost header = u32_bytes(0) + u32_bytes(approvers.deep_view().len() as u32);
            let mut k: usize = 0;
            while k < approvers.len()
                invariant
                    k <= approvers.deep_view().len(),
                    out@ == header + keys_bytes(approvers.deep_view().take(k as int)),
                decreases approvers.deep_view().len() - k,
            {
                write_bytes(&mut out, &approvers[k]);
                proof {
                    lemma_keys_bytes_push(
                        approvers.deep_view().take(k as int),
                        approvers.deep_view()[k as int],
                    );
                    assert(approvers.deep_view().take(k as int).push(
                        approvers.deep_view()[k as int],
                    ) =~~= approvers.deep_view().take(k as int + 1));
                }
                k += 1;
            }
            proof {
                assert(approvers.deep_view().take(approvers.deep_view().len() as int)
                    =~~= approvers.deep_view());
            }
            out.push(*threshold);
            proof {
                assert(out@ =~= enc_instruction(ix@));
            }
            out
        },
        BlueprintInstruction::ProposeAction { action_type, payload_hash } => {
            let mut out: Vec<u8> = Vec::new();
            write_u32(&mut out, 1);
            write_u16(&mut out, *action_type);
            write_bytes(&mut out, payload_hash);
            proof {
                assert(out@ =~= enc_instruction(ix@));
            }
            out
        },
        BlueprintInstruction::ApproveAction => {
            let mut out: Vec<u8> = Vec::new();
            write_u32(&mut out, 2);
            proof {
                assert(out@ =~= enc_instruction(ix@));
            }
            out
        },
        BlueprintInstruction::ExecuteAction => {
            let mut out: Vec<u8> = Vec::new();
            write_u32(&mut out, 3);
            proof {
                assert(out@ =~= enc_instruction(ix@));
            }
            out
        },
    }
}

/// Parsing the encoding of a well-shaped command yields the command back.
pub proof fn lemma_instruction_round_trip(ix: InstructionV)
    requires
        match ix {
            InstructionV::InitializeBlueprint { approvers, threshold } => approvers.len()
                <= MAX_APPROVERS && all_keys(approvers),
            InstructionV::ProposeAction { action_type, payload_hash } => payload_hash.len()
                == KEY_LEN,
            _ => true,
        },
    ensures
        parse_instruction(enc_instruction(ix)) == Some(ix),
{
    let s = enc_instruction(ix);
    match ix {
        InstructionV::InitializeBlueprint { approvers, threshold } => {
            let n = approvers.len();
            lemma_keys_bytes_len(approvers);
            lemma_bytes_of_le32(s[0], s[1], s[2], s[3]);
            assert(seq![s[0], s[1], s[2], s[3]] =~= u32_bytes(0));
            crate::codec::lemma_le32_of_bytes(0);
            assert(seq![s[4], s[5], s[6], s[7]] =~= u32_bytes(n as u32));
            crate::codec::lemma_le32_of_bytes(n as u32);
            assert(s.skip(8) =~= keys_bytes(approvers) + seq![threshold]);
            lemma_parse_keys_of_bytes(approvers, seq![threshold]);
            assert(s[8 + KEY_LEN * n] == threshold);
        },
        InstructionV::ProposeAction { action_type, payload_hash } => {
            assert(seq![s[0], s[1], s[2], s[3]] =~= u32_bytes(1));
            crate::codec::lemma_le32_of_bytes(1);
            assert(seq![s[4], s[5]] =~= u16_bytes(action_type));
            crate::codec::lemma_le16_of_bytes(action_type);
            assert(s.subrange(6, 38) =~= payload_hash);
        },
        InstructionV::ApproveAction => {
            assert(seq![s[0], s[1], s[2], s[3]] =~= u32_bytes(2));
            crate::codec::lemma_le32_of_bytes(2);
        },
        InstructionV::ExecuteAction => {
            assert(seq![s[0], s[1], s[2], s[3]] =~= u32_bytes(3));
            crate::codec::lemma_le32_of_bytes(3);
        },
    }
}

} // verus!

use action_blueprint::instruction::{decode_instruction, encode_instruction, BlueprintInstruction};
use action_blueprint::state::{
    decode_blueprint, decode_proposal, encode_blueprint, encode_proposal, Blueprint, Proposal,
};

fn key(b: u8) -> Vec<u8> {
    vec![b; 32]
}

fn key_arr(b: u8) -> [u8; 32] {
    [b; 32]
}

fn sample_blueprint() -> Blueprint {
    Blueprint {
        authority: key(0xAD),
        approvers: vec![key(0xA1), key(0xB2), key(0xC3)],
        threshold: 2,
    }
}

fn sample_proposal() -> Proposal {
    Proposal {
        blueprint: key(0x10),
        proposer: key(0x20),
        action_type: 7,
        payload_hash: key(0x11),
        approvals: vec![key(0xA1), key(0xB2)],
        executed: false,
    }
}

#[test]
fn blueprint_round_trip() {
    let b = sample_blueprint();
    let bytes = encode_blueprint(&b);
    assert_eq!(bytes.len(), 37 + 32 * 3);
    let (d, used) = decode_blueprint(&bytes).expect("decodes");
    assert_eq!(used, bytes.len());
    assert_eq!(d.authority, b.authority);
    assert_eq!(d.approvers, b.approvers);
    assert_eq!(d.threshold, b.threshold);
}

#[test]
fn blueprint_exact_bytes() {
    let b = Blueprint { authority: key(1), approvers: vec![key(2), key(3)], threshold: 2 };
    let mut expected: Vec<u8> = Vec::new();
    expected.extend_from_slice(&[1u8; 32]);
    expected.extend_from_slice(&[2, 0, 0, 0]);
    expected.extend_from_slice(&[2u8; 32]);
    expected.extend_from_slice(&[3u8; 32]);
    expected.push(2);
    assert_eq!(encode_blueprint(&b), expected);
}

#[test]
fn blueprint_matches_borsh() {
    let b = sample_blueprint();
    let as_tuple: ([u8; 32], Vec<[u8; 32]>, u8) =
        (key_arr(0xAD), vec![key_arr(0xA1), key_arr(0xB2), key_arr(0xC3)], 2);
    let reference = borsh::to_vec(&as_tuple).expect("borsh serializes");
    assert_eq!(encode_blueprint(&b), reference);
}

#[test]
fn blueprint_decode_ignores_trailing_padding() {
    let b = sample_blueprint();
    let mut bytes = encode_blueprint(&b);
    let record_len: usize = bytes.len();
    bytes.extend_from_slice(&[0u8; 64]);
    let (d, used) = decode_blueprint(&bytes).expect("decodes with padding");
    assert_eq!(used, record_len);
    assert_eq!(d.approvers, b.approvers);
}

#[test]
fn blueprint_decode_rejects_truncated() {
    let b = sample_blueprint();
    let mut bytes = encode_blueprint(&b);
    bytes.pop();
    assert!(decode_blueprint(&bytes).is_none());
    assert!(decode_blueprint(&vec![0u8; 10]).is_none());
}

#[test]
fn proposal_round_trip() {
    let p = sample_proposal();
    let bytes = encode_proposal(&p);
    assert_eq!(bytes.len(), 103 + 32 * 2);
    let (d, used) = decode_proposal(&bytes).expect("decodes");
    assert_eq!(used, bytes.len());
    assert_eq!(d.blueprint, p.blueprint);
    assert_eq!(d.proposer, p.proposer);
    assert_eq!(d.action_type, p.action_type);
    assert_eq!(d.payload_hash, p.payload_hash);
    assert_eq!(d.approvals, p.approvals);
    assert_eq!(d.executed, p.executed);
}

#[test]
fn proposal_exact_bytes() {
    let p = Proposal {
        blueprint: key(4),
        proposer: key(5),
        action_type: 0x0102,
        payload_hash: key(6),
        approvals: vec![key(7)],
        executed: true,
    };
    let mut expected: Vec<u8> = Vec::new();
    expected.extend_from_slice(&[4u8; 32]);
    expected.extend_from_slice(&[5u8; 32]);
    expected.extend_from_slice(&[0x02, 0x01]);
    expected.extend_from_slice(&[6u8; 32]);
    expected.extend_from_slice(&[1, 0, 0, 0]);
    expected.extend_from_slice(&[7u8; 32]);
    expected.push(1);
    assert_eq!(encode_proposal(&p), expected);
}

#[test]
fn proposal_matches_borsh() {
    let p = sample_proposal();
    let as_tuple: ([u8; 32], [u8; 32], u16, [u8; 32], Vec<[u8; 32]>, bool) =
        (key_arr(0x10), key_arr(0x20), 7, key_arr(0x11), vec![key_arr(0xA1), key_arr(0xB2)], false);
    let reference = borsh::to_vec(&as_tuple).expect("borsh serializes");
    assert_eq!(encode_proposal(&p), reference);
}

#[test]
fn proposal_decode_rejects_bad_bool() {
    let p = sample_proposal();
    let mut bytes = encode_proposal(&p);
    let last: usize = bytes.len() - 1;
    bytes[last] = 2;
    assert!(decode_proposal(&bytes).is_none());
}

#[test]
fn instruction_round_trip_all_variants() {
    let cases = vec![
        BlueprintInstruction::InitializeBlueprint {
            approvers: vec![key(1), key(2)],
            threshold: 2,
        },
        BlueprintInstruction::ProposeAction { action_type: 7, payload_hash: key(0x11) },
        BlueprintInstruction::ApproveAction,
        BlueprintInstruction::ExecuteAction,
    ];
    for ix in cases {
        let bytes = encode_instruction(&ix);
        let back = decode_instruction(&bytes).expect("decodes");
        assert_eq!(back, ix);
    }
}

#[test]
fn instruction_exact_bytes() {
    let ix = BlueprintInstruction::ProposeAction { action_type: 7, payload_hash: key(0x11) };
    let mut expected: Vec<u8> = Vec::new();
    expected.extend_from_slice(&[1, 0, 0, 0]);
    expected.extend_from_slice(&[7, 0]);
    expected.extend_from_slice(&[0x11u8; 32]);
    assert_eq!(encode_instruction(&ix), expected);
}

#[test]
fn instruction_decode_rejects_malformed() {
    assert!(decode_instruction(&vec![]).is_none());
    assert!(decode_instruction(&vec![0, 0]).is_none());
    // unknown tag
    assert!(decode_instruction(&vec![9, 0, 0, 0]).is_none());
    // trailing byte after a bare command
    assert!(decode_instruction(&vec![2, 0, 0, 0, 0]).is_none());
    // approver list length not matching the payload
    let mut short = vec![0, 0, 0, 0, 2, 0, 0, 0];
    short.extend_from_slice(&[1u8; 32]);
    short.push(1);
    assert!(decode_instruction(&short).is_none());
}

#[test]
fn bytes_equal_compares_contents() {
    assert!(action_blueprint::bytes_equal(&vec![1, 2, 3], &vec![1, 2, 3]));
    assert!(!action_blueprint::bytes_equal(&vec![1, 2, 3], &vec![1, 2, 4]));
    assert!(!action_blueprint::bytes_equal(&vec![1, 2], &vec![1, 2, 3]));
}

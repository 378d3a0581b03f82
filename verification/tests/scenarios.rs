use action_blueprint::error::{BlueprintError, ProgramFailure};
use action_blueprint::instruction::{encode_instruction, BlueprintInstruction};
use action_blueprint::processor::{Account, Effect, Processor};
use action_blueprint::state::{decode_blueprint, decode_proposal};

fn key(b: u8) -> Vec<u8> {
    vec![b; 32]
}

fn derive(seeds: &[&[u8]], program_id: &Vec<u8>) -> Vec<u8> {
    let mut pid = [0u8; 32];
    pid.copy_from_slice(program_id);
    let p = solana_program::pubkey::Pubkey::new_from_array(pid);
    let (addr, _bump) = solana_program::pubkey::Pubkey::find_program_address(seeds, &p);
    addr.to_bytes().to_vec()
}

fn account(key: Vec<u8>, is_signer: bool, data: Vec<u8>) -> Account {
    Account { key, is_signer, data }
}

/// Writes `new` over the front of `slot`, as the runtime does.
fn apply_write(slot: &mut Vec<u8>, new: &[u8]) {
    assert!(new.len() <= slot.len(), "write must fit the slot");
    slot[..new.len()].copy_from_slice(new);
}

struct World {
    program_id: Vec<u8>,
    authority: Vec<u8>,
    approver_a: Vec<u8>,
    approver_b: Vec<u8>,
    approver_c: Vec<u8>,
    blueprint_addr: Vec<u8>,
    blueprint_data: Vec<u8>,
    payload_hash: Vec<u8>,
    proposal_addr: Vec<u8>,
    proposal_data: Vec<u8>,
}

/// Initializes a threshold-2-of-{A,B,C} blueprint and proposes action 7.
fn setup() -> World {
    let program_id = key(9);
    let authority = key(0xAD);
    let approver_a = key(0xA1);
    let approver_b = key(0xB2);
    let approver_c = key(0xC3);

    let blueprint_addr = derive(&[b"blueprint", &authority], &program_id);
    let init = encode_instruction(&BlueprintInstruction::InitializeBlueprint {
        approvers: vec![approver_a.clone(), approver_b.clone(), approver_c.clone()],
        threshold: 2,
    });
    let accounts = vec![
        account(authority.clone(), true, vec![]),
        account(blueprint_addr.clone(), false, vec![]),
        account(key(0), false, vec![]),
    ];
    let effect = Processor::process(&program_id, &accounts, &init).expect("initialize succeeds");
    let blueprint_data = match effect {
        Effect::CreateSlot { address, data, .. } => {
            assert_eq!(address, blueprint_addr);
            data
        }
        _ => panic!("initialize must create a slot"),
    };

    let payload_hash = key(0x11);
    let proposal_addr = derive(&[b"proposal", &blueprint_addr, &payload_hash], &program_id);
    let propose = encode_instruction(&BlueprintInstruction::ProposeAction {
        action_type: 7,
        payload_hash: payload_hash.clone(),
    });
    let accounts = vec![
        account(key(0x55), true, vec![]),
        account(blueprint_addr.clone(), false, blueprint_data.clone()),
        account(proposal_addr.clone(), false, vec![]),
        account(key(0), false, vec![]),
    ];
    let effect = Processor::process(&program_id, &accounts, &propose).expect("propose succeeds");
    let proposal_data = match effect {
        Effect::CreateSlot { address, data, .. } => {
            assert_eq!(address, proposal_addr);
            // reserved for three approvals: 103 bytes used, 96 reserved
            assert_eq!(data.len(), 103 + 32 * 3);
            data
        }
        _ => panic!("propose must create a slot"),
    };

    World {
        program_id,
        authority,
        approver_a,
        approver_b,
        approver_c,
        blueprint_addr,
        blueprint_data,
        payload_hash,
        proposal_addr,
        proposal_data,
    }
}

fn approve(w: &mut World, who: &Vec<u8>) -> Result<(), ProgramFailure> {
    let accounts = vec![
        account(who.clone(), true, vec![]),
        account(w.blueprint_addr.clone(), false, w.blueprint_data.clone()),
        account(w.proposal_addr.clone(), false, w.proposal_data.clone()),
    ];
    let input = encode_instruction(&BlueprintInstruction::ApproveAction);
    match Processor::process(&w.program_id, &accounts, &input) {
        Ok(Effect::WriteSlot { address, data }) => {
            assert_eq!(address, w.proposal_addr);
            apply_write(&mut w.proposal_data, &data);
            Ok(())
        }
        Ok(_) => panic!("approve must write in place"),
        Err(e) => Err(e),
    }
}

fn execute(w: &mut World, who: &Vec<u8>) -> Result<(), ProgramFailure> {
    let accounts = vec![
        account(who.clone(), true, vec![]),
        account(w.blueprint_addr.clone(), false, w.blueprint_data.clone()),
        account(w.proposal_addr.clone(), false, w.proposal_data.clone()),
    ];
    let input = encode_instruction(&BlueprintInstruction::ExecuteAction);
    match Processor::process(&w.program_id, &accounts, &input) {
        Ok(Effect::WriteSlot { address, data }) => {
            assert_eq!(address, w.proposal_addr);
            apply_write(&mut w.proposal_data, &data);
            Ok(())
        }
        Ok(_) => panic!("execute must write in place"),
        Err(e) => Err(e),
    }
}

fn approvals_of(w: &World) -> Vec<Vec<u8>> {
    decode_proposal(&w.proposal_data).expect("proposal decodes").0.approvals
}

fn executed_of(w: &World) -> bool {
    decode_proposal(&w.proposal_data).expect("proposal decodes").0.executed
}

#[test]
fn happy_path_two_of_three() {
    let mut w = setup();
    let (b, _) = decode_blueprint(&w.blueprint_data).expect("blueprint decodes");
    assert_eq!(b.authority, w.authority);
    assert_eq!(b.threshold, 2);

    let a = w.approver_a.clone();
    approve(&mut w, &a).expect("first approval");
    assert_eq!(approvals_of(&w), vec![w.approver_a.clone()]);

    let anyone = key(0x66);
    assert_eq!(
        execute(&mut w, &anyone),
        Err(ProgramFailure::Custom(BlueprintError::NotEnoughApprovals))
    );
    assert!(!executed_of(&w));

    let b_ = w.approver_b.clone();
    approve(&mut w, &b_).expect("second approval");
    assert_eq!(approvals_of(&w), vec![w.approver_a.clone(), w.approver_b.clone()]);

    execute(&mut w, &anyone).expect("execute at threshold");
    assert!(executed_of(&w));
}

#[test]
fn unauthorized_approver_rejected() {
    let mut w = setup();
    let before = w.proposal_data.clone();
    let outsider = key(0xD4);
    assert_eq!(
        approve(&mut w, &outsider),
        Err(ProgramFailure::Custom(BlueprintError::Unauthorized))
    );
    assert_eq!(w.proposal_data, before, "proposal state unchanged");
}

#[test]
fn double_approval_rejected() {
    let mut w = setup();
    let a = w.approver_a.clone();
    approve(&mut w, &a).expect("first approval");
    let before = w.proposal_data.clone();
    assert_eq!(
        approve(&mut w, &a),
        Err(ProgramFailure::Custom(BlueprintError::AlreadyApproved))
    );
    assert_eq!(w.proposal_data, before);
    assert_eq!(approvals_of(&w), vec![w.approver_a.clone()]);
}

#[test]
fn post_execution_mutation_rejected() {
    let mut w = setup();
    let a = w.approver_a.clone();
    let b_ = w.approver_b.clone();
    let c = w.approver_c.clone();
    approve(&mut w, &a).expect("first approval");
    approve(&mut w, &b_).expect("second approval");
    let anyone = key(0x66);
    execute(&mut w, &anyone).expect("execute at threshold");

    assert_eq!(
        approve(&mut w, &c),
        Err(ProgramFailure::Custom(BlueprintError::AlreadyExecuted))
    );
    assert_eq!(
        execute(&mut w, &anyone),
        Err(ProgramFailure::Custom(BlueprintError::AlreadyExecuted))
    );
    assert!(executed_of(&w));
}

#[test]
fn proposal_address_binding_enforced() {
    let w = setup();
    let propose = encode_instruction(&BlueprintInstruction::ProposeAction {
        action_type: 7,
        payload_hash: key(0x22),
    });
    // a slot address that is not the derivation of the defining seeds
    let accounts = vec![
        account(key(0x55), true, vec![]),
        account(w.blueprint_addr.clone(), false, w.blueprint_data.clone()),
        account(key(0x77), false, vec![]),
        account(key(0), false, vec![]),
    ];
    assert_eq!(
        Processor::process(&w.program_id, &accounts, &propose),
        Err(ProgramFailure::InvalidSeeds)
    );
}

#[test]
fn blueprint_address_binding_enforced() {
    let program_id = key(9);
    let authority = key(0xAD);
    let init = encode_instruction(&BlueprintInstruction::InitializeBlueprint {
        approvers: vec![key(0xA1)],
        threshold: 1,
    });
    let accounts = vec![
        account(authority.clone(), true, vec![]),
        account(key(0x77), false, vec![]),
        account(key(0), false, vec![]),
    ];
    assert_eq!(
        Processor::process(&program_id, &accounts, &init),
        Err(ProgramFailure::InvalidSeeds)
    );
}

#[test]
fn threshold_bounds_enforced() {
    let program_id = key(9);
    let authority = key(0xAD);
    let blueprint_addr = derive(&[b"blueprint", &authority], &program_id);
    let accounts = vec![
        account(authority.clone(), true, vec![]),
        account(blueprint_addr.clone(), false, vec![]),
        account(key(0), false, vec![]),
    ];
    let approvers = vec![key(0xA1), key(0xB2)];

    let zero = encode_instruction(&BlueprintInstruction::InitializeBlueprint {
        approvers: approvers.clone(),
        threshold: 0,
    });
    assert_eq!(
        Processor::process(&program_id, &accounts, &zero),
        Err(ProgramFailure::InvalidArgument)
    );

    let over = encode_instruction(&BlueprintInstruction::InitializeBlueprint {
        approvers: approvers.clone(),
        threshold: 3,
    });
    assert_eq!(
        Processor::process(&program_id, &accounts, &over),
        Err(ProgramFailure::InvalidArgument)
    );

    let ok = encode_instruction(&BlueprintInstruction::InitializeBlueprint {
        approvers,
        threshold: 2,
    });
    assert!(Processor::process(&program_id, &accounts, &ok).is_ok());
}

#[test]
fn missing_signature_rejected() {
    let w = setup();
    let accounts = vec![
        account(w.approver_a.clone(), false, vec![]),
        account(w.blueprint_addr.clone(), false, w.blueprint_data.clone()),
        account(w.proposal_addr.clone(), false, w.proposal_data.clone()),
    ];
    let input = encode_instruction(&BlueprintInstruction::ApproveAction);
    assert_eq!(
        Processor::process(&w.program_id, &accounts, &input),
        Err(ProgramFailure::MissingRequiredSignature)
    );
}

#[test]
fn missing_accounts_rejected() {
    let w = setup();
    let accounts = vec![account(w.approver_a.clone(), true, vec![])];
    let input = encode_instruction(&BlueprintInstruction::ApproveAction);
    assert_eq!(
        Processor::process(&w.program_id, &accounts, &input),
        Err(ProgramFailure::NotEnoughAccountKeys)
    );
}

#[test]
fn corrupt_slot_rejected() {
    let w = setup();
    let accounts = vec![
        account(w.approver_a.clone(), true, vec![]),
        account(w.blueprint_addr.clone(), false, vec![1, 2, 3]),
        account(w.proposal_addr.clone(), false, w.proposal_data.clone()),
    ];
    let input = encode_instruction(&BlueprintInstruction::ApproveAction);
    assert_eq!(
        Processor::process(&w.program_id, &accounts, &input),
        Err(ProgramFailure::InvalidAccountData)
    );
}

#[test]
fn mismatched_parent_blueprint_rejected() {
    let w = setup();
    // a second blueprint by another authority, presented with a proposal
    // whose record names the first blueprint as its parent
    let other_authority = key(0xEE);
    let other_addr = derive(&[b"blueprint", &other_authority], &w.program_id);
    let init = encode_instruction(&BlueprintInstruction::InitializeBlueprint {
        approvers: vec![w.approver_a.clone()],
        threshold: 1,
    });
    let accounts = vec![
        account(other_authority.clone(), true, vec![]),
        account(other_addr.clone(), false, vec![]),
        account(key(0), false, vec![]),
    ];
    let other_data = match Processor::process(&w.program_id, &accounts, &init) {
        Ok(Effect::CreateSlot { data, .. }) => data,
        _ => panic!("second initialize must succeed"),
    };

    let accounts = vec![
        account(w.approver_a.clone(), true, vec![]),
        account(other_addr, false, other_data),
        account(w.proposal_addr.clone(), false, w.proposal_data.clone()),
    ];
    let input = encode_instruction(&BlueprintInstruction::ApproveAction);
    assert_eq!(
        Processor::process(&w.program_id, &accounts, &input),
        Err(ProgramFailure::InvalidSeeds)
    );
}

#[test]
fn approve_into_full_slot_rejected() {
    let mut w = setup();
    // shrink the slot to exactly the bytes in use: no reserved room left
    let used: usize = decode_proposal(&w.proposal_data).expect("proposal decodes").1;
    w.proposal_data.truncate(used);
    let a = w.approver_a.clone();
    assert_eq!(approve(&mut w, &a), Err(ProgramFailure::AccountDataTooSmall));
}

#[test]
fn invalid_instruction_rejected() {
    let w = setup();
    let accounts = vec![
        account(w.approver_a.clone(), true, vec![]),
        account(w.blueprint_addr.clone(), false, w.blueprint_data.clone()),
        account(w.proposal_addr.clone(), false, w.proposal_data.clone()),
    ];
    assert_eq!(
        Processor::process(&w.program_id, &accounts, &vec![9, 9, 9]),
        Err(ProgramFailure::Custom(BlueprintError::InvalidInstruction))
    );
}

#[test]
fn error_codes_are_stable() {
    assert_eq!(BlueprintError::InvalidInstruction.code(), 0);
    assert_eq!(BlueprintError::Unauthorized.code(), 1);
    assert_eq!(BlueprintError::AlreadyApproved.code(), 2);
    assert_eq!(BlueprintError::NotEnoughApprovals.code(), 3);
    assert_eq!(BlueprintError::AlreadyExecuted.code(), 4);
    assert_eq!(
        ProgramFailure::from(BlueprintError::Unauthorized),
        ProgramFailure::Custom(BlueprintError::Unauthorized)
    );
}

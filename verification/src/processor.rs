//! The four handlers and the dispatch surface.
//!
//! A handler is a pure transition: it takes the program identity, the
//! account slots it was handed (address, signer flag, slot bytes) and the
//! command's fields, validates everything, and either fails without any
//! effect or returns the single storage effect the runtime is to perform.
//! Each handler's behaviour is stated by a spec-level transition function,
//! and the executable handler is proved equal to it.

use vstd::prelude::*;

use crate::KEY_LEN;
use crate::bytes_equal;
use crate::is_key;
use crate::codec::all_keys;
use crate::codec::contains_key;
use crate::codec::zeros;
use crate::error::BlueprintError;
use crate::error::ProgramFailure;
use crate::instruction::BlueprintInstruction;
use crate::instruction::InstructionV;
use crate::instruction::decode_instruction;
use crate::instruction::parse_instruction;
use crate::pda::blueprint_seed_vec;
use crate::pda::blueprint_seeds;
use crate::pda::copy_bytes;
use crate::pda::derive_address;
use crate::pda::derive_of;
use crate::pda::proposal_seed_vec;
use crate::pda::proposal_seeds;
use crate::state::Blueprint;
use crate::state::BlueprintV;
use crate::state::MAX_APPROVERS;
use crate::state::Proposal;
use crate::state::ProposalV;
use crate::state::decode_blueprint;
use crate::state::decode_proposal;
use crate::state::enc_blueprint;
use crate::state::enc_proposal;
use crate::state::encode_blueprint;
use crate::state::encode_proposal;
use crate::state::parse_blueprint;
use crate::state::parse_proposal;

verus! {

/// One account slot as the runtime hands it to a handler.
pub struct Account {
    /// The slot's 32-byte address.
    pub key: Vec<u8>,
    /// Whether the holder of this address signed the transaction.
    pub is_signer: bool,
    /// The slot's stored bytes.
    pub data: Vec<u8>,
}

/// The mathematical value of an account slot.
pub ghost struct AccountV {
    pub key: Seq<u8>,
    pub is_signer: bool,
    pub data: Seq<u8>,
}

impl View for Account {
    type V = AccountV;

    open spec fn view(&self) -> AccountV {
        AccountV { key: self.key@, is_signer: self.is_signer, data: self.data@ }
    }
}

impl DeepView for Account {
    type V = AccountV;

    open spec fn deep_view(&self) -> AccountV {
        self.view()
    }
}

/// Every account address is a 32-byte key.
pub open spec fn accounts_keyed(accounts: Seq<AccountV>) -> bool {
    forall|i: int| 0 <= i < accounts.len() ==> is_key(#[trigger] accounts[i].key)
}

/// The single storage effect an accepted transition asks of the runtime.
#[derive(Debug, PartialEq, Eq)]
pub enum Effect {
    /// Allocate a fresh program-owned slot of exactly `data.len()` bytes at
    /// `address`, funded by `funder`, signing with `seeds` (bump witness
    /// appended as the last seed), then write `data` into it.
    CreateSlot { address: Vec<u8>, funder: Vec<u8>, seeds: Vec<Vec<u8>>, data: Vec<u8> },
    /// Overwrite the leading `data.len()` bytes of the slot at `address`.
    WriteSlot { address: Vec<u8>, data: Vec<u8> },
}

/// The mathematical value of an effect.
pub ghost enum EffectV {
    CreateSlot { address: Seq<u8>, funder: Seq<u8>, seeds: Seq<Seq<u8>>, data: Seq<u8> },
    WriteSlot { address: Seq<u8>, data: Seq<u8> },
}

impl View for Effect {
    type V = EffectV;

    open spec fn view(&self) -> EffectV {
        match self {
            Effect::CreateSlot { address, funder, seeds, data } => EffectV::CreateSlot {
                address: address@,
                funder: funder@,
                seeds: seeds.deep_view(),
                data: data@,
            },
            Effect::WriteSlot { address, data } => EffectV::WriteSlot {
                address: address@,
                data: data@,
            },
        }
    }
}

/// A handler's result, seen at the spec level.
pub open spec fn effect_res_view(r: Result<Effect, ProgramFailure>) -> Result<
    EffectV,
    ProgramFailure,
> {
    match r {
        Ok(e) => Ok(e@),
        Err(f) => Err(f),
    }
}

/// The Initialize transition: freeze an approver set and threshold in a new
/// blueprint slot bound to the signing authority.
pub open spec fn spec_initialize(
    program_id: Seq<u8>,
    accounts: Seq<AccountV>,
    approvers: Seq<Seq<u8>>,
    threshold: u8,
) -> Result<EffectV, ProgramFailure> {
    if accounts.len() < 3 {
        Err(ProgramFailure::NotEnoughAccountKeys)
    } else {
        let authority = accounts[0];
        let blueprint_slot = accounts[1];
        if !authority.is_signer {
            Err(ProgramFailure::MissingRequiredSignature)
        } else if threshold == 0 || threshold > approvers.len() || approvers.len()
            > MAX_APPROVERS {
            Err(ProgramFailure::InvalidArgument)
        } else {
            match derive_of(blueprint_seeds(authority.key), program_id) {
                None => Err(ProgramFailure::InvalidSeeds),
                Some((addr, bump)) => if addr != blueprint_slot.key {
                    Err(ProgramFailure::InvalidSeeds)
                } else {
                    let b = BlueprintV { authority: authority.key, approvers, threshold };
                    Ok(
                        EffectV::CreateSlot {
                            address: blueprint_slot.key,
                            funder: authority.key,
                            seeds: blueprint_seeds(authority.key).push(seq![bump]),
                            data: enc_blueprint(b),
                        },
                    )
                },
            }
        }
    }
}

/// The Propose transition: register a fresh proposal, empty approvals and
/// not executed, in a new slot bound to the blueprint and the payload hash;
/// the slot is sized for a full approval set.
pub open spec fn spec_propose(
    program_id: Seq<u8>,
    accounts: Seq<AccountV>,
    action_type: u16,
    payload_hash: Seq<u8>,
) -> Result<EffectV, ProgramFailure> {
    if accounts.len() < 4 {
        Err(ProgramFailure::NotEnoughAccountKeys)
    } else {
        let proposer = accounts[0];
        let blueprint_slot = accounts[1];
        let proposal_slot = accounts[2];
        if !proposer.is_signer {
            Err(ProgramFailure::MissingRequiredSignature)
        } else {
            match parse_blueprint(blueprint_slot.data) {
                None => Err(ProgramFailure::InvalidAccountData),
                Some((b, _)) => match derive_of(
                    proposal_seeds(blueprint_slot.key, payload_hash),
                    program_id,
                ) {
                    None => Err(ProgramFailure::InvalidSeeds),
                    Some((addr, bump)) => if addr != proposal_slot.key {
                        Err(ProgramFailure::InvalidSeeds)
                    } else {
                        let p = ProposalV {
                            blueprint: blueprint_slot.key,
                            proposer: proposer.key,
                            action_type,
                            payload_hash,
                            approvals: Seq::empty(),
                            executed: false,
                        };
                        Ok(
                            EffectV::CreateSlot {
                                address: proposal_slot.key,
                                funder: proposer.key,
                                seeds: proposal_seeds(blueprint_slot.key, payload_hash).push(
                                    seq![bump],
                                ),
                                data: enc_proposal(p) + zeros((KEY_LEN * b.approvers.len()) as nat),
                            },
                        )
                    },
                },
            }
        }
    }
}

/// The Approve transition: append the signing approver to the proposal's
/// approvals, provided the proposal belongs to the presented blueprint, is
/// not executed, the approver is in the approver set and has not approved
/// yet, and the grown record still fits its slot.
pub open spec fn spec_approve(accounts: Seq<AccountV>) -> Result<EffectV, ProgramFailure> {
    if accounts.len() < 3 {
        Err(ProgramFailure::NotEnoughAccountKeys)
    } else {
        let approver = accounts[0];
        let blueprint_slot = accounts[1];
        let proposal_slot = accounts[2];
        if !approver.is_signer {
            Err(ProgramFailure::MissingRequiredSignature)
        } else {
            match parse_blueprint(blueprint_slot.data) {
                None => Err(ProgramFailure::InvalidAccountData),
                Some((b, _)) => match parse_proposal(proposal_slot.data) {
                    None => Err(ProgramFailure::InvalidAccountData),
                    Some((p, _)) => if p.blueprint != blueprint_slot.key {
                        Err(ProgramFailure::InvalidSeeds)
                    } else if p.executed {
                        Err(ProgramFailure::Custom(BlueprintError::AlreadyExecuted))
                    } else if !b.approvers.contains(approver.key) {
                        Err(ProgramFailure::Custom(BlueprintError::Unauthorized))
                    } else if p.approvals.contains(approver.key) {
                        Err(ProgramFailure::Custom(BlueprintError::AlreadyApproved))
                    } else {
                        let p_next = ProposalV { approvals: p.approvals.push(approver.key), ..p };
                        if p_next.approvals.len() > MAX_APPROVERS || enc_proposal(p_next).len()
                            > proposal_slot.data.len() {
                            Err(ProgramFailure::AccountDataTooSmall)
                        } else {
                            Ok(
                                EffectV::WriteSlot {
                                    address: proposal_slot.key,
                                    data: enc_proposal(p_next),
                                },
                            )
                        }
                    },
                },
            }
        }
    }
}

/// The Execute transition: flip the proposal to its terminal executed state
/// once its approvals reach the blueprint's threshold.
pub open spec fn spec_execute(accounts: Seq<AccountV>) -> Result<EffectV, ProgramFailure> {
    if accounts.len() < 3 {
        Err(ProgramFailure::NotEnoughAccountKeys)
    } else {
        let executor = accounts[0];
        let blueprint_slot = accounts[1];
        let proposal_slot = accounts[2];
        if !executor.is_signer {
            Err(ProgramFailure::MissingRequiredSignature)
        } else {
            match parse_blueprint(blueprint_slot.data) {
                None => Err(ProgramFailure::InvalidAccountData),
                Some((b, _)) => match parse_proposal(proposal_slot.data) {
                    None => Err(ProgramFailure::InvalidAccountData),
                    Some((p, _)) => if p.blueprint != blueprint_slot.key {
                        Err(ProgramFailure::InvalidSeeds)
                    } else if p.executed {
                        Err(ProgramFailure::Custom(BlueprintError::AlreadyExecuted))
                    } else if p.approvals.len() < b.threshold {
                        Err(ProgramFailure::Custom(BlueprintError::NotEnoughApprovals))
                    } else {
                        Ok(
                            EffectV::WriteSlot {
                                address: proposal_slot.key,
                                data: enc_proposal(ProposalV { executed: true, ..p }),
                            },
                        )
                    },
                },
            }
        }
    }
}

/// The dispatch surface: decode the command, route to its handler.
pub open spec fn spec_process(
    program_id: Seq<u8>,
    accounts: Seq<AccountV>,
    input: Seq<u8>,
) -> Result<EffectV, ProgramFailure> {
    match parse_instruction(input) {
        None => Err(ProgramFailure::Custom(BlueprintError::InvalidInstruction)),
        Some(InstructionV::InitializeBlueprint { approvers, threshold }) => spec_initialize(
            program_id,
            accounts,
            approvers,
            threshold,
        ),
        Some(InstructionV::ProposeAction { action_type, payload_hash }) => spec_propose(
            program_id,
            accounts,
            action_type,
            payload_hash,
        ),
        Some(InstructionV::ApproveAction) => spec_approve(accounts),
        Some(InstructionV::ExecuteAction) => spec_execute(accounts),
    }
}

pub struct Processor;

impl Processor {
    /// Create a blueprint slot.
    ///
    /// Accounts: 0 the signing authority, 1 the blueprint slot, 2 the system
    /// account that funds the allocation.
    pub fn process_initialize_blueprint(
        program_id: &Vec<u8>,
        accounts: &Vec<Account>,
        approvers: Vec<Vec<u8>>,
        threshold: u8,
    ) -> (r: Result<Effect, ProgramFailure>)
        requires
            program_id@.len() == KEY_LEN,
            accounts_keyed(accounts.deep_view()),
            all_keys(approvers.deep_view()),
        ensures
            effect_res_view(r) == spec_initialize(
                program_id@,
                accounts.deep_view(),
                approvers.deep_view(),
                threshold,
            ),
    {
        if accounts.len() < 3 {
            return Err(ProgramFailure::NotEnoughAccountKeys);
        }
        let authority = &accounts[0];
        let blueprint_slot = &accounts[1];
        if !authority.is_signer {
            return Err(ProgramFailure::MissingRequiredSignature);
        }
        if threshold == 0 || threshold as usize > approvers.len() || approvers.len()
            > MAX_APPROVERS {
            return Err(ProgramFailure::InvalidArgument);
        }
        let seeds = blueprint_seed_vec(&authority.key);
        match derive_address(&seeds, program_id) {
            None => Err(ProgramFailure::InvalidSeeds),
            Some((addr, bump)) => {
                if !bytes_equal(&addr, &blueprint_slot.key) {
                    return Err(ProgramFailure::InvalidSeeds);
                }
                let blueprint = Blueprint {
                    authority: copy_bytes(&authority.key),
                    approvers,
                    threshold,
                };
                let data = encode_blueprint(&blueprint);
                let mut sign_seeds = seeds;
                let mut bump_bytes: Vec<u8> = Vec::new();
                bump_bytes.push(bump);
                sign_seeds.push(bump_bytes);
                proof {
                    assert(sign_seeds.deep_view() =~~= blueprint_seeds(
                        accounts.deep_view()[0].key,
                    ).push(seq![bump]));
                }
                Ok(
                    Effect::CreateSlot {
                        address: copy_bytes(&blueprint_slot.key),
                        funder: copy_bytes(&authority.key),
                        seeds: sign_seeds,
                        data,
                    },
                )
            },
        }
    }

    /// Register a proposal under a blueprint.
    ///
    /// Accounts: 0 the signing proposer, 1 the blueprint slot, 2 the
    /// proposal slot, 3 the system account that funds the allocation.
    pub fn process_propose(
        program_id: &Vec<u8>,
        accounts: &Vec<Account>,
        action_type: u16,
        payload_hash: Vec<u8>,
    ) -> (r: Result<Effect, ProgramFailure>)
        requires
            program_id@.len() == KEY_LEN,
            accounts_keyed(accounts.deep_view()),
            is_key(payload_hash@),
        ensures
            effect_res_view(r) == spec_propose(
                program_id@,
                accounts.deep_view(),
                action_type,
                payload_hash@,
            ),
    {
        if accounts.len() < 4 {
            return Err(ProgramFailure::NotEnoughAccountKeys);
        }
        let proposer = &accounts[0];
        let blueprint_slot = &accounts[1];
        let proposal_slot = &accounts[2];
        if !proposer.is_signer {
            return Err(ProgramFailure::MissingRequiredSignature);
        }
        match decode_blueprint(&blueprint_slot.data) {
            None => Err(ProgramFailure::InvalidAccountData),
            Some((b, _)) => {
                let seeds = proposal_seed_vec(&blueprint_slot.key, &payload_hash);
                match derive_address(&seeds, program_id) {
                    None => Err(ProgramFailure::InvalidSeeds),
                    Some((addr, bump)) => {
                        if !bytes_equal(&addr, &proposal_slot.key) {
                            return Err(ProgramFailure::InvalidSeeds);
                        }
                        let proposal = Proposal {
                            blueprint: copy_bytes(&blueprint_slot.key),
                            proposer: copy_bytes(&proposer.key),
                            action_type,
                            payload_hash,
                            approvals: Vec::new(),
                            executed: false,
                        };
                        proof {
                            assert(proposal@.approvals =~~= Seq::<Seq<u8>>::empty());
                        }
                        let mut data = encode_proposal(&proposal);
                        let reserve: usize = KEY_LEN * b.approvers.len();
                        let mut j: usize = 0;
                        while j < reserve
                            invariant
                                j <= reserve,
                                data@ == enc_proposal(proposal@) + zeros(j as nat),
                            decreases reserve - j,
                        {
                            data.push(0);
                            j += 1;
                            proof {
                                assert(data@ =~= enc_proposal(proposal@) + zeros(j as nat));
                            }
                        }
                        let mut sign_seeds = seeds;
                        let mut bump_bytes: Vec<u8> = Vec::new();
                        bump_bytes.push(bump);
                        sign_seeds.push(bump_bytes);
                        proof {
                            assert(sign_seeds.deep_view() =~~= proposal_seeds(
                                accounts.deep_view()[1].key,
                                payload_hash@,
                            ).push(seq![bump]));
                        }
                        Ok(
                            Effect::CreateSlot {
                                address: copy_bytes(&proposal_slot.key),
                                funder: copy_bytes(&proposer.key),
                                seeds: sign_seeds,
                                data,
                            },
                        )
                    },
                }
            },
        }
    }

    /// Append the signing approver to a proposal's approvals.
    ///
    /// Accounts: 0 the signing approver, 1 the blueprint slot, 2 the
    /// proposal slot. The proposal must name the presented blueprint slot
    /// as its parent.
    pub fn process_approve(accounts: &Vec<Account>) -> (r: Result<Effect, ProgramFailure>)
        requires
            accounts_keyed(accounts.deep_view()),
        ensures
            effect_res_view(r) == spec_approve(accounts.deep_view()),
    {
        if accounts.len() < 3 {
            return Err(ProgramFailure::NotEnoughAccountKeys);
        }
        let approver = &accounts[0];
        let blueprint_slot = &accounts[1];
        let proposal_slot = &accounts[2];
        if !approver.is_signer {
            return Err(ProgramFailure::MissingRequiredSignature);
        }
        match decode_blueprint(&blueprint_slot.data) {
            None => Err(ProgramFailure::InvalidAccountData),
            Some((b, _)) => match decode_proposal(&proposal_slot.data) {
                None => Err(ProgramFailure::InvalidAccountData),
                Some((p, _)) => {
                    if !bytes_equal(&p.blueprint, &blueprint_slot.key) {
                        return Err(ProgramFailure::InvalidSeeds);
                    }
                    if p.executed {
                        return Err(ProgramFailure::Custom(BlueprintError::AlreadyExecuted));
                    }
                    if !contains_key(&b.approvers, &approver.key) {
                        return Err(ProgramFailure::Custom(BlueprintError::Unauthorized));
                    }
                    if contains_key(&p.approvals, &approver.key) {
                        return Err(ProgramFailure::Custom(BlueprintError::AlreadyApproved));
                    }
                    if p.approvals.len() >= MAX_APPROVERS {
                        return Err(ProgramFailure::AccountDataTooSmall);
                    }
                    let ghost p_before = p@;
                    let mut p_next = p;
                    p_next.approvals.push(copy_bytes(&approver.key));
                    proof {
                        assert(p_next@.approvals =~~= p_before.approvals.push(
                            accounts.deep_view()[0].key,
                        ));
                        assert(all_keys(p_next@.approvals));
                    }
                    let data = encode_proposal(&p_next);
                    if data.len() > proposal_slot.data.len() {
                        return Err(ProgramFailure::AccountDataTooSmall);
                    }
                    Ok(Effect::WriteSlot { address: copy_bytes(&proposal_slot.key), data })
                },
            },
        }
    }

    /// Transition a proposal to its terminal executed state.
    ///
    /// Accounts: 0 the signing executor (any signer), 1 the blueprint slot,
    /// 2 the proposal slot. The proposal must name the presented blueprint
    /// slot as its parent.
    pub fn process_execute(accounts: &Vec<Account>) -> (r: Result<Effect, ProgramFailure>)
        requires
            accounts_keyed(accounts.deep_view()),
        ensures
            effect_res_view(r) == spec_execute(accounts.deep_view()),
    {
        if accounts.len() < 3 {
            return Err(ProgramFailure::NotEnoughAccountKeys);
        }
        let executor = &accounts[0];
        let blueprint_slot = &accounts[1];
        let proposal_slot = &accounts[2];
        if !executor.is_signer {
            return Err(ProgramFailure::MissingRequiredSignature);
        }
        match decode_blueprint(&blueprint_slot.data) {
            None => Err(ProgramFailure::InvalidAccountData),
            Some((b, _)) => match decode_proposal(&proposal_slot.data) {
                None => Err(ProgramFailure::InvalidAccountData),
                Some((p, _)) => {
                    if !bytes_equal(&p.blueprint, &blueprint_slot.key) {
                        return Err(ProgramFailure::InvalidSeeds);
                    }
                    if p.executed {
                        return Err(ProgramFailure::Custom(BlueprintError::AlreadyExecuted));
                    }
                    if p.approvals.len() < b.threshold as usize {
                        return Err(ProgramFailure::Custom(BlueprintError::NotEnoughApprovals));
                    }
                    let ghost p_before = p@;
                    let mut p_next = p;
                    p_next.executed = true;
                    proof {
                        assert(p_next@ == ProposalV { executed: true, ..p_before });
                    }
                    let data = encode_proposal(&p_next);
                    Ok(Effect::WriteSlot { address: copy_bytes(&proposal_slot.key), data })
                },
            },
        }
    }

    /// Decode a command and route it to its handler. A command that does
    /// not parse is refused as an invalid instruction.
    pub fn process(program_id: &Vec<u8>, accounts: &Vec<Account>, input: &Vec<u8>) -> (r: Result<
        Effect,
        ProgramFailure,
    >)
        requires
            program_id@.len() == KEY_LEN,
            accounts_keyed(accounts.deep_view()),
        ensures
            effect_res_view(r) == spec_process(program_id@, accounts.deep_view(), input@),
    {
        match decode_instruction(input) {
            None => Err(ProgramFailure::Custom(BlueprintError::InvalidInstruction)),
            Some(BlueprintInstruction::InitializeBlueprint { approvers, threshold }) =>
                Self::process_initialize_blueprint(program_id, accounts, approvers, threshold),
            Some(BlueprintInstruction::ProposeAction { action_type, payload_hash }) =>
                Self::process_propose(program_id, accounts, action_type, payload_hash),
            Some(BlueprintInstruction::ApproveAction) => Self::process_approve(accounts),
            Some(BlueprintInstruction::ExecuteAction) => Self::process_execute(accounts),
        }
    }
}

} // verus!

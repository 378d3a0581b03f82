//! The laws the transitions obey, stated over the spec-level transition
//! functions and proved once and for all. Each executable handler equals
//! its transition function, so these laws carry over to every call.

use vstd::prelude::*;

use crate::KEY_LEN;
use crate::is_key;
use crate::codec::all_keys;
use crate::codec::lemma_keys_bytes_len;
use crate::codec::zeros;
use crate::error::BlueprintError;
use crate::error::ProgramFailure;
use crate::pda::blueprint_seeds;
use crate::pda::derive_of;
use crate::pda::proposal_seeds;
use crate::processor::AccountV;
use crate::processor::EffectV;
use crate::processor::accounts_keyed;
use crate::processor::spec_approve;
use crate::processor::spec_execute;
use crate::processor::spec_initialize;
use crate::processor::spec_propose;
use crate::state::BlueprintV;
use crate::state::ProposalV;
use crate::state::blueprint_shaped;
use crate::state::enc_proposal;
use crate::state::lemma_blueprint_round_trip;
use crate::state::lemma_proposal_canonical;
use crate::state::lemma_proposal_parse_ignores_trailing;
use crate::state::lemma_proposal_round_trip;
use crate::state::parse_blueprint;
use crate::state::parse_proposal;
use crate::state::wf_blueprint;
use crate::state::wf_proposal;

verus! {

/// Law: an accepted Initialize stores a record that decodes to exactly the
/// submitted approver set and threshold, with 1 <= threshold <= |approvers|,
/// and the stored blueprint is well-formed.
pub proof fn lemma_initialize_stores_submitted(
    program_id: Seq<u8>,
    accounts: Seq<AccountV>,
    approvers: Seq<Seq<u8>>,
    threshold: u8,
)
    requires
        accounts_keyed(accounts),
        all_keys(approvers),
    ensures
        spec_initialize(program_id, accounts, approvers, threshold) matches Ok(e) ==> ({
            let b = BlueprintV { authority: accounts[0].key, approvers, threshold };
            &&& wf_blueprint(b)
            &&& 1 <= threshold <= approvers.len()
            &&& e matches EffectV::CreateSlot { address, funder, seeds, data }
                && parse_blueprint(data) == Some((b, data.len() as int))
        }),
{
    if spec_initialize(program_id, accounts, approvers, threshold) is Ok {
        let b = BlueprintV { authority: accounts[0].key, approvers, threshold };
        assert(is_key(accounts[0].key));
        lemma_blueprint_round_trip(b);
    }
}

/// Law: the slot address of a record accepted by Initialize equals the
/// derivation of its defining seeds, and the signing seeds are those seeds
/// with the bump witness appended.
pub proof fn lemma_initialize_address_binding(
    program_id: Seq<u8>,
    accounts: Seq<AccountV>,
    approvers: Seq<Seq<u8>>,
    threshold: u8,
)
    ensures
        spec_initialize(program_id, accounts, approvers, threshold) matches Ok(e) ==> (e matches
            EffectV::CreateSlot { address, funder, seeds, data } && {
            &&& address == accounts[1].key
            &&& exists|bump: u8|
                #![auto]
                derive_of(blueprint_seeds(accounts[0].key), program_id) == Some((address, bump))
                    && seeds == blueprint_seeds(accounts[0].key).push(seq![bump])
        }),
{
}

/// Law: the slot address of a record accepted by Propose equals the
/// derivation of its defining seeds, and the signing seeds are those seeds
/// with the bump witness appended.
pub proof fn lemma_propose_address_binding(
    program_id: Seq<u8>,
    accounts: Seq<AccountV>,
    action_type: u16,
    payload_hash: Seq<u8>,
)
    ensures
        spec_propose(program_id, accounts, action_type, payload_hash) matches Ok(e) ==> (e matches
            EffectV::CreateSlot { address, funder, seeds, data } && {
            &&& address == accounts[2].key
            &&& exists|bump: u8|
                #![auto]
                derive_of(proposal_seeds(accounts[1].key, payload_hash), program_id) == Some(
                    (address, bump),
                ) && seeds == proposal_seeds(accounts[1].key, payload_hash).push(seq![bump])
        }),
{
}

/// Law: an accepted Propose stores a record that decodes to a fresh
/// proposal: bound to the presented blueprint slot and the submitted
/// payload, with no approvals and not executed, in a slot sized for a full
/// approval set, whose padding a reader never takes for record bytes.
pub proof fn lemma_propose_stores_fresh(
    program_id: Seq<u8>,
    accounts: Seq<AccountV>,
    action_type: u16,
    payload_hash: Seq<u8>,
)
    requires
        accounts_keyed(accounts),
        is_key(payload_hash),
    ensures
        spec_propose(program_id, accounts, action_type, payload_hash) matches Ok(e) ==> ({
            let fresh = ProposalV {
                blueprint: accounts[1].key,
                proposer: accounts[0].key,
                action_type,
                payload_hash,
                approvals: Seq::empty(),
                executed: false,
            };
            &&& e matches EffectV::CreateSlot { address, funder, seeds, data } && {
                &&& parse_proposal(data) == Some((fresh, 103int))
                &&& data.len() == 103 + KEY_LEN * (parse_blueprint(
                    accounts[1].data,
                )->0).0.approvers.len()
            }
        }),
{
    if spec_propose(program_id, accounts, action_type, payload_hash) is Ok {
        let fresh = ProposalV {
            blueprint: accounts[1].key,
            proposer: accounts[0].key,
            action_type,
            payload_hash,
            approvals: Seq::empty(),
            executed: false,
        };
        assert(is_key(accounts[0].key));
        assert(is_key(accounts[1].key));
        let b = (parse_blueprint(accounts[1].data)->0).0;
        lemma_proposal_parse_ignores_trailing(fresh, zeros((KEY_LEN * b.approvers.len()) as nat));
    }
}

/// Law: an accepted Approve appends exactly the signing approver: the new
/// record decodes to the old one with one approval appended, the approver
/// is in the blueprint's approver set and was not in the approvals before,
/// every other field is unchanged, and well-formedness is preserved.
#[verifier::rlimit(100)]
pub proof fn lemma_approve_appends(accounts: Seq<AccountV>)
    requires
        accounts_keyed(accounts),
    ensures
        spec_approve(accounts) matches Ok(e) ==> ({
            let b = (parse_blueprint(accounts[1].data)->0).0;
            let p = (parse_proposal(accounts[2].data)->0).0;
            let approver = accounts[0].key;
            &&& parse_blueprint(accounts[1].data) is Some
            &&& parse_proposal(accounts[2].data) is Some
            &&& b.approvers.contains(approver)
            &&& !p.approvals.contains(approver)
            &&& !p.executed
            &&& e matches EffectV::WriteSlot { address, data } && {
                let p_next = (parse_proposal(data)->0).0;
                &&& address == accounts[2].key
                &&& parse_proposal(data) == Some((p_next, data.len() as int))
                &&& p_next == ProposalV { approvals: p.approvals.push(approver), ..p }
                &&& p_next.approvals.len() == p.approvals.len() + 1
                &&& wf_proposal(p, b) ==> wf_proposal(p_next, b)
            }
        }),
{
    if spec_approve(accounts) is Ok {
        let b = (parse_blueprint(accounts[1].data)->0).0;
        let p = (parse_proposal(accounts[2].data)->0).0;
        let approver = accounts[0].key;
        assert(is_key(approver));
        lemma_proposal_canonical(accounts[2].data);
        let p_next = ProposalV { approvals: p.approvals.push(approver), ..p };
        assert(all_keys(p_next.approvals)) by {
            assert(forall|i: int|
                0 <= i < p.approvals.len() ==> #[trigger] p_next.approvals[i] == p.approvals[i]);
        }
        lemma_proposal_round_trip(p_next);
        if wf_proposal(p, b) {
            assert(p_next.approvals.no_duplicates()) by {
                assert forall|i: int, j: int|
                    0 <= i < p_next.approvals.len() && 0 <= j < p_next.approvals.len() && i
                        != j implies p_next.approvals[i] != p_next.approvals[j] by {
                    if i < p.approvals.len() && j < p.approvals.len() {
                    } else if j == p.approvals.len() {
                        if p.approvals[i] == approver {
                            assert(p.approvals.contains(approver));
                        }
                    } else {
                        if p.approvals[j] == approver {
                            assert(p.approvals.contains(approver));
                        }
                    }
                }
            }
            assert(forall|i: int|
                0 <= i < p_next.approvals.len() ==> b.approvers.contains(#[trigger] p_next.approvals[i]));
        }
    }
}

/// Law: an accepted Execute happened at or above the threshold: the prior
/// record had at least `threshold` approvals and was not yet executed, and
/// the new record is the old one with the executed flag set, approvals and
/// all other fields untouched.
pub proof fn lemma_execute_at_threshold(accounts: Seq<AccountV>)
    ensures
        spec_execute(accounts) matches Ok(e) ==> ({
            let b = (parse_blueprint(accounts[1].data)->0).0;
            let p = (parse_proposal(accounts[2].data)->0).0;
            &&& parse_blueprint(accounts[1].data) is Some
            &&& parse_proposal(accounts[2].data) is Some
            &&& p.approvals.len() >= b.threshold
            &&& !p.executed
            &&& e matches EffectV::WriteSlot { address, data } && {
                &&& address == accounts[2].key
                &&& parse_proposal(data) == Some(
                    (ProposalV { executed: true, ..p }, data.len() as int),
                )
            }
        }),
{
    if spec_execute(accounts) is Ok {
        let p = (parse_proposal(accounts[2].data)->0).0;
        lemma_proposal_canonical(accounts[2].data);
        lemma_proposal_round_trip(ProposalV { executed: true, ..p });
    }
}

/// Law: the executed state is terminal. A proposal stored as executed is
/// refused by Approve and by Execute alike; when the transaction gets as
/// far as the executed check, the refusal is exactly `AlreadyExecuted`.
/// With `lemma_approve_appends` (an accepted Approve keeps the flag) and
/// `lemma_execute_at_threshold` (an accepted Execute raises it), no
/// transition ever returns the flag from true to false.
pub proof fn lemma_executed_is_terminal(accounts: Seq<AccountV>)
    ensures
        accounts.len() >= 3 ==> (parse_proposal(accounts[2].data) matches Some((p, c)) ==> (
        p.executed ==> {
            &&& spec_approve(accounts) is Err
            &&& spec_execute(accounts) is Err
            &&& ((accounts[0].is_signer && parse_blueprint(accounts[1].data) is Some
                && p.blueprint == accounts[1].key) ==> {
                &&& spec_approve(accounts) == Err::<EffectV, _>(
                    ProgramFailure::Custom(BlueprintError::AlreadyExecuted),
                )
                &&& spec_execute(accounts) == Err::<EffectV, _>(
                    ProgramFailure::Custom(BlueprintError::AlreadyExecuted),
                )
            })
        })),
{
}

/// Law: a well-formed proposal never outgrows the slot Propose reserves for
/// it: distinct approvals drawn from the approver set number at most
/// |approvers|, so the record re-encodes into 103 + 32 * |approvers| bytes.
pub proof fn lemma_reserved_capacity(p: ProposalV, b: BlueprintV)
    requires
        wf_proposal(p, b),
        blueprint_shaped(b),
    ensures
        p.approvals.len() <= b.approvers.len(),
        enc_proposal(p).len() <= 103 + KEY_LEN * b.approvers.len(),
{
    broadcast use vstd::seq_lib::seq_to_set_is_finite;

    p.approvals.unique_seq_to_set();
    assert(p.approvals.to_set().subset_of(b.approvers.to_set())) by {
        assert forall|x: Seq<u8>| p.approvals.to_set().contains(x) implies b.approvers.to_set().contains(x) by {
            let i = choose|i: int| 0 <= i < p.approvals.len() && p.approvals[i] == x;
            assert(b.approvers.contains(p.approvals[i]));
        }
    }
    vstd::set_lib::lemma_len_subset(p.approvals.to_set(), b.approvers.to_set());
    b.approvers.lemma_cardinality_of_set();
    lemma_keys_bytes_len(p.approvals);
}

} // verus!

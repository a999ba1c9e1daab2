//! What holds of every instruction, stated over [`dispatch_spec`], the
//! contract of [`crate::dispatch::dispatch`].
use vstd::prelude::*;

use crate::dispatch::{
    dispatch_spec, escalated_meta, invoked_accounts, is_swap_payload, meta_of, nested_call,
};
use crate::program::{outcome_result, run_ends_with, step};
use pinocchio::program_error::ProgramError;
use crate::model::{
    AccountRef, Authority, CpiSpec, Plan, SignerSeeds, SwapError, ACC_LEN, AUTHORITY_SEED, DAMM_V2_PROGRAM_ID, DIRECT_ACC_LEN,
    PROGRAM_ID, SWAP_PARAM_LEN,
};

verus! {

/// Opcode 0 issues exactly one call: the unsigned external swap on accounts 0
/// to 14, with their flags as given and the rest of the payload unchanged.
pub proof fn lemma_single_swap(
    accounts: Seq<AccountRef>,
    payload: Seq<u8>,
    authority: Authority,
)
    requires
        payload.len() > 0,
        payload[0] == 0,
        accounts.len() >= DIRECT_ACC_LEN,
    ensures
        ({
            let (calls, outcome) = dispatch_spec(PROGRAM_ID, accounts, payload, authority);
            &&& outcome is Ok
            &&& calls.len() == 1
            &&& calls[0].program_id == DAMM_V2_PROGRAM_ID
            &&& calls[0].signer is None
            &&& calls[0].account_offset == 0
            &&& calls[0].accounts.len() == DIRECT_ACC_LEN
            &&& forall|i: int| 0 <= i < DIRECT_ACC_LEN ==> calls[0].accounts[i] == meta_of(accounts[i])
            &&& calls[0].data == payload.subrange(1, payload.len() as int)
        }),
{
}

/// Opcode 1 issues exactly two calls, one after the other, the same in
/// accounts and payload, each the one that opcode 0 issues.
pub proof fn lemma_double_swap(
    accounts: Seq<AccountRef>,
    payload: Seq<u8>,
    authority: Authority,
)
    requires
        payload.len() > 0,
        payload[0] == 1,
        accounts.len() >= DIRECT_ACC_LEN,
    ensures
        ({
            let (calls, outcome) = dispatch_spec(PROGRAM_ID, accounts, payload, authority);
            let single = dispatch_spec(PROGRAM_ID, accounts, payload.update(0, 0), authority).0;
            &&& outcome is Ok
            &&& calls.len() == 2
            &&& calls[0] == calls[1]
            &&& calls[0] == single[0]
        }),
{
    let rest = payload.subrange(1, payload.len() as int);
    assert(payload.update(0, 0).subrange(1, payload.len() as int) =~= rest);
}

/// Opcode 2 with a swap payload issues exactly two calls: first the external
/// swap on accounts 1 to 15, account 0 skipped, then the signed call of this
/// program on itself over accounts 0 to 15. Where account 0 is the authority,
/// the re-entered program issues exactly one further call: the external swap
/// on accounts 1 to 15 with the same parameters.
pub proof fn lemma_direct_then_nested(
    accounts: Seq<AccountRef>,
    payload: Seq<u8>,
    authority: Authority,
)
    requires
        payload.len() > 0,
        payload[0] == 2,
        accounts.len() >= ACC_LEN,
        is_swap_payload(payload.subrange(1, payload.len() as int)),
    ensures
        ({
            let rest = payload.subrange(1, payload.len() as int);
            let (calls, outcome) = dispatch_spec(PROGRAM_ID, accounts, payload, authority);
            &&& outcome is Ok
            &&& calls.len() == 2
            &&& calls[0].program_id == DAMM_V2_PROGRAM_ID
            &&& calls[0].signer is None
            &&& calls[0].account_offset == 1
            &&& calls[0].accounts.len() == DIRECT_ACC_LEN
            &&& forall|i: int| 0 <= i < DIRECT_ACC_LEN ==> calls[0].accounts[i] == meta_of(accounts[i + 1])
            &&& calls[0].data == rest
            &&& calls[1].program_id == PROGRAM_ID
            &&& calls[1].signer == Some(SignerSeeds { seed: AUTHORITY_SEED, bump: authority.bump })
            &&& calls[1].account_offset == 0
            &&& calls[1].accounts.len() == ACC_LEN
            &&& forall|i: int| 0 <= i < ACC_LEN ==> calls[1].accounts[i].key == accounts[i].key
            &&& calls[1].data == seq![3u8].add(rest)
        }),
        accounts[0].key == authority.key ==> ({
            let nested = dispatch_spec(PROGRAM_ID, accounts, payload, authority).0[1];
            let (inner, inner_outcome) = dispatch_spec(
                PROGRAM_ID,
                invoked_accounts(nested),
                nested.data,
                authority,
            );
            &&& inner_outcome is Ok
            &&& inner.len() == 1
            &&& inner[0].program_id == DAMM_V2_PROGRAM_ID
            &&& inner[0].accounts.len() == DIRECT_ACC_LEN
            &&& forall|i: int|
                0 <= i < DIRECT_ACC_LEN ==> inner[0].accounts[i] == escalated_meta(
                    accounts[i + 1],
                    authority.key,
                )
            &&& inner[0].data == payload.subrange(1, payload.len() as int)
        }),
{
    let rest = payload.subrange(1, payload.len() as int);
    let nested = nested_call(accounts, rest, authority);
    let handed = invoked_accounts(nested);
    assert(nested.data.subrange(1, nested.data.len() as int) =~= rest);
    assert forall|i: int| 0 <= i < DIRECT_ACC_LEN implies
        meta_of(handed.subrange(1, handed.len() as int)[i]) == escalated_meta(
            accounts[i + 1],
            authority.key,
        ) by {
    }
}

/// Opcode 3 with account 0 other than the authority fails with
/// `IncorrectAuthority` and issues no call.
pub proof fn lemma_gate_rejects_other_authority(
    accounts: Seq<AccountRef>,
    payload: Seq<u8>,
    authority: Authority,
)
    requires
        payload.len() > 0,
        payload[0] == 3,
        accounts.len() > 0,
        accounts[0].key != authority.key,
    ensures
        dispatch_spec(PROGRAM_ID, accounts, payload, authority) == (
            Seq::<CpiSpec>::empty(),
            Err::<(), SwapError>(SwapError::IncorrectAuthority),
        ),
{
}

/// Opcode 3 with the authority as account 0 but not a signer fails with
/// `MissingRequiredSignature` and issues no call.
pub proof fn lemma_gate_requires_signature(
    accounts: Seq<AccountRef>,
    payload: Seq<u8>,
    authority: Authority,
)
    requires
        payload.len() > 0,
        payload[0] == 3,
        accounts.len() > 0,
        accounts[0].key == authority.key,
        !accounts[0].is_signer,
    ensures
        dispatch_spec(PROGRAM_ID, accounts, payload, authority) == (
            Seq::<CpiSpec>::empty(),
            Err::<(), SwapError>(SwapError::MissingRequiredSignature),
        ),
{
}

/// The self-invocation is what makes the authority a signer: whatever flag the
/// caller gave account 0, the nested call marks it as a signer and carries the
/// authority's seeds, and the re-entered gated branch then issues one external
/// call. The same accounts sent straight to the gated branch are refused
/// where account 0 did not sign.
pub proof fn lemma_reentry_accepts_forced_signer(
    accounts: Seq<AccountRef>,
    payload: Seq<u8>,
    authority: Authority,
)
    requires
        payload.len() > 0,
        payload[0] == 2,
        accounts.len() >= ACC_LEN,
        accounts[0].key == authority.key,
        is_swap_payload(payload.subrange(1, payload.len() as int)),
    ensures
        ({
            let nested = dispatch_spec(PROGRAM_ID, accounts, payload, authority).0[1];
            let (inner, inner_outcome) = dispatch_spec(
                PROGRAM_ID,
                invoked_accounts(nested),
                nested.data,
                authority,
            );
            &&& nested.accounts[0].is_signer
            &&& nested.signer == Some(SignerSeeds { seed: AUTHORITY_SEED, bump: authority.bump })
            &&& inner_outcome is Ok
            &&& inner.len() == 1
            &&& inner[0].program_id == DAMM_V2_PROGRAM_ID
        }),
        !accounts[0].is_signer ==> dispatch_spec(PROGRAM_ID, accounts, payload.update(0, 3), authority).1
            == Err::<(), SwapError>(SwapError::MissingRequiredSignature),
{
    lemma_direct_then_nested(accounts, payload, authority);
}

/// An empty payload, or an opcode above 3, fails with
/// `InvalidInstructionData` and issues no call.
pub proof fn lemma_unknown_opcode(
    accounts: Seq<AccountRef>,
    payload: Seq<u8>,
    authority: Authority,
)
    requires
        payload.len() == 0 || payload[0] >= 4,
    ensures
        dispatch_spec(PROGRAM_ID, accounts, payload, authority) == (
            Seq::<CpiSpec>::empty(),
            Err::<(), SwapError>(SwapError::InvalidInstructionData),
        ),
{
}

/// A payload for the self-invocation that is not 24 bytes long fails with
/// `InvalidInstructionData`: opcode 2 then issues its direct swap and no
/// self-invocation.
pub proof fn lemma_nested_payload_size(
    accounts: Seq<AccountRef>,
    payload: Seq<u8>,
    authority: Authority,
)
    requires
        payload.len() > 0,
        payload[0] == 2,
        accounts.len() >= ACC_LEN,
        payload.len() != SWAP_PARAM_LEN + 1,
    ensures
        ({
            let (calls, outcome) = dispatch_spec(PROGRAM_ID, accounts, payload, authority);
            &&& !is_swap_payload(payload.subrange(1, payload.len() as int))
            &&& outcome == Err::<(), SwapError>(SwapError::InvalidInstructionData)
            &&& calls.len() == 1
            &&& calls[0].program_id == DAMM_V2_PROGRAM_ID
        }),
{
}

/// Two runs of the same instruction on the same accounts plan the same calls
/// and end the same way: nothing carries over from one run to the next.
pub proof fn lemma_rerun_independent(
    first: Plan,
    second: Plan,
    program_id: [u8; 32],
    accounts: Seq<AccountRef>,
    payload: Seq<u8>,
    authority: Authority,
)
    requires
        first@ == dispatch_spec(program_id, accounts, payload, authority),
        second@ == dispatch_spec(program_id, accounts, payload, authority),
    ensures
        first@ == second@,
        first.outcome is Ok ==> second.outcome is Ok,
{
}

/// A run of a plan that ends well, once the host has answered its calls, ends
/// with the host's answer to the last call it issued: every earlier answer was
/// a success, a failure stops the run with the host's error unchanged, and the
/// run succeeds exactly when every call was issued and succeeded.
pub proof fn lemma_run_of_successful_plan(
    plan: (Seq<CpiSpec>, Result<(), SwapError>),
    answers: Seq<Result<(), ProgramError>>,
    r: Result<(), ProgramError>,
)
    requires
        plan.1 is Ok,
        plan.0.len() > 0,
        run_ends_with(plan, answers, r),
    ensures
        answers.len() >= 1,
        r == answers.last(),
        forall|i: int| 0 <= i < answers.len() - 1 ==> answers[i] is Ok,
        answers.len() < plan.0.len() ==> r is Err,
        r is Ok <==> (answers.len() == plan.0.len() && forall|i: int|
            0 <= i < answers.len() ==> answers[i] is Ok),
{
    let n = plan.0.len();
    assert forall|i: int| 0 <= i < answers.len() - 1 implies answers[i] is Ok by {
        assert(step(plan.1, n, i as nat, answers[i]) is None);
    }
    assert(outcome_result(plan.1) == Ok::<(), ProgramError>(()));
    let last = answers.last();
    assert(step(plan.1, n, (answers.len() - 1) as nat, last) == Some(r));
    assert(answers.len() >= 1);
    match last {
        Ok(u) => {
            assert(u == ());
            assert(last == Ok::<(), ProgramError>(()));
        },
        Err(_) => {},
    }
}

/// Opcode 0 ends with the host's answer to its one external call.
pub proof fn lemma_single_swap_result(
    accounts: Seq<AccountRef>,
    payload: Seq<u8>,
    authority: Authority,
    answers: Seq<Result<(), ProgramError>>,
    r: Result<(), ProgramError>,
)
    requires
        payload.len() > 0,
        payload[0] == 0,
        accounts.len() >= DIRECT_ACC_LEN,
        run_ends_with(dispatch_spec(PROGRAM_ID, accounts, payload, authority), answers, r),
    ensures
        answers.len() == 1,
        r == answers[0],
{
    lemma_run_of_successful_plan(dispatch_spec(PROGRAM_ID, accounts, payload, authority), answers, r);
}

/// Opcode 1 issues its second swap only after the first succeeded: a failed
/// first swap ends the instruction with the host's error unchanged, and
/// otherwise the instruction ends with the answer to the second.
pub proof fn lemma_double_swap_result(
    accounts: Seq<AccountRef>,
    payload: Seq<u8>,
    authority: Authority,
    answers: Seq<Result<(), ProgramError>>,
    r: Result<(), ProgramError>,
)
    requires
        payload.len() > 0,
        payload[0] == 1,
        accounts.len() >= DIRECT_ACC_LEN,
        run_ends_with(dispatch_spec(PROGRAM_ID, accounts, payload, authority), answers, r),
    ensures
        answers[0] is Err ==> answers.len() == 1 && r == answers[0],
        answers[0] is Ok ==> answers.len() == 2 && r == answers[1],
{
    lemma_run_of_successful_plan(dispatch_spec(PROGRAM_ID, accounts, payload, authority), answers, r);
}

/// Opcode 2 with a swap payload issues the signed self-invocation only after
/// the direct swap succeeded: a failed direct swap ends the instruction with
/// the host's error unchanged, and otherwise the instruction ends with the
/// answer to the self-invocation.
pub proof fn lemma_direct_then_nested_result(
    accounts: Seq<AccountRef>,
    payload: Seq<u8>,
    authority: Authority,
    answers: Seq<Result<(), ProgramError>>,
    r: Result<(), ProgramError>,
)
    requires
        payload.len() > 0,
        payload[0] == 2,
        accounts.len() >= ACC_LEN,
        is_swap_payload(payload.subrange(1, payload.len() as int)),
        run_ends_with(dispatch_spec(PROGRAM_ID, accounts, payload, authority), answers, r),
    ensures
        answers[0] is Err ==> answers.len() == 1 && r == answers[0],
        answers[0] is Ok ==> answers.len() == 2 && r == answers[1],
{
    lemma_run_of_successful_plan(dispatch_spec(PROGRAM_ID, accounts, payload, authority), answers, r);
}

/// The run that the self-invocation re-enters, with the authority as account
/// 0, ends with the host's answer to its one external call.
pub proof fn lemma_reentry_result(
    accounts: Seq<AccountRef>,
    payload: Seq<u8>,
    authority: Authority,
    answers: Seq<Result<(), ProgramError>>,
    r: Result<(), ProgramError>,
)
    requires
        payload.len() > 0,
        payload[0] == 2,
        accounts.len() >= ACC_LEN,
        accounts[0].key == authority.key,
        is_swap_payload(payload.subrange(1, payload.len() as int)),
        ({
            let nested = dispatch_spec(PROGRAM_ID, accounts, payload, authority).0[1];
            run_ends_with(
                dispatch_spec(PROGRAM_ID, invoked_accounts(nested), nested.data, authority),
                answers,
                r,
            )
        }),
    ensures
        answers.len() == 1,
        r == answers[0],
{
    lemma_direct_then_nested(accounts, payload, authority);
    let nested = dispatch_spec(PROGRAM_ID, accounts, payload, authority).0[1];
    lemma_run_of_successful_plan(
        dispatch_spec(PROGRAM_ID, invoked_accounts(nested), nested.data, authority),
        answers,
        r,
    );
}

/// Two runs of the same instruction whose calls the host answers alike end
/// alike; where the instruction plans success and the host accepts every
/// call, both succeed.
pub proof fn lemma_rerun_same_result(
    program_id: [u8; 32],
    accounts: Seq<AccountRef>,
    payload: Seq<u8>,
    authority: Authority,
    answers: Seq<Result<(), ProgramError>>,
    first: Result<(), ProgramError>,
    second: Result<(), ProgramError>,
)
    requires
        run_ends_with(dispatch_spec(program_id, accounts, payload, authority), answers, first),
        run_ends_with(dispatch_spec(program_id, accounts, payload, authority), answers, second),
    ensures
        first == second,
        ({
            let plan = dispatch_spec(program_id, accounts, payload, authority);
            plan.1 is Ok && answers.len() == plan.0.len() && (forall|i: int|
                0 <= i < answers.len() ==> answers[i] is Ok) ==> first is Ok
        }),
{
    let plan = dispatch_spec(program_id, accounts, payload, authority);
    if plan.1 is Ok && plan.0.len() > 0 {
        lemma_run_of_successful_plan(plan, answers, first);
    }
}

} // verus!

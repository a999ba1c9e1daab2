//! The entry point against the host runtime: it reads the accounts it is
//! given, decides with [`dispatch`], and issues the planned calls in order.
use vstd::prelude::*;
use vstd::slice::slice_subrange;

use pinocchio::account_info::AccountInfo;
use pinocchio::cpi::{slice_invoke, slice_invoke_signed};
use pinocchio::instruction::{AccountMeta, Instruction, Seed, Signer};
use pinocchio::program_error::ProgramError;
use pinocchio::pubkey::Pubkey;

use crate::dispatch::{dispatch, dispatch_spec, is_swap_payload};
use crate::model::{
    AccountRef, Authority, CpiCall, CpiSpec, Plan, SignerSeeds, SwapError, ACC_LEN,
    AUTHORITY_SEED, DIRECT_ACC_LEN, PROGRAM_ID,
};

verus! {

/// pinocchio's view of an account that the host passed in; opaque here, and
/// read only through its accessors below.
#[verifier::external_type_specification]
#[verifier::external_body]
pub struct ExAccountInfo(AccountInfo);

/// pinocchio's error enum. Its variants hold nothing but a `u32`, so it is
/// declared with them visible: the refusals of this program are built from them.
#[verifier::external_type_specification]
pub struct ExProgramError(ProgramError);

/// Relies on pinocchio's `AccountInfo::key`: the account's identity.
pub assume_specification[ AccountInfo::key ](info: &AccountInfo) -> &Pubkey;

/// Relies on pinocchio's `AccountInfo::is_signer`: the account's signer flag.
pub assume_specification[ AccountInfo::is_signer ](info: &AccountInfo) -> bool;

/// Relies on pinocchio's `AccountInfo::is_writable`: the account's writable flag.
pub assume_specification[ AccountInfo::is_writable ](info: &AccountInfo) -> bool;

/// The program-derived address of `program_id` for one seed, with its bump.
pub uninterp spec fn program_address(seed: Seq<u8>, program_id: Seq<u8>) -> ([u8; 32], u8);

/// Relies on `const_crypto::ed25519::derive_program_address`: for one seed it
/// returns the derived address and its bump, which depend on the seed and the
/// program id alone.
#[verifier::external_body]
fn derive_program_address(seed: &[u8], program_id: &[u8; 32]) -> (r: ([u8; 32], u8))
    ensures
        r == program_address(seed@, program_id@),
{
    const_crypto::ed25519::derive_program_address(&[seed], program_id)
}

/// Relies on `pinocchio::cpi::slice_invoke`: hands the call and the account
/// infos behind its metadata to the host, and returns what the host answers.
#[verifier::external_body]
fn invoke_call(call: &CpiCall, infos: &[AccountInfo]) -> (r: Result<(), ProgramError>) {
    let metas: Vec<AccountMeta> = call.accounts.iter().map(
        |m| AccountMeta::new(&m.key, m.is_writable, m.is_signer),
    ).collect();
    let infos: Vec<&AccountInfo> = infos.iter().collect();
    let ix = Instruction { program_id: &call.program_id, accounts: &metas, data: &call.data };
    slice_invoke(&ix, &infos)
}

/// Relies on `pinocchio::cpi::slice_invoke_signed`: as `invoke_call`, with one
/// signer, the address derived from `seeds`, signing the call.
#[verifier::external_body]
fn invoke_signed_call(call: &CpiCall, infos: &[AccountInfo], seeds: &SignerSeeds) -> (r: Result<
    (),
    ProgramError,
>) {
    let metas: Vec<AccountMeta> = call.accounts.iter().map(
        |m| AccountMeta::new(&m.key, m.is_writable, m.is_signer),
    ).collect();
    let infos: Vec<&AccountInfo> = infos.iter().collect();
    let ix = Instruction { program_id: &call.program_id, accounts: &metas, data: &call.data };
    let bump = [seeds.bump];
    let signer_seeds = [Seed::from(&seeds.seed), Seed::from(&bump)];
    slice_invoke_signed(&ix, &infos, &[Signer::from(&signer_seeds)])
}

/// The address that this program signs for in its self-invocation.
pub open spec fn authority_spec() -> Authority {
    let (key, bump) = program_address(AUTHORITY_SEED@, PROGRAM_ID@);
    Authority { key, bump }
}

/// Derives the authority address of this program from its fixed seed.
pub fn authority() -> (a: Authority)
    ensures
        a == authority_spec(),
{
    let (key, bump) = derive_program_address(&AUTHORITY_SEED, &PROGRAM_ID);
    Authority { key, bump }
}

/// The host's error for each refusal.
pub open spec fn program_error_of(e: SwapError) -> ProgramError {
    match e {
        SwapError::IncorrectProgramId => ProgramError::IncorrectProgramId,
        SwapError::IncorrectAuthority => ProgramError::IncorrectAuthority,
        SwapError::MissingRequiredSignature => ProgramError::MissingRequiredSignature,
        SwapError::InvalidInstructionData => ProgramError::InvalidInstructionData,
        SwapError::NotEnoughAccountKeys => ProgramError::NotEnoughAccountKeys,
    }
}

/// The host's error for a refusal.
pub fn program_error(e: SwapError) -> (r: ProgramError)
    ensures
        r == program_error_of(e),
{
    match e {
        SwapError::IncorrectProgramId => ProgramError::IncorrectProgramId,
        SwapError::IncorrectAuthority => ProgramError::IncorrectAuthority,
        SwapError::MissingRequiredSignature => ProgramError::MissingRequiredSignature,
        SwapError::InvalidInstructionData => ProgramError::InvalidInstructionData,
        SwapError::NotEnoughAccountKeys => ProgramError::NotEnoughAccountKeys,
    }
}

/// The identity and flags of each account, in order.
fn account_refs(accounts: &[AccountInfo]) -> (refs: Vec<AccountRef>)
    ensures
        refs@.len() == accounts@.len(),
{
    let mut refs: Vec<AccountRef> = Vec::new();
    let mut i: usize = 0;
    while i < accounts.len()
        invariant
            i <= accounts@.len(),
            refs@.len() == i,
        decreases accounts@.len() - i,
    {
        let info = &accounts[i];
        refs.push(
            AccountRef {
                key: *info.key(),
                is_signer: info.is_signer(),
                is_writable: info.is_writable(),
            },
        );
        i += 1;
    }
    refs
}

/// Every call of `plan` draws on accounts that exist.
pub open spec fn calls_fit(plan: Plan, n: nat) -> bool {
    forall|k: int|
        0 <= k < plan.calls@.len() ==> plan.calls@[k].account_offset + plan.calls@[k].accounts@.len()
            <= n
}

/// The calls that [`dispatch`] plans draw on accounts that exist.
proof fn lemma_calls_fit(
    plan: Plan,
    program_id: [u8; 32],
    accounts: Seq<AccountRef>,
    payload: Seq<u8>,
    authority: Authority,
)
    requires
        plan@ == dispatch_spec(program_id, accounts, payload, authority),
    ensures
        calls_fit(plan, accounts.len()),
{
    let calls = dispatch_spec(program_id, accounts, payload, authority).0;
    assert forall|k: int| 0 <= k < calls.len() implies calls[k].account_offset
        + calls[k].accounts.len() <= accounts.len() by {}
    assert forall|k: int| 0 <= k < plan.calls@.len() implies plan.calls@[k].account_offset
        + plan.calls@[k].accounts@.len() <= accounts.len() by {
        assert(calls[k] == plan.calls@[k]@);
    }
}

/// How an instruction ends when all its calls have succeeded.
pub open spec fn outcome_result(outcome: Result<(), SwapError>) -> Result<(), ProgramError> {
    match outcome {
        Ok(()) => Ok(()),
        Err(e) => Err(program_error_of(e)),
    }
}

/// What follows the host's answer `result` to call `k` of `n`: `None` to go on
/// with the next call, or the instruction's result.
pub open spec fn step(
    outcome: Result<(), SwapError>,
    n: nat,
    k: nat,
    result: Result<(), ProgramError>,
) -> Option<Result<(), ProgramError>> {
    if result is Err {
        Some(result)
    } else if k + 1 < n {
        None
    } else {
        Some(outcome_result(outcome))
    }
}

/// A run of `plan` whose calls the host answered, in order, with `answers`
/// ends with `r`: each answer but the last let the run go on, and the last
/// one, or the plan's outcome where there is no call, gave `r`.
pub open spec fn run_ends_with(
    plan: (Seq<CpiSpec>, Result<(), SwapError>),
    answers: Seq<Result<(), ProgramError>>,
    r: Result<(), ProgramError>,
) -> bool {
    let n = plan.0.len();
    if answers.len() == 0 {
        n == 0 && r == outcome_result(plan.1)
    } else {
        &&& answers.len() <= n
        &&& forall|i: int|
            0 <= i < answers.len() - 1 ==> #[trigger] step(plan.1, n, i as nat, answers[i]) is None
        &&& step(plan.1, n, (answers.len() - 1) as nat, answers.last()) == Some(r)
    }
}

/// Decides, from the host's answer to call `k` of `plan`, whether the
/// instruction goes on (`None`) or ends, and with what: a failed call ends it
/// with the host's error unchanged, and the answer to the last call ends it
/// with the plan's own outcome.
pub fn after_call(plan: &Plan, k: usize, result: Result<(), ProgramError>) -> (next: Option<
    Result<(), ProgramError>,
>)
    requires
        k < plan.calls@.len(),
    ensures
        next == step(plan.outcome, plan.calls@.len(), k as nat, result),
        result is Err ==> next == Some(result),
        result is Ok && k + 1 < plan.calls@.len() ==> next is None,
        result is Ok && k + 1 == plan.calls@.len() ==> next == Some(outcome_result(plan.outcome)),
{
    if result.is_err() {
        return Some(result);
    }
    if k < plan.calls.len() - 1 {
        return None;
    }
    match plan.outcome {
        Ok(()) => Some(Ok(())),
        Err(e) => Some(Err(program_error(e))),
    }
}

/// Issues the calls of `plan` in order, each with the accounts behind its
/// metadata and, where it is signed, its seeds, and lets [`after_call`]
/// decide after each answer. The ghost result holds the host's answers.
fn issue(plan: &Plan, accounts: &[AccountInfo]) -> (r: (
    Result<(), ProgramError>,
    Ghost<Seq<Result<(), ProgramError>>>,
))
    requires
        calls_fit(*plan, accounts@.len()),
    ensures
        run_ends_with(plan@, r.1@, r.0),
{
    let ghost calls = plan@.0;
    assert(calls.len() == plan.calls@.len());
    if plan.calls.len() == 0 {
        let r = match plan.outcome {
            Ok(()) => Ok(()),
            Err(e) => Err(program_error(e)),
        };
        return (r, Ghost(Seq::empty()));
    }
    let n = accounts.len();
    let len = plan.calls.len();
    let mut k: usize = 0;
    let ghost mut answers: Seq<Result<(), ProgramError>> = Seq::empty();
    loop
        invariant
            n == accounts@.len(),
            len == plan.calls@.len(),
            k < plan.calls@.len(),
            calls.len() == plan.calls@.len(),
            calls == plan@.0,
            answers.len() == k,
            calls_fit(*plan, accounts@.len()),
            forall|i: int|
                0 <= i < k ==> #[trigger] step(plan.outcome, calls.len(), i as nat, answers[i])
                    is None,
        decreases plan.calls@.len() - k,
    {
        let call = &plan.calls[k];
        assert(call.account_offset + call.accounts@.len() <= accounts@.len());
        let infos = slice_subrange(
            accounts,
            call.account_offset,
            call.account_offset + call.accounts.len(),
        );
        let result = match &call.signer {
            None => invoke_call(call, infos),
            Some(seeds) => invoke_signed_call(call, infos, seeds),
        };
        proof {
            answers = answers.push(result);
        }
        match after_call(plan, k, result) {
            Some(r) => {
                proof {
                    assert(answers.last() == result);
                    assert forall|i: int| 0 <= i < answers.len() - 1 implies #[trigger] step(
                        plan@.1,
                        calls.len(),
                        i as nat,
                        answers[i],
                    ) is None by {
                        assert(answers[i] == answers.drop_last()[i]);
                    }
                }
                return (r, Ghost(answers));
            },
            None => {
                assert(k + 1 < len);
                proof {
                    assert forall|i: int| 0 <= i < k + 1 implies #[trigger] step(
                        plan.outcome,
                        calls.len(),
                        i as nat,
                        answers[i],
                    ) is None by {
                        if i < k {
                            assert(answers[i] == answers.drop_last()[i]);
                        }
                    }
                }
                k += 1;
            },
        }
    }
}

/// Processes one instruction of this program: checks that it is addressed
/// here, routes on its first byte, and issues the swaps that the opcode calls
/// for. Errors of the host or of the called programs come back unchanged.
pub fn process_instruction(
    program_id: &Pubkey,
    accounts: &[AccountInfo],
    instruction_data: &[u8],
) -> (r: Result<(), ProgramError>)
    ensures
        *program_id != PROGRAM_ID ==> r == Err::<(), ProgramError>(ProgramError::IncorrectProgramId),
        *program_id == PROGRAM_ID && (instruction_data@.len() == 0 || instruction_data@[0] > 3)
            ==> r == Err::<(), ProgramError>(ProgramError::InvalidInstructionData),
        *program_id == PROGRAM_ID && instruction_data@.len() > 0 && instruction_data@[0] <= 1
            && accounts@.len() < DIRECT_ACC_LEN ==> r == Err::<(), ProgramError>(
            ProgramError::NotEnoughAccountKeys,
        ),
        *program_id == PROGRAM_ID && instruction_data@.len() > 0 && instruction_data@[0] == 2
            && accounts@.len() < ACC_LEN ==> r == Err::<(), ProgramError>(
            ProgramError::NotEnoughAccountKeys,
        ),
        *program_id == PROGRAM_ID && instruction_data@.len() > 0 && instruction_data@[0] == 3
            && accounts@.len() == 0 ==> r == Err::<(), ProgramError>(
            ProgramError::NotEnoughAccountKeys,
        ),
        r is Ok ==> *program_id == PROGRAM_ID && instruction_data@.len() > 0
            && instruction_data@[0] <= 3,
        r is Ok ==> accounts@.len() >= DIRECT_ACC_LEN,
        r is Ok && instruction_data@[0] >= 2 ==> accounts@.len() >= ACC_LEN,
        *program_id == PROGRAM_ID && instruction_data@.len() > 0 && instruction_data@[0] == 2
            && accounts@.len() >= ACC_LEN && !is_swap_payload(
            instruction_data@.subrange(1, instruction_data@.len() as int),
        ) ==> r is Err,
        exists|refs: Seq<AccountRef>, answers: Seq<Result<(), ProgramError>>|
            refs.len() == accounts@.len() && #[trigger] run_ends_with(
                dispatch_spec(*program_id, refs, instruction_data@, authority_spec()),
                answers,
                r,
            ),
{
    let refs = account_refs(accounts);
    let authority = authority();
    let plan = dispatch(program_id, refs.as_slice(), instruction_data, &authority);
    proof {
        lemma_calls_fit(plan, *program_id, refs@, instruction_data@, authority);
        assert(plan.calls@.len() == plan@.0.len());
    }
    let (r, answers) = issue(&plan, accounts);
    proof {
        assert(run_ends_with(
            dispatch_spec(*program_id, refs@, instruction_data@, authority_spec()),
            answers@,
            r,
        ));
    }
    r
}

} // verus!

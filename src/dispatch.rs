//! Which cross-program calls an instruction issues, decided on plain values.
use vstd::prelude::*;
use vstd::slice::slice_to_vec;

use crate::model::{
    AccountMetaDescriptor, AccountRef, Authority, CpiCall, CpiSpec, Plan, SignerSeeds, SwapError,
    ACC_LEN, AUTHORITY_SEED,
    DAMM_V2_PROGRAM_ID, DIRECT_ACC_LEN, NESTED_OPCODE, PROGRAM_ID, SWAP_DISCRIMINATOR,
    SWAP_PARAM_LEN,
};

verus! {

/// The metadata of an account, with its flags passed through.
pub open spec fn meta_of(a: AccountRef) -> AccountMetaDescriptor {
    AccountMetaDescriptor { key: a.key, is_signer: a.is_signer, is_writable: a.is_writable }
}

/// The metadata of an account for the self-invocation: the authority's signer
/// bit is set, every other bit passes through.
pub open spec fn escalated_meta(a: AccountRef, authority: [u8; 32]) -> AccountMetaDescriptor {
    AccountMetaDescriptor {
        key: a.key,
        is_signer: a.key == authority || a.is_signer,
        is_writable: a.is_writable,
    }
}

/// A payload of the external swap: its discriminator and a parameter block.
pub open spec fn is_swap_payload(data: Seq<u8>) -> bool {
    &&& data.len() == SWAP_PARAM_LEN
    &&& data.subrange(0, 8) == SWAP_DISCRIMINATOR@
}

/// The call to the external program on the first accounts of `accounts`,
/// whose first entry is account `offset` of the instruction.
pub open spec fn direct_swap_call(accounts: Seq<AccountRef>, data: Seq<u8>, offset: nat) -> CpiSpec {
    CpiSpec {
        program_id: DAMM_V2_PROGRAM_ID,
        accounts: accounts.take(DIRECT_ACC_LEN as int).map_values(|a: AccountRef| meta_of(a)),
        data,
        signer: None,
        account_offset: offset,
    }
}

/// The signed call of this program on itself, routed to the gated branch.
pub open spec fn nested_call(accounts: Seq<AccountRef>, data: Seq<u8>, authority: Authority) -> CpiSpec {
    CpiSpec {
        program_id: PROGRAM_ID,
        accounts: accounts.take(ACC_LEN as int).map_values(
            |a: AccountRef| escalated_meta(a, authority.key),
        ),
        data: seq![NESTED_OPCODE].add(data),
        signer: Some(SignerSeeds { seed: AUTHORITY_SEED, bump: authority.bump }),
        account_offset: 0,
    }
}

/// The accounts that the host hands to the program a call invokes: each with
/// the identity and the flags that the call's metadata grants it.
pub open spec fn invoked_accounts(call: CpiSpec) -> Seq<AccountRef> {
    call.accounts.map_values(
        |m: AccountMetaDescriptor|
            AccountRef { key: m.key, is_signer: m.is_signer, is_writable: m.is_writable },
    )
}

/// The calls issued and the outcome of one instruction.
pub open spec fn dispatch_spec(
    program_id: [u8; 32],
    accounts: Seq<AccountRef>,
    payload: Seq<u8>,
    authority: Authority,
) -> (Seq<CpiSpec>, Result<(), SwapError>) {
    let rest = payload.subrange(1, payload.len() as int);
    let tail = accounts.subrange(1, accounts.len() as int);
    if program_id != PROGRAM_ID {
        (seq![], Err(SwapError::IncorrectProgramId))
    } else if payload.len() == 0 {
        (seq![], Err(SwapError::InvalidInstructionData))
    } else if payload[0] == 0 {
        if accounts.len() < DIRECT_ACC_LEN {
            (seq![], Err(SwapError::NotEnoughAccountKeys))
        } else {
            (seq![direct_swap_call(accounts, rest, 0)], Ok(()))
        }
    } else if payload[0] == 1 {
        if accounts.len() < DIRECT_ACC_LEN {
            (seq![], Err(SwapError::NotEnoughAccountKeys))
        } else {
            let c = direct_swap_call(accounts, rest, 0);
            (seq![c, c], Ok(()))
        }
    } else if payload[0] == 2 {
        if accounts.len() < ACC_LEN {
            (seq![], Err(SwapError::NotEnoughAccountKeys))
        } else if is_swap_payload(rest) {
            (
                seq![direct_swap_call(tail, rest, 1), nested_call(accounts, rest, authority)],
                Ok(()),
            )
        } else {
            (seq![direct_swap_call(tail, rest, 1)], Err(SwapError::InvalidInstructionData))
        }
    } else if payload[0] == 3 {
        if accounts.len() == 0 {
            (seq![], Err(SwapError::NotEnoughAccountKeys))
        } else if accounts[0].key != authority.key {
            (seq![], Err(SwapError::IncorrectAuthority))
        } else if !accounts[0].is_signer {
            (seq![], Err(SwapError::MissingRequiredSignature))
        } else if accounts.len() < ACC_LEN {
            (seq![], Err(SwapError::NotEnoughAccountKeys))
        } else {
            (seq![direct_swap_call(tail, rest, 1)], Ok(()))
        }
    } else {
        (seq![], Err(SwapError::InvalidInstructionData))
    }
}

/// Whether two identities are equal.
pub fn keys_equal(a: &[u8; 32], b: &[u8; 32]) -> (r: bool)
    ensures
        r == (*a == *b),
{
    let mut i: usize = 0;
    while i < 32
        invariant
            i <= 32,
            forall|j: int| 0 <= j < i ==> a[j] == b[j],
        decreases 32 - i,
    {
        if a[i] != b[i] {
            return false;
        }
        i += 1;
    }
    assert(*a =~= *b);
    true
}

/// The metadata of `acc` in a call signed for `authority`: the signer bit is
/// forced on for the authority itself, and every other flag passes through.
pub fn authority_meta(acc: &AccountRef, authority: &[u8; 32]) -> (m: AccountMetaDescriptor)
    ensures
        m == escalated_meta(*acc, *authority),
{
    let is_authority = keys_equal(&acc.key, authority);
    AccountMetaDescriptor {
        key: acc.key,
        is_signer: is_authority || acc.is_signer,
        is_writable: acc.is_writable,
    }
}

/// Whether `data` is a payload of the external swap instruction.
pub fn check_swap_payload(data: &[u8]) -> (r: bool)
    ensures
        r == is_swap_payload(data@),
{
    if data.len() != SWAP_PARAM_LEN {
        return false;
    }
    let mut i: usize = 0;
    while i < 8
        invariant
            i <= 8,
            data@.len() == SWAP_PARAM_LEN,
            forall|j: int| 0 <= j < i ==> data@[j] == SWAP_DISCRIMINATOR@[j],
        decreases 8 - i,
    {
        if data[i] != SWAP_DISCRIMINATOR[i] {
            assert(data@.subrange(0, 8)[i as int] != SWAP_DISCRIMINATOR@[i as int]);
            return false;
        }
        i += 1;
    }
    assert(data@.subrange(0, 8) =~= SWAP_DISCRIMINATOR@);
    true
}

/// The unsigned call of the external swap on the first fifteen accounts, with
/// their flags unchanged and the payload forwarded as it is.
pub fn direct_swap(accounts: &[AccountRef], instruction_data: &[u8]) -> (call: CpiCall)
    requires
        accounts@.len() >= DIRECT_ACC_LEN,
    ensures
        call@ == direct_swap_call(accounts@, instruction_data@, 0),
{
    let mut metas: Vec<AccountMetaDescriptor> = Vec::new();
    let mut i: usize = 0;
    while i < DIRECT_ACC_LEN
        invariant
            i <= DIRECT_ACC_LEN,
            accounts@.len() >= DIRECT_ACC_LEN,
            metas@ =~= accounts@.take(i as int).map_values(|a: AccountRef| meta_of(a)),
        decreases DIRECT_ACC_LEN - i,
    {
        let a = accounts[i];
        metas.push(
            AccountMetaDescriptor { key: a.key, is_signer: a.is_signer, is_writable: a.is_writable },
        );
        i += 1;
    }
    CpiCall {
        program_id: DAMM_V2_PROGRAM_ID,
        accounts: metas,
        data: slice_to_vec(instruction_data),
        signer: None,
        account_offset: 0,
    }
}

/// The signed call of this program on itself over the first sixteen accounts,
/// with the authority's signer bit forced and the opcode of the gated branch
/// put before the payload. A payload that is not a swap payload is refused
/// before any metadata is built.
pub fn nest_cpi_swap(accounts: &[AccountRef], instruction_data: &[u8], authority: &Authority) -> (r:
    Result<CpiCall, SwapError>)
    requires
        accounts@.len() >= ACC_LEN,
    ensures
        match r {
            Ok(call) => is_swap_payload(instruction_data@) && call@ == nested_call(
                accounts@,
                instruction_data@,
                *authority,
            ),
            Err(e) => !is_swap_payload(instruction_data@) && e == SwapError::InvalidInstructionData,
        },
{
    if !check_swap_payload(instruction_data) {
        return Err(SwapError::InvalidInstructionData);
    }
    let mut data: Vec<u8> = Vec::new();
    data.push(NESTED_OPCODE);
    let mut payload = slice_to_vec(instruction_data);
    data.append(&mut payload);
    let mut metas: Vec<AccountMetaDescriptor> = Vec::new();
    let mut i: usize = 0;
    while i < ACC_LEN
        invariant
            i <= ACC_LEN,
            accounts@.len() >= ACC_LEN,
            metas@ =~= accounts@.take(i as int).map_values(
                |a: AccountRef| escalated_meta(a, authority.key),
            ),
        decreases ACC_LEN - i,
    {
        let m = authority_meta(&accounts[i], &authority.key);
        metas.push(m);
        i += 1;
    }
    assert(data@ =~= seq![NESTED_OPCODE].add(instruction_data@));
    Ok(
        CpiCall {
            program_id: PROGRAM_ID,
            accounts: metas,
            data,
            signer: Some(SignerSeeds { seed: AUTHORITY_SEED, bump: authority.bump }),
            account_offset: 0,
        },
    )
}

/// A plan that issues nothing and ends with `e`.
fn refuse(e: SwapError) -> (plan: Plan)
    ensures
        plan@ == (Seq::<CpiSpec>::empty(), Err::<(), SwapError>(e)),
{
    let plan = Plan { calls: Vec::new(), outcome: Err(e) };
    assert(plan@.0 =~= Seq::<CpiSpec>::empty());
    plan
}

/// The calls that one instruction issues, in order, and how it ends once all
/// of them have succeeded. Byte 0 of `instruction_data` is the opcode:
/// 0 swaps once, 1 swaps twice, 2 swaps on accounts 1 to 15 and then invokes
/// this program on itself, signed for the authority, and 3 swaps on accounts 1
/// to 15 once account 0 is the authority and a signer.
pub fn dispatch(
    program_id: &[u8; 32],
    accounts: &[AccountRef],
    instruction_data: &[u8],
    authority: &Authority,
) -> (plan: Plan)
    ensures
        plan@ == dispatch_spec(*program_id, accounts@, instruction_data@, *authority),
{
    if !keys_equal(program_id, &PROGRAM_ID) {
        return refuse(SwapError::IncorrectProgramId);
    }
    if instruction_data.len() == 0 {
        return refuse(SwapError::InvalidInstructionData);
    }
    let opcode = instruction_data[0];
    let (_, rest) = instruction_data.split_at(1);
    if opcode == 0 {
        if accounts.len() < DIRECT_ACC_LEN {
            return refuse(SwapError::NotEnoughAccountKeys);
        }
        let call = direct_swap(accounts, rest);
        let plan = Plan { calls: vec![call], outcome: Ok(()) };
        assert(plan@.0 =~= seq![direct_swap_call(accounts@, rest@, 0nat)]);
        plan
    } else if opcode == 1 {
        if accounts.len() < DIRECT_ACC_LEN {
            return refuse(SwapError::NotEnoughAccountKeys);
        }
        let first = direct_swap(accounts, rest);
        let second = direct_swap(accounts, rest);
        let plan = Plan { calls: vec![first, second], outcome: Ok(()) };
        let ghost c = direct_swap_call(accounts@, rest@, 0nat);
        assert(plan@.0 =~= seq![c, c]);
        plan
    } else if opcode == 2 {
        if accounts.len() < ACC_LEN {
            return refuse(SwapError::NotEnoughAccountKeys);
        }
        let (_authority_account, remaining) = accounts.split_at(1);
        let mut direct = direct_swap(remaining, rest);
        direct.account_offset = 1;
        let ghost d = direct_swap_call(remaining@, rest@, 1nat);
        match nest_cpi_swap(accounts, rest, authority) {
            Ok(nested) => {
                let plan = Plan { calls: vec![direct, nested], outcome: Ok(()) };
                assert(plan@.0 =~= seq![d, nested_call(accounts@, rest@, *authority)]);
                plan
            },
            Err(e) => {
                let plan = Plan { calls: vec![direct], outcome: Err(e) };
                assert(plan@.0 =~= seq![d]);
                plan
            },
        }
    } else if opcode == 3 {
        if accounts.len() == 0 {
            return refuse(SwapError::NotEnoughAccountKeys);
        }
        let (authority_account, remaining) = accounts.split_at(1);
        if !keys_equal(&authority_account[0].key, &authority.key) {
            return refuse(SwapError::IncorrectAuthority);
        }
        if !authority_account[0].is_signer {
            return refuse(SwapError::MissingRequiredSignature);
        }
        if accounts.len() < ACC_LEN {
            return refuse(SwapError::NotEnoughAccountKeys);
        }
        let mut direct = direct_swap(remaining, rest);
        direct.account_offset = 1;
        let plan = Plan { calls: vec![direct], outcome: Ok(()) };
        assert(plan@.0 =~= seq![direct_swap_call(remaining@, rest@, 1nat)]);
        plan
    } else {
        refuse(SwapError::InvalidInstructionData)
    }
}

} // verus!

use rate_limiter_bypass::dispatch::{
    authority_meta, check_swap_payload, direct_swap, dispatch, keys_equal, nest_cpi_swap,
};
use rate_limiter_bypass::model::{
    AccountMetaDescriptor, AccountRef, Authority, CpiCall, SignerSeeds, SwapError, DAMM_V2_PROGRAM_ID,
    PROGRAM_ID, SWAP_DISCRIMINATOR,
};

const PDA: [u8; 32] = [7; 32];

fn authority() -> Authority {
    Authority { key: PDA, bump: 254 }
}

fn account(n: u8, is_signer: bool, is_writable: bool) -> AccountRef {
    AccountRef { key: [n; 32], is_signer, is_writable }
}

/// Sixteen accounts; account 0 is the authority when `authority_first` holds.
fn accounts(authority_first: bool, authority_signs: bool) -> Vec<AccountRef> {
    let mut v = Vec::new();
    for i in 0..16u8 {
        v.push(account(100 + i, i % 3 == 0, i % 2 == 0));
    }
    if authority_first {
        v[0] = AccountRef { key: PDA, is_signer: authority_signs, is_writable: false };
    }
    v
}

fn swap_payload() -> Vec<u8> {
    let mut p = SWAP_DISCRIMINATOR.to_vec();
    p.extend((1..=16u8).collect::<Vec<u8>>());
    p
}

fn with_opcode(op: u8, payload: &[u8]) -> Vec<u8> {
    let mut v = vec![op];
    v.extend_from_slice(payload);
    v
}

fn metas_of(accs: &[AccountRef]) -> Vec<AccountMetaDescriptor> {
    accs.iter()
        .map(|a| AccountMetaDescriptor { key: a.key, is_signer: a.is_signer, is_writable: a.is_writable })
        .collect()
}

fn direct_call(accs: &[AccountRef], data: &[u8], offset: usize) -> CpiCall {
    CpiCall {
        program_id: DAMM_V2_PROGRAM_ID,
        accounts: metas_of(&accs[..15]),
        data: data.to_vec(),
        signer: None,
        account_offset: offset,
    }
}

#[test]
fn opcode_zero_issues_one_swap_on_first_fifteen_accounts() {
    let accs = accounts(false, false);
    let plan = dispatch(&PROGRAM_ID, &accs, &with_opcode(0, &[9, 8, 7]), &authority());
    assert_eq!(plan.outcome, Ok(()));
    assert_eq!(plan.calls, vec![direct_call(&accs, &[9, 8, 7], 0)]);
}

#[test]
fn opcode_one_issues_two_identical_swaps() {
    let accs = accounts(false, false);
    let plan = dispatch(&PROGRAM_ID, &accs, &with_opcode(1, &swap_payload()), &authority());
    assert_eq!(plan.outcome, Ok(()));
    assert_eq!(plan.calls.len(), 2);
    assert_eq!(plan.calls[0], plan.calls[1]);
    assert_eq!(plan.calls[0], direct_call(&accs, &swap_payload(), 0));
}

#[test]
fn opcode_two_swaps_then_invokes_itself() {
    let accs = accounts(true, false);
    let payload = swap_payload();
    let plan = dispatch(&PROGRAM_ID, &accs, &with_opcode(2, &payload), &authority());
    assert_eq!(plan.outcome, Ok(()));
    assert_eq!(plan.calls.len(), 2);
    assert_eq!(plan.calls[0], direct_call(&accs[1..], &payload, 1));
    let nested = &plan.calls[1];
    assert_eq!(nested.program_id, PROGRAM_ID);
    assert_eq!(nested.signer, Some(SignerSeeds { seed: *b"authority", bump: 254 }));
    assert_eq!(nested.account_offset, 0);
    assert_eq!(nested.data, with_opcode(3, &payload));
    assert_eq!(nested.accounts.len(), 16);
    assert!(nested.accounts[0].is_signer);
    assert_eq!(&nested.accounts[1..], &metas_of(&accs[1..])[..]);
}

#[test]
fn reentry_through_self_invocation_issues_one_swap() {
    let accs = accounts(true, false);
    let payload = swap_payload();
    let plan = dispatch(&PROGRAM_ID, &accs, &with_opcode(2, &payload), &authority());
    let nested = &plan.calls[1];
    let handed: Vec<AccountRef> = nested
        .accounts
        .iter()
        .map(|m| AccountRef { key: m.key, is_signer: m.is_signer, is_writable: m.is_writable })
        .collect();
    let inner = dispatch(&nested.program_id, &handed, &nested.data, &authority());
    assert_eq!(inner.outcome, Ok(()));
    assert_eq!(inner.calls, vec![direct_call(&handed[1..], &payload, 1)]);
}

#[test]
fn opcode_three_rejects_other_authority() {
    let accs = accounts(false, true);
    let plan = dispatch(&PROGRAM_ID, &accs, &with_opcode(3, &swap_payload()), &authority());
    assert_eq!(plan.outcome, Err(SwapError::IncorrectAuthority));
    assert!(plan.calls.is_empty());
}

#[test]
fn opcode_three_rejects_unsigned_authority() {
    let accs = accounts(true, false);
    let plan = dispatch(&PROGRAM_ID, &accs, &with_opcode(3, &swap_payload()), &authority());
    assert_eq!(plan.outcome, Err(SwapError::MissingRequiredSignature));
    assert!(plan.calls.is_empty());
}

#[test]
fn opcode_three_with_signing_authority_swaps_on_the_rest() {
    let accs = accounts(true, true);
    let plan = dispatch(&PROGRAM_ID, &accs, &with_opcode(3, &swap_payload()), &authority());
    assert_eq!(plan.outcome, Ok(()));
    assert_eq!(plan.calls, vec![direct_call(&accs[1..], &swap_payload(), 1)]);
}

#[test]
fn unknown_opcode_or_empty_payload_is_invalid() {
    let accs = accounts(true, true);
    for data in [vec![], vec![4u8], with_opcode(4, &swap_payload()), vec![255u8, 1, 2]] {
        let plan = dispatch(&PROGRAM_ID, &accs, &data, &authority());
        assert_eq!(plan.outcome, Err(SwapError::InvalidInstructionData));
        assert!(plan.calls.is_empty());
    }
}

#[test]
fn foreign_program_id_is_refused() {
    let accs = accounts(false, false);
    let plan = dispatch(&DAMM_V2_PROGRAM_ID, &accs, &with_opcode(0, &swap_payload()), &authority());
    assert_eq!(plan.outcome, Err(SwapError::IncorrectProgramId));
    assert!(plan.calls.is_empty());
}

#[test]
fn too_few_accounts_are_refused() {
    let accs = accounts(true, true);
    let plan = dispatch(&PROGRAM_ID, &accs[..14], &with_opcode(0, &swap_payload()), &authority());
    assert_eq!(plan.outcome, Err(SwapError::NotEnoughAccountKeys));
    let plan = dispatch(&PROGRAM_ID, &accs[..15], &with_opcode(2, &swap_payload()), &authority());
    assert_eq!(plan.outcome, Err(SwapError::NotEnoughAccountKeys));
    assert!(plan.calls.is_empty());
    let plan = dispatch(&PROGRAM_ID, &[], &with_opcode(3, &swap_payload()), &authority());
    assert_eq!(plan.outcome, Err(SwapError::NotEnoughAccountKeys));
    let plan = dispatch(&PROGRAM_ID, &accs[..15], &with_opcode(3, &swap_payload()), &authority());
    assert_eq!(plan.outcome, Err(SwapError::NotEnoughAccountKeys));
}

#[test]
fn nested_payload_of_wrong_size_is_refused_after_the_direct_swap() {
    let accs = accounts(true, false);
    let mut long = swap_payload();
    long.push(0);
    for payload in [swap_payload()[..23].to_vec(), long, vec![]] {
        let plan = dispatch(&PROGRAM_ID, &accs, &with_opcode(2, &payload), &authority());
        assert_eq!(plan.outcome, Err(SwapError::InvalidInstructionData));
        assert_eq!(plan.calls, vec![direct_call(&accs[1..], &payload, 1)]);
        assert_eq!(nest_cpi_swap(&accs, &payload, &authority()), Err(SwapError::InvalidInstructionData));
    }
}

#[test]
fn nested_payload_with_wrong_discriminator_is_refused() {
    let accs = accounts(true, false);
    let mut payload = swap_payload();
    payload[3] ^= 1;
    assert_eq!(nest_cpi_swap(&accs, &payload, &authority()), Err(SwapError::InvalidInstructionData));
    assert!(!check_swap_payload(&payload));
    assert!(check_swap_payload(&swap_payload()));
}

#[test]
fn rerunning_an_instruction_gives_the_same_swaps() {
    let accs = accounts(false, false);
    let data = with_opcode(0, &swap_payload());
    let first = dispatch(&PROGRAM_ID, &accs, &data, &authority());
    let second = dispatch(&PROGRAM_ID, &accs, &data, &authority());
    assert_eq!(first, second);
    assert_eq!(first.outcome, Ok(()));
    assert_eq!(first.calls.len(), 1);
}

#[test]
fn authority_meta_forces_only_the_authority_signer_bit() {
    let unsigned_authority = AccountRef { key: PDA, is_signer: false, is_writable: true };
    assert_eq!(
        authority_meta(&unsigned_authority, &PDA),
        AccountMetaDescriptor { key: PDA, is_signer: true, is_writable: true }
    );
    let other = account(3, false, false);
    assert_eq!(
        authority_meta(&other, &PDA),
        AccountMetaDescriptor { key: [3; 32], is_signer: false, is_writable: false }
    );
    let signer = account(4, true, true);
    assert_eq!(
        authority_meta(&signer, &PDA),
        AccountMetaDescriptor { key: [4; 32], is_signer: true, is_writable: true }
    );
}

#[test]
fn direct_swap_ignores_remaining_accounts() {
    let mut accs = accounts(false, false);
    accs.push(account(1, true, true));
    let call = direct_swap(&accs, &[1, 2, 3]);
    assert_eq!(call, direct_call(&accs, &[1, 2, 3], 0));
    assert_eq!(call.accounts.len(), 15);
}

#[test]
fn keys_compare_every_byte() {
    let a = [5u8; 32];
    let mut b = a;
    assert!(keys_equal(&a, &b));
    b[31] = 6;
    assert!(!keys_equal(&a, &b));
}

use pinocchio::account_info::AccountInfo;
use pinocchio::program_error::ProgramError;
use rate_limiter_bypass::model::{AUTHORITY_SEED, DAMM_V2_PROGRAM_ID, PROGRAM_ID};
use rate_limiter_bypass::model::{AccountRef, Authority, SwapError};
use rate_limiter_bypass::program::{after_call, authority, process_instruction, program_error};

#[test]
fn identities_decode_from_their_base58_form() {
    assert_eq!(PROGRAM_ID, pinocchio_pubkey::from_str("5C61rHvq6uvAUs5Sw68SHNueFZknUiAUGyRkkqmU6DBC"));
    assert_eq!(DAMM_V2_PROGRAM_ID, pinocchio_pubkey::from_str("cpamdpZCGKUy5JxQXB4dcpGPiikHawvSWAd6mEn1sGG"));
    assert_eq!(&AUTHORITY_SEED, b"authority");
}

#[test]
fn authority_is_derived_from_seed_and_program_id() {
    let a = authority();
    let (key, bump) = const_crypto::ed25519::derive_program_address(&[b"authority"], &PROGRAM_ID);
    assert_eq!(a.key, key);
    assert_eq!(a.bump, bump);
    assert_ne!(a.key, PROGRAM_ID);
}

#[test]
fn process_instruction_refuses_foreign_program() {
    let none: [AccountInfo; 0] = [];
    assert_eq!(
        process_instruction(&DAMM_V2_PROGRAM_ID, &none, &[0]),
        Err(ProgramError::IncorrectProgramId)
    );
}

#[test]
fn process_instruction_refuses_bad_opcodes() {
    let none: [AccountInfo; 0] = [];
    assert_eq!(process_instruction(&PROGRAM_ID, &none, &[]), Err(ProgramError::InvalidInstructionData));
    assert_eq!(process_instruction(&PROGRAM_ID, &none, &[4, 1]), Err(ProgramError::InvalidInstructionData));
}

#[test]
fn process_instruction_refuses_missing_accounts() {
    let none: [AccountInfo; 0] = [];
    for op in 0..4u8 {
        assert_eq!(
            process_instruction(&PROGRAM_ID, &none, &[op, 1, 2]),
            Err(ProgramError::NotEnoughAccountKeys)
        );
    }
}

#[test]
fn each_refusal_maps_to_its_host_error() {
    assert_eq!(program_error(SwapError::IncorrectProgramId), ProgramError::IncorrectProgramId);
    assert_eq!(program_error(SwapError::IncorrectAuthority), ProgramError::IncorrectAuthority);
    assert_eq!(program_error(SwapError::MissingRequiredSignature), ProgramError::MissingRequiredSignature);
    assert_eq!(program_error(SwapError::InvalidInstructionData), ProgramError::InvalidInstructionData);
    assert_eq!(program_error(SwapError::NotEnoughAccountKeys), ProgramError::NotEnoughAccountKeys);
}

fn double_swap_plan() -> rate_limiter_bypass::model::Plan {
    let accs: Vec<AccountRef> =
        (0..15u8).map(|i| AccountRef { key: [i; 32], is_signer: false, is_writable: true }).collect();
    let auth = Authority { key: [200; 32], bump: 255 };
    rate_limiter_bypass::dispatch::dispatch(&PROGRAM_ID, &accs, &[1, 9, 9], &auth)
}

#[test]
fn after_call_stops_on_the_host_error_unchanged() {
    let plan = double_swap_plan();
    let err = Err(ProgramError::Custom(6001));
    assert_eq!(after_call(&plan, 0, err), Some(Err(ProgramError::Custom(6001))));
    assert_eq!(after_call(&plan, 1, Err(ProgramError::AccountBorrowFailed)), Some(Err(ProgramError::AccountBorrowFailed)));
}

#[test]
fn after_call_goes_on_until_the_last_call() {
    let plan = double_swap_plan();
    assert_eq!(after_call(&plan, 0, Ok(())), None);
    assert_eq!(after_call(&plan, 1, Ok(())), Some(Ok(())));
}

#[test]
fn after_call_ends_with_the_plan_refusal_after_the_last_call() {
    let accs: Vec<AccountRef> =
        (0..16u8).map(|i| AccountRef { key: [i; 32], is_signer: false, is_writable: true }).collect();
    let auth = Authority { key: [0; 32], bump: 255 };
    let plan = rate_limiter_bypass::dispatch::dispatch(&PROGRAM_ID, &accs, &[2, 1, 2, 3], &auth);
    assert_eq!(plan.calls.len(), 1);
    assert_eq!(after_call(&plan, 0, Ok(())), Some(Err(ProgramError::InvalidInstructionData)));
    assert_eq!(after_call(&plan, 0, Err(ProgramError::Custom(1))), Some(Err(ProgramError::Custom(1))));
}

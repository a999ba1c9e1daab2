use vstd::prelude::*;

verus! {

/// Identity of this program.
pub const PROGRAM_ID: [u8; 32] = [
    62, 69, 206, 131, 80, 44, 198, 51, 174, 166, 98, 38, 3, 3, 47, 6,
    196, 240, 62, 98, 112, 130, 99, 227, 150, 236, 94, 80, 200, 218, 141, 119,
];

/// Identity of the external AMM program whose swap instruction is relayed.
pub const DAMM_V2_PROGRAM_ID: [u8; 32] = [
    9, 45, 33, 53, 101, 122, 21, 156, 43, 135, 212, 182, 106, 112, 219, 142,
    151, 82, 56, 159, 247, 106, 175, 32, 108, 237, 6, 58, 56, 249, 90, 237,
];

/// Seed from which the authority address is derived.
pub const AUTHORITY_SEED: [u8; 9] = [97, 117, 116, 104, 111, 114, 105, 116, 121];

/// Discriminator of the external swap instruction.
pub const SWAP_DISCRIMINATOR: [u8; 8] = [248, 198, 158, 145, 225, 117, 135, 200];

/// Length of a swap payload: the discriminator and a 16-byte parameter block.
pub const SWAP_PARAM_LEN: usize = 8 + 16;

/// Accounts of the external swap instruction, without remaining accounts.
pub const DAMM_V2_SWAP_ACC_LEN: usize = 14;

/// Accounts handed to a direct swap: the swap's accounts and one more.
pub const DIRECT_ACC_LEN: usize = DAMM_V2_SWAP_ACC_LEN + 1;

/// Accounts of the self-invocation: the swap's accounts, the authority and a sysvar.
pub const ACC_LEN: usize = DAMM_V2_SWAP_ACC_LEN + 2;

/// Opcode that routes a re-invocation to the authority-gated branch.
pub const NESTED_OPCODE: u8 = 3;

/// An account as the host hands it over: identity and permission flags.
#[derive(Clone, Copy, Debug, PartialEq, Eq)]
pub struct AccountRef {
    pub key: [u8; 32],
    pub is_signer: bool,
    pub is_writable: bool,
}

/// The metadata of one account in an outgoing call.
#[derive(Clone, Copy, Debug, PartialEq, Eq)]
pub struct AccountMetaDescriptor {
    pub key: [u8; 32],
    pub is_signer: bool,
    pub is_writable: bool,
}

/// The derived authority address and the bump that makes it off-curve.
#[derive(Clone, Copy, Debug, PartialEq, Eq)]
pub struct Authority {
    pub key: [u8; 32],
    pub bump: u8,
}

/// The seeds with which this program signs for its authority: the fixed seed
/// and the bump that makes the derived address off-curve.
#[derive(Clone, Copy, Debug, PartialEq, Eq)]
pub struct SignerSeeds {
    pub seed: [u8; 9],
    pub bump: u8,
}

/// One cross-program call: its target, the account metadata in order, the
/// instruction data, and the one signer's seeds when it is signed.
/// `account_offset` is the index, in the instruction's own account list, of
/// the account that backs the first metadata entry.
#[derive(Debug, PartialEq, Eq)]
pub struct CpiCall {
    pub program_id: [u8; 32],
    pub accounts: Vec<AccountMetaDescriptor>,
    pub data: Vec<u8>,
    pub signer: Option<SignerSeeds>,
    pub account_offset: usize,
}

/// Mathematical view of a [`CpiCall`].
pub struct CpiSpec {
    pub program_id: [u8; 32],
    pub accounts: Seq<AccountMetaDescriptor>,
    pub data: Seq<u8>,
    pub signer: Option<SignerSeeds>,
    pub account_offset: nat,
}

impl View for CpiCall {
    type V = CpiSpec;

    open spec fn view(&self) -> CpiSpec {
        CpiSpec {
            program_id: self.program_id,
            accounts: self.accounts@,
            data: self.data@,
            signer: self.signer,
            account_offset: self.account_offset as nat,
        }
    }
}

/// Why an instruction is refused.
#[derive(Clone, Copy, Debug, PartialEq, Eq)]
pub enum SwapError {
    IncorrectProgramId,
    IncorrectAuthority,
    MissingRequiredSignature,
    InvalidInstructionData,
    NotEnoughAccountKeys,
}

/// What one instruction does: the calls it issues, in order, and how it ends
/// once every one of them has succeeded.
#[derive(Debug, PartialEq, Eq)]
pub struct Plan {
    pub calls: Vec<CpiCall>,
    pub outcome: Result<(), SwapError>,
}

impl View for Plan {
    type V = (Seq<CpiSpec>, Result<(), SwapError>);

    open spec fn view(&self) -> (Seq<CpiSpec>, Result<(), SwapError>) {
        (self.calls@.map_values(|c: CpiCall| c@), self.outcome)
    }
}

} // verus!

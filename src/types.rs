use vstd::prelude::*;

verus! {

/// Intent codes under which the on-chain contract accepts signed payloads.
pub const CREATE_WALLET_INTENT: u8 = 0;
pub const LINK_ADDRESS_INTENT: u8 = 1;
pub const TRANSFER_INTENT: u8 = 2;
pub const BIOAUTH_INTENT: u8 = 3;
pub const WITHDRAW_INTENT: u8 = 4;

/// Payload that creates a wallet for a handle.
#[derive(Debug, Clone)]
pub struct CreateWalletPayload {
    pub handle: Vec<u8>,
}

/// Payload that links a 32-byte address to a handle.
#[derive(Debug, Clone)]
pub struct LinkAddressPayload {
    pub handle: Vec<u8>,
    pub address: [u8; 32],
}

/// Payload of a transfer between two handles.
#[derive(Debug, Clone)]
pub struct TransferPayload {
    pub from_handle: Vec<u8>,
    pub to_handle: Vec<u8>,
    pub amount: u64,
    pub coin_type: Vec<u8>,
}

/// Payload of a voice authentication: the verdict code travels with the
/// expected amount.
#[derive(Debug, Clone)]
pub struct BioAuthPayload {
    pub handle: Vec<u8>,
    pub amount: u64,
    pub result: u8,
    pub transcript: Vec<u8>,
}

/// Payload of a withdrawal.
#[derive(Debug, Clone)]
pub struct WithdrawPayload {
    pub handle: Vec<u8>,
    pub amount: u64,
    pub coin_type: Vec<u8>,
}

#[derive(Debug, Clone)]
pub struct CreateWalletRequest {
    pub handle: String,
}

#[derive(Debug, Clone)]
pub struct LinkAddressRequest {
    pub handle: String,
    pub wallet_address: String,
    pub wallet_signature: String,
    pub message: String,
}

/// A voice confirmation: base64 audio and the amount it must confirm, in
/// minor units of the coin (the chain's main coin when none is given).
#[derive(Debug, Clone)]
pub struct BioAuthRequest {
    pub handle: String,
    pub audio_base64: String,
    pub expected_amount: u64,
    pub coin_type: Option<String>,
}

#[derive(Debug, Clone)]
pub struct TransferRequest {
    pub from_handle: String,
    pub to_handle: String,
    pub amount: u64,
    pub coin_type: String,
}

#[derive(Debug, Clone)]
pub struct WithdrawRequest {
    pub handle: String,
    pub amount: u64,
    pub coin_type: String,
}

#[derive(Debug, Clone)]
pub struct CreateWalletResponse {
    pub payload: CreateWalletPayload,
    pub intent: u8,
    pub timestamp_ms: u64,
    pub signature: String,
}

#[derive(Debug, Clone)]
pub struct LinkAddressResponse {
    pub payload: LinkAddressPayload,
    pub intent: u8,
    pub timestamp_ms: u64,
    pub signature: String,
}

/// Verdict of a voice authentication; its code is what the contract reads.
#[derive(Debug, Clone, Copy, PartialEq, Eq)]
pub enum BioAuthResult {
    Approved,
    InvalidAmount,
    Duress,
}

impl BioAuthResult {
    pub open spec fn code_spec(&self) -> u8 {
        match self {
            BioAuthResult::Approved => 0,
            BioAuthResult::InvalidAmount => 1,
            BioAuthResult::Duress => 2,
        }
    }

    /// The verdict code: 0 for ok, 1 for a wrong amount, 2 for duress.
    pub fn code(&self) -> (r: u8)
        ensures
            r == self.code_spec(),
    {
        match self {
            BioAuthResult::Approved => 0,
            BioAuthResult::InvalidAmount => 1,
            BioAuthResult::Duress => 2,
        }
    }

    pub open spec fn name_spec(&self) -> Seq<char> {
        match self {
            BioAuthResult::Approved => "ok"@,
            BioAuthResult::InvalidAmount => "invalid_amount"@,
            BioAuthResult::Duress => "duress"@,
        }
    }

    /// The verdict's name.
    pub fn as_str(&self) -> (r: &'static str)
        ensures
            r@ == self.name_spec(),
    {
        match self {
            BioAuthResult::Approved => "ok",
            BioAuthResult::InvalidAmount => "invalid_amount",
            BioAuthResult::Duress => "duress",
        }
    }
}

/// Human-readable view of a voice authentication, kept inside the enclave.
#[derive(Debug, Clone)]
pub struct BioAuthData {
    pub handle: String,
    pub amount: u64,
    pub result: String,
    pub transcript: String,
    pub stress_level: u8,
    pub locked: bool,
}

/// Signed answer to a voice authentication; it carries neither the stress
/// level nor the transcript in readable form.
#[derive(Debug, Clone)]
pub struct BioAuthResponse {
    pub payload: BioAuthPayload,
    pub intent: u8,
    pub timestamp_ms: u64,
    pub signature: String,
}

#[derive(Debug, Clone)]
pub struct TransferResponse {
    pub payload: TransferPayload,
    pub intent: u8,
    pub timestamp_ms: u64,
    pub signature: String,
}

#[derive(Debug, Clone)]
pub struct WithdrawResponse {
    pub payload: WithdrawPayload,
    pub intent: u8,
    pub timestamp_ms: u64,
    pub signature: String,
}

/// Errors reported to a caller of the enclave.
#[derive(Debug, Clone)]
pub enum EnclaveError {
    GenericError(String),
}

impl EnclaveError {
    /// The error's message.
    pub fn message(&self) -> (r: &str)
        ensures
            match self {
                EnclaveError::GenericError(m) => r@ == m@,
            },
    {
        match self {
            EnclaveError::GenericError(m) => m.as_str(),
        }
    }
}

} // verus!

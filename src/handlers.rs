use vstd::prelude::*;
use vstd::utf8::encode_utf8;
use crate::hex::{decode, hex_bytes, hex_ok};
use crate::text::{is_prefix, starts_with};
use crate::types::{
    BioAuthPayload, BioAuthRequest, BioAuthResult, CreateWalletPayload, CreateWalletRequest,
    EnclaveError, LinkAddressPayload, LinkAddressRequest, TransferPayload, TransferRequest,
    WithdrawPayload, WithdrawRequest,
};

verus! {

/// The UTF-8 bytes of a string.
pub fn text_bytes(s: &String) -> (r: Vec<u8>)
    ensures
        r@ == encode_utf8(s@),
{
    s.as_str().as_bytes_vec()
}

/// Payload that creates a wallet: the handle's bytes.
pub fn create_wallet_payload(req: &CreateWalletRequest) -> (r: CreateWalletPayload)
    ensures
        r.handle@ == encode_utf8(req.handle@),
{
    CreateWalletPayload { handle: text_bytes(&req.handle) }
}

/// A wallet address without its optional `0x` prefix.
pub open spec fn address_hex(a: Seq<char>) -> Seq<char> {
    if is_prefix("0x"@, a) {
        a.skip(2)
    } else {
        a
    }
}

/// The 32 bytes that a hex wallet address (with or without `0x`) stands for.
pub open spec fn address_bytes_spec(a: Seq<char>) -> Option<Seq<u8>> {
    let b = encode_utf8(address_hex(a));
    if b.len() % 2 == 0 && hex_ok(b) && hex_bytes(b).len() == 32 {
        Some(hex_bytes(b))
    } else {
        None
    }
}

/// Payload that links a wallet address to a handle; the address must be 32
/// bytes of hex, optionally prefixed by `0x`.
pub fn link_address_payload(req: &LinkAddressRequest) -> (r: Result<LinkAddressPayload, EnclaveError>)
    ensures
        match r {
            Ok(p) => p.handle@ == encode_utf8(req.handle@) && address_bytes_spec(req.wallet_address@)
                == Some(p.address@),
            Err(_) => address_bytes_spec(req.wallet_address@).is_none(),
        },
{
    let a = req.wallet_address.as_str();
    proof {
        reveal_strlit("0x");
    }
    let hex_part: &str = if starts_with(a, "0x") {
        a.substring_char(2, a.unicode_len())
    } else {
        a
    };
    assert(hex_part@ == address_hex(a@)) by {
        if is_prefix("0x"@, a@) {
            assert(a@.subrange(2, a@.len() as int) =~= a@.skip(2));
        }
    }
    let bytes = match decode(hex_part) {
        Ok(b) => b,
        Err(_) => {
            return Err(EnclaveError::GenericError(String::from_str("Invalid address")));
        },
    };
    if bytes.len() != 32 {
        return Err(EnclaveError::GenericError(String::from_str("Address must be 32 bytes")));
    }
    let mut address = [0u8; 32];
    let mut i: usize = 0;
    while i < 32
        invariant
            bytes@.len() == 32,
            i <= 32,
            forall|j: int| 0 <= j < i ==> address@[j] == bytes@[j],
        decreases 32 - i,
    {
        address[i] = bytes[i];
        i = i + 1;
    }
    proof {
        assert(address@ =~= bytes@);
    }
    Ok(LinkAddressPayload { handle: text_bytes(&req.handle), address })
}

/// The payload of a voice authentication. Only the handle, the expected amount
/// and the verdict code leave the enclave: the transcript field stays empty.
pub fn bio_auth_payload(req: &BioAuthRequest, verdict: BioAuthResult) -> (r: BioAuthPayload)
    ensures
        r.handle@ == encode_utf8(req.handle@),
        r.amount == req.expected_amount,
        r.result == verdict.code_spec(),
        r.transcript@.len() == 0,
{
    BioAuthPayload {
        handle: text_bytes(&req.handle),
        amount: req.expected_amount,
        result: verdict.code(),
        transcript: Vec::new(),
    }
}

/// Coin of a voice authentication: the one named, else `SUI`.
pub fn bio_auth_coin(req: &BioAuthRequest) -> (r: String)
    ensures
        r@ == match req.coin_type {
            Some(c) => c@,
            None => "SUI"@,
        },
{
    match &req.coin_type {
        Some(c) => c.clone(),
        None => String::from_str("SUI"),
    }
}

/// Payload of a transfer between two handles.
pub fn transfer_payload(req: &TransferRequest) -> (r: TransferPayload)
    ensures
        r.from_handle@ == encode_utf8(req.from_handle@),
        r.to_handle@ == encode_utf8(req.to_handle@),
        r.amount == req.amount,
        r.coin_type@ == encode_utf8(req.coin_type@),
{
    TransferPayload {
        from_handle: text_bytes(&req.from_handle),
        to_handle: text_bytes(&req.to_handle),
        amount: req.amount,
        coin_type: text_bytes(&req.coin_type),
    }
}

/// Payload of a withdrawal.
pub fn withdraw_payload(req: &WithdrawRequest) -> (r: WithdrawPayload)
    ensures
        r.handle@ == encode_utf8(req.handle@),
        r.amount == req.amount,
        r.coin_type@ == encode_utf8(req.coin_type@),
{
    WithdrawPayload {
        handle: text_bytes(&req.handle),
        amount: req.amount,
        coin_type: text_bytes(&req.coin_type),
    }
}

} // verus!

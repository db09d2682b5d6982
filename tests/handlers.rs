use ram_voice::handlers::{bio_auth_coin, bio_auth_payload, create_wallet_payload, link_address_payload, transfer_payload, withdraw_payload};
use ram_voice::types::{BioAuthRequest, BioAuthResult, CreateWalletRequest, LinkAddressRequest, TransferRequest, WithdrawRequest};

fn link(addr: &str) -> LinkAddressRequest {
    LinkAddressRequest {
        handle: "alice".to_string(),
        wallet_address: addr.to_string(),
        wallet_signature: String::new(),
        message: String::new(),
    }
}

#[test]
fn link_address_accepts_prefixed_and_bare_hex() {
    let hex64 = "11".repeat(31) + "ff";
    let p = link_address_payload(&link(&format!("0x{}", hex64))).unwrap();
    assert_eq!(p.handle, b"alice".to_vec());
    assert_eq!(p.address[0], 0x11);
    assert_eq!(p.address[31], 0xff);
    let q = link_address_payload(&link(&hex64)).unwrap();
    assert_eq!(q.address, p.address);
}

#[test]
fn link_address_rejects_bad_addresses() {
    assert!(link_address_payload(&link("0x1234")).is_err());
    assert!(link_address_payload(&link(&"zz".repeat(32))).is_err());
    assert!(link_address_payload(&link("0x123")).is_err());
}

#[test]
fn bio_auth_payload_is_blind() {
    let req = BioAuthRequest {
        handle: "bob".to_string(),
        audio_base64: String::new(),
        expected_amount: 42,
        coin_type: None,
    };
    let p = bio_auth_payload(&req, BioAuthResult::Duress);
    assert_eq!(p.handle, b"bob".to_vec());
    assert_eq!(p.amount, 42);
    assert_eq!(p.result, 2);
    assert!(p.transcript.is_empty());
    assert_eq!(bio_auth_coin(&req), "SUI");
}

#[test]
fn other_payloads_copy_their_fields() {
    let w = create_wallet_payload(&CreateWalletRequest { handle: "hà".to_string() });
    assert_eq!(w.handle, "hà".as_bytes().to_vec());
    let t = transfer_payload(&TransferRequest {
        from_handle: "a".to_string(),
        to_handle: "b".to_string(),
        amount: 9,
        coin_type: "0x2::sui::SUI".to_string(),
    });
    assert_eq!(t.to_handle, b"b".to_vec());
    assert_eq!(t.coin_type, b"0x2::sui::SUI".to_vec());
    let d = withdraw_payload(&WithdrawRequest { handle: "a".to_string(), amount: 3, coin_type: "USDC".to_string() });
    assert_eq!(d.amount, 3);
    assert_eq!(d.coin_type, b"USDC".to_vec());
}

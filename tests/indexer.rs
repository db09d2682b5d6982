use ram_voice::indexer::{event_name, parse_i64, process_event, EventError, EventFields};

fn fields() -> EventFields {
    EventFields {
        handle: Some("alice".to_string()),
        from_handle: None,
        owner: None,
        address: None,
        to_handle: None,
        amount: None,
        success: None,
    }
}

#[test]
fn event_names() {
    assert_eq!(event_name("0x2::events::Deposited"), "Deposited");
    assert_eq!(event_name("Deposited"), "Deposited");
    assert_eq!(event_name("a:::b"), ":b");
    assert_eq!(event_name("x::"), "");
}

#[test]
fn decimal_i64() {
    assert_eq!(parse_i64("1700000000000"), Some(1_700_000_000_000));
    assert_eq!(parse_i64("-42"), Some(-42));
    assert_eq!(parse_i64("+7"), Some(7));
    assert_eq!(parse_i64("9223372036854775807"), Some(i64::MAX));
    assert_eq!(parse_i64("-9223372036854775808"), Some(i64::MIN));
    assert_eq!(parse_i64("9223372036854775808"), None);
    assert_eq!(parse_i64(""), None);
    assert_eq!(parse_i64("-"), None);
    assert_eq!(parse_i64("12a"), None);
}

#[test]
fn deposit_event() {
    let mut f = fields();
    f.amount = Some("2500".to_string());
    let e = process_event("0x1::events::Deposited", &f, "digest", Some("1000"), 5).unwrap().unwrap();
    assert_eq!(e.event_type, "Deposited");
    assert_eq!(e.amount, Some(2500));
    assert_eq!(e.handle.as_deref(), Some("alice"));
    assert_eq!(e.tx_digest, "digest");
    assert_eq!(e.timestamp_ms, 1000);
}

#[test]
fn transfer_uses_sender_handle() {
    let mut f = fields();
    f.handle = None;
    f.from_handle = Some("bob".to_string());
    f.to_handle = Some("carol".to_string());
    f.amount = Some("not a number".to_string());
    let e = process_event("m::events::Transferred", &f, "d", None, 99).unwrap().unwrap();
    assert_eq!(e.from_handle.as_deref(), Some("bob"));
    assert_eq!(e.to_handle.as_deref(), Some("carol"));
    assert_eq!(e.amount, Some(0));
    assert_eq!(e.timestamp_ms, 99);
}

#[test]
fn bioauth_and_errors() {
    let mut f = fields();
    f.success = Some(true);
    let e = process_event("m::events::BioAuthCompleted", &f, "d", None, 1).unwrap().unwrap();
    assert_eq!(e.event_type, "BioAuthSuccess");
    let e = process_event("m::events::BioAuthCompleted", &fields(), "d", None, 1).unwrap().unwrap();
    assert_eq!(e.event_type, "BioAuthFailed");
    assert!(process_event("m::events::Unknown", &fields(), "d", None, 1).unwrap().is_none());
    let mut none = fields();
    none.handle = None;
    assert_eq!(process_event("m::events::Deposited", &none, "d", None, 1).unwrap_err(), EventError::NoHandle);
    assert_eq!(process_event("m::events::Deposited", &fields(), "d", Some("x"), 1).unwrap_err(), EventError::InvalidTimestamp);
    let created = process_event("m::events::WalletCreated", &fields(), "d", None, 1).unwrap().unwrap();
    assert_eq!(created.owner.as_deref(), Some(""));
}

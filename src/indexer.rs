use vstd::prelude::*;
use crate::amount::{sat, MAX_MINOR};
use crate::numeral::{all_digits, digits_value, is_digit, lemma_digits_nonneg, lemma_sat_step};
use crate::text::{str_eq, to_chars};

verus! {

/// A wallet event as the backend stores it; the time is in milliseconds since
/// the Unix epoch.
#[derive(Debug, Clone)]
pub struct RamEvent {
    pub handle: Option<String>,
    pub event_type: String,
    pub amount: Option<i64>,
    pub from_handle: Option<String>,
    pub to_handle: Option<String>,
    pub owner: Option<String>,
    pub tx_digest: String,
    pub timestamp_ms: i64,
}

/// The fields of a chain event's JSON body that the indexer reads, each
/// present only when it holds a value of the expected kind.
#[derive(Debug, Clone)]
pub struct EventFields {
    pub handle: Option<String>,
    pub from_handle: Option<String>,
    pub owner: Option<String>,
    pub address: Option<String>,
    pub to_handle: Option<String>,
    pub amount: Option<String>,
    pub success: Option<bool>,
}

/// Why an event could not be read.
#[derive(Debug, Clone, Copy, PartialEq, Eq)]
pub enum EventError {
    /// Neither `handle` nor `from_handle` is a string.
    NoHandle,
    /// The timestamp is not a decimal `i64`.
    InvalidTimestamp,
}

/// The last piece of `s` split on `"::"` from the left, scanning from `i`
/// with the current piece starting at `start`.
pub open spec fn last_piece_from(s: Seq<char>, i: int, start: int) -> Seq<char>
    decreases s.len() - i,
{
    if i < 0 || i >= s.len() {
        s.skip(start)
    } else if i + 1 < s.len() && s[i] == ':' && s[i + 1] == ':' {
        last_piece_from(s, i + 2, i + 2)
    } else {
        last_piece_from(s, i + 1, start)
    }
}

/// The event's name: what follows the last `"::"` of its type.
pub open spec fn event_name_spec(event_type: Seq<char>) -> Seq<char> {
    last_piece_from(event_type, 0, 0)
}

/// The name of an event type such as `0x2::events::Deposited`.
pub fn event_name(event_type: &str) -> (r: &str)
    ensures
        r@ == event_name_spec(event_type@),
{
    let cs = to_chars(event_type);
    let n = cs.len();
    let mut i: usize = 0;
    let mut start: usize = 0;
    while i < n
        invariant
            cs@ == event_type@,
            n == event_type@.len(),
            start <= i,
            i <= n + 1,
            start <= n,
            event_name_spec(event_type@) == last_piece_from(event_type@, i as int, start as int),
        decreases n + 1 - i,
    {
        if i + 1 < n && cs[i] == ':' && cs[i + 1] == ':' {
            i = i + 2;
            start = i;
        } else {
            i = i + 1;
        }
    }
    proof {
        assert(event_type@.subrange(start as int, n as int) =~= event_type@.skip(start as int));
    }
    event_type.substring_char(start, n)
}

/// A decimal `i64` as `str::parse` reads it: an optional sign, then one or
/// more ASCII digits, within range.
pub open spec fn parse_i64_spec(s: Seq<char>) -> Option<i64> {
    let neg = s.len() > 0 && s[0] == '-';
    let digits = if s.len() > 0 && (s[0] == '-' || s[0] == '+') { s.skip(1) } else { s };
    if digits.len() == 0 || !all_digits(digits) {
        None
    } else {
        let v = if neg { -digits_value(digits) } else { digits_value(digits) };
        if i64::MIN as int <= v && v <= i64::MAX as int {
            Some(v as i64)
        } else {
            None
        }
    }
}

/// Reads a decimal `i64`.
pub fn parse_i64(s: &str) -> (r: Option<i64>)
    ensures
        r == parse_i64_spec(s@),
{
    let cs = to_chars(s);
    let n = cs.len();
    let neg = n > 0 && cs[0] == '-';
    let first: usize = if n > 0 && (cs[0] == '-' || cs[0] == '+') { 1 } else { 0 };
    let ghost digits = if s@.len() > 0 && (s@[0] == '-' || s@[0] == '+') { s@.skip(1) } else { s@ };
    assert(digits =~= s@.skip(first as int));
    if first >= n {
        return None;
    }
    let mut acc: u64 = 0;
    let mut k: usize = first;
    while k < n
        invariant
            cs@ == s@,
            n == s@.len(),
            first <= k <= n,
            digits == s@.skip(first as int),
            digits == (if s@.len() > 0 && (s@[0] == '-' || s@[0] == '+') { s@.skip(1) } else { s@ }),
            all_digits(digits.take(k - first)),
            acc as int == sat(digits_value(digits.take(k - first))),
        decreases n - k,
    {
        let c = cs[k];
        if !('0' <= c && c <= '9') {
            proof {
                assert(digits[k - first] == c);
                assert(!is_digit(digits[k - first]));
                assert(!all_digits(digits));
            }
            return None;
        }
        proof {
            let t = digits.take(k - first);
            assert(digits.take(k + 1 - first).drop_last() =~= t);
            assert(digits[k - first] == c);
            lemma_digits_nonneg(t, t.len() as int);
            assert(t.take(t.len() as int) =~= t);
            lemma_sat_step(digits_value(t), c as int - '0' as int);
            assert(all_digits(digits.take(k + 1 - first))) by {
                assert forall|j: int| 0 <= j < k + 1 - first implies is_digit(#[trigger] digits.take(k + 1 - first)[j]) by {
                    if j < k - first {
                        assert(digits.take(k + 1 - first)[j] == t[j]);
                    }
                }
            }
        }
        let dg = (c as u32 - '0' as u32) as u64;
        acc = if acc > (MAX_MINOR - dg) / 10 { MAX_MINOR } else { acc * 10 + dg };
        k = k + 1;
    }
    proof {
        assert(digits.take(n - first) =~= digits);
    }
    if neg {
        if acc <= 0x8000_0000_0000_0000 {
            if acc == 0x8000_0000_0000_0000 {
                Some(i64::MIN)
            } else {
                Some(-(acc as i64))
            }
        } else {
            None
        }
    } else if acc <= 0x7FFF_FFFF_FFFF_FFFF {
        Some(acc as i64)
    } else {
        None
    }
}

/// The handle an event belongs to: its `handle`, else its `from_handle`.
pub open spec fn event_handle_spec(f: EventFields) -> Option<String> {
    match f.handle {
        Some(h) => Some(h),
        None => f.from_handle,
    }
}

/// The time of an event: its own, or `now_ms` when it has none.
pub open spec fn event_time_spec(timestamp: Option<Seq<char>>, now_ms: i64) -> Option<i64> {
    match timestamp {
        Some(t) => parse_i64_spec(t),
        None => Some(now_ms),
    }
}

/// The amount of a money event; 0 when it is missing or not a decimal `i64`.
pub open spec fn event_amount_spec(f: EventFields) -> i64 {
    match f.amount {
        Some(a) => match parse_i64_spec(a@) {
            Some(v) => v,
            None => 0,
        },
        None => 0,
    }
}

pub open spec fn text_or_empty(s: Option<String>) -> Seq<char> {
    match s {
        Some(t) => t@,
        None => Seq::empty(),
    }
}

/// The stored event for a named event, its fields, digest, handle and time;
/// `None` for an event name the indexer does not know.
pub open spec fn ram_event_matches(r: RamEvent, name: Seq<char>, f: EventFields, handle: String, digest: Seq<char>, time: i64) -> bool {
    &&& r.handle == Some(handle)
    &&& r.tx_digest@ == digest
    &&& r.timestamp_ms == time
    &&& if name == "WalletCreated"@ {
        r.event_type@ == name && r.amount.is_none() && r.from_handle.is_none() && r.to_handle.is_none()
            && r.owner.is_some() && r.owner.unwrap()@ == text_or_empty(f.owner)
    } else if name == "AddressLinked"@ {
        r.event_type@ == name && r.amount.is_none() && r.from_handle.is_none() && r.owner.is_none()
            && r.to_handle.is_some() && r.to_handle.unwrap()@ == text_or_empty(f.address)
    } else if name == "Deposited"@ || name == "Withdrawn"@ {
        r.event_type@ == name && r.amount == Some(event_amount_spec(f)) && r.from_handle.is_none()
            && r.to_handle.is_none() && r.owner.is_none()
    } else if name == "Transferred"@ {
        r.event_type@ == name && r.amount == Some(event_amount_spec(f)) && r.from_handle == Some(handle)
            && r.to_handle.is_some() && r.to_handle.unwrap()@ == text_or_empty(f.to_handle) && r.owner.is_none()
    } else if name == "WalletLocked"@ {
        r.event_type@ == name && r.amount.is_none() && r.from_handle.is_none() && r.to_handle.is_none()
            && r.owner.is_none()
    } else {
        r.event_type@ == (if f.success == Some(true) { "BioAuthSuccess"@ } else { "BioAuthFailed"@ })
            && r.amount.is_none() && r.from_handle.is_none() && r.to_handle.is_none() && r.owner.is_none()
    }
}

pub open spec fn known_event(name: Seq<char>) -> bool {
    name == "WalletCreated"@ || name == "AddressLinked"@ || name == "Deposited"@ || name == "Withdrawn"@
        || name == "Transferred"@ || name == "WalletLocked"@ || name == "BioAuthCompleted"@
}

/// The handle an event belongs to, or `NoHandle`.
pub fn extract_handle(fields: &EventFields) -> (r: Result<String, EventError>)
    ensures
        match r {
            Ok(h) => event_handle_spec(*fields) == Some(h),
            Err(e) => event_handle_spec(*fields).is_none() && e == EventError::NoHandle,
        },
{
    match &fields.handle {
        Some(h) => Ok(h.clone()),
        None => match &fields.from_handle {
            Some(h) => Ok(h.clone()),
            None => Err(EventError::NoHandle),
        },
    }
}

fn text_of(s: &Option<String>) -> (r: String)
    ensures
        r@ == text_or_empty(*s),
{
    match s {
        Some(t) => t.clone(),
        None => String::new(),
    }
}

fn amount_of(f: &EventFields) -> (r: i64)
    ensures
        r == event_amount_spec(*f),
{
    match &f.amount {
        Some(a) => match parse_i64(a.as_str()) {
            Some(v) => v,
            None => 0,
        },
        None => 0,
    }
}

/// Turns a chain event into the record the backend stores. An event without a
/// handle, or with a timestamp that is not a number, is an error; an unknown
/// event name gives `Ok(None)`.
pub fn process_event(event_type: &str, fields: &EventFields, tx_digest: &str, timestamp: Option<&str>, now_ms: i64) -> (r: Result<Option<RamEvent>, EventError>)
    ensures
        match r {
            Err(EventError::NoHandle) => event_handle_spec(*fields).is_none(),
            Err(EventError::InvalidTimestamp) => event_handle_spec(*fields).is_some()
                && event_time_spec(match timestamp { Some(t) => Some(t@), None => None }, now_ms).is_none(),
            Ok(None) => event_handle_spec(*fields).is_some()
                && event_time_spec(match timestamp { Some(t) => Some(t@), None => None }, now_ms).is_some()
                && !known_event(event_name_spec(event_type@)),
            Ok(Some(e)) => event_handle_spec(*fields).is_some()
                && event_time_spec(match timestamp { Some(t) => Some(t@), None => None }, now_ms) == Some(e.timestamp_ms)
                && known_event(event_name_spec(event_type@))
                && ram_event_matches(e, event_name_spec(event_type@), *fields,
                    event_handle_spec(*fields).unwrap(), tx_digest@, e.timestamp_ms),
        },
{
    let name = event_name(event_type);
    let handle: String = match extract_handle(fields) {
        Ok(h) => h,
        Err(e) => {
            return Err(e);
        },
    };
    let time: i64 = match timestamp {
        Some(t) => match parse_i64(t) {
            Some(v) => v,
            None => {
                return Err(EventError::InvalidTimestamp);
            },
        },
        None => now_ms,
    };
    let digest = String::from_str(tx_digest);
    if str_eq(name, "WalletCreated") {
        Ok(Some(RamEvent {
            handle: Some(handle),
            event_type: String::from_str("WalletCreated"),
            amount: None,
            from_handle: None,
            to_handle: None,
            owner: Some(text_of(&fields.owner)),
            tx_digest: digest,
            timestamp_ms: time,
        }))
    } else if str_eq(name, "AddressLinked") {
        Ok(Some(RamEvent {
            handle: Some(handle),
            event_type: String::from_str("AddressLinked"),
            amount: None,
            from_handle: None,
            to_handle: Some(text_of(&fields.address)),
            owner: None,
            tx_digest: digest,
            timestamp_ms: time,
        }))
    } else if str_eq(name, "Deposited") || str_eq(name, "Withdrawn") {
        Ok(Some(RamEvent {
            handle: Some(handle),
            event_type: String::from_str(name),
            amount: Some(amount_of(fields)),
            from_handle: None,
            to_handle: None,
            owner: None,
            tx_digest: digest,
            timestamp_ms: time,
        }))
    } else if str_eq(name, "Transferred") {
        let from = handle.clone();
        Ok(Some(RamEvent {
            handle: Some(handle),
            event_type: String::from_str("Transferred"),
            amount: Some(amount_of(fields)),
            from_handle: Some(from),
            to_handle: Some(text_of(&fields.to_handle)),
            owner: None,
            tx_digest: digest,
            timestamp_ms: time,
        }))
    } else if str_eq(name, "WalletLocked") {
        Ok(Some(RamEvent {
            handle: Some(handle),
            event_type: String::from_str("WalletLocked"),
            amount: None,
            from_handle: None,
            to_handle: None,
            owner: None,
            tx_digest: digest,
            timestamp_ms: time,
        }))
    } else if str_eq(name, "BioAuthCompleted") {
        let kind = match fields.success {
            Some(true) => String::from_str("BioAuthSuccess"),
            _ => String::from_str("BioAuthFailed"),
        };
        Ok(Some(RamEvent {
            handle: Some(handle),
            event_type: kind,
            amount: None,
            from_handle: None,
            to_handle: None,
            owner: None,
            tx_digest: digest,
            timestamp_ms: time,
        }))
    } else {
        Ok(None)
    }
}

} // verus!

use vstd::prelude::*;
use vstd::string::StringSliceAdditionalSpecFns;

verus! {

pub open spec fn is_hex_digit(b: u8) -> bool {
    (0x30 <= b <= 0x39) || (0x61 <= b <= 0x66) || (0x41 <= b <= 0x46)
}

pub open spec fn hex_value(b: u8) -> int {
    if 0x30 <= b <= 0x39 {
        b as int - 0x30
    } else if 0x61 <= b <= 0x66 {
        b as int - 0x61 + 10
    } else {
        b as int - 0x41 + 10
    }
}

/// A two-character base-16 number as `u8::from_str_radix` reads it: two hex
/// digits, or a plus sign and one digit.
pub open spec fn hex_pair(a: u8, b: u8) -> Option<u8> {
    if is_hex_digit(a) && is_hex_digit(b) {
        Some((hex_value(a) * 16 + hex_value(b)) as u8)
    } else if a == 0x2B && is_hex_digit(b) {
        Some(hex_value(b) as u8)
    } else {
        None
    }
}

/// Every pair of the even-length text is a base-16 byte.
pub open spec fn hex_ok(s: Seq<u8>) -> bool {
    forall|i: int| 0 <= i < s.len() / 2 ==> (#[trigger] hex_pair(s[2 * i], s[2 * i + 1])).is_some()
}

/// The bytes of a hex text whose pairs all parse.
pub open spec fn hex_bytes(s: Seq<u8>) -> Seq<u8> {
    Seq::new(s.len() / 2, |i: int| hex_pair(s[2 * i], s[2 * i + 1]).unwrap())
}

fn hex_digit(b: u8) -> (r: Option<u8>)
    ensures
        r.is_some() == is_hex_digit(b),
        r.is_some() ==> r.unwrap() as int == hex_value(b),
{
    if 0x30 <= b && b <= 0x39 {
        Some(b - 0x30)
    } else if 0x61 <= b && b <= 0x66 {
        Some(b - 0x61 + 10)
    } else if 0x41 <= b && b <= 0x46 {
        Some(b - 0x41 + 10)
    } else {
        None
    }
}

/// Decodes a hex text (its UTF-8 bytes) to bytes. An odd length, or a pair
/// that is not a base-16 byte, is an error.
pub fn decode(s: &str) -> (r: Result<Vec<u8>, String>)
    ensures
        match r {
            Ok(v) => s.spec_bytes().len() % 2 == 0 && hex_ok(s.spec_bytes()) && v@ == hex_bytes(s.spec_bytes()),
            Err(_) => s.spec_bytes().len() % 2 != 0 || !hex_ok(s.spec_bytes()),
        },
{
    let bytes = s.as_bytes_vec();
    let n = bytes.len();
    if n % 2 != 0 {
        return Err(String::from_str("Hex string must have even length"));
    }
    let ghost sb = s.spec_bytes();
    let mut out: Vec<u8> = Vec::new();
    let mut i: usize = 0;
    while i < n / 2
        invariant
            bytes@ == sb,
            sb == s.spec_bytes(),
            n == sb.len(),
            n % 2 == 0,
            i <= n / 2,
            forall|j: int| 0 <= j < i ==> (#[trigger] hex_pair(sb[2 * j], sb[2 * j + 1])).is_some(),
            out@ =~= hex_bytes(sb).take(i as int),
        decreases n / 2 - i,
    {
        let a = bytes[2 * i];
        let b = bytes[2 * i + 1];
        let hi = hex_digit(a);
        let lo = hex_digit(b);
        let v: u8 = match (hi, lo) {
            (Some(h), Some(l)) => h * 16 + l,
            (None, Some(l)) => {
                if a == 0x2B {
                    l
                } else {
                    proof {
                        assert(hex_pair(sb[2 * i as int], sb[2 * i as int + 1]).is_none());
                        assert(!hex_ok(sb));
                    }
                    return Err(String::from_str("invalid digit found in string"));
                }
            },
            _ => {
                proof {
                    assert(hex_pair(sb[2 * i as int], sb[2 * i as int + 1]).is_none());
                    assert(!hex_ok(sb));
                }
                return Err(String::from_str("invalid digit found in string"));
            },
        };
        out.push(v);
        proof {
            assert(hex_pair(sb[2 * i as int], sb[2 * i as int + 1]) == Some(v));
            assert(out@ =~= hex_bytes(sb).take(i as int + 1));
        }
        i = i + 1;
    }
    proof {
        assert(hex_bytes(sb).take(i as int) =~= hex_bytes(sb));
    }
    Ok(out)
}

} // verus!

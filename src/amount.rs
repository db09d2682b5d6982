use vstd::prelude::*;
use crate::numeral::{numeral_minor, numeral_to_minor};
use crate::text::{
    is_prefix, lower_of, split_words, starts_with, str_eq, to_lower, to_upper, upper_of, words,
};

verus! {

/// Largest amount of minor units; larger amounts saturate to it.
pub const MAX_MINOR: u64 = 0xFFFF_FFFF_FFFF_FFFF;

pub open spec fn sat(x: int) -> int {
    if x > MAX_MINOR as int {
        MAX_MINOR as int
    } else {
        x
    }
}

pub open spec fn pow10(k: nat) -> int
    decreases k,
{
    if k == 0 {
        1
    } else {
        10 * pow10((k - 1) as nat)
    }
}

pub proof fn lemma_pow10_pos(k: nat)
    ensures
        pow10(k) >= 1,
    decreases k,
{
    if k > 0 {
        lemma_pow10_pos((k - 1) as nat);
    }
}

pub proof fn lemma_pow10_mono(a: nat, b: nat)
    requires
        a <= b,
    ensures
        pow10(a) <= pow10(b),
    decreases b,
{
    if a < b {
        lemma_pow10_mono(a, (b - 1) as nat);
        lemma_pow10_pos((b - 1) as nat);
    }
}

/// `10^k` for small `k`.
pub fn pow10_exec(k: u32) -> (r: u64)
    requires
        k <= 19,
    ensures
        r as int == pow10(k as nat),
        r <= 10_000_000_000_000_000_000u64,
{
    let mut r: u64 = 1;
    let mut i: u32 = 0;
    while i < k
        invariant
            i <= k <= 19,
            r as int == pow10(i as nat),
            r <= 10_000_000_000_000_000_000u64,
        decreases k - i,
    {
        proof {
            lemma_pow10_mono((i + 1) as nat, 19);
            assert(pow10((i + 1) as nat) == 10 * pow10(i as nat));
            reveal_with_fuel(pow10, 20);
            assert(pow10(19) == 10_000_000_000_000_000_000int);
        }
        r = r * 10;
        i = i + 1;
    }
    r
}

/// Decimal places of a coin, given its upper-cased symbol: 6 for the two
/// dollar coins, 9 for the others and for unknown symbols.
pub open spec fn decimals_spec(upper: Seq<char>) -> u32 {
    if upper == "SUI"@ {
        9
    } else if upper == "USDC"@ || upper == "USDT"@ {
        6
    } else if upper == "WAL"@ {
        9
    } else {
        9
    }
}

/// Decimal places of a coin given its upper-cased symbol.
pub fn decimals_for_upper(upper: &str) -> (r: u32)
    ensures
        r == decimals_spec(upper@),
        r == 6 || r == 9,
{
    if str_eq(upper, "SUI") {
        9
    } else if str_eq(upper, "USDC") || str_eq(upper, "USDT") {
        6
    } else if str_eq(upper, "WAL") {
        9
    } else {
        9
    }
}

/// Decimal places of a coin symbol, in any case.
pub fn get_decimals_for_coin(coin_type: &str) -> (r: u32)
    ensures
        r == decimals_spec(upper_of(coin_type@)),
        r == 6 || r == 9,
{
    let up = to_upper(coin_type);
    decimals_for_upper(up.as_str())
}

/// Value of a lower-cased Vietnamese number word, written with or without
/// diacritics.
pub open spec fn number_word_spec(w: Seq<char>) -> Option<u64> {
    if w == "một"@ || w == "mot"@ {
        Some(1)
    } else if w == "hai"@ {
        Some(2)
    } else if w == "ba"@ {
        Some(3)
    } else if w == "bốn"@ || w == "bon"@ {
        Some(4)
    } else if w == "năm"@ || w == "nam"@ {
        Some(5)
    } else if w == "sáu"@ || w == "sau"@ {
        Some(6)
    } else if w == "bảy"@ || w == "bay"@ {
        Some(7)
    } else if w == "tám"@ || w == "tam"@ {
        Some(8)
    } else if w == "chín"@ || w == "chin"@ {
        Some(9)
    } else if w == "mười"@ || w == "muoi"@ {
        Some(10)
    } else if w == "hai mươi"@ || w == "hai muoi"@ {
        Some(20)
    } else if w == "trăm"@ || w == "tram"@ {
        Some(100)
    } else if w == "nghìn"@ || w == "nghin"@ {
        Some(1000)
    } else {
        None
    }
}

/// Looks up a lower-cased Vietnamese number word.
pub fn number_word_value(w: &str) -> (r: Option<u64>)
    ensures
        r == number_word_spec(w@),
        r.is_some() ==> r.unwrap() <= 1000,
{
    if str_eq(w, "một") || str_eq(w, "mot") {
        Some(1)
    } else if str_eq(w, "hai") {
        Some(2)
    } else if str_eq(w, "ba") {
        Some(3)
    } else if str_eq(w, "bốn") || str_eq(w, "bon") {
        Some(4)
    } else if str_eq(w, "năm") || str_eq(w, "nam") {
        Some(5)
    } else if str_eq(w, "sáu") || str_eq(w, "sau") {
        Some(6)
    } else if str_eq(w, "bảy") || str_eq(w, "bay") {
        Some(7)
    } else if str_eq(w, "tám") || str_eq(w, "tam") {
        Some(8)
    } else if str_eq(w, "chín") || str_eq(w, "chin") {
        Some(9)
    } else if str_eq(w, "mười") || str_eq(w, "muoi") {
        Some(10)
    } else if str_eq(w, "hai mươi") || str_eq(w, "hai muoi") {
        Some(20)
    } else if str_eq(w, "trăm") || str_eq(w, "tram") {
        Some(100)
    } else if str_eq(w, "nghìn") || str_eq(w, "nghin") {
        Some(1000)
    } else {
        None
    }
}

/// Value of a Vietnamese number word, in any case.
pub fn parse_vietnamese_number(word: &str) -> (r: Option<u64>)
    ensures
        r == number_word_spec(lower_of(word@)),
{
    let low = to_lower(word);
    number_word_value(low.as_str())
}

/// A coin symbol of the decimals table.
pub open spec fn is_coin_symbol(u: Seq<char>) -> bool {
    u == "SUI"@ || u == "USDC"@ || u == "USDT"@ || u == "WAL"@
}

/// A number at position `i` counts when no word follows it, when the next
/// word starts with the expected coin symbol, or when the next word is no
/// coin symbol at all (`ups` are the upper-cased words).
pub open spec fn numeral_accepted(ups: Seq<Seq<char>>, coin: Seq<char>, i: int) -> bool {
    i + 1 >= ups.len() || is_prefix(coin, ups[i + 1]) || !is_coin_symbol(ups[i + 1])
}

/// The amount spoken in the words `ws` from position `i` on, in minor units
/// at `d` decimals, given their lower-cased forms `lows`, their upper-cased
/// forms `ups` and the upper-cased coin symbol `coin`: the first accepted
/// number, or the first Vietnamese number word directly followed by a word
/// that starts with the coin symbol.
pub open spec fn amount_in_forms(
    ws: Seq<Seq<char>>,
    lows: Seq<Seq<char>>,
    ups: Seq<Seq<char>>,
    coin: Seq<char>,
    d: nat,
    i: int,
) -> Option<u64>
    decreases ws.len() - i,
{
    if i < 0 || i >= ws.len() {
        None
    } else {
        match numeral_minor(ws[i], d) {
            Some(v) if numeral_accepted(ups, coin, i) => Some(v),
            _ => match number_word_spec(lows[i]) {
                Some(n) if i + 1 < ws.len() && is_prefix(coin, ups[i + 1]) => Some(
                    sat(n as int * pow10(d)) as u64,
                ),
                _ => amount_in_forms(ws, lows, ups, coin, d, i + 1),
            },
        }
    }
}

/// The amount spoken in a transcript, in minor units of `coin_type`.
pub open spec fn parse_amount_spec(text: Seq<char>, coin_type: Seq<char>) -> Option<u64> {
    let ws = words(text);
    amount_in_forms(
        ws,
        ws.map_values(|w: Seq<char>| lower_of(w)),
        ws.map_values(|w: Seq<char>| upper_of(w)),
        upper_of(coin_type),
        decimals_spec(upper_of(coin_type)) as nat,
        0,
    )
}

/// Scans words for the spoken amount, given each word's lower- and
/// upper-cased form and the upper-cased coin symbol.
pub fn amount_in_word_forms(
    words: &Vec<&str>,
    lowers: &Vec<String>,
    uppers: &Vec<String>,
    coin_upper: &str,
    decimals: u32,
) -> (r: Option<u64>)
    requires
        lowers@.len() == words@.len(),
        uppers@.len() == words@.len(),
        decimals <= 19,
    ensures
        r == amount_in_forms(
            words@.map_values(|t: &str| t@),
            lowers@.map_values(|t: String| t@),
            uppers@.map_values(|t: String| t@),
            coin_upper@,
            decimals as nat,
            0,
        ),
{
    let ghost wv = words@.map_values(|t: &str| t@);
    let ghost lv = lowers@.map_values(|t: String| t@);
    let ghost uv = uppers@.map_values(|t: String| t@);
    let ghost cv = coin_upper@;
    let ghost dn = decimals as nat;
    let n = words.len();
    let mut i: usize = 0;
    while i < n
        invariant
            n == words@.len(),
            lowers@.len() == n,
            uppers@.len() == n,
            wv == words@.map_values(|t: &str| t@),
            lv == lowers@.map_values(|t: String| t@),
            uv == uppers@.map_values(|t: String| t@),
            cv == coin_upper@,
            dn == decimals as nat,
            decimals <= 19,
            i <= n,
            amount_in_forms(wv, lv, uv, cv, dn, 0) == amount_in_forms(wv, lv, uv, cv, dn, i as int),
        decreases n - i,
    {
        assert(wv[i as int] == words@[i as int]@);
        assert(lv[i as int] == lowers@[i as int]@);
        let accepted_next = if i + 1 < n {
            assert(uv[i + 1] == uppers@[i + 1]@);
            let nx = uppers[i + 1].as_str();
            starts_with(nx, coin_upper) || !(str_eq(nx, "SUI") || str_eq(nx, "USDC") || str_eq(nx, "USDT")
                || str_eq(nx, "WAL"))
        } else {
            true
        };
        assert(accepted_next == numeral_accepted(uv, cv, i as int));
        match numeral_to_minor(words[i], decimals) {
            Some(v) => {
                if accepted_next {
                    return Some(v);
                }
            },
            None => {},
        }
        match number_word_value(lowers[i].as_str()) {
            Some(w) => {
                if i + 1 < n {
                    assert(uv[i + 1] == uppers@[i + 1]@);
                    if starts_with(uppers[i + 1].as_str(), coin_upper) {
                        let p = pow10_exec(decimals);
                        assert(w as u128 * p as u128 <= 1000 * 10_000_000_000_000_000_000u128) by (nonlinear_arith)
                            requires
                                w <= 1000,
                                p <= 10_000_000_000_000_000_000u64,
                        ;
                        let v: u128 = w as u128 * p as u128;
                        return Some(if v > MAX_MINOR as u128 { MAX_MINOR } else { v as u64 });
                    }
                }
            },
            None => {},
        }
        i = i + 1;
    }
    None
}

/// Reads the spoken amount of a transcript in minor units of `coin_type`: the
/// first number (`5`, `10.5`, `1e3`) that is not followed by another coin's
/// symbol, or the first Vietnamese number word followed by the coin symbol.
/// `None` when there is neither.
pub fn parse_amount_from_text(text: &str, coin_type: &str) -> (r: Option<u64>)
    ensures
        r == parse_amount_spec(text@, coin_type@),
{
    let coin = to_upper(coin_type);
    let d = decimals_for_upper(coin.as_str());
    let ws = split_words(text);
    let ghost wv = ws@.map_values(|t: &str| t@);
    let mut lowers: Vec<String> = Vec::new();
    let mut uppers: Vec<String> = Vec::new();
    let mut i: usize = 0;
    while i < ws.len()
        invariant
            wv == ws@.map_values(|t: &str| t@),
            i <= ws@.len(),
            lowers@.len() == i,
            uppers@.len() == i,
            forall|j: int| 0 <= j < i ==> #[trigger] lowers@[j]@ == lower_of(wv[j]),
            forall|j: int| 0 <= j < i ==> #[trigger] uppers@[j]@ == upper_of(wv[j]),
        decreases ws.len() - i,
    {
        assert(wv[i as int] == ws@[i as int]@);
        lowers.push(to_lower(ws[i]));
        uppers.push(to_upper(ws[i]));
        i = i + 1;
    }
    proof {
        assert(lowers@.map_values(|t: String| t@) =~= wv.map_values(|w: Seq<char>| lower_of(w)));
        assert(uppers@.map_values(|t: String| t@) =~= wv.map_values(|w: Seq<char>| upper_of(w)));
    }
    amount_in_word_forms(&ws, &lowers, &uppers, coin.as_str(), d)
}

/// A decimal amount as spoken: `units / 10^scale` whole coins.
#[derive(Debug, Clone, Copy, PartialEq, Eq)]
pub struct SpokenAmount {
    pub units: u64,
    pub scale: u32,
}

impl SpokenAmount {
    /// `units / 10^scale` coins.
    pub fn new(units: u64, scale: u32) -> (r: SpokenAmount)
        ensures
            r.units == units,
            r.scale == scale,
    {
        SpokenAmount { units, scale }
    }

    /// A whole number of coins.
    pub fn whole(units: u64) -> (r: SpokenAmount)
        ensures
            r.units == units,
            r.scale == 0,
    {
        SpokenAmount { units, scale: 0 }
    }
}

/// The amount in minor units at `d` decimals, rounded half up and saturated.
pub open spec fn minor_units_spec(a: SpokenAmount, d: nat) -> int {
    if a.scale <= d {
        sat(a.units as int * pow10((d - a.scale) as nat))
    } else {
        let p = pow10((a.scale - d) as nat);
        (2 * a.units as int + p) / (2 * p)
    }
}

/// Converts a spoken amount to minor units at `d` decimals.
pub fn to_minor_units(a: SpokenAmount, d: u32) -> (r: u64)
    requires
        d <= 19,
    ensures
        r as int == minor_units_spec(a, d as nat),
{
    if a.scale <= d {
        let p = pow10_exec(d - a.scale);
        assert(a.units as u128 * p as u128 <= 0xFFFF_FFFF_FFFF_FFFF * 0xFFFF_FFFF_FFFF_FFFF) by (nonlinear_arith)
            requires
                a.units <= 0xFFFF_FFFF_FFFF_FFFF,
                p <= 0xFFFF_FFFF_FFFF_FFFF,
        ;
        let v = a.units as u128 * p as u128;
        if v > MAX_MINOR as u128 {
            MAX_MINOR
        } else {
            v as u64
        }
    } else {
        let k = a.scale - d;
        if k >= 20 {
            proof {
                lemma_pow10_mono(20, k as nat);
                reveal_with_fuel(pow10, 21);
                let p = pow10(k as nat);
                assert(2 * a.units as int + p < 2 * p);
                assert((2 * a.units as int + p) / (2 * p) == 0) by (nonlinear_arith)
                    requires
                        0 <= 2 * a.units as int + p < 2 * p,
                ;
            }
            0
        } else {
            let p = pow10_exec(k) as u128;
            proof {
                lemma_pow10_mono(1, k as nat);
                reveal_with_fuel(pow10, 2);
            }
            let q = (2 * a.units as u128 + p) / (2 * p);
            assert(q <= 2 * a.units as u128 + p) by (nonlinear_arith)
                requires
                    p >= 1,
                    q as int == (2 * a.units as int + p) / (2 * p as int),
            ;
            assert(q < 0x1_0000_0000_0000_0000) by (nonlinear_arith)
                requires
                    p >= 10,
                    q as int == (2 * a.units as int + p) / (2 * p as int),
                    a.units < 0x1_0000_0000_0000_0000,
            ;
            q as u64
        }
    }
}

/// Minor units within 1% of the expected amount (`|e - d| <= e / 100`).
pub open spec fn within_tolerance(expected: int, detected: int) -> bool {
    let diff = if expected > detected { expected - detected } else { detected - expected };
    diff <= expected / 100
}

pub fn amount_within_tolerance(expected: u64, detected: u64) -> (r: bool)
    ensures
        r == within_tolerance(expected as int, detected as int),
{
    let diff = if expected > detected { expected - detected } else { detected - expected };
    diff <= expected / 100
}

/// Whether a detected amount matches the expected minor units at `d` decimals;
/// nothing detected never matches.
pub open spec fn verify_amount_spec(expected: u64, detected: Option<SpokenAmount>, d: nat) -> bool {
    match detected {
        Some(a) => within_tolerance(expected as int, minor_units_spec(a, d)),
        None => false,
    }
}

/// Checks a detected amount against the expected minor units at `d` decimals.
pub fn verify_amount_at(expected: u64, detected: Option<SpokenAmount>, d: u32) -> (r: bool)
    requires
        d <= 19,
    ensures
        r == verify_amount_spec(expected, detected, d as nat),
{
    match detected {
        Some(a) => amount_within_tolerance(expected, to_minor_units(a, d)),
        None => false,
    }
}

/// Checks a detected amount of `coin_type` against the expected minor units,
/// with a tolerance of 1% of the expected amount.
pub fn verify_amount(expected: u64, detected: Option<SpokenAmount>, coin_type: &str) -> (r: bool)
    ensures
        r == verify_amount_spec(expected, detected, decimals_spec(upper_of(coin_type@)) as nat),
{
    let d = get_decimals_for_coin(coin_type);
    verify_amount_at(expected, detected, d)
}

} // verus!

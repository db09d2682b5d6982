use vstd::prelude::*;
use crate::amount::{lemma_pow10_mono, pow10, sat, MAX_MINOR};
use crate::text::to_chars;

verus! {

pub open spec fn is_digit(c: char) -> bool {
    '0' <= c && c <= '9'
}

pub open spec fn all_digits(t: Seq<char>) -> bool {
    forall|i: int| 0 <= i < t.len() ==> is_digit(#[trigger] t[i])
}

/// Value of a string of decimal digits.
pub open spec fn digits_value(t: Seq<char>) -> int
    decreases t.len(),
{
    if t.len() == 0 {
        0
    } else {
        digits_value(t.drop_last()) * 10 + (t.last() as int - '0' as int)
    }
}

/// `p` is the position of the decimal point of a mantissa `t`.
pub open spec fn point_at(t: Seq<char>, p: int) -> bool {
    0 <= p < t.len() && t[p] == '.' && all_digits(t.take(p)) && all_digits(t.skip(p + 1))
        && t.len() >= 2
}

/// The integer and fractional digits of a mantissa: decimal digits with at
/// most one decimal point and at least one digit (`5`, `10.5`, `.5`, `5.`).
pub open spec fn numeral_parts(t: Seq<char>) -> Option<(Seq<char>, Seq<char>)> {
    if t.len() > 0 && all_digits(t) {
        Some((t, Seq::<char>::empty()))
    } else if exists|p: int| point_at(t, p) {
        let p = choose|p: int| point_at(t, p);
        Some((t.take(p), t.skip(p + 1)))
    } else {
        None
    }
}

/// `c` is `l` up to ASCII case.
pub open spec fn ascii_ci(c: char, l: char) -> bool {
    c == l || ('A' <= c && c <= 'Z' && (c as u32) + 32 == l as u32)
}

/// `a` spells the lower-case word `b`, in any ASCII case.
pub open spec fn ci_eq(a: Seq<char>, b: Seq<char>) -> bool {
    a.len() == b.len() && forall|i: int| 0 <= i < a.len() ==> ascii_ci(#[trigger] a[i], b[i])
}

/// Position of the first exponent mark (`e` or `E`) from `i` on, or the length.
pub open spec fn first_e(t: Seq<char>, i: int) -> int
    decreases t.len() - i,
{
    if i < 0 || i >= t.len() {
        t.len() as int
    } else if t[i] == 'e' || t[i] == 'E' {
        i
    } else {
        first_e(t, i + 1)
    }
}

/// An exponent: an optional sign and one or more digits.
pub open spec fn exponent_value(x: Seq<char>) -> Option<int> {
    let neg = x.len() > 0 && x[0] == '-';
    let ds = if x.len() > 0 && (x[0] == '-' || x[0] == '+') { x.skip(1) } else { x };
    if ds.len() == 0 || !all_digits(ds) {
        None
    } else {
        Some(if neg { -digits_value(ds) } else { digits_value(ds) })
    }
}

/// The digits `s` with the decimal point moved to after the first `p` of
/// them: the integer digits, padded with zeros past the end of `s`.
pub open spec fn shift_fill(s: Seq<char>, p: int) -> Seq<char> {
    Seq::new(if p > 0 { p as nat } else { 0 }, |k: int| if k < s.len() { s[k] } else { '0' })
}

/// The digits `s` read with the point after the first `p` of them, rounded
/// half up and saturated.
pub open spec fn shifted_minor(s: Seq<char>, p: int) -> u64 {
    let up = if 0 <= p < s.len() && s[p] >= '5' { 1int } else { 0int };
    sat(digits_value(shift_fill(s, p)) + up) as u64
}

/// Minor units at `d` decimals of a token that `str::parse::<f64>` reads: an
/// optional sign, then `inf`, `infinity` or `nan` in any case, or a mantissa
/// (see `numeral_parts`) with an optional exponent (`e` or `E`, an optional
/// sign, digits). The value times `10^d` is rounded half up and saturated to
/// `0..=u64::MAX`: negative numbers and `nan` give 0, `inf` the maximum.
pub open spec fn numeral_minor(t: Seq<char>, d: nat) -> Option<u64> {
    let s0: int = if t.len() > 0 && (t[0] == '+' || t[0] == '-') { 1 } else { 0 };
    let neg = s0 == 1 && t[0] == '-';
    let r = t.skip(s0);
    if ci_eq(r, "inf"@) || ci_eq(r, "infinity"@) {
        Some(if neg { 0u64 } else { MAX_MINOR })
    } else if ci_eq(r, "nan"@) {
        Some(0u64)
    } else {
        let e = first_e(t, s0);
        let x = if e < t.len() { exponent_value(t.skip(e + 1)) } else { Some(0int) };
        match (numeral_parts(t.subrange(s0, e)), x) {
            (Some((i, f)), Some(ex)) => Some(
                if neg { 0u64 } else { shifted_minor(i + f, i.len() + d + ex) },
            ),
            _ => None,
        }
    }
}

proof fn lemma_point_unique(t: Seq<char>, p: int, q: int)
    requires
        point_at(t, p),
        point_at(t, q),
    ensures
        p == q,
{
    if p < q {
        assert(t.skip(p + 1)[q - p - 1] == t[q]);
    } else if q < p {
        assert(t.skip(q + 1)[p - q - 1] == t[p]);
    }
}

pub proof fn lemma_sat_step(x: int, dg: int)
    requires
        x >= 0,
        0 <= dg <= 9,
    ensures
        sat(sat(x) * 10 + dg) == sat(x * 10 + dg),
{
}

pub open spec fn capped(x: int, m: int) -> int {
    if x > m {
        m
    } else {
        x
    }
}

proof fn lemma_cap_step(x: int, dg: int, m: int)
    requires
        x >= 0,
        0 <= dg <= 9,
        m >= 0,
    ensures
        capped(capped(x, m) * 10 + dg, m) == capped(x * 10 + dg, m),
{
}

pub proof fn lemma_digits_nonneg(t: Seq<char>, k: int)
    requires
        0 <= k <= t.len(),
        all_digits(t),
    ensures
        digits_value(t.take(k)) >= 0,
    decreases k,
{
    if k > 0 {
        assert(t.take(k).drop_last() =~= t.take(k - 1));
        assert(is_digit(t[k - 1]));
        lemma_digits_nonneg(t, k - 1);
    }
}

proof fn lemma_shift_fill_zeros(s: Seq<char>, p: int)
    requires
        p >= s.len(),
    ensures
        digits_value(shift_fill(s, p)) == digits_value(s) * pow10((p - s.len()) as nat),
    decreases p - s.len(),
{
    if p == s.len() {
        assert(shift_fill(s, p) =~= s);
    } else {
        assert(shift_fill(s, p).drop_last() =~= shift_fill(s, p - 1));
        lemma_shift_fill_zeros(s, p - 1);
        let a = digits_value(s);
        let q = pow10((p - 1 - s.len()) as nat);
        assert(pow10((p - s.len()) as nat) == 10 * q);
        assert(a * q * 10 == a * (10 * q)) by (nonlinear_arith);
    }
}

/// Far enough to the right of its digits, where the point stands no longer
/// matters: the value saturates, or is 0 when all digits are.
proof fn lemma_shift_far(s: Seq<char>, p: int)
    requires
        all_digits(s),
        p >= s.len() + 20,
    ensures
        shifted_minor(s, p) == if digits_value(s) == 0 { 0u64 } else { MAX_MINOR },
{
    lemma_shift_fill_zeros(s, p);
    lemma_digits_nonneg(s, s.len() as int);
    assert(s.take(s.len() as int) =~= s);
    let k = (p - s.len()) as nat;
    lemma_pow10_mono(20, k);
    reveal_with_fuel(pow10, 21);
    let a = digits_value(s);
    let q = pow10(k);
    if a != 0 {
        assert(a * q >= q) by (nonlinear_arith)
            requires
                a >= 1,
                q >= 0,
        ;
    } else {
        assert(a * q == 0);
    }
}

fn ci_eq_from(cs: &Vec<char>, lo: usize, lit: &str) -> (r: bool)
    requires
        lo <= cs@.len(),
    ensures
        r == ci_eq(cs@.skip(lo as int), lit@),
{
    let l = to_chars(lit);
    let ghost rest = cs@.skip(lo as int);
    if cs.len() - lo != l.len() {
        return false;
    }
    let cl = cs.len();
    let mut i: usize = 0;
    while i < l.len()
        invariant
            cl == cs@.len(),
            l@ == lit@,
            rest == cs@.skip(lo as int),
            lo <= cs@.len(),
            cs@.len() - lo == l@.len(),
            i <= l@.len(),
            forall|j: int| 0 <= j < i ==> ascii_ci(#[trigger] rest[j], lit@[j]),
        decreases l.len() - i,
    {
        assert(lo + i < cs@.len());
        let c = cs[lo + i];
        let w = l[i];
        assert(rest[i as int] == c);
        if !(c == w || ('A' <= c && c <= 'Z' && (c as u32) + 32 == w as u32)) {
            return false;
        }
        i = i + 1;
    }
    true
}

/// The position of the decimal point of a mantissa (its length when it has
/// none), or `None` when it is no mantissa.
fn split_mantissa(m: &Vec<char>) -> (r: Option<usize>)
    ensures
        match r {
            None => numeral_parts(m@).is_none(),
            Some(dot) => dot <= m@.len() && (dot == m@.len() ==> all_digits(m@)) && (dot < m@.len()
                ==> all_digits(m@.take(dot as int)) && all_digits(m@.skip(dot + 1))) && numeral_parts(m@) == Some(
                if dot == m@.len() {
                    (m@, Seq::<char>::empty())
                } else {
                    (m@.take(dot as int), m@.skip(dot + 1))
                },
            ),
        },
{
    let n = m.len();
    if n == 0 {
        return None;
    }
    let ghost tv = m@;
    let mut dot: usize = n;
    let mut k: usize = 0;
    while k < n
        invariant
            m@ == tv,
            n == tv.len(),
            k <= n,
            dot == n || (dot < k && tv[dot as int] == '.' && n >= 2),
            forall|j: int| 0 <= j < k && j != dot ==> is_digit(#[trigger] tv[j]),
        decreases n - k,
    {
        let c = m[k];
        if c == '.' {
            if dot < n || n < 2 {
                proof {
                    assert(!all_digits(tv)) by {
                        assert(!is_digit(tv[k as int]));
                    }
                    assert forall|p: int| !point_at(tv, p) by {
                        if point_at(tv, p) {
                            if n < 2 {
                            } else if p == dot as int {
                                assert(tv.skip(p + 1)[k - p - 1] == tv[k as int]);
                            } else if p < dot as int {
                                assert(tv.skip(p + 1)[dot - p - 1] == tv[dot as int]);
                            } else {
                                assert(tv.take(p)[dot as int] == tv[dot as int]);
                            }
                        }
                    }
                }
                return None;
            }
            dot = k;
        } else if !('0' <= c && c <= '9') {
            proof {
                assert(!all_digits(tv)) by {
                    assert(!is_digit(tv[k as int]));
                }
                assert forall|p: int| !point_at(tv, p) by {
                    if point_at(tv, p) {
                        if k < p {
                            assert(tv.take(p)[k as int] == tv[k as int]);
                        } else if k > p {
                            assert(tv.skip(p + 1)[k - p - 1] == tv[k as int]);
                        }
                    }
                }
            }
            return None;
        }
        k = k + 1;
    }
    proof {
        if dot == n {
            assert(all_digits(tv));
        } else {
            assert(all_digits(tv.take(dot as int))) by {
                assert forall|j: int| 0 <= j < dot implies is_digit(#[trigger] tv.take(dot as int)[j]) by {
                    assert(tv.take(dot as int)[j] == tv[j]);
                }
            }
            assert(all_digits(tv.skip(dot + 1))) by {
                assert forall|j: int| 0 <= j < tv.skip(dot + 1).len() implies is_digit(#[trigger] tv.skip(dot + 1)[j]) by {
                    assert(tv.skip(dot + 1)[j] == tv[dot + 1 + j]);
                }
            }
            assert(!all_digits(tv)) by {
                assert(!is_digit(tv[dot as int]));
            }
            assert(point_at(tv, dot as int));
            let c = choose|p: int| point_at(tv, p);
            lemma_point_unique(tv, c, dot as int);
        }
    }
    Some(dot)
}

/// Bound on exponent magnitudes beyond which a value only saturates or
/// vanishes.
pub const EXP_CAP: u128 = 0x40_0000_0000_0000_0000;

/// Reads the exponent `cs[lo..]`: its sign and its magnitude, capped at
/// `EXP_CAP`.
fn parse_exponent(cs: &Vec<char>, lo: usize) -> (r: Option<(bool, u128)>)
    requires
        lo <= cs@.len(),
    ensures
        match exponent_value(cs@.skip(lo as int)) {
            None => r.is_none(),
            Some(v) => r.is_some() && r.unwrap().1 as int == capped(if v < 0 { -v } else { v }, EXP_CAP as int)
                && (r.unwrap().0 ==> v <= 0) && (!r.unwrap().0 ==> v >= 0),
        },
{
    let ghost x = cs@.skip(lo as int);
    let n = cs.len();
    let neg = lo < n && cs[lo] == '-';
    assert(lo < n ==> x[0] == cs@[lo as int]);
    let first: usize = if lo < n && (cs[lo] == '-' || cs[lo] == '+') { lo + 1 } else { lo };
    let ghost ds = if x.len() > 0 && (x[0] == '-' || x[0] == '+') { x.skip(1) } else { x };
    assert(ds =~= cs@.skip(first as int));
    if first >= n {
        return None;
    }
    let mut acc: u128 = 0;
    let mut k: usize = first;
    while k < n
        invariant
            n == cs@.len(),
            lo <= first <= k <= n,
            ds == cs@.skip(first as int),
            x == cs@.skip(lo as int),
            ds == (if x.len() > 0 && (x[0] == '-' || x[0] == '+') { x.skip(1) } else { x }),
            neg == (x.len() > 0 && x[0] == '-'),
            all_digits(ds.take(k - first)),
            acc as int == capped(digits_value(ds.take(k - first)), EXP_CAP as int),
        decreases n - k,
    {
        let c = cs[k];
        if !('0' <= c && c <= '9') {
            proof {
                assert(ds[k - first] == c);
                assert(!is_digit(ds[k - first]));
            }
            return None;
        }
        proof {
            let t = ds.take(k - first);
            assert(ds.take(k + 1 - first).drop_last() =~= t);
            assert(ds[k - first] == c);
            lemma_digits_nonneg(t, t.len() as int);
            assert(t.take(t.len() as int) =~= t);
            lemma_cap_step(digits_value(t), c as int - '0' as int, EXP_CAP as int);
            assert(all_digits(ds.take(k + 1 - first))) by {
                assert forall|j: int| 0 <= j < k + 1 - first implies is_digit(#[trigger] ds.take(k + 1 - first)[j]) by {
                    if j < k - first {
                        assert(ds.take(k + 1 - first)[j] == t[j]);
                    }
                }
            }
        }
        let dg = (c as u32 - '0' as u32) as u128;
        acc = if acc > (EXP_CAP - dg) / 10 { EXP_CAP } else { acc * 10 + dg };
        k = k + 1;
    }
    proof {
        assert(ds.take(n - first) =~= ds);
        lemma_digits_nonneg(ds, ds.len() as int);
        assert(ds.take(ds.len() as int) =~= ds);
    }
    Some((neg, acc))
}

/// The digits `s` read with the point after the first `p` of them, in minor
/// units.
fn shift_digits(s: &Vec<char>, p: i128) -> (r: u64)
    requires
        all_digits(s@),
    ensures
        r == shifted_minor(s@, p as int),
{
    let n = s.len();
    if p <= 0 {
        proof {
            assert(shift_fill(s@, p as int) =~= Seq::<char>::empty());
        }
        if p == 0 && n > 0 && s[0] >= '5' {
            return 1;
        } else {
            return 0;
        }
    }
    let ghost full = shift_fill(s@, p as int);
    assert(all_digits(full)) by {
        assert forall|j: int| 0 <= j < full.len() implies is_digit(#[trigger] full[j]) by {
            if j < s@.len() {
                assert(is_digit(s@[j]));
            }
        }
    }
    if p > n as i128 + 20 {
        let mut acc: u64 = 0;
        let mut k: usize = 0;
        while k < n
            invariant
                n == s@.len(),
                all_digits(s@),
                k <= n,
                acc as int == sat(digits_value(s@.take(k as int))),
            decreases n - k,
        {
            let c = s[k];
            proof {
                let t = s@.take(k as int);
                assert(s@.take(k + 1).drop_last() =~= t);
                lemma_digits_nonneg(s@, k as int);
                lemma_sat_step(digits_value(t), c as int - '0' as int);
            }
            let dg = (c as u32 - '0' as u32) as u64;
            acc = if acc > (MAX_MINOR - dg) / 10 { MAX_MINOR } else { acc * 10 + dg };
            k = k + 1;
        }
        proof {
            assert(s@.take(n as int) =~= s@);
            lemma_digits_nonneg(s@, n as int);
            lemma_shift_far(s@, p as int);
        }
        return if acc == 0 { 0 } else { MAX_MINOR };
    }
    let mut acc: u64 = 0;
    let mut j: u128 = 0;
    let pu = p as u128;
    while j < pu
        invariant
            n == s@.len(),
            pu as int == p as int,
            0 < p <= n + 20,
            full == shift_fill(s@, p as int),
            all_digits(full),
            j <= pu,
            acc as int == sat(digits_value(full.take(j as int))),
        decreases pu - j,
    {
        let c: char = if j < n as u128 { s[j as usize] } else { '0' };
        proof {
            assert(full.take(j + 1).drop_last() =~= full.take(j as int));
            assert(full[j as int] == c);
            lemma_digits_nonneg(full, j as int);
            lemma_sat_step(digits_value(full.take(j as int)), c as int - '0' as int);
        }
        let dg = (c as u32 - '0' as u32) as u64;
        acc = if acc > (MAX_MINOR - dg) / 10 { MAX_MINOR } else { acc * 10 + dg };
        j = j + 1;
    }
    proof {
        assert(full.take(pu as int) =~= full);
    }
    if pu < n as u128 && s[pu as usize] >= '5' {
        if acc < MAX_MINOR {
            acc = acc + 1;
        }
    }
    acc
}

/// Minor units at `d` decimals of a number token, or `None` if the token is
/// not a number.
pub fn numeral_to_minor(t: &str, d: u32) -> (r: Option<u64>)
    ensures
        r == numeral_minor(t@, d as nat),
{
    proof {
        reveal_strlit("inf");
        reveal_strlit("infinity");
        reveal_strlit("nan");
    }
    let cs = to_chars(t);
    let n = cs.len();
    let s0: usize = if n > 0 && (cs[0] == '+' || cs[0] == '-') { 1 } else { 0 };
    let neg = s0 == 1 && cs[0] == '-';
    if ci_eq_from(&cs, s0, "inf") || ci_eq_from(&cs, s0, "infinity") {
        return Some(if neg { 0 } else { MAX_MINOR });
    }
    if ci_eq_from(&cs, s0, "nan") {
        return Some(0);
    }
    let mut e: usize = s0;
    while e < n && !(cs[e] == 'e' || cs[e] == 'E')
        invariant
            cs@ == t@,
            n == t@.len(),
            s0 <= e <= n,
            first_e(t@, s0 as int) == first_e(t@, e as int),
        decreases n - e,
    {
        e = e + 1;
    }
    assert(first_e(t@, e as int) == e);
    let mut m: Vec<char> = Vec::new();
    let mut k: usize = s0;
    while k < e
        invariant
            cs@ == t@,
            s0 <= k <= e <= n,
            n == t@.len(),
            m@ == t@.subrange(s0 as int, k as int),
        decreases e - k,
    {
        m.push(cs[k]);
        proof {
            assert(m@ =~= t@.subrange(s0 as int, k + 1));
        }
        k = k + 1;
    }
    let ex: (bool, u128) = if e < n {
        match parse_exponent(&cs, e + 1) {
            Some(x) => x,
            None => {
                return None;
            },
        }
    } else {
        (false, 0)
    };
    let dot = match split_mantissa(&m) {
        Some(p) => p,
        None => {
            return None;
        },
    };
    if neg {
        return Some(0);
    }
    let ml = m.len();
    let mut digits: Vec<char> = Vec::new();
    let mut k: usize = 0;
    let ghost ip = if dot == ml { m@ } else { m@.take(dot as int) };
    let ghost fp = if dot == ml { Seq::<char>::empty() } else { m@.skip(dot + 1) };
    while k < ml
        invariant
            ml == m@.len(),
            dot <= ml,
            k <= ml,
            digits@ == (if k <= dot { m@.take(k as int) } else { m@.take(dot as int) + m@.subrange(dot + 1, k as int) }),
        decreases ml - k,
    {
        if k != dot {
            digits.push(m[k]);
        }
        proof {
            if k < dot {
                assert(digits@ =~= m@.take(k + 1));
            } else if k == dot {
                assert(m@.take(dot as int) + m@.subrange(dot + 1, k + 1) =~= m@.take(dot as int));
            } else {
                assert(digits@ =~= m@.take(dot as int) + m@.subrange(dot + 1, k + 1));
            }
        }
        k = k + 1;
    }
    proof {
        if dot == ml {
            assert(digits@ =~= ip + fp);
        } else {
            assert(digits@ =~= ip + fp);
        }
        assert(all_digits(ip + fp)) by {
            assert forall|j: int| 0 <= j < (ip + fp).len() implies is_digit(#[trigger] (ip + fp)[j]) by {
                if j < ip.len() {
                    assert(is_digit(ip[j]));
                } else {
                    assert(is_digit(fp[j - ip.len()]));
                }
            }
        }
    }
    let int_len: usize = if dot == ml { ml } else { dot };
    let shift: i128 = if ex.0 { -(ex.1 as i128) } else { ex.1 as i128 };
    let p: i128 = int_len as i128 + d as i128 + shift;
    let r = shift_digits(&digits, p);
    proof {
        let ghost true_e: int = if e < n { exponent_value(t@.skip(e + 1)).unwrap() } else { 0 };
        let ptrue = ip.len() + d + true_e;
        if ex.1 < EXP_CAP {
            assert(p as int == ptrue);
        } else if ex.0 {
            assert(ptrue <= p);
            assert(p < 0);
            assert(shift_fill(ip + fp, ptrue) =~= Seq::<char>::empty());
            assert(shift_fill(ip + fp, p as int) =~= Seq::<char>::empty());
        } else {
            assert(ptrue >= p);
            lemma_shift_far(ip + fp, p as int);
            lemma_shift_far(ip + fp, ptrue);
        }
    }
    Some(r)
}

} // verus!

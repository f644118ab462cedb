//! MJML `padding` is a CSS-style shorthand of 1–4 `px` or `%` values.
//! Bare numbers are treated as `px` so forms and emitted MJML agree with MJML 5.
//!
//! Lengths are also read as exact decimals here: a value is held as an integer
//! count of 10^-18 px, so comparisons between lengths are exact.
use vstd::prelude::*;

use crate::text::{
    chars_of, ends_with, ends_with_str, eq_ignore_case, eq_str, find_from, find_from_exec, join,
    join_exec, lower, owned, push_str, string_of, trim, trim_bounds, trim_str, views, words,
    words_exec,
};

verus! {

/// Short form of the padding rule.
pub const HINT: &'static str = "1-4 values with px or %";

/// Example shown in an empty padding field.
pub const PLACEHOLDER: &'static str = "e.g. 10px  or  10px 20px";

/// The padding rule, as given in error messages.
pub const RULE: &'static str = "1-4 values with px or % (e.g. 10px or 10px 20px)";

/// Short form of the single-length rule.
pub const UNIT_HINT: &'static str = "px or %";

/// Example shown in an empty length field.
pub const UNIT_PLACEHOLDER: &'static str = "e.g. 4px";

/// The single-length rule, as given in error messages.
pub const UNIT_RULE: &'static str = "a value with px or % (e.g. 4px)";

// ---------------------------------------------------------------------------
// Specifications
// ---------------------------------------------------------------------------

pub open spec fn is_digit(c: char) -> bool {
    '0' <= c && c <= '9'
}

/// `s` without one leading `-`.
pub open spec fn unsigned_part(s: Seq<char>) -> Seq<char> {
    if s.len() > 0 && s[0] == '-' {
        s.drop_first()
    } else {
        s
    }
}

/// A number as written in a length: an optional `-`, then digits with at
/// most one `.`, and at least one digit.
pub open spec fn is_unit_number(s: Seq<char>) -> bool {
    let b = unsigned_part(s);
    &&& b.len() > 0
    &&& forall|i: int| 0 <= i < b.len() ==> is_digit(#[trigger] b[i]) || b[i] == '.'
    &&& forall|i: int, j: int| 0 <= i < j < b.len() ==> !(#[trigger] b[i] == '.' && #[trigger] b[j] == '.')
    &&& exists|i: int| 0 <= i < b.len() && is_digit(#[trigger] b[i])
}

/// One padding token normalized: `0`, a number with `px` or `%`, or a bare
/// number, which gets `px`.
pub open spec fn normalized_token(t: Seq<char>) -> Option<Seq<char>> {
    if t == "0"@ {
        Some(t)
    } else if ends_with(t, "px"@) {
        if is_unit_number(t.take(t.len() - "px"@.len())) {
            Some(t)
        } else {
            None
        }
    } else if ends_with(t, "%"@) {
        if is_unit_number(t.take(t.len() - "%"@.len())) {
            Some(t)
        } else {
            None
        }
    } else if is_unit_number(t) {
        Some(t + "px"@)
    } else {
        None
    }
}

/// Each part normalized, in order; `None` when a part starts with `-` or is
/// not a length.
pub open spec fn normalized_parts(parts: Seq<Seq<char>>) -> Option<Seq<Seq<char>>>
    decreases parts.len(),
{
    if parts.len() == 0 {
        Some(Seq::empty())
    } else {
        match normalized_parts(parts.drop_last()) {
            None => None,
            Some(done) => {
                let p = parts.last();
                if p.len() > 0 && p[0] == '-' {
                    None
                } else {
                    match normalized_token(p) {
                        Some(n) => Some(done.push(n)),
                        None => None,
                    }
                }
            },
        }
    }
}

/// A padding shorthand normalized: blank gives the empty string; otherwise
/// 1 to 4 non-negative lengths, joined by single spaces. `None` is refusal.
pub open spec fn normalized_padding(v: Seq<char>) -> Option<Seq<char>> {
    let t = trim(v);
    if t.len() == 0 {
        Some(Seq::empty())
    } else {
        let parts = words(t, false);
        if parts.len() == 0 || parts.len() > 4 {
            None
        } else {
            match normalized_parts(parts) {
                Some(ns) => Some(join(ns, " "@)),
                None => None,
            }
        }
    }
}

/// A single length normalized: blank gives the empty string, `auto` (any
/// case) gives `auto`, anything else as one padding token.
pub open spec fn normalized_unit(v: Seq<char>) -> Option<Seq<char>> {
    let t = trim(v);
    if t.len() == 0 {
        Some(Seq::empty())
    } else if lower(t) == lower("auto"@) {
        Some("auto"@)
    } else {
        normalized_token(t)
    }
}

/// Number of fractional decimal digits a length is held with.
pub open spec fn scale() -> nat {
    18
}

pub open spec fn pow10(n: nat) -> int
    decreases n,
{
    if n == 0 {
        1
    } else {
        10 * pow10((n - 1) as nat)
    }
}

pub open spec fn digits_value(s: Seq<char>) -> int
    decreases s.len(),
{
    if s.len() == 0 {
        0
    } else {
        digits_value(s.drop_last()) * 10 + (s.last() as int - 48)
    }
}

pub open spec fn all_digits(s: Seq<char>) -> bool {
    forall|i: int| 0 <= i < s.len() ==> is_digit(#[trigger] s[i])
}

/// Integer part of an unsigned decimal (before the first `.`).
pub open spec fn int_part(b: Seq<char>) -> Seq<char> {
    match find_from(b, seq!['.'], 0) {
        Some(p) => b.take(p),
        None => b,
    }
}

/// Fraction part of an unsigned decimal (after the first `.`).
pub open spec fn frac_part(b: Seq<char>) -> Seq<char> {
    match find_from(b, seq!['.'], 0) {
        Some(p) => b.skip(p + 1),
        None => Seq::empty(),
    }
}

/// An unsigned decimal `digits[.digits]` (at least one digit, at most 18
/// on either side of the point), in units of 10^-18.
pub open spec fn unsigned_scaled(b: Seq<char>) -> Option<int> {
    let ip = int_part(b);
    let fp = frac_part(b);
    if all_digits(ip) && all_digits(fp) && ip.len() + fp.len() > 0 && ip.len() <= scale()
        && fp.len() <= scale() {
        Some(digits_value(ip) * pow10(scale()) + digits_value(fp) * pow10(
            (scale() - fp.len()) as nat,
        ))
    } else {
        None
    }
}

/// A decimal with an optional sign, in units of 10^-18.
pub open spec fn scaled_decimal(s: Seq<char>) -> Option<int> {
    if s.len() > 0 && s[0] == '-' {
        match unsigned_scaled(s.drop_first()) {
            Some(v) => Some(-v),
            None => None,
        }
    } else if s.len() > 0 && s[0] == '+' {
        unsigned_scaled(s.drop_first())
    } else {
        unsigned_scaled(s)
    }
}

/// A `px` length token (`0` or `<number>px`), in units of 10^-18 px.
pub open spec fn px_token(t: Seq<char>) -> Option<int> {
    if t == "0"@ {
        Some(0)
    } else if ends_with(t, "px"@) {
        scaled_decimal(t.take(t.len() - "px"@.len()))
    } else {
        None
    }
}

pub open spec fn opt_double(a: Option<int>) -> Option<int> {
    match a {
        Some(x) => Some(2 * x),
        None => None,
    }
}

pub open spec fn opt_add(a: Option<int>, b: Option<int>) -> Option<int> {
    match (a, b) {
        (Some(x), Some(y)) => Some(x + y),
        _ => None,
    }
}

/// Left + right of a padding shorthand, in units of 10^-18 px. `None` when
/// the shorthand is refused or empty, or a side it needs is not in `px`.
pub open spec fn horizontal_scaled(v: Seq<char>) -> Option<int> {
    match normalized_padding(v) {
        None => None,
        Some(n) => if n.len() == 0 {
            None
        } else {
            let parts = words(n, false);
            if parts.len() == 1 {
                opt_double(px_token(parts[0]))
            } else if parts.len() == 2 || parts.len() == 3 {
                opt_double(px_token(parts[1]))
            } else if parts.len() == 4 {
                opt_add(px_token(parts[1]), px_token(parts[3]))
            } else {
                None
            }
        },
    }
}

// ---------------------------------------------------------------------------
// Lemmas
// ---------------------------------------------------------------------------

pub proof fn lemma_pow10_pos(n: nat)
    ensures
        pow10(n) >= 1,
    decreases n,
{
    if n > 0 {
        lemma_pow10_pos((n - 1) as nat);
    }
}

pub proof fn lemma_pow10_mono(a: nat, b: nat)
    requires
        a <= b,
    ensures
        pow10(a) <= pow10(b),
    decreases b,
{
    if a < b {
        lemma_pow10_mono(a, (b - 1) as nat);
        lemma_pow10_pos((b - 1) as nat);
    }
}

pub proof fn lemma_pow10_18()
    ensures
        pow10(18) == 1_000_000_000_000_000_000,
{
    reveal_with_fuel(pow10, 19);
}

pub proof fn lemma_digits_bound(s: Seq<char>)
    requires
        all_digits(s),
    ensures
        0 <= digits_value(s) < pow10(s.len()),
    decreases s.len(),
{
    if s.len() > 0 {
        let t = s.drop_last();
        assert(all_digits(t)) by {
            assert forall|i: int| 0 <= i < t.len() implies is_digit(#[trigger] t[i]) by {
                assert(t[i] == s[i]);
            }
        }
        lemma_digits_bound(t);
        assert(is_digit(s[s.len() - 1]));
        let d = s.last() as int - 48;
        let v = digits_value(t);
        let p = pow10(t.len());
        assert(0 <= v * 10 + d < 10 * p) by (nonlinear_arith)
            requires
                0 <= v < p,
                0 <= d < 10,
        ;
    }
}

pub proof fn lemma_parts_none_extends(parts: Seq<Seq<char>>, i: int)
    requires
        0 <= i <= parts.len(),
        normalized_parts(parts.take(i)) is None,
    ensures
        normalized_parts(parts) is None,
    decreases parts.len() - i,
{
    if i < parts.len() {
        assert(parts.take(i + 1).drop_last() =~= parts.take(i));
        lemma_parts_none_extends(parts, i + 1);
    } else {
        assert(parts.take(i) =~= parts);
    }
}

pub open spec fn length_bound() -> int {
    2_000_000_000_000_000_000_000_000_000_000_000_000
}

pub proof fn lemma_unsigned_bound(b: Seq<char>)
    ensures
        unsigned_scaled(b) matches Some(x) ==> 0 <= x < length_bound(),
{
    let ip = int_part(b);
    let fp = frac_part(b);
    if all_digits(ip) && all_digits(fp) && ip.len() + fp.len() > 0 && ip.len() <= scale()
        && fp.len() <= scale() {
        lemma_digits_bound(ip);
        lemma_digits_bound(fp);
        lemma_pow10_18();
        lemma_pow10_mono(ip.len(), 18);
        lemma_pow10_mono(fp.len(), 18);
        lemma_pow10_mono((18 - fp.len()) as nat, 18);
        lemma_pow10_pos((18 - fp.len()) as nat);
        let a = digits_value(ip);
        let c = digits_value(fp);
        let pa = pow10(18);
        let pc = pow10((18 - fp.len()) as nat);
        assert(0 <= a * pa + c * pc < length_bound()) by (nonlinear_arith)
            requires
                0 <= a < 1_000_000_000_000_000_000,
                0 <= c < 1_000_000_000_000_000_000,
                pa == 1_000_000_000_000_000_000,
                0 < pc <= 1_000_000_000_000_000_000,
        ;
    }
}

pub proof fn lemma_px_bound(t: Seq<char>)
    ensures
        px_token(t) matches Some(x) ==> -length_bound() < x < length_bound(),
{
    if t != "0"@ && ends_with(t, "px"@) {
        let s = t.take(t.len() - "px"@.len());
        if s.len() > 0 && (s[0] == '-' || s[0] == '+') {
            lemma_unsigned_bound(s.drop_first());
        } else {
            lemma_unsigned_bound(s);
        }
    }
}

// ---------------------------------------------------------------------------
// Executable
// ---------------------------------------------------------------------------

/// Whether `v` is a number as written in a length (see [`is_unit_number`]).
pub fn is_unit_number_exec(v: &Vec<char>) -> (r: bool)
    ensures
        r == is_unit_number(v@),
{
    let start: usize = if v.len() > 0 && v[0] == '-' {
        1
    } else {
        0
    };
    let ghost b = unsigned_part(v@);
    assert(b =~= v@.skip(start as int));
    if start >= v.len() {
        return false;
    }
    let mut seen_dot = false;
    let mut seen_digit = false;
    let mut i = start;
    while i < v.len()
        invariant
            start <= i <= v.len(),
            b == v@.skip(start as int),
            b == unsigned_part(v@),
            forall|k: int| 0 <= k < i - start ==> is_digit(#[trigger] b[k]) || b[k] == '.',
            forall|k: int, m: int|
                0 <= k < m < i - start ==> !(#[trigger] b[k] == '.' && #[trigger] b[m] == '.'),
            seen_dot <==> exists|k: int| 0 <= k < i - start && #[trigger] b[k] == '.',
            seen_digit <==> exists|k: int| 0 <= k < i - start && is_digit(#[trigger] b[k]),
        decreases v.len() - i,
    {
        let c = v[i];
        assert(b[i - start] == c);
        if c == '.' {
            if seen_dot {
                let ghost k = choose|k: int| 0 <= k < i - start && #[trigger] b[k] == '.';
                assert(b[k] == '.' && b[i - start] == '.');
                assert(!is_unit_number(v@));
                return false;
            }
            seen_dot = true;
        } else if '0' <= c && c <= '9' {
            seen_digit = true;
        } else {
            assert(!(is_digit(b[i - start]) || b[i - start] == '.'));
            assert(!is_unit_number(v@));
            return false;
        }
        i += 1;
    }
    seen_digit
}

/// One padding token normalized (see [`normalized_token`]).
pub fn normalize_token(token: &str) -> (r: Result<String, String>)
    ensures
        r matches Ok(s) ==> normalized_token(token@) == Some(s@),
        r matches Err(e) ==> normalized_token(token@) is None && e@ == RULE@,
{
    if eq_str(token, "0") {
        return Ok(owned("0"));
    }
    let v = chars_of(token);
    if ends_with_str(token, "px") {
        let k = chars_of("px").len();
        let num = string_of(&v, 0, v.len() - k);
        assert(num@ =~= token@.take(token@.len() - "px"@.len()));
        if is_unit_number_exec(&chars_of(num.as_str())) {
            return Ok(owned(token));
        }
        return Err(owned(RULE));
    }
    if ends_with_str(token, "%") {
        let k = chars_of("%").len();
        let num = string_of(&v, 0, v.len() - k);
        assert(num@ =~= token@.take(token@.len() - "%"@.len()));
        if is_unit_number_exec(&chars_of(num.as_str())) {
            return Ok(owned(token));
        }
        return Err(owned(RULE));
    }
    if is_unit_number_exec(&v) {
        let mut s = owned(token);
        push_str(&mut s, "px");
        return Ok(s);
    }
    Err(owned(RULE))
}

/// Empty input is valid (the field is optional). Otherwise 1–4 tokens, each
/// `0`, a number with `px`/`%`, or a bare number (which gets `px`).
/// Negative values are refused: MJML does not accept them.
pub fn normalize_padding(value: &str) -> (r: Result<String, String>)
    ensures
        r matches Ok(s) ==> normalized_padding(value@) == Some(s@),
        r matches Err(e) ==> normalized_padding(value@) is None && e@ == RULE@,
{
    let t = trim_str(value);
    if t.as_str().is_empty() {
        return Ok(String::new());
    }
    let parts = words_exec(t.as_str(), false);
    if parts.len() == 0 || parts.len() > 4 {
        return Err(owned(RULE));
    }
    let mut out: Vec<String> = Vec::new();
    let mut i: usize = 0;
    while i < parts.len()
        invariant
            i <= parts.len(),
            t@ == trim(value@),
            t@.len() > 0,
            1 <= parts.len() <= 4,
            views(parts@) == words(t@, false),
            normalized_parts(views(parts@).take(i as int)) == Some(views(out@)),
        decreases parts.len() - i,
    {
        let ghost done = views(parts@).take(i as int);
        proof {
            assert(views(parts@).take(i + 1).drop_last() =~= done);
            assert(views(parts@).take(i + 1).last() == parts@[i as int]@);
        }
        let p = parts[i].as_str();
        let pv = chars_of(p);
        if pv.len() > 0 && pv[0] == '-' {
            proof {
                lemma_parts_none_extends(views(parts@), i + 1);
            }
            return Err(owned(RULE));
        }
        match normalize_token(p) {
            Ok(n) => {
                out.push(n);
                assert(views(out@) =~= views(out@).drop_last().push(n@));
            },
            Err(e) => {
                proof {
                    lemma_parts_none_extends(views(parts@), i + 1);
                }
                return Err(e);
            },
        }
        i += 1;
    }
    assert(views(parts@).take(parts.len() as int) =~= views(parts@));
    Ok(join_exec(&out, " "))
}

/// One `px`/`%` value, or `0`. Bare numbers become `px`. `auto` is allowed
/// (heights).
pub fn normalize_unit(value: &str) -> (r: Result<String, String>)
    ensures
        r matches Ok(s) ==> normalized_unit(value@) == Some(s@),
        r matches Err(e) ==> normalized_unit(value@) is None && e@ == UNIT_RULE@,
{
    let t = trim_str(value);
    if t.as_str().is_empty() {
        return Ok(String::new());
    }
    if eq_ignore_case(t.as_str(), "auto") {
        return Ok(owned("auto"));
    }
    match normalize_token(t.as_str()) {
        Ok(s) => Ok(s),
        Err(_) => Err(owned(UNIT_RULE)),
    }
}

/// The value of `v[lo..hi]` read as digits; `None` when a character is not a
/// digit or there are more than 18 of them.
fn digits_exec(v: &Vec<char>, lo: usize, hi: usize) -> (r: Option<u64>)
    requires
        lo <= hi <= v.len(),
    ensures
        r matches Some(x) ==> (all_digits(v@.subrange(lo as int, hi as int)) && x as int
            == digits_value(v@.subrange(lo as int, hi as int)) && hi - lo <= 18),
        r is None ==> !(all_digits(v@.subrange(lo as int, hi as int)) && hi - lo <= 18),
{
    if hi - lo > 18 {
        return None;
    }
    let mut x: u64 = 0;
    let mut i = lo;
    proof {
        lemma_pow10_mono(0, 18);
        assert(v@.subrange(lo as int, lo as int) =~= Seq::<char>::empty());
    }
    while i < hi
        invariant
            lo <= i <= hi <= v.len(),
            hi - lo <= 18,
            all_digits(v@.subrange(lo as int, i as int)),
            x as int == digits_value(v@.subrange(lo as int, i as int)),
            x < pow10((i - lo) as nat),
            pow10((i - lo) as nat) <= pow10(18),
        decreases hi - i,
    {
        let c = v[i];
        if !('0' <= c && c <= '9') {
            assert(v@.subrange(lo as int, hi as int)[i - lo] == c);
            return None;
        }
        let ghost s = v@.subrange(lo as int, i + 1);
        assert(s.drop_last() =~= v@.subrange(lo as int, i as int));
        assert(all_digits(s)) by {
            assert forall|k: int| 0 <= k < s.len() implies is_digit(#[trigger] s[k]) by {
                if k < s.len() - 1 {
                    assert(s[k] == v@.subrange(lo as int, i as int)[k]);
                }
            }
        }
        let d = (c as u32 - 48) as u64;
        proof {
            lemma_pow10_18();
            lemma_pow10_mono((i + 1 - lo) as nat, 18);
            let p = pow10((i - lo) as nat);
            assert(pow10((i + 1 - lo) as nat) == 10 * p);
            assert(x * 10 + d < 10 * p) by (nonlinear_arith)
                requires
                    x < p,
                    d < 10,
            ;
        }
        x = x * 10 + d;
        i += 1;
    }
    Some(x)
}

/// `10^n` for `n <= 18`.
fn pow10_exec(n: usize) -> (r: i128)
    requires
        n <= 18,
    ensures
        r as int == pow10(n as nat),
{
    let mut p: i128 = 1;
    let mut k: usize = 0;
    while k < n
        invariant
            k <= n <= 18,
            p as int == pow10(k as nat),
        decreases n - k,
    {
        proof {
            lemma_pow10_18();
            lemma_pow10_mono((k + 1) as nat, 18);
            assert(pow10((k + 1) as nat) == 10 * pow10(k as nat));
            assert(10 * pow10(k as nat) <= 1_000_000_000_000_000_000);
            lemma_pow10_pos(k as nat);
        }
        p = p * 10;
        k += 1;
    }
    p
}

/// An unsigned decimal `digits[.digits]` in units of 10^-18.
fn unsigned_scaled_exec(v: &Vec<char>, lo: usize) -> (r: Option<i128>)
    requires
        lo <= v.len(),
    ensures
        r matches Some(x) ==> unsigned_scaled(v@.skip(lo as int)) == Some(x as int),
        r is None ==> unsigned_scaled(v@.skip(lo as int)) is None,
{
    let ghost b = v@.skip(lo as int);
    let mut p: usize = lo;
    while p < v.len() && v[p] != '.'
        invariant
            lo <= p <= v.len(),
            b == v@.skip(lo as int),
            forall|k: int| lo <= k < p ==> v@[k] != '.',
        decreases v.len() - p,
    {
        p += 1;
    }
    let ghost dot = seq!['.'];
    proof {
        assert forall|k: int| 0 <= k < p - lo implies !crate::text::occurs_at(b, dot, k) by {
            assert(b[k] == v@[k + lo]);
            assert(b.subrange(k, k + 1)[0] == b[k]);
            assert(dot[0] == '.');
        }
        crate::text::lemma_find_from_skip(b, dot, 0, p - lo);
    }
    let (ip_hi, fp_lo) = if p < v.len() {
        proof {
            assert(b.subrange(p - lo, p - lo + 1) =~= dot);
            assert(find_from(b, dot, (p - lo) as int) == Some(p - lo));
        }
        (p, p + 1)
    } else {
        proof {
            crate::text::lemma_find_from_none(b, dot, (p - lo) as int);
        }
        (p, p)
    };
    assert(int_part(b) =~= v@.subrange(lo as int, ip_hi as int));
    assert(frac_part(b) =~= v@.subrange(fp_lo as int, v.len() as int));
    if ip_hi == lo && fp_lo >= v.len() {
        return None;
    }
    let ip = digits_exec(v, lo, ip_hi);
    let fp = digits_exec(v, fp_lo, v.len());
    match (ip, fp) {
        (Some(a), Some(c)) => {
            let flen = v.len() - fp_lo;
            let pa = pow10_exec(18);
            let pc = pow10_exec(18 - flen);
            proof {
                lemma_pow10_18();
                lemma_pow10_mono((18 - flen) as nat, 18);
                lemma_pow10_mono((ip_hi - lo) as nat, 18);
                lemma_pow10_mono(flen as nat, 18);
                lemma_pow10_pos((18 - flen) as nat);
                lemma_digits_bound(v@.subrange(lo as int, ip_hi as int));
                lemma_digits_bound(v@.subrange(fp_lo as int, v.len() as int));
                assert(a * pa <= 1_000_000_000_000_000_000 * 1_000_000_000_000_000_000) by (nonlinear_arith)
                    requires
                        a < 1_000_000_000_000_000_000,
                        pa == 1_000_000_000_000_000_000,
                ;
                assert(c * pc <= 1_000_000_000_000_000_000 * 1_000_000_000_000_000_000) by (nonlinear_arith)
                    requires
                        c < 1_000_000_000_000_000_000,
                        0 < pc <= 1_000_000_000_000_000_000,
                ;
            }
            Some((a as i128) * pa + (c as i128) * pc)
        },
        _ => None,
    }
}

/// A decimal with an optional sign, in units of 10^-18 (see
/// [`scaled_decimal`]).
pub fn parse_scaled(s: &str) -> (r: Option<i128>)
    ensures
        r matches Some(x) ==> scaled_decimal(s@) == Some(x as int),
        r is None ==> scaled_decimal(s@) is None,
{
    let v = chars_of(s);
    if v.len() > 0 && v[0] == '-' {
        assert(v@.skip(1) =~= v@.drop_first());
        proof {
            lemma_unsigned_bound(v@.drop_first());
        }
        match unsigned_scaled_exec(&v, 1) {
            Some(x) => Some(-x),
            None => None,
        }
    } else if v.len() > 0 && v[0] == '+' {
        assert(v@.skip(1) =~= v@.drop_first());
        unsigned_scaled_exec(&v, 1)
    } else {
        assert(v@.skip(0) =~= v@);
        unsigned_scaled_exec(&v, 0)
    }
}

/// A `px` token (`0` or `<number>px`) in units of 10^-18 px.
pub fn px_token_exec(t: &str) -> (r: Option<i128>)
    ensures
        r matches Some(x) ==> px_token(t@) == Some(x as int),
        r is None ==> px_token(t@) is None,
{
    if eq_str(t, "0") {
        return Some(0);
    }
    if !ends_with_str(t, "px") {
        return None;
    }
    let v = chars_of(t);
    let k = chars_of("px").len();
    let num = string_of(&v, 0, v.len() - k);
    assert(num@ =~= t@.take(t@.len() - "px"@.len()));
    parse_scaled(num.as_str())
}

/// Left + right of a padding shorthand in units of 10^-18 px (see
/// [`horizontal_scaled`]).
pub fn horizontal_px(value: &str) -> (r: Option<i128>)
    ensures
        r matches Some(x) ==> horizontal_scaled(value@) == Some(x as int),
        r is None ==> horizontal_scaled(value@) is None,
{
    let normalized = match normalize_padding(value) {
        Ok(n) => n,
        Err(_) => {
            return None;
        },
    };
    if normalized.as_str().is_empty() {
        return None;
    }
    let parts = words_exec(normalized.as_str(), false);
    let n = parts.len();
    if n == 1 {
        match px_token_exec(parts[0].as_str()) {
            Some(x) => {
                proof {
                    lemma_px_bound(parts@[0]@);
                }
                Some(2 * x)
            },
            None => None,
        }
    } else if n == 2 || n == 3 {
        match px_token_exec(parts[1].as_str()) {
            Some(x) => {
                proof {
                    lemma_px_bound(parts@[1]@);
                }
                Some(2 * x)
            },
            None => None,
        }
    } else if n == 4 {
        match (px_token_exec(parts[1].as_str()), px_token_exec(parts[3].as_str())) {
            (Some(a), Some(b)) => {
                proof {
                    lemma_px_bound(parts@[1]@);
                    lemma_px_bound(parts@[3]@);
                }
                Some(a + b)
            },
            _ => None,
        }
    } else {
        None
    }
}

/// Left + right border widths of a CSS border string for all four sides, in
/// units of 10^-18 px (`none`, blank or unreadable widths count 0).
pub fn border_horizontal_px(value: &str) -> (r: i128)
    ensures
        r as int == crate::border::border_horizontal_scaled(value@, Seq::empty()),
{
    crate::border::horizontal_px(value, None)
}

/// What can start a number in a length.
pub open spec fn number_start(c: char) -> bool {
    c == '-' || c == '.' || is_digit(c)
}

proof fn lemma_unit_number_start(u: Seq<char>)
    requires
        is_unit_number(u),
    ensures
        u.len() > 0,
        number_start(u[0]),
        !crate::text::is_ws(u[0]),
        !crate::text::is_sep(u[0], false),
{
    let b = unsigned_part(u);
    if u.len() > 0 && u[0] == '-' {
    } else {
        assert(b == u);
        assert(is_digit(b[0]) || b[0] == '.');
    }
}

proof fn lemma_suffix_number(t: Seq<char>, suf: Seq<char>)
    requires
        ends_with(t, suf),
        is_unit_number(t.take(t.len() - suf.len())),
    ensures
        t.len() > 0,
        number_start(t[0]),
{
    lemma_unit_number_start(t.take(t.len() - suf.len()));
    assert(t.take(t.len() - suf.len())[0] == t[0]);
}

/// A normalized token normalizes to itself, keeps its first character, and
/// gains no white space.
pub proof fn lemma_token_fixed(p: Seq<char>)
    requires
        normalized_token(p) is Some,
    ensures
        normalized_token(normalized_token(p)->0) == normalized_token(p),
        normalized_token(p)->0.len() > 0,
        p.len() > 0 && normalized_token(p)->0[0] == p[0],
        crate::text::no_sep(p, false) ==> crate::text::no_sep(normalized_token(p)->0, false),
        !crate::text::is_ws(normalized_token(p)->0[0]),
        !crate::text::is_ws(normalized_token(p)->0.last()),
        normalized_token(p)->0[0] != 'a',
{
    reveal_strlit("0");
    reveal_strlit("px");
    reveal_strlit("%");
    let n = normalized_token(p)->0;
    if p == "0"@ {
    } else if ends_with(p, "px"@) {
        lemma_suffix_number(p, "px"@);
        assert(p.last() == "px"@[1]);
    } else if ends_with(p, "%"@) {
        lemma_suffix_number(p, "%"@);
        assert(p.last() == "%"@[0]);
    } else {
        lemma_unit_number_start(p);
        assert(n == p + "px"@);
        assert(n.len() == p.len() + 2);
        assert(n != "0"@);
        assert(n.subrange(n.len() - 2, n.len() as int) =~= "px"@);
        assert(ends_with(n, "px"@));
        assert(n.take(n.len() - "px"@.len()) =~= p);
        assert(n[0] == p[0]);
        assert(n.last() == 'x');
        if crate::text::no_sep(p, false) {
            assert forall|i: int| 0 <= i < n.len() implies !crate::text::is_sep(#[trigger] n[i], false) by {
                if i < p.len() {
                    assert(n[i] == p[i]);
                } else {
                    assert(n[i] == "px"@[i - p.len()]);
                }
            }
        }
    }
}

/// Normalized parts normalize to themselves.
proof fn lemma_parts_fixed(parts: Seq<Seq<char>>)
    requires
        normalized_parts(parts) is Some,
        crate::text::clean_words(parts, false),
    ensures
        normalized_parts(normalized_parts(parts)->0) == normalized_parts(parts),
        normalized_parts(parts)->0.len() == parts.len(),
        crate::text::clean_words(normalized_parts(parts)->0, false),
    decreases parts.len(),
{
    if parts.len() > 0 {
        let init = parts.drop_last();
        assert forall|i: int| 0 <= i < init.len() implies (#[trigger] init[i]).len() > 0
            && crate::text::no_sep(init[i], false) by {
            assert(init[i] == parts[i]);
        }
        lemma_parts_fixed(init);
        let done = normalized_parts(init)->0;
        let p = parts.last();
        assert(p.len() > 0);
        lemma_token_fixed(p);
        let n = normalized_token(p)->0;
        let ns = done.push(n);
        assert(ns.drop_last() =~= done);
        assert(ns.last() == n);
        assert(n[0] == p[0]);
        assert forall|i: int| 0 <= i < ns.len() implies (#[trigger] ns[i]).len() > 0
            && crate::text::no_sep(ns[i], false) by {
            if i < done.len() {
                assert(ns[i] == done[i]);
            }
        }
    }
}

/// A padding value that was normalized normalizes to itself: what a form
/// saves passes the padding rule again, unchanged.
pub proof fn law_padding_normalized_once(v: Seq<char>)
    ensures
        normalized_padding(v) matches Some(n) ==> normalized_padding(n) == Some(n),
{
    let t = trim(v);
    if t.len() == 0 {
        assert(trim(Seq::<char>::empty()) =~= Seq::<char>::empty());
    } else if normalized_padding(v) is Some {
        let parts = crate::text::words(t, false);
        crate::text::lemma_words_scan_clean(t, false);
        lemma_parts_fixed(parts);
        let ns = normalized_parts(parts)->0;
        let n = join(ns, " "@);
        crate::text::lemma_join_ends(ns, " "@);
        assert(ns[0].len() > 0 && crate::text::no_sep(ns[0], false));
        assert(ns.last().len() > 0 && crate::text::no_sep(ns.last(), false));
        assert(!crate::text::is_sep(ns[0][0], false));
        assert(!crate::text::is_sep(ns.last().last(), false));
        crate::text::lemma_trim_fixed(n);
        crate::text::lemma_words_of_join(ns);
    }
}

/// A normalized padding token: `0`, or ending in `px` or `%`; never
/// starting with `-`.
pub open spec fn padding_token_ok(t: Seq<char>) -> bool {
    &&& t.len() > 0
    &&& t[0] != '-'
    &&& t == "0"@ || ends_with(t, "px"@) || ends_with(t, "%"@)
}

proof fn lemma_parts_ok(parts: Seq<Seq<char>>)
    requires
        normalized_parts(parts) is Some,
    ensures
        normalized_parts(parts)->0.len() == parts.len(),
        forall|i: int| 0 <= i < parts.len() ==> padding_token_ok(#[trigger] normalized_parts(parts)->0[i]),
    decreases parts.len(),
{
    reveal_strlit("0");
    reveal_strlit("px");
    reveal_strlit("%");
    if parts.len() > 0 {
        let init = parts.drop_last();
        lemma_parts_ok(init);
        let done = normalized_parts(init)->0;
        let p = parts.last();
        lemma_token_fixed(p);
        let n = normalized_token(p)->0;
        let ns = done.push(n);
        if !(p == "0"@ || ends_with(p, "px"@) || ends_with(p, "%"@)) {
            assert(n == p + "px"@);
            assert(n.subrange(n.len() - 2, n.len() as int) =~= "px"@);
        }
        assert forall|i: int| 0 <= i < ns.len() implies padding_token_ok(#[trigger] ns[i]) by {
            if i < done.len() {
                assert(ns[i] == done[i]);
            }
        }
    }
}

/// What padding normalization gives: blank exactly for blank input;
/// otherwise as many space-separated tokens as the input had words (one to
/// four), each `0` or ending in `px` or `%`, none negative.
pub proof fn law_padding_shape(v: Seq<char>)
    ensures
        normalized_padding(v) matches Some(n) ==> {
            &&& (n.len() == 0 <==> trim(v).len() == 0)
            &&& n.len() > 0 ==> {
                let toks = crate::text::words(n, false);
                &&& toks.len() == crate::text::words(trim(v), false).len()
                &&& 1 <= toks.len() <= 4
                &&& forall|i: int| 0 <= i < toks.len() ==> padding_token_ok(#[trigger] toks[i])
            }
        },
{
    let t = trim(v);
    if t.len() > 0 && normalized_padding(v) is Some {
        let parts = crate::text::words(t, false);
        crate::text::lemma_words_scan_clean(t, false);
        lemma_parts_fixed(parts);
        lemma_parts_ok(parts);
        let ns = normalized_parts(parts)->0;
        crate::text::lemma_join_ends(ns, " "@);
        crate::text::lemma_words_of_join(ns);
    }
}

/// A length value that was normalized normalizes to itself.
pub proof fn law_unit_normalized_once(v: Seq<char>)
    ensures
        normalized_unit(v) matches Some(n) ==> normalized_unit(n) == Some(n),
{
    let t = trim(v);
    reveal_strlit("auto");
    if t.len() == 0 {
        assert(trim(Seq::<char>::empty()) =~= Seq::<char>::empty());
    } else if lower(t) == lower("auto"@) {
        crate::text::lemma_trim_fixed("auto"@);
    } else if normalized_token(t) is Some {
        lemma_token_fixed(t);
        let n = normalized_token(t)->0;
        crate::text::lemma_trim_fixed(n);
        assert(lower(n)[0] == crate::text::lower_char(n[0]));
        assert(lower("auto"@)[0] == 'a');
        assert(lower(n) != lower("auto"@));
    }
}

} // verus!

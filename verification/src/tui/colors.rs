//! Theme colors written as hex (`#RRGGBB` or `#RGB`), and the header's
//! taglines.
use vstd::prelude::*;

use crate::text::{cat3, chars_of, owned, push_char, strip_all_start, strip_start_char, trim, trim_str};

verus! {

pub open spec fn is_hex_digit(c: char) -> bool {
    ('0' <= c && c <= '9') || ('a' <= c && c <= 'f') || ('A' <= c && c <= 'F')
}

pub open spec fn hex_value(c: char) -> nat {
    if '0' <= c && c <= '9' {
        (c as nat - 48) as nat
    } else if 'a' <= c && c <= 'f' {
        (c as nat - 87) as nat
    } else {
        (c as nat - 55) as nat
    }
}

pub open spec fn all_hex(s: Seq<char>) -> bool {
    forall|i: int| 0 <= i < s.len() ==> is_hex_digit(#[trigger] s[i])
}

/// The six digits of a color: three digits each doubled, or six digits.
pub open spec fn expanded_hex(h: Seq<char>) -> Option<Seq<char>> {
    if h.len() == 3 && all_hex(h) {
        Some(seq![h[0], h[0], h[1], h[1], h[2], h[2]])
    } else if h.len() == 6 && all_hex(h) {
        Some(h)
    } else {
        None
    }
}

/// The byte written by digits `i` and `i + 1`.
pub open spec fn hex_pair(e: Seq<char>, i: int) -> nat {
    hex_value(e[i]) * 16 + hex_value(e[i + 1])
}

/// A color read from `raw`: trimmed, leading `#` dropped, then `RGB` or
/// `RRGGBB` in hex digits of either case.
pub open spec fn hex_color(raw: Seq<char>) -> Result<(u8, u8, u8), Seq<char>> {
    match expanded_hex(strip_all_start(trim(raw), '#')) {
        Some(e) => Ok((hex_pair(e, 0) as u8, hex_pair(e, 2) as u8, hex_pair(e, 4) as u8)),
        None => Err("expected hex color like '#RRGGBB', got '"@ + raw + "'"@),
    }
}

fn is_hex_exec(c: char) -> (r: bool)
    ensures
        r == is_hex_digit(c),
{
    ('0' <= c && c <= '9') || ('a' <= c && c <= 'f') || ('A' <= c && c <= 'F')
}

fn hex_value_exec(c: char) -> (r: u8)
    requires
        is_hex_digit(c),
    ensures
        r as nat == hex_value(c),
        r < 16,
{
    if '0' <= c && c <= '9' {
        (c as u32 - 48) as u8
    } else if 'a' <= c && c <= 'f' {
        (c as u32 - 87) as u8
    } else {
        (c as u32 - 55) as u8
    }
}

fn char_at(v: &Vec<char>, k: usize) -> (c: char)
    requires
        k < v@.len(),
    ensures
        c == v@[k as int],
{
    v[k]
}

/// `parse_hex_color`: a color from hex text (see [`hex_color`]).
pub fn parse_hex_color(raw: &str) -> (r: Result<(u8, u8, u8), String>)
    ensures
        match r {
            Ok(c) => hex_color(raw@) == Ok::<(u8, u8, u8), Seq<char>>(c),
            Err(e) => hex_color(raw@) == Err::<(u8, u8, u8), Seq<char>>(e@),
        },
{
    let t = trim_str(raw);
    let hex = strip_start_char(t.as_str(), '#');
    let h = chars_of(hex.as_str());
    let mut all = true;
    let mut i: usize = 0;
    while i < h.len()
        invariant
            i <= h@.len(),
            all == (forall|j: int| 0 <= j < i ==> is_hex_digit(#[trigger] h@[j])),
        decreases h@.len() - i,
    {
        if !is_hex_exec(char_at(&h, i)) {
            all = false;
        }
        i += 1;
    }
    let e: Vec<char> = if all && h.len() == 3 {
        let a = char_at(&h, 0);
        let b = char_at(&h, 1);
        let c = char_at(&h, 2);
        let v = vec![a, a, b, b, c, c];
        assert(v@ =~= seq![h@[0], h@[0], h@[1], h@[1], h@[2], h@[2]]);
        v
    } else if all && h.len() == 6 {
        h
    } else {
        return Err(cat3("expected hex color like '#RRGGBB', got '", raw, "'"));
    };
    assert(all_hex(e@));
    let r0 = hex_value_exec(char_at(&e, 0)) * 16 + hex_value_exec(char_at(&e, 1));
    let g0 = hex_value_exec(char_at(&e, 2)) * 16 + hex_value_exec(char_at(&e, 3));
    let b0 = hex_value_exec(char_at(&e, 4)) * 16 + hex_value_exec(char_at(&e, 5));
    Ok((r0, g0, b0))
}

pub open spec fn upper_digit(d: nat) -> char {
    if d < 10 {
        (48 + d) as char
    } else {
        (55 + d) as char
    }
}

/// `#RRGGBB` in upper-case hex.
pub open spec fn hex_text(r: u8, g: u8, b: u8) -> Seq<char> {
    seq![
        '#',
        upper_digit(r as nat / 16),
        upper_digit(r as nat % 16),
        upper_digit(g as nat / 16),
        upper_digit(g as nat % 16),
        upper_digit(b as nat / 16),
        upper_digit(b as nat % 16),
    ]
}

fn upper_digit_exec(d: u8) -> (c: char)
    requires
        d < 16,
    ensures
        c == upper_digit(d as nat),
{
    if d < 10 {
        ((48 + d) as char)
    } else {
        ((55 + d) as char)
    }
}

/// `color_to_hex` for an RGB color: `#RRGGBB`, upper case.
pub fn color_to_hex(r: u8, g: u8, b: u8) -> (s: String)
    ensures
        s@ == hex_text(r, g, b),
{
    let mut s = owned("#");
    proof {
        reveal_strlit("#");
    }
    push_char(&mut s, upper_digit_exec(r / 16));
    push_char(&mut s, upper_digit_exec(r % 16));
    push_char(&mut s, upper_digit_exec(g / 16));
    push_char(&mut s, upper_digit_exec(g % 16));
    push_char(&mut s, upper_digit_exec(b / 16));
    push_char(&mut s, upper_digit_exec(b % 16));
    assert(s@ =~= hex_text(r, g, b));
    s
}

proof fn lemma_digit_back(d: nat)
    requires
        d < 16,
    ensures
        is_hex_digit(upper_digit(d)),
        hex_value(upper_digit(d)) == d,
{
}

/// A color written as hex reads back as the same color.
pub proof fn law_hex_round_trip(r: u8, g: u8, b: u8)
    ensures
        hex_color(hex_text(r, g, b)) == Ok::<(u8, u8, u8), Seq<char>>((r, g, b)),
{
    let s = hex_text(r, g, b);
    lemma_digit_back(r as nat / 16);
    lemma_digit_back(r as nat % 16);
    lemma_digit_back(g as nat / 16);
    lemma_digit_back(g as nat % 16);
    lemma_digit_back(b as nat / 16);
    lemma_digit_back(b as nat % 16);
    assert(!crate::text::is_ws('#'));
    assert(!crate::text::is_ws(s.last()));
    crate::text::lemma_trim_fixed(s);
    let body = s.drop_first();
    assert(strip_all_start(body, '#') == body) by {
        assert(body[0] != '#');
    }
    assert(strip_all_start(s, '#') == strip_all_start(body, '#'));
    assert(all_hex(body));
    assert(expanded_hex(body) == Some(body));
    assert(hex_pair(body, 0) == r as nat) by {
        assert(r as nat == (r as nat / 16) * 16 + r as nat % 16);
    }
    assert(hex_pair(body, 2) == g as nat) by {
        assert(g as nat == (g as nat / 16) * 16 + g as nat % 16);
    }
    assert(hex_pair(body, 4) == b as nat) by {
        assert(b as nat == (b as nat / 16) * 16 + b as nat % 16);
    }
}

/// The header's built-in taglines.
pub open spec fn builtin_quotes() -> Seq<Seq<char>> {
    seq![
        "Subject lines are just clickbait with better manners."@,
        "Pixel-perfect until Outlook opens it."@,
        "Preheader: the hallway before the party."@,
        "600 pixels wide. Infinite opinions."@,
        "Merge tags in, hope out."@,
    ]
}

/// `default_header_quotes`: the built-in taglines.
pub fn default_header_quotes() -> (r: Vec<String>)
    ensures
        crate::text::views(r@) == builtin_quotes(),
{
    let r = vec![
        owned("Subject lines are just clickbait with better manners."),
        owned("Pixel-perfect until Outlook opens it."),
        owned("Preheader: the hallway before the party."),
        owned("600 pixels wide. Infinite opinions."),
        owned("Merge tags in, hope out."),
    ];
    assert(crate::text::views(r@) =~= builtin_quotes());
    r
}

/// The header's tagline for a seed: the first built-in one when there are
/// no taglines, else the one at `seed` modulo their number.
pub fn pick_header_copy(quotes: &Vec<String>, seed: u64) -> (r: String)
    ensures
        quotes@.len() == 0 ==> r@ == builtin_quotes()[0],
        quotes@.len() > 0 ==> r@ == quotes@[(seed as int) % (quotes@.len() as int)]@,
{
    if quotes.len() == 0 {
        return owned("Subject lines are just clickbait with better manners.");
    }
    let n = quotes.len() as u64;
    let i = (seed % n) as usize;
    owned(quotes[i].as_str())
}

} // verus!

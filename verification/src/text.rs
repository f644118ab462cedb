//! Character-level string helpers with their mathematical meaning.
//!
//! Every operation here is stated over `Seq<char>`, the view of `str` and
//! `String`: trimming Unicode white space, ASCII case folding, searching for a
//! substring, splitting into words and lines.
use vstd::prelude::*;

verus! {

// ---------------------------------------------------------------------------
// Specifications
// ---------------------------------------------------------------------------

/// Unicode `White_Space`, the property behind `char::is_whitespace`.
pub open spec fn is_ws(c: char) -> bool {
    let u = c as u32;
    ||| u == 0x20
    ||| (0x09 <= u && u <= 0x0d)
    ||| u == 0x85
    ||| u == 0xa0
    ||| u == 0x1680
    ||| (0x2000 <= u && u <= 0x200a)
    ||| u == 0x2028
    ||| u == 0x2029
    ||| u == 0x202f
    ||| u == 0x205f
    ||| u == 0x3000
}

/// `s` without its leading white space.
pub open spec fn trim_start(s: Seq<char>) -> Seq<char>
    decreases s.len(),
{
    if s.len() > 0 && is_ws(s[0]) {
        trim_start(s.drop_first())
    } else {
        s
    }
}

/// `s` without its trailing white space.
pub open spec fn trim_end(s: Seq<char>) -> Seq<char>
    decreases s.len(),
{
    if s.len() > 0 && is_ws(s.last()) {
        trim_end(s.drop_last())
    } else {
        s
    }
}

/// `s` without leading and trailing white space (`str::trim`).
pub open spec fn trim(s: Seq<char>) -> Seq<char> {
    trim_end(trim_start(s))
}

/// `s` is empty or white space only.
pub open spec fn is_blank(s: Seq<char>) -> bool {
    trim(s).len() == 0
}

/// ASCII lower case of one character; every other character is kept.
pub open spec fn lower_char(c: char) -> char {
    if 'A' <= c && c <= 'Z' {
        ((c as u32) + 32) as char
    } else {
        c
    }
}

/// ASCII lower case of a string (`str::to_ascii_lowercase`).
pub open spec fn lower(s: Seq<char>) -> Seq<char> {
    s.map_values(|c: char| lower_char(c))
}

/// `needle` occurs in `hay` at position `i`.
pub open spec fn occurs_at(hay: Seq<char>, needle: Seq<char>, i: int) -> bool {
    0 <= i && i + needle.len() <= hay.len() && hay.subrange(i, i + needle.len()) == needle
}

/// The first position at or after `i` where `needle` occurs in `hay`.
pub open spec fn find_from(hay: Seq<char>, needle: Seq<char>, i: int) -> Option<int>
    decreases hay.len() + 1 - i,
{
    if i < 0 || i + needle.len() > hay.len() {
        None
    } else if occurs_at(hay, needle, i) {
        Some(i)
    } else {
        find_from(hay, needle, i + 1)
    }
}

/// `needle` occurs somewhere in `hay` (`str::contains`).
pub open spec fn contains(hay: Seq<char>, needle: Seq<char>) -> bool {
    find_from(hay, needle, 0) is Some
}

/// `needle` occurs in `hay`, ignoring ASCII case.
pub open spec fn contains_ci(hay: Seq<char>, needle: Seq<char>) -> bool {
    contains(lower(hay), lower(needle))
}

/// `s` starts with `p`.
pub open spec fn starts_with(s: Seq<char>, p: Seq<char>) -> bool {
    p.len() <= s.len() && s.take(p.len() as int) == p
}

/// `s` ends with `p`.
pub open spec fn ends_with(s: Seq<char>, p: Seq<char>) -> bool {
    p.len() <= s.len() && s.skip(s.len() - p.len()) == p
}

/// `s` without every leading `c` (`str::trim_start_matches` with one char).
pub open spec fn strip_all_start(s: Seq<char>, c: char) -> Seq<char>
    decreases s.len(),
{
    if s.len() > 0 && s[0] == c {
        strip_all_start(s.drop_first(), c)
    } else {
        s
    }
}

/// `s` without every trailing `c` (`str::trim_end_matches` with one char).
pub open spec fn strip_all_end(s: Seq<char>, c: char) -> Seq<char>
    decreases s.len(),
{
    if s.len() > 0 && s.last() == c {
        strip_all_end(s.drop_last(), c)
    } else {
        s
    }
}

/// The first position at or after `i` where `c` occurs in `s`.
pub open spec fn first_of(s: Seq<char>, c: char, i: int) -> Option<int>
    decreases s.len() - i,
{
    if i < 0 || i >= s.len() {
        None
    } else if s[i] == c {
        Some(i)
    } else {
        first_of(s, c, i + 1)
    }
}

/// Word splitting scanned from the left: the finished words and the word in
/// progress. A character is a separator when it is white space, or a comma
/// when `comma` is set.
pub open spec fn is_sep(c: char, comma: bool) -> bool {
    is_ws(c) || (comma && c == ',')
}

pub open spec fn words_scan(s: Seq<char>, comma: bool) -> (Seq<Seq<char>>, Seq<char>)
    decreases s.len(),
{
    if s.len() == 0 {
        (Seq::empty(), Seq::empty())
    } else {
        let (done, cur) = words_scan(s.drop_last(), comma);
        let c = s.last();
        if is_sep(c, comma) {
            if cur.len() > 0 {
                (done.push(cur), Seq::empty())
            } else {
                (done, cur)
            }
        } else {
            (done, cur.push(c))
        }
    }
}

/// The non-empty maximal runs of non-separator characters of `s`, in order
/// (`str::split_whitespace` when `comma` is false).
pub open spec fn words(s: Seq<char>, comma: bool) -> Seq<Seq<char>> {
    let (done, cur) = words_scan(s, comma);
    if cur.len() > 0 {
        done.push(cur)
    } else {
        done
    }
}

/// Line splitting scanned from the left (`str::lines`): a line ends at `\n`,
/// and a `\r` just before that `\n` is dropped.
pub open spec fn drop_cr(s: Seq<char>) -> Seq<char> {
    if s.len() > 0 && s.last() == '\r' {
        s.drop_last()
    } else {
        s
    }
}

pub open spec fn lines_scan(s: Seq<char>) -> (Seq<Seq<char>>, Seq<char>)
    decreases s.len(),
{
    if s.len() == 0 {
        (Seq::empty(), Seq::empty())
    } else {
        let (done, cur) = lines_scan(s.drop_last());
        let c = s.last();
        if c == '\n' {
            (done.push(drop_cr(cur)), Seq::empty())
        } else {
            (done, cur.push(c))
        }
    }
}

/// The lines of `s`; a final line without `\n` counts when it is not empty.
pub open spec fn lines(s: Seq<char>) -> Seq<Seq<char>> {
    let (done, cur) = lines_scan(s);
    if cur.len() > 0 {
        done.push(cur)
    } else {
        done
    }
}

/// The items of `parts` joined by `sep`.
pub open spec fn join(parts: Seq<Seq<char>>, sep: Seq<char>) -> Seq<char>
    decreases parts.len(),
{
    if parts.len() == 0 {
        Seq::empty()
    } else if parts.len() == 1 {
        parts[0]
    } else {
        join(parts.drop_last(), sep) + sep + parts.last()
    }
}

/// Decimal digits of a natural number, without leading zeros.
pub open spec fn digit_char(d: nat) -> char {
    (48 + (d % 10)) as char
}

pub open spec fn decimal(n: nat) -> Seq<char>
    decreases n,
{
    if n < 10 {
        seq![digit_char(n)]
    } else {
        decimal(n / 10).push(digit_char(n % 10))
    }
}

/// The views of a sequence of strings.
pub open spec fn views(v: Seq<String>) -> Seq<Seq<char>> {
    v.map_values(|s: String| s@)
}

// ---------------------------------------------------------------------------
// Lemmas
// ---------------------------------------------------------------------------

pub proof fn lemma_trim_start_skip(s: Seq<char>, i: int)
    requires
        0 <= i <= s.len(),
        forall|k: int| 0 <= k < i ==> is_ws(#[trigger] s[k]),
    ensures
        trim_start(s) == trim_start(s.skip(i)),
    decreases i,
{
    if i > 0 {
        lemma_trim_start_skip(s, i - 1);
        assert(s.skip(i - 1).drop_first() =~= s.skip(i));
    } else {
        assert(s.skip(0) =~= s);
    }
}

pub proof fn lemma_trim_end_take(s: Seq<char>, j: int)
    requires
        0 <= j <= s.len(),
        forall|k: int| j <= k < s.len() ==> is_ws(#[trigger] s[k]),
    ensures
        trim_end(s) == trim_end(s.take(j)),
    decreases s.len() - j,
{
    if j < s.len() {
        lemma_trim_end_take(s, j + 1);
        assert(s.take(j + 1).drop_last() =~= s.take(j));
    } else {
        assert(s.take(j) =~= s);
    }
}

/// `trim_start(s)` is a suffix of `s` that is empty or starts with a
/// character that is not white space.
pub proof fn lemma_trim_start_from(s: Seq<char>) -> (k: int)
    ensures
        0 <= k <= s.len(),
        trim_start(s) == s.skip(k),
        trim_start(s).len() == 0 || !is_ws(trim_start(s)[0]),
    decreases s.len(),
{
    if s.len() > 0 && is_ws(s[0]) {
        let k = lemma_trim_start_from(s.drop_first());
        assert(s.drop_first().skip(k) =~= s.skip(k + 1));
        k + 1
    } else {
        assert(s.skip(0) =~= s);
        0
    }
}

/// `trim_end(s)` is a prefix of `s` that is empty or ends with a character
/// that is not white space.
pub proof fn lemma_trim_end_to(s: Seq<char>) -> (k: int)
    ensures
        0 <= k <= s.len(),
        trim_end(s) == s.take(k),
        trim_end(s).len() == 0 || !is_ws(trim_end(s).last()),
    decreases s.len(),
{
    if s.len() > 0 && is_ws(s.last()) {
        let k = lemma_trim_end_to(s.drop_last());
        assert(s.drop_last().take(k) =~= s.take(k));
        k
    } else {
        assert(s.take(s.len() as int) =~= s);
        s.len() as int
    }
}

/// Trimming twice is trimming once.
pub proof fn lemma_trim_idempotent(s: Seq<char>)
    ensures
        trim(trim(s)) == trim(s),
{
    let y = trim_start(s);
    lemma_trim_start_from(s);
    let k = lemma_trim_end_to(y);
    let z = trim_end(y);
    if z.len() > 0 {
        assert(z[0] == y[0]);
    }
    assert(trim_start(z) == z);
}

/// No separator in `w`.
pub open spec fn no_sep(w: Seq<char>, comma: bool) -> bool {
    forall|i: int| 0 <= i < w.len() ==> !is_sep(#[trigger] w[i], comma)
}

/// Every word is a non-empty run without separators.
pub open spec fn clean_words(ws: Seq<Seq<char>>, comma: bool) -> bool {
    forall|i: int| 0 <= i < ws.len() ==> (#[trigger] ws[i]).len() > 0 && no_sep(ws[i], comma)
}

pub proof fn lemma_words_scan_clean(s: Seq<char>, comma: bool)
    ensures
        clean_words(words_scan(s, comma).0, comma),
        no_sep(words_scan(s, comma).1, comma),
        clean_words(words(s, comma), comma),
    decreases s.len(),
{
    if s.len() > 0 {
        lemma_words_scan_clean(s.drop_last(), comma);
        let (done, cur) = words_scan(s.drop_last(), comma);
        if !is_sep(s.last(), comma) {
            assert forall|i: int| 0 <= i < cur.push(s.last()).len() implies !is_sep(
                #[trigger] cur.push(s.last())[i],
                comma,
            ) by {
                if i < cur.len() {
                    assert(cur.push(s.last())[i] == cur[i]);
                }
            }
        }
    }
}

/// A run without separators extends the word being read.
pub proof fn lemma_words_scan_run(x: Seq<char>, w: Seq<char>, comma: bool)
    requires
        no_sep(w, comma),
    ensures
        words_scan(x + w, comma) == (words_scan(x, comma).0, words_scan(x, comma).1 + w),
    decreases w.len(),
{
    if w.len() == 0 {
        assert(x + w =~= x);
        assert(words_scan(x, comma).1 + w =~= words_scan(x, comma).1);
    } else {
        lemma_words_scan_run(x, w.drop_last(), comma);
        assert((x + w).drop_last() =~= x + w.drop_last());
        assert((x + w).last() == w.last());
        assert((words_scan(x, comma).1 + w.drop_last()).push(w.last()) =~= words_scan(x, comma).1 + w);
    }
}

/// Words joined by single spaces read back as the same words.
pub proof fn lemma_words_of_join(ns: Seq<Seq<char>>)
    requires
        ns.len() > 0,
        clean_words(ns, false),
    ensures
        words_scan(join(ns, " "@), false) == (ns.drop_last(), ns.last()),
        words(join(ns, " "@), false) == ns,
    decreases ns.len(),
{
    reveal_strlit(" ");
    assert(ns[ns.len() - 1].len() > 0);
    if ns.len() == 1 {
        let e = Seq::<char>::empty();
        lemma_words_scan_run(e, ns[0], false);
        assert(e + ns[0] =~= ns[0]);
        assert(words_scan(e, false) == (Seq::<Seq<char>>::empty(), e));
        assert(join(ns, " "@) == ns[0]);
        assert(words_scan(ns[0], false) == (Seq::<Seq<char>>::empty(), ns[0]));
        assert(ns.drop_last() =~= Seq::<Seq<char>>::empty());
    } else {
        let init = ns.drop_last();
        assert forall|i: int| 0 <= i < init.len() implies (#[trigger] init[i]).len() > 0 && no_sep(
            init[i],
            false,
        ) by {
            assert(init[i] == ns[i]);
        }
        lemma_words_of_join(init);
        let j = join(init, " "@);
        let js = j + " "@;
        assert(is_sep(' ', false));
        assert(js.drop_last() =~= j);
        assert(js.last() == ' ');
        assert(init.last().len() > 0);
        assert(init.drop_last().push(init.last()) =~= init);
        assert(words_scan(js, false) == (init, Seq::<char>::empty()));
        lemma_words_scan_run(js, ns.last(), false);
        assert(Seq::<char>::empty() + ns.last() =~= ns.last());
        assert(join(ns, " "@) == js + ns.last());
        assert(words_scan(join(ns, " "@), false) == (init, ns.last()));
    }
    assert(ns.drop_last().push(ns.last()) =~= ns);
}

/// The first and last characters of words joined by spaces.
pub proof fn lemma_join_ends(ns: Seq<Seq<char>>, sep: Seq<char>)
    requires
        ns.len() > 0,
        forall|i: int| 0 <= i < ns.len() ==> (#[trigger] ns[i]).len() > 0,
    ensures
        join(ns, sep).len() > 0,
        join(ns, sep)[0] == ns[0][0],
        join(ns, sep).last() == ns.last().last(),
    decreases ns.len(),
{
    if ns.len() > 1 {
        let init = ns.drop_last();
        assert forall|i: int| 0 <= i < init.len() implies (#[trigger] init[i]).len() > 0 by {
            assert(init[i] == ns[i]);
        }
        lemma_join_ends(init, sep);
        assert(ns.last().len() > 0);
    }
}

/// A string that starts and ends with non-white-space is its own trim.
pub proof fn lemma_trim_fixed(x: Seq<char>)
    requires
        x.len() > 0,
        !is_ws(x[0]),
        !is_ws(x.last()),
    ensures
        trim(x) == x,
{
    assert(trim_start(x) == x);
}

pub proof fn lemma_find_from_none(hay: Seq<char>, needle: Seq<char>, i: int)
    requires
        0 <= i,
        forall|k: int| i <= k ==> !occurs_at(hay, needle, k),
    ensures
        find_from(hay, needle, i) is None,
    decreases hay.len() + 1 - i,
{
    if i + needle.len() <= hay.len() {
        lemma_find_from_none(hay, needle, i + 1);
    }
}

pub proof fn lemma_find_from_skip(hay: Seq<char>, needle: Seq<char>, i: int, j: int)
    requires
        0 <= i <= j,
        forall|k: int| i <= k < j ==> !occurs_at(hay, needle, k),
    ensures
        find_from(hay, needle, i) == find_from(hay, needle, j),
    decreases j - i,
{
    if i < j {
        lemma_find_from_skip(hay, needle, i + 1, j);
    }
}

pub proof fn lemma_find_from_is_first(hay: Seq<char>, needle: Seq<char>, i: int)
    requires
        0 <= i,
    ensures
        find_from(hay, needle, i) matches Some(p) ==> (i <= p && occurs_at(hay, needle, p)
            && forall|k: int| i <= k < p ==> !occurs_at(hay, needle, k)),
        find_from(hay, needle, i) is None ==> forall|k: int|
            i <= k ==> !occurs_at(hay, needle, k),
    decreases hay.len() + 1 - i,
{
    if i + needle.len() <= hay.len() {
        lemma_find_from_is_first(hay, needle, i + 1);
    }
}

pub proof fn lemma_strip_start_skip(s: Seq<char>, c: char, i: int)
    requires
        0 <= i <= s.len(),
        forall|k: int| 0 <= k < i ==> #[trigger] s[k] == c,
    ensures
        strip_all_start(s, c) == strip_all_start(s.skip(i), c),
    decreases i,
{
    if i > 0 {
        lemma_strip_start_skip(s, c, i - 1);
        assert(s.skip(i - 1).drop_first() =~= s.skip(i));
    } else {
        assert(s.skip(0) =~= s);
    }
}

pub proof fn lemma_strip_end_take(s: Seq<char>, c: char, j: int)
    requires
        0 <= j <= s.len(),
        forall|k: int| j <= k < s.len() ==> #[trigger] s[k] == c,
    ensures
        strip_all_end(s, c) == strip_all_end(s.take(j), c),
    decreases s.len() - j,
{
    if j < s.len() {
        lemma_strip_end_take(s, c, j + 1);
        assert(s.take(j + 1).drop_last() =~= s.take(j));
    } else {
        assert(s.take(j) =~= s);
    }
}

pub proof fn lemma_first_of(s: Seq<char>, c: char, i: int)
    requires
        0 <= i,
    ensures
        first_of(s, c, i) matches Some(k) ==> i <= k < s.len() && s[k] == c && forall|j: int|
            i <= j < k ==> s[j] != c,
        first_of(s, c, i) is None ==> forall|j: int| i <= j < s.len() ==> s[j] != c,
    decreases s.len() - i,
{
    if i < s.len() {
        lemma_first_of(s, c, i + 1);
    }
}

pub proof fn lemma_trim_start_len(s: Seq<char>)
    ensures
        trim_start(s).len() <= s.len(),
    decreases s.len(),
{
    if s.len() > 0 && is_ws(s[0]) {
        lemma_trim_start_len(s.drop_first());
    }
}

pub proof fn lemma_join_push(parts: Seq<Seq<char>>, sep: Seq<char>, p: Seq<char>)
    ensures
        join(parts.push(p), sep) == if parts.len() == 0 {
            p
        } else {
            join(parts, sep) + sep + p
        },
{
    assert(parts.push(p).drop_last() =~= parts);
}

// ---------------------------------------------------------------------------
// Executable helpers
// ---------------------------------------------------------------------------

/// Appends one character to a string.
#[verifier::external_body]
pub(crate) fn push_char(s: &mut String, c: char)
    ensures
        final(s)@ == old(s)@.push(c),
{
    s.push(c);
}

/// Appends a string slice to a string.
pub(crate) fn push_str(s: &mut String, t: &str)
    ensures
        final(s)@ == old(s)@ + t@,
{
    s.append(t);
}

/// An owned copy of a string slice.
pub fn owned(s: &str) -> (r: String)
    ensures
        r@ == s@,
{
    s.to_owned()
}

/// The characters of a string slice, in order.
pub fn chars_of(s: &str) -> (v: Vec<char>)
    ensures
        v@ == s@,
{
    let mut v: Vec<char> = Vec::new();
    for c in it: s.chars()
        invariant
            v@ == it.seq().take(it.index() as int),
    {
        v.push(c);
    }
    v
}

/// The string made of `v[a..b]`.
pub fn string_of(v: &Vec<char>, a: usize, b: usize) -> (r: String)
    requires
        a <= b <= v.len(),
    ensures
        r@ == v@.subrange(a as int, b as int),
{
    let mut r = String::new();
    let mut i = a;
    while i < b
        invariant
            a <= i <= b <= v.len(),
            r@ == v@.subrange(a as int, i as int),
        decreases b - i,
    {
        push_char(&mut r, v[i]);
        assert(v@.subrange(a as int, i + 1) =~= v@.subrange(a as int, i as int).push(v@[i as int]));
        i += 1;
    }
    r
}

/// `char::is_whitespace`.
pub fn is_ws_char(c: char) -> (r: bool)
    ensures
        r == is_ws(c),
{
    let u = c as u32;
    u == 0x20 || (0x09 <= u && u <= 0x0d) || u == 0x85 || u == 0xa0 || u == 0x1680 || (0x2000
        <= u && u <= 0x200a) || u == 0x2028 || u == 0x2029 || u == 0x202f || u == 0x205f || u
        == 0x3000
}

/// ASCII lower case of one character.
pub fn lower_char_exec(c: char) -> (r: char)
    ensures
        r == lower_char(c),
{
    if 'A' <= c && c <= 'Z' {
        let b = c as u8;
        assert(65 <= b <= 90);
        ((b + 32) as char)
    } else {
        c
    }
}

/// Bounds `a..b` of the trimmed part of `v`.
pub fn trim_bounds(v: &Vec<char>) -> (r: (usize, usize))
    ensures
        r.0 <= r.1 <= v.len(),
        v@.subrange(r.0 as int, r.1 as int) == trim(v@),
{
    let n = v.len();
    let mut a: usize = 0;
    while a < n && is_ws_char(v[a])
        invariant
            a <= n == v.len(),
            forall|k: int| 0 <= k < a ==> is_ws(#[trigger] v@[k]),
        decreases n - a,
    {
        a += 1;
    }
    proof {
        lemma_trim_start_skip(v@, a as int);
    }
    let mut b: usize = n;
    while b > a && is_ws_char(v[b - 1])
        invariant
            a <= b <= n == v.len(),
            forall|k: int| b <= k < n ==> is_ws(#[trigger] v@[k]),
        decreases b,
    {
        b -= 1;
    }
    proof {
        let s = v@.skip(a as int);
        assert(trim_start(s) == s);
        assert forall|k: int| (b - a) <= k < s.len() implies is_ws(#[trigger] s[k]) by {
            assert(s[k] == v@[k + a]);
        }
        lemma_trim_end_take(s, b - a);
        let t = s.take(b - a);
        assert(t =~= v@.subrange(a as int, b as int));
        if t.len() > 0 {
            assert(t.last() == v@[b - 1]);
        }
        assert(trim_end(t) == t);
    }
    (a, b)
}

/// `str::trim` into a new string.
pub fn trim_str(s: &str) -> (r: String)
    ensures
        r@ == trim(s@),
{
    let v = chars_of(s);
    let (a, b) = trim_bounds(&v);
    string_of(&v, a, b)
}

/// `s.trim().is_empty()`.
pub fn blank(s: &str) -> (r: bool)
    ensures
        r == is_blank(s@),
{
    let v = chars_of(s);
    let (a, b) = trim_bounds(&v);
    a == b
}

/// ASCII lower case of a character vector.
pub fn lower_vec(v: &Vec<char>) -> (r: Vec<char>)
    ensures
        r@ == lower(v@),
{
    let mut r: Vec<char> = Vec::new();
    let mut i: usize = 0;
    while i < v.len()
        invariant
            i <= v.len(),
            r@ == lower(v@.take(i as int)),
        decreases v.len() - i,
    {
        let c = lower_char_exec(v[i]);
        r.push(c);
        i += 1;
        assert(lower(v@.take(i as int)) =~= lower(v@.take(i - 1)).push(lower_char(v@[i - 1])));
    }
    assert(v@.take(v.len() as int) =~= v@);
    r
}

/// `str::to_ascii_lowercase`.
pub fn lower_str(s: &str) -> (r: String)
    ensures
        r@ == lower(s@),
{
    let v = lower_vec(&chars_of(s));
    string_of(&v, 0, v.len())
}

/// `hay[i..]` starts with `needle`.
pub fn occurs_at_exec(hay: &Vec<char>, needle: &Vec<char>, i: usize) -> (r: bool)
    ensures
        r == occurs_at(hay@, needle@, i as int),
{
    if i > hay.len() || needle.len() > hay.len() - i {
        return false;
    }
    let mut k: usize = 0;
    while k < needle.len()
        invariant
            i + needle.len() <= hay.len(),
            k <= needle.len(),
            forall|m: int| 0 <= m < k ==> hay@[i + m] == needle@[m],
        decreases needle.len() - k,
    {
        if hay[i + k] != needle[k] {
            assert(hay@.subrange(i as int, i + needle.len())[k as int] != needle@[k as int]);
            return false;
        }
        k += 1;
    }
    assert(hay@.subrange(i as int, i + needle.len()) =~= needle@);
    true
}

/// The first position at or after `start` where `needle` occurs in `hay`.
pub fn find_from_exec(hay: &Vec<char>, needle: &Vec<char>, start: usize) -> (r: Option<usize>)
    ensures
        r matches Some(p) ==> find_from(hay@, needle@, start as int) == Some(p as int),
        r is None ==> find_from(hay@, needle@, start as int) is None,
{
    let mut i = start;
    while i < hay.len()
        invariant
            start <= i,
            forall|k: int| start <= k < i ==> !occurs_at(hay@, needle@, k),
        decreases hay.len() - i,
    {
        if occurs_at_exec(hay, needle, i) {
            proof {
                lemma_find_from_skip(hay@, needle@, start as int, i as int);
            }
            return Some(i);
        }
        i += 1;
    }
    if i == hay.len() && occurs_at_exec(hay, needle, i) {
        proof {
            lemma_find_from_skip(hay@, needle@, start as int, i as int);
        }
        return Some(i);
    }
    proof {
        assert forall|k: int| i <= k implies !occurs_at(hay@, needle@, k) by {
            if k > i || i > hay.len() {
            }
        }
        lemma_find_from_skip(hay@, needle@, start as int, i as int);
        lemma_find_from_none(hay@, needle@, i as int);
    }
    None
}

/// `hay.contains(needle)`.
pub fn contains_str(hay: &str, needle: &str) -> (r: bool)
    ensures
        r == contains(hay@, needle@),
{
    find_from_exec(&chars_of(hay), &chars_of(needle), 0).is_some()
}

/// `hay.to_ascii_lowercase().contains(&needle.to_ascii_lowercase())`.
pub fn contains_ci_str(hay: &str, needle: &str) -> (r: bool)
    ensures
        r == contains_ci(hay@, needle@),
{
    let h = lower_vec(&chars_of(hay));
    let n = lower_vec(&chars_of(needle));
    find_from_exec(&h, &n, 0).is_some()
}

/// `s.starts_with(p)`.
pub fn starts_with_str(s: &str, p: &str) -> (r: bool)
    ensures
        r == starts_with(s@, p@),
{
    let sv = chars_of(s);
    let pv = chars_of(p);
    let r = occurs_at_exec(&sv, &pv, 0);
    proof {
        if r {
            assert(sv@.take(pv@.len() as int) =~= sv@.subrange(0, pv@.len() as int));
        } else if pv@.len() <= sv@.len() {
            assert(sv@.take(pv@.len() as int) =~= sv@.subrange(0, pv@.len() as int));
        }
    }
    r
}

/// `s.ends_with(p)`.
pub fn ends_with_str(s: &str, p: &str) -> (r: bool)
    ensures
        r == ends_with(s@, p@),
{
    let sv = chars_of(s);
    let pv = chars_of(p);
    if pv.len() > sv.len() {
        return false;
    }
    let r = occurs_at_exec(&sv, &pv, sv.len() - pv.len());
    proof {
        assert(sv@.skip(sv@.len() - pv@.len()) =~= sv@.subrange(
            sv@.len() - pv@.len(),
            sv@.len() as int,
        ));
    }
    r
}

/// `a == b` on string slices.
pub fn eq_str(a: &str, b: &str) -> (r: bool)
    ensures
        r == (a@ == b@),
{
    let av = chars_of(a);
    let bv = chars_of(b);
    if av.len() != bv.len() {
        return false;
    }
    let r = occurs_at_exec(&av, &bv, 0);
    proof {
        if r {
            assert(av@ =~= av@.subrange(0, bv@.len() as int));
        } else {
            assert(av@ =~= av@.subrange(0, bv@.len() as int));
        }
    }
    r
}

/// `a.eq_ignore_ascii_case(b)`.
pub fn eq_ignore_case(a: &str, b: &str) -> (r: bool)
    ensures
        r == (lower(a@) == lower(b@)),
{
    let av = lower_vec(&chars_of(a));
    let bv = lower_vec(&chars_of(b));
    if av.len() != bv.len() {
        assert(lower(a@).len() != lower(b@).len());
        return false;
    }
    let r = occurs_at_exec(&av, &bv, 0);
    proof {
        assert(av@ =~= av@.subrange(0, bv@.len() as int));
    }
    r
}

/// The words of `s` (see [`words`]).
pub fn words_exec(s: &str, comma: bool) -> (r: Vec<String>)
    ensures
        views(r@) == words(s@, comma),
{
    let v = chars_of(s);
    let mut done: Vec<String> = Vec::new();
    let mut cur = String::new();
    let mut i: usize = 0;
    while i < v.len()
        invariant
            i <= v.len(),
            v@ == s@,
            (views(done@), cur@) == words_scan(v@.take(i as int), comma),
        decreases v.len() - i,
    {
        let c = v[i];
        proof {
            assert(v@.take(i + 1).drop_last() =~= v@.take(i as int));
        }
        if is_ws_char(c) || (comma && c == ',') {
            if !cur.as_str().is_empty() {
                let w = cur;
                done.push(w);
                cur = String::new();
                assert(views(done@) =~= words_scan(v@.take(i + 1), comma).0);
            }
        } else {
            push_char(&mut cur, c);
        }
        i += 1;
    }
    assert(v@.take(v.len() as int) =~= v@);
    if !cur.as_str().is_empty() {
        done.push(cur);
        assert(views(done@) =~= words(s@, comma));
    }
    done
}

/// The lines of `s` (see [`lines`]).
pub fn lines_exec(s: &str) -> (r: Vec<String>)
    ensures
        views(r@) == lines(s@),
{
    let v = chars_of(s);
    let mut done: Vec<String> = Vec::new();
    let mut cur: Vec<char> = Vec::new();
    let mut i: usize = 0;
    while i < v.len()
        invariant
            i <= v.len(),
            v@ == s@,
            (views(done@), cur@) == lines_scan(v@.take(i as int)),
        decreases v.len() - i,
    {
        let c = v[i];
        proof {
            assert(v@.take(i + 1).drop_last() =~= v@.take(i as int));
        }
        if c == '\n' {
            let n = cur.len();
            let line = if n > 0 && cur[n - 1] == '\r' {
                string_of(&cur, 0, n - 1)
            } else {
                string_of(&cur, 0, n)
            };
            proof {
                assert(cur@.subrange(0, n as int) =~= cur@);
                if n > 0 {
                    assert(cur@.subrange(0, n - 1) =~= cur@.drop_last());
                }
            }
            done.push(line);
            cur = Vec::new();
            assert(views(done@) =~= lines_scan(v@.take(i + 1)).0);
        } else {
            cur.push(c);
        }
        i += 1;
    }
    assert(v@.take(v.len() as int) =~= v@);
    if cur.len() > 0 {
        let line = string_of(&cur, 0, cur.len());
        assert(cur@.subrange(0, cur@.len() as int) =~= cur@);
        done.push(line);
        assert(views(done@) =~= lines(s@));
    }
    done
}

/// The items of `parts` joined by `sep` (`[String]::join`).
pub fn join_exec(parts: &Vec<String>, sep: &str) -> (r: String)
    ensures
        r@ == join(views(parts@), sep@),
{
    let mut r = String::new();
    let mut i: usize = 0;
    while i < parts.len()
        invariant
            i <= parts.len(),
            r@ == join(views(parts@.take(i as int)), sep@),
        decreases parts.len() - i,
    {
        proof {
            assert(views(parts@.take(i + 1)) =~= views(parts@.take(i as int)).push(parts@[i as int]@));
            lemma_join_push(views(parts@.take(i as int)), sep@, parts@[i as int]@);
        }
        if i > 0 {
            push_str(&mut r, sep);
        }
        push_str(&mut r, parts[i].as_str());
        i += 1;
    }
    assert(parts@.take(parts.len() as int) =~= parts@);
    r
}

/// Decimal rendering of an unsigned integer (`u64::to_string`).
pub fn decimal_exec(n: u64) -> (r: String)
    ensures
        r@ == decimal(n as nat),
    decreases n,
{
    if n < 10 {
        let mut r = String::new();
        let c = ((48 + n) as u8) as char;
        push_char(&mut r, c);
        r
    } else {
        let mut r = decimal_exec(n / 10);
        let c = ((48 + n % 10) as u8) as char;
        push_char(&mut r, c);
        r
    }
}

/// `s.trim_start_matches(c)` for one character `c`.
pub fn strip_start_char(s: &str, c: char) -> (r: String)
    ensures
        r@ == strip_all_start(s@, c),
{
    let v = chars_of(s);
    let mut a: usize = 0;
    while a < v.len() && v[a] == c
        invariant
            a <= v.len(),
            forall|k: int| 0 <= k < a ==> #[trigger] v@[k] == c,
        decreases v.len() - a,
    {
        a += 1;
    }
    proof {
        lemma_strip_start_skip(v@, c, a as int);
        assert(v@.subrange(a as int, v.len() as int) =~= v@.skip(a as int));
    }
    string_of(&v, a, v.len())
}

/// `s.trim_end_matches(c)` for one character `c`.
pub fn strip_end_char(s: &str, c: char) -> (r: String)
    ensures
        r@ == strip_all_end(s@, c),
{
    let v = chars_of(s);
    let mut b: usize = v.len();
    while b > 0 && v[b - 1] == c
        invariant
            b <= v.len(),
            forall|k: int| b <= k < v.len() ==> #[trigger] v@[k] == c,
        decreases b,
    {
        b -= 1;
    }
    proof {
        lemma_strip_end_take(v@, c, b as int);
        assert(v@.subrange(0, b as int) =~= v@.take(b as int));
    }
    string_of(&v, 0, b)
}

/// The first position at or after `i` where `c` occurs in `v`.
pub fn first_of_exec(v: &Vec<char>, c: char, i: usize) -> (r: Option<usize>)
    ensures
        r matches Some(k) ==> first_of(v@, c, i as int) == Some(k as int),
        r is None ==> first_of(v@, c, i as int) is None,
{
    let mut k = i;
    while k < v.len()
        invariant
            i <= k,
            first_of(v@, c, i as int) == first_of(v@, c, k as int),
        decreases v.len() - k,
    {
        if v[k] == c {
            return Some(k);
        }
        k += 1;
    }
    None
}

/// A copy of `v[a..b]`.
pub fn sub_vec(v: &Vec<char>, a: usize, b: usize) -> (r: Vec<char>)
    requires
        a <= b <= v.len(),
    ensures
        r@ == v@.subrange(a as int, b as int),
{
    let mut r: Vec<char> = Vec::new();
    let mut i = a;
    while i < b
        invariant
            a <= i <= b <= v.len(),
            r@ == v@.subrange(a as int, i as int),
        decreases b - i,
    {
        r.push(v[i]);
        assert(v@.subrange(a as int, i + 1) =~= v@.subrange(a as int, i as int).push(v@[i as int]));
        i += 1;
    }
    r
}

/// How many leading white-space characters `v` has: `v[r..]` is `trim_start(v)`.
pub fn skip_ws(v: &Vec<char>) -> (r: usize)
    ensures
        r <= v.len(),
        v@.skip(r as int) == trim_start(v@),
{
    let mut a: usize = 0;
    while a < v.len() && is_ws_char(v[a])
        invariant
            a <= v.len(),
            forall|k: int| 0 <= k < a ==> is_ws(#[trigger] v@[k]),
        decreases v.len() - a,
    {
        a += 1;
    }
    proof {
        lemma_trim_start_skip(v@, a as int);
    }
    a
}

/// Length of `v` without trailing white space: `v[..r]` is `trim_end(v)`.
pub fn trim_end_len(v: &Vec<char>) -> (r: usize)
    ensures
        r <= v.len(),
        v@.take(r as int) == trim_end(v@),
{
    let mut b: usize = v.len();
    while b > 0 && is_ws_char(v[b - 1])
        invariant
            b <= v.len(),
            forall|k: int| b <= k < v.len() ==> is_ws(#[trigger] v@[k]),
        decreases b,
    {
        b -= 1;
    }
    proof {
        lemma_trim_end_take(v@, b as int);
    }
    b
}

/// Length of `v` without trailing `c`: `v[..r]` is `strip_all_end(v, c)`.
pub fn strip_end_len(v: &Vec<char>, c: char) -> (r: usize)
    ensures
        r <= v.len(),
        v@.take(r as int) == strip_all_end(v@, c),
{
    let mut b: usize = v.len();
    while b > 0 && v[b - 1] == c
        invariant
            b <= v.len(),
            forall|k: int| b <= k < v.len() ==> #[trigger] v@[k] == c,
        decreases b,
    {
        b -= 1;
    }
    proof {
        lemma_strip_end_take(v@, c, b as int);
    }
    b
}

/// `a` followed by `b`, as a new string.
pub fn cat(a: &str, b: &str) -> (r: String)
    ensures
        r@ == a@ + b@,
{
    let mut r = owned(a);
    push_str(&mut r, b);
    r
}

/// `a`, `b` and `c` joined, as a new string.
pub fn cat3(a: &str, b: &str, c: &str) -> (r: String)
    ensures
        r@ == a@ + b@ + c@,
{
    let mut r = cat(a, b);
    push_str(&mut r, c);
    r
}

/// `a` to `d` joined, as a new string.
pub fn cat4(a: &str, b: &str, c: &str, d: &str) -> (r: String)
    ensures
        r@ == a@ + b@ + c@ + d@,
{
    let mut r = cat3(a, b, c);
    push_str(&mut r, d);
    r
}

/// `a` to `e` joined, as a new string.
pub fn cat5(a: &str, b: &str, c: &str, d: &str, e: &str) -> (r: String)
    ensures
        r@ == a@ + b@ + c@ + d@ + e@,
{
    let mut r = cat4(a, b, c, d);
    push_str(&mut r, e);
    r
}

/// The Unicode lowercase mapping of a string (`str::to_lowercase`).
pub uninterp spec fn unicode_lowercase(s: Seq<char>) -> Seq<char>;

/// `str::to_lowercase`: the lowercase equivalent of `s` under the Unicode
/// `Lowercase` mapping, as std documents it. The contract names the result
/// ([`unicode_lowercase`]) as a function of `s`, and states only that text
/// made of ASCII characters lowercases the ASCII way (letters `A`-`Z` become
/// `a`-`z`, everything else stays); the mapping of other characters is not
/// stated.
#[verifier::external_body]
pub fn to_lowercase(s: &str) -> (r: String)
    ensures
        r@ == unicode_lowercase(s@),
        (forall|i: int| 0 <= i < s@.len() ==> (#[trigger] s@[i] as u32) < 128) ==> r@ == lower(s@),
{
    s.to_lowercase()
}

} // verus!

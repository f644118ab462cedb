//! One CSS `border` value plus which sides it applies to.
//!
//! MJML accepts `border` (all sides) or `border-top` / `border-right` /
//! `border-bottom` / `border-left` with the same CSS string. Authors usually
//! want the same stroke on a subset of sides, so the form offers one
//! checkbox per side instead of four border fields.
use vstd::prelude::*;

use crate::padding::{scaled_decimal, parse_scaled};
use crate::text::{
    is_sep, is_ws, trim_end, trim_start, words_scan, chars_of, eq_ignore_case, eq_str, ends_with, ends_with_str, join, join_exec, lower,
    lower_str, owned, push_str, string_of, trim, trim_str, views, words, words_exec,
};

verus! {

/// The views of `(id, label)` pairs.
pub open spec fn pair_views(v: Seq<(&'static str, &'static str)>) -> Seq<(Seq<char>, Seq<char>)> {
    v.map_values(|p: (&'static str, &'static str)| (p.0@, p.1@))
}

/// The border-side checkboxes of the forms: `(id, label)`.
pub fn options() -> (r: Vec<(&'static str, &'static str)>)
    ensures
        pair_views(r@) == seq![
            ("all"@, "All"@),
            ("top"@, "Top"@),
            ("right"@, "Right"@),
            ("bottom"@, "Bottom"@),
            ("left"@, "Left"@),
        ],
{
    vec![("all", "All"), ("top", "Top"), ("right", "Right"), ("bottom", "Bottom"), ("left", "Left")]
}

/// The accepted side values, as given in error messages.
pub const RULE: &'static str = "all, or a comma/space list of top, right, bottom, left";

/// Which sides a border applies to.
#[derive(Debug, Clone, Copy, PartialEq, Eq, Structural)]
pub struct Sides {
    pub top: bool,
    pub right: bool,
    pub bottom: bool,
    pub left: bool,
}

pub open spec fn all_sides() -> Sides {
    Sides { top: true, right: true, bottom: true, left: true }
}

pub open spec fn no_sides() -> Sides {
    Sides { top: false, right: false, bottom: false, left: false }
}

impl Sides {
    /// Every side.
    pub fn all() -> (r: Sides)
        ensures
            r == all_sides(),
    {
        Sides { top: true, right: true, bottom: true, left: true }
    }

    /// No side.
    pub fn none() -> (r: Sides)
        ensures
            r == no_sides(),
    {
        Sides { top: false, right: false, bottom: false, left: false }
    }

    pub open spec fn all_set(self) -> bool {
        self.top && self.right && self.bottom && self.left
    }

    pub open spec fn none_set(self) -> bool {
        !self.top && !self.right && !self.bottom && !self.left
    }

    /// Every side is selected.
    pub fn is_all(self) -> (r: bool)
        ensures
            r == self.all_set(),
    {
        self.top && self.right && self.bottom && self.left
    }

    /// No side is selected.
    pub fn is_none(self) -> (r: bool)
        ensures
            r == self.none_set(),
    {
        !self.top && !self.right && !self.bottom && !self.left
    }
}

// ---------------------------------------------------------------------------
// Specifications
// ---------------------------------------------------------------------------

/// The selected side names in top, right, bottom, left order.
pub open spec fn side_names(s: Sides) -> Seq<Seq<char>> {
    (if s.top { seq!["top"@] } else { Seq::empty() })
    + (if s.right { seq!["right"@] } else { Seq::empty() })
    + (if s.bottom { seq!["bottom"@] } else { Seq::empty() })
    + (if s.left { seq!["left"@] } else { Seq::empty() })
}

/// Form value of a selection: `all` for every side (or none), otherwise the
/// selected sides joined by `,`.
pub open spec fn form_of(s: Sides) -> Seq<char> {
    if s.all_set() || s.none_set() {
        "all"@
    } else {
        join(side_names(s), ","@)
    }
}

/// Stored value: nothing for every side (or none), otherwise the form value.
pub open spec fn storage_of(s: Sides) -> Option<Seq<char>> {
    if s.all_set() || s.none_set() {
        None
    } else {
        Some(form_of(s))
    }
}

/// The error for a side name that is not known.
pub open spec fn unknown_side_message(name: Seq<char>) -> Seq<char> {
    "unknown border side '"@ + name + "' (use "@ + RULE@ + ")"@
}

/// Parts read left to right onto `acc`; `all` selects every side at once.
pub open spec fn parse_parts(parts: Seq<Seq<char>>, acc: Sides) -> Result<Sides, Seq<char>>
    decreases parts.len(),
{
    if parts.len() == 0 {
        Ok(acc)
    } else {
        let p = lower(parts[0]);
        let rest = parts.drop_first();
        if p == "all"@ {
            Ok(all_sides())
        } else if p == "top"@ {
            parse_parts(rest, Sides { top: true, ..acc })
        } else if p == "right"@ {
            parse_parts(rest, Sides { right: true, ..acc })
        } else if p == "bottom"@ {
            parse_parts(rest, Sides { bottom: true, ..acc })
        } else if p == "left"@ {
            parse_parts(rest, Sides { left: true, ..acc })
        } else {
            Err(unknown_side_message(p))
        }
    }
}

/// A stored side list read back: blank or `all` (any case) is every side;
/// otherwise the comma/space separated names, every side when none is left.
pub open spec fn sides_from(v: Seq<char>) -> Result<Sides, Seq<char>> {
    let t = trim(v);
    if t.len() == 0 || lower(t) == lower("all"@) {
        Ok(all_sides())
    } else {
        match parse_parts(words(t, true), no_sides()) {
            Ok(s) => Ok(
                if s.none_set() {
                    all_sides()
                } else {
                    s
                },
            ),
            Err(e) => Err(e),
        }
    }
}

/// Whether the checkbox `option` shows as checked: `all` when every side is
/// selected, a side only when not every side is.
pub open spec fn shows_checked(s: Sides, o: Seq<char>) -> bool {
    if o == "all"@ {
        s.all_set()
    } else if o == "top"@ {
        s.top && !s.all_set()
    } else if o == "right"@ {
        s.right && !s.all_set()
    } else if o == "bottom"@ {
        s.bottom && !s.all_set()
    } else if o == "left"@ {
        s.left && !s.all_set()
    } else {
        false
    }
}

/// Is `o` one of the four side names.
pub open spec fn is_side_name(o: Seq<char>) -> bool {
    o == "top"@ || o == "right"@ || o == "bottom"@ || o == "left"@
}

/// `s` with side `o` flipped.
pub open spec fn flipped(s: Sides, o: Seq<char>) -> Sides {
    if o == "top"@ {
        Sides { top: !s.top, ..s }
    } else if o == "right"@ {
        Sides { right: !s.right, ..s }
    } else if o == "bottom"@ {
        Sides { bottom: !s.bottom, ..s }
    } else {
        Sides { left: !s.left, ..s }
    }
}

/// The selection after clicking checkbox `o`: `all` selects every side; a
/// side while every side is on starts from that side alone; the last
/// remaining side stays; unknown options change nothing.
pub open spec fn toggled(s: Sides, o: Seq<char>) -> Sides {
    if o == "all"@ {
        all_sides()
    } else if !is_side_name(o) {
        s
    } else {
        let start = if s.all_set() {
            no_sides()
        } else {
            s
        };
        let next = flipped(start, o);
        if next.none_set() {
            start
        } else {
            next
        }
    }
}

/// MJML attribute for one side of a border shorthand.
pub open spec fn side_attr_name(shorthand: Seq<char>, side: Seq<char>) -> Seq<char> {
    if shorthand == "border"@ && side == "top"@ {
        "border-top"@
    } else if shorthand == "border"@ && side == "right"@ {
        "border-right"@
    } else if shorthand == "border"@ && side == "bottom"@ {
        "border-bottom"@
    } else if shorthand == "border"@ && side == "left"@ {
        "border-left"@
    } else if shorthand == "inner-border"@ && side == "top"@ {
        "inner-border-top"@
    } else if shorthand == "inner-border"@ && side == "right"@ {
        "inner-border-right"@
    } else if shorthand == "inner-border"@ && side == "bottom"@ {
        "inner-border-bottom"@
    } else if shorthand == "inner-border"@ && side == "left"@ {
        "inner-border-left"@
    } else {
        shorthand
    }
}

/// MJML attribute names that carry a border value on the selected sides.
pub open spec fn attr_names(shorthand: Seq<char>, s: Sides) -> Seq<Seq<char>> {
    if s.all_set() || s.none_set() {
        seq![shorthand]
    } else {
        (if s.top { seq![side_attr_name(shorthand, "top"@)] } else { Seq::empty() })
        + (if s.right { seq![side_attr_name(shorthand, "right"@)] } else { Seq::empty() })
        + (if s.bottom { seq![side_attr_name(shorthand, "bottom"@)] } else { Seq::empty() })
        + (if s.left { seq![side_attr_name(shorthand, "left"@)] } else { Seq::empty() })
    }
}

/// The views of a list of static string slices.
pub open spec fn str_views(v: Seq<&str>) -> Seq<Seq<char>> {
    v.map_values(|s: &str| s@)
}

/// Left + right border width in units of 10^-18 px for a CSS border string:
/// the first word's `px` width counted once per selected horizontal side;
/// `none`, `0`, blank or an unreadable width count 0.
pub open spec fn border_horizontal_scaled(value: Seq<char>, sides: Seq<char>) -> int {
    let ws = words(value, false);
    let first = if ws.len() > 0 {
        ws[0]
    } else {
        Seq::empty()
    };
    if first.len() == 0 || lower(first) == lower("none"@) || first == "0"@ {
        0
    } else {
        let w = if ends_with(first, "px"@) {
            match scaled_decimal(first.take(first.len() - "px"@.len())) {
                Some(x) => x,
                None => 0,
            }
        } else {
            0
        };
        let s = match sides_from(sides) {
            Ok(s) => s,
            Err(_) => all_sides(),
        };
        (if s.left { w } else { 0 }) + (if s.right { w } else { 0 })
    }
}


// ---------------------------------------------------------------------------
// Laws
// ---------------------------------------------------------------------------

/// What a stored selection reads back as: every side stands for an empty
/// selection too.
pub open spec fn normal(s: Sides) -> Sides {
    if s.none_set() {
        all_sides()
    } else {
        s
    }
}

proof fn lemma_words_append_word(x: Seq<char>, p: Seq<char>)
    requires
        forall|i: int| 0 <= i < p.len() ==> !is_sep(#[trigger] p[i], true),
    ensures
        words_scan(x + p, true) == (words_scan(x, true).0, words_scan(x, true).1 + p),
    decreases p.len(),
{
    if p.len() == 0 {
        assert(x + p =~= x);
        assert(words_scan(x, true).1 + p =~= words_scan(x, true).1);
    } else {
        let q = p.drop_last();
        lemma_words_append_word(x, q);
        assert((x + p).drop_last() =~= x + q);
        assert((x + p).last() == p.last());
        assert(words_scan(x, true).1 + q.push(p.last()) =~= words_scan(x, true).1 + p);
        assert(words_scan(x, true).1 + p =~= (words_scan(x, true).1 + q).push(p.last()));
    }
}

proof fn lemma_words_join(parts: Seq<Seq<char>>)
    requires
        forall|k: int| 0 <= k < parts.len() ==> #[trigger] parts[k].len() > 0,
        forall|k: int, i: int|
            0 <= k < parts.len() && 0 <= i < parts[k].len() ==> !is_sep(#[trigger] parts[k][i], true),
    ensures
        words(join(parts, ","@), true) == parts,
        parts.len() > 0 ==> words_scan(join(parts, ","@), true) == (parts.drop_last(), parts.last()),
    decreases parts.len(),
{
    reveal_strlit(",");
    if parts.len() == 0 {
        assert(words_scan(Seq::<char>::empty(), true) == (Seq::<Seq<char>>::empty(), Seq::<char>::empty()));
    } else if parts.len() == 1 {
        let p = parts[0];
        assert forall|i: int| 0 <= i < p.len() implies !is_sep(#[trigger] p[i], true) by {
            assert(p[i] == parts[0][i]);
        }
        lemma_words_append_word(Seq::empty(), p);
        assert(Seq::<char>::empty() + p =~= p);
        assert(Seq::<char>::empty() + p =~= p);
        assert(parts.drop_last() =~= Seq::<Seq<char>>::empty());
        assert(seq![p] =~= parts);
    } else {
        let init = parts.drop_last();
        let p = parts.last();
        lemma_words_join(init);
        let x = join(init, ","@);
        let xc = x + ","@;
        assert(xc.drop_last() =~= x);
        assert(xc.last() == ',');
        assert(words_scan(xc, true) == (words(x, true), Seq::<char>::empty()));
        assert forall|i: int| 0 <= i < p.len() implies !is_sep(#[trigger] p[i], true) by {
            assert(p[i] == parts[parts.len() - 1][i]);
        }
        lemma_words_append_word(xc, p);
        assert(join(parts, ","@) == xc + p);
        assert(Seq::<char>::empty() + p =~= p);
        assert(words(x, true) == init);
        assert(init.push(p) =~= parts);
    }
}

proof fn lemma_join_ends(parts: Seq<Seq<char>>)
    requires
        parts.len() > 0,
        forall|k: int| 0 <= k < parts.len() ==> #[trigger] parts[k].len() > 0,
    ensures
        join(parts, ","@).len() > 0,
        join(parts, ","@)[0] == parts[0][0],
        join(parts, ","@).last() == parts.last().last(),
    decreases parts.len(),
{
    if parts.len() > 1 {
        let init = parts.drop_last();
        assert(init[0] == parts[0]);
        lemma_join_ends(init);
        assert(parts.last().len() > 0);
    }
}

proof fn lemma_side_literals()
    ensures
        "all"@ != "top"@,
        "all"@ != "right"@,
        "all"@ != "bottom"@,
        "all"@ != "left"@,
        "top"@ != "right"@,
        "top"@ != "bottom"@,
        "top"@ != "left"@,
        "right"@ != "bottom"@,
        "right"@ != "left"@,
        "bottom"@ != "left"@,
        lower("top"@) == "top"@,
        lower("right"@) == "right"@,
        lower("bottom"@) == "bottom"@,
        lower("left"@) == "left"@,
{
    reveal_strlit("all");
    reveal_strlit("top");
    reveal_strlit("right");
    reveal_strlit("bottom");
    reveal_strlit("left");
    assert("all"@[0] == 'a' && "top"@[0] == 't' && "right"@[0] == 'r' && "bottom"@[0] == 'b'
        && "left"@[0] == 'l');
    assert(lower("top"@) =~= "top"@);
    assert(lower("right"@) =~= "right"@);
    assert(lower("bottom"@) =~= "bottom"@);
    assert(lower("left"@) =~= "left"@);
}

proof fn lemma_parse_names(s: Sides, acc: Sides)
    requires
        acc.top ==> s.top,
        acc.right ==> s.right,
        acc.bottom ==> s.bottom,
        acc.left ==> s.left,
    ensures
        parse_parts(side_names(s), acc) == Ok::<Sides, Seq<char>>(
            Sides {
                top: s.top || acc.top,
                right: s.right || acc.right,
                bottom: s.bottom || acc.bottom,
                left: s.left || acc.left,
            },
        ),
{
    lemma_side_literals();
    reveal_strlit("all");
    let t: Seq<Seq<char>> = if s.top { seq!["top"@] } else { Seq::empty() };
    let r: Seq<Seq<char>> = if s.right { seq!["right"@] } else { Seq::empty() };
    let b: Seq<Seq<char>> = if s.bottom { seq!["bottom"@] } else { Seq::empty() };
    let l: Seq<Seq<char>> = if s.left { seq!["left"@] } else { Seq::empty() };
    let n = side_names(s);
    assert(n =~= t + r + b + l);
    let a1 = Sides { top: s.top || acc.top, ..acc };
    let a2 = Sides { right: s.right || acc.right, ..a1 };
    let a3 = Sides { bottom: s.bottom || acc.bottom, ..a2 };
    let a4 = Sides { left: s.left || acc.left, ..a3 };
    let n1 = r + b + l;
    let n2 = b + l;
    assert(parse_parts(l, a3) == Ok::<Sides, Seq<char>>(a4)) by {
        if s.left {
            assert(l.drop_first() =~= Seq::<Seq<char>>::empty());
            assert(l[0] == "left"@);
            let e = Seq::<Seq<char>>::empty();
            let sl = Sides { left: true, ..a3 };
            assert(parse_parts(e, sl) == Ok::<Sides, Seq<char>>(sl));
            assert(sl == a4);
        } else {
            assert(l =~= Seq::<Seq<char>>::empty());
            assert(a3 == a4);
        }
    }
    assert(parse_parts(n2, a2) == Ok::<Sides, Seq<char>>(a4)) by {
        if s.bottom {
            assert(n2[0] == "bottom"@);
            assert(n2.drop_first() =~= l);
        } else {
            assert(n2 =~= l);
        }
    }
    assert(parse_parts(n1, a1) == Ok::<Sides, Seq<char>>(a4)) by {
        if s.right {
            assert(n1[0] == "right"@);
            assert(n1.drop_first() =~= n2);
        } else {
            assert(n1 =~= n2);
        }
    }
    assert(parse_parts(n, acc) == Ok::<Sides, Seq<char>>(a4)) by {
        if s.top {
            assert(n[0] == "top"@);
            assert(n.drop_first() =~= n1);
        } else {
            assert(n =~= n1);
        }
    }
}

/// Reading back what `to_form` wrote gives the selection again (an empty
/// selection reads back as every side).
pub proof fn law_form_round_trip(s: Sides)
    ensures
        sides_from(form_of(s)) == Ok::<Sides, Seq<char>>(normal(s)),
{
    lemma_side_literals();
    reveal_strlit("all");
    reveal_strlit(",");
    if s.all_set() || s.none_set() {
        assert(trim_start("all"@) =~= "all"@);
        assert(trim_end("all"@) =~= "all"@);
    } else {
        let names = side_names(s);
        assert forall|k: int| 0 <= k < names.len() implies #[trigger] names[k].len() > 0 && (
        forall|i: int| 0 <= i < names[k].len() ==> !is_sep(#[trigger] names[k][i], true)) by {
            reveal_strlit("top");
            reveal_strlit("right");
            reveal_strlit("bottom");
            reveal_strlit("left");
        }
        lemma_words_join(names);
        let j = join(names, ","@);
        assert(names.len() > 0);
        lemma_join_ends(names);
        reveal_strlit("top");
        reveal_strlit("right");
        reveal_strlit("bottom");
        reveal_strlit("left");
        assert(names[0] == "top"@ || names[0] == "right"@ || names[0] == "bottom"@ || names[0]
            == "left"@);
        assert(names.last() == "top"@ || names.last() == "right"@ || names.last() == "bottom"@
            || names.last() == "left"@);
        assert(!is_ws(j[0]) && !is_ws(j.last()));
        assert(trim_start(j) == j);
        assert(trim_end(j) == j);
        assert(lower(j)[0] == j[0]);
        assert(lower("all"@)[0] == 'a');
        lemma_parse_names(s, no_sides());
        assert((Sides {
            top: s.top || false,
            right: s.right || false,
            bottom: s.bottom || false,
            left: s.left || false,
        }) == s);
    }
}

/// Reading back what `to_storage` stored gives the selection again: nothing
/// stored means every side.
pub proof fn law_storage_round_trip(s: Sides)
    ensures
        sides_from(
            match storage_of(s) {
                Some(v) => v,
                None => Seq::empty(),
            },
        ) == Ok::<Sides, Seq<char>>(normal(s)),
{
    law_form_round_trip(s);
    if s.all_set() || s.none_set() {
        assert(trim(Seq::<char>::empty()) =~= Seq::<char>::empty());
    }
}

/// Clicking a checkbox never leaves a border with no side: `all` and every
/// side name always give at least one side, and a selection that had a
/// side keeps one.
pub proof fn law_toggle_keeps_a_side(s: Sides, o: Seq<char>)
    requires
        !s.none_set() || o == "all"@ || is_side_name(o),
    ensures
        !toggled(s, o).none_set(),
{
}

/// The checkboxes show either `all` or individual sides, never both.
pub proof fn law_all_or_sides_shown(s: Sides, o: Seq<char>)
    requires
        is_side_name(o),
    ensures
        shows_checked(s, "all"@) ==> !shows_checked(s, o),
{
    lemma_side_literals();
}

/// A border always lands on at least one attribute: the shorthand when every
/// side (or none) is selected, else one attribute per selected side.
pub proof fn law_attrs_nonempty(shorthand: Seq<char>, s: Sides)
    ensures
        attr_names(shorthand, s).len() > 0,
        attr_names(shorthand, s).len() == if s.all_set() || s.none_set() {
            1
        } else {
            side_names(s).len()
        },
{
}

// ---------------------------------------------------------------------------
// Executable
// ---------------------------------------------------------------------------

fn unknown_side(name: &str) -> (r: String)
    ensures
        r@ == unknown_side_message(name@),
{
    let mut r = owned("unknown border side '");
    push_str(&mut r, name);
    push_str(&mut r, "' (use ");
    push_str(&mut r, RULE);
    push_str(&mut r, ")");
    r
}

impl Sides {
    /// Empty / `"all"` / omitted → all four sides (backward compatible).
    pub fn from_storage(value: &str) -> (r: Result<Sides, String>)
        ensures
            r matches Ok(s) ==> sides_from(value@) == Ok::<Sides, Seq<char>>(s),
            r matches Err(e) ==> sides_from(value@) == Err::<Sides, Seq<char>>(e@),
    {
        let t = trim_str(value);
        if t.as_str().is_empty() || eq_ignore_case(t.as_str(), "all") {
            return Ok(Sides::all());
        }
        let parts = words_exec(t.as_str(), true);
        let mut out = Sides::none();
        let mut i: usize = 0;
        assert(views(parts@).skip(0) =~= views(parts@));
        while i < parts.len()
            invariant
                i <= parts.len(),
                t@ == trim(value@),
                !(t@.len() == 0 || lower(t@) == lower("all"@)),
                views(parts@) == words(t@, true),
                parse_parts(views(parts@), no_sides()) == parse_parts(
                    views(parts@).skip(i as int),
                    out,
                ),
            decreases parts.len() - i,
        {
            let p = lower_str(parts[i].as_str());
            let ghost rest = views(parts@).skip(i as int);
            proof {
                assert(rest[0] == parts@[i as int]@);
                assert(rest.drop_first() =~= views(parts@).skip(i + 1));
            }
            if eq_str(p.as_str(), "all") {
                return Ok(Sides::all());
            } else if eq_str(p.as_str(), "top") {
                out.top = true;
            } else if eq_str(p.as_str(), "right") {
                out.right = true;
            } else if eq_str(p.as_str(), "bottom") {
                out.bottom = true;
            } else if eq_str(p.as_str(), "left") {
                out.left = true;
            } else {
                return Err(unknown_side(p.as_str()));
            }
            i += 1;
        }
        assert(views(parts@).skip(parts.len() as int) =~= Seq::<Seq<char>>::empty());
        if out.is_none() {
            return Ok(Sides::all());
        }
        Ok(out)
    }

    /// `None` when all sides (omit from JSON). Otherwise `"top,bottom"` in
    /// top, right, bottom, left order.
    pub fn to_storage(self) -> (r: Option<String>)
        ensures
            r matches Some(s) ==> storage_of(self) == Some(s@),
            r is None ==> storage_of(self) is None,
    {
        if self.is_all() || self.is_none() {
            None
        } else {
            Some(self.to_form())
        }
    }

    /// Form value: `"all"` or comma-separated sides.
    pub fn to_form(self) -> (r: String)
        ensures
            r@ == form_of(self),
    {
        if self.is_all() || self.is_none() {
            return owned("all");
        }
        let mut parts: Vec<String> = Vec::new();
        if self.top {
            parts.push(owned("top"));
        }
        if self.right {
            parts.push(owned("right"));
        }
        if self.bottom {
            parts.push(owned("bottom"));
        }
        if self.left {
            parts.push(owned("left"));
        }
        assert(views(parts@) =~= side_names(self));
        join_exec(&parts, ",")
    }

    /// Whether checkbox `option` shows as checked (see [`shows_checked`]).
    pub fn has(self, option: &str) -> (r: bool)
        ensures
            r == shows_checked(self, option@),
    {
        if eq_str(option, "all") {
            self.is_all()
        } else if eq_str(option, "top") {
            self.top && !self.is_all()
        } else if eq_str(option, "right") {
            self.right && !self.is_all()
        } else if eq_str(option, "bottom") {
            self.bottom && !self.is_all()
        } else if eq_str(option, "left") {
            self.left && !self.is_all()
        } else {
            false
        }
    }

    /// Checking All selects every side. Checking a side while All is on
    /// starts from that side only. The last remaining side cannot be
    /// unchecked (empty would silently drop the border).
    pub fn toggle(self, option: &str) -> (r: Sides)
        ensures
            r == toggled(self, option@),
    {
        if eq_str(option, "all") {
            return Sides::all();
        }
        let mut next = if self.is_all() {
            Sides::none()
        } else {
            self
        };
        let before = next;
        if eq_str(option, "top") {
            next.top = !next.top;
        } else if eq_str(option, "right") {
            next.right = !next.right;
        } else if eq_str(option, "bottom") {
            next.bottom = !next.bottom;
        } else if eq_str(option, "left") {
            next.left = !next.left;
        } else {
            return self;
        }
        if next.is_none() {
            before
        } else {
            next
        }
    }
}

fn side_attr(shorthand: &'static str, side: &str) -> (r: &'static str)
    ensures
        r@ == side_attr_name(shorthand@, side@),
{
    let b = eq_str(shorthand, "border");
    let ib = eq_str(shorthand, "inner-border");
    let top = eq_str(side, "top");
    let right = eq_str(side, "right");
    let bottom = eq_str(side, "bottom");
    let left = eq_str(side, "left");
    if b && top {
        "border-top"
    } else if b && right {
        "border-right"
    } else if b && bottom {
        "border-bottom"
    } else if b && left {
        "border-left"
    } else if ib && top {
        "inner-border-top"
    } else if ib && right {
        "inner-border-right"
    } else if ib && bottom {
        "inner-border-bottom"
    } else if ib && left {
        "inner-border-left"
    } else {
        shorthand
    }
}

/// MJML attribute names for a CSS border value, given selected sides.
/// `shorthand` is `"border"` or `"inner-border"`.
pub fn mjml_attrs(shorthand: &'static str, sides: Sides) -> (r: Vec<&'static str>)
    ensures
        str_views(r@) == attr_names(shorthand@, sides),
{
    if sides.is_all() || sides.is_none() {
        let v = vec![shorthand];
        assert(str_views(v@) =~= seq![shorthand@]);
        return v;
    }
    let mut out: Vec<&'static str> = Vec::new();
    if sides.top {
        out.push(side_attr(shorthand, "top"));
    }
    if sides.right {
        out.push(side_attr(shorthand, "right"));
    }
    if sides.bottom {
        out.push(side_attr(shorthand, "bottom"));
    }
    if sides.left {
        out.push(side_attr(shorthand, "left"));
    }
    assert(str_views(out@) =~= attr_names(shorthand@, sides));
    out
}

/// Left + right border width in units of 10^-18 px from a CSS border
/// string, honoring sides (see [`border_horizontal_scaled`]).
pub fn horizontal_px(value: &str, sides: Option<&str>) -> (r: i128)
    ensures
        r as int == border_horizontal_scaled(
            value@,
            match sides {
                Some(s) => s@,
                None => Seq::empty(),
            },
        ),
{
    let ws = words_exec(value, false);
    let first = if ws.len() > 0 {
        owned(ws[0].as_str())
    } else {
        String::new()
    };
    if first.as_str().is_empty() || eq_ignore_case(first.as_str(), "none") || eq_str(
        first.as_str(),
        "0",
    ) {
        return 0;
    }
    let w: i128 = if ends_with_str(first.as_str(), "px") {
        let v = chars_of(first.as_str());
        let k = chars_of("px").len();
        let num = string_of(&v, 0, v.len() - k);
        assert(num@ =~= first@.take(first@.len() - "px"@.len()));
        proof {
            crate::padding::lemma_px_bound(first@);
        }
        match parse_scaled(num.as_str()) {
            Some(x) => x,
            None => 0,
        }
    } else {
        0
    };
    let side_text = match sides {
        Some(s) => owned(s),
        None => String::new(),
    };
    let parsed = match Sides::from_storage(side_text.as_str()) {
        Ok(s) => s,
        Err(_) => Sides::all(),
    };
    proof {
        assert(first@ != "0"@ && ends_with(first@, "px"@) ==> crate::padding::px_token(first@)
            == scaled_decimal(first@.take(first@.len() - "px"@.len())));
    }
    let mut total: i128 = 0;
    if parsed.left {
        total = total + w;
    }
    if parsed.right {
        total = total + w;
    }
    total
}

} // verus!

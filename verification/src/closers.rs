//! Content written inside `<mj-text>` and `<mj-table>` can never close an
//! MJML element: no `</mj-` in any letter case comes out of either.
use vstd::prelude::*;

use crate::emit::{
    allow_scan, allowed_tag, attr_scan, esc_char, escaped, key_char, split_tag, table_inner,
    text_inner,
};
use crate::text::{
    contains, contains_ci, find_from, lemma_find_from_is_first, lemma_trim_end_to,
    lemma_trim_start_from, lower, lower_char, occurs_at, trim, trim_end, trim_start,
};

verus! {

/// No `<` anywhere in `s`.
pub open spec fn no_lt(s: Seq<char>) -> bool {
    forall|i: int| 0 <= i < s.len() ==> s[i] != '<'
}

/// A letter that starts one of the allowed inline tag names.
pub open spec fn tag_start(c: char) -> bool {
    c == 'a' || c == 'b' || c == 's' || c == 'e' || c == 'u'
}

/// Every `<` in `s` opens or closes an allowed inline tag: it is followed by
/// the first letter of such a name, or by `/` and that letter.
pub open spec fn tags_only(s: Seq<char>) -> bool {
    forall|i: int|
        0 <= i < s.len() && #[trigger] s[i] == '<' ==> i + 2 < s.len() && (tag_start(s[i + 1]) || (
        s[i + 1] == '/' && tag_start(s[i + 2])))
}

proof fn lemma_no_lt_tags_only(s: Seq<char>)
    requires
        no_lt(s),
    ensures
        tags_only(s),
{
}

proof fn lemma_no_lt_concat(a: Seq<char>, b: Seq<char>)
    requires
        no_lt(a),
        no_lt(b),
    ensures
        no_lt(a + b),
{
    assert forall|i: int| 0 <= i < (a + b).len() implies (a + b)[i] != '<' by {
        if i >= a.len() {
            assert((a + b)[i] == b[i - a.len()]);
        }
    }
}

proof fn lemma_tags_only_concat(a: Seq<char>, b: Seq<char>)
    requires
        tags_only(a),
        tags_only(b),
    ensures
        tags_only(a + b),
{
    let s = a + b;
    assert forall|i: int| 0 <= i < s.len() && #[trigger] s[i] == '<' implies i + 2 < s.len() && (
    tag_start(s[i + 1]) || (s[i + 1] == '/' && tag_start(s[i + 2]))) by {
        if i < a.len() {
            assert(a[i] == '<');
            assert(s[i + 1] == a[i + 1]);
            assert(s[i + 2] == a[i + 2]);
        } else {
            let j = i - a.len();
            assert(b[j] == '<');
            assert(s[i + 1] == b[j + 1]);
            assert(s[i + 2] == b[j + 2]);
        }
    }
}

proof fn lemma_esc_char_no_lt(c: char)
    ensures
        no_lt(esc_char(c)),
{
    reveal_strlit("&amp;");
    reveal_strlit("&lt;");
    reveal_strlit("&gt;");
    reveal_strlit("&quot;");
}

/// Escaped text holds no `<`.
pub proof fn lemma_escaped_no_lt(s: Seq<char>)
    ensures
        no_lt(escaped(s)),
    decreases s.len(),
{
    if s.len() > 0 {
        lemma_escaped_no_lt(s.drop_last());
        lemma_esc_char_no_lt(s.last());
        lemma_no_lt_concat(escaped(s.drop_last()), esc_char(s.last()));
    }
}

proof fn lemma_subrange_no_lt(s: Seq<char>, a: int, b: int)
    requires
        no_lt(s),
        0 <= a <= b <= s.len(),
    ensures
        no_lt(s.subrange(a, b)),
{
    assert forall|i: int| 0 <= i < b - a implies s.subrange(a, b)[i] != '<' by {
        assert(s.subrange(a, b)[i] == s[a + i]);
    }
}

proof fn lemma_key_no_lt(k: Seq<char>)
    requires
        forall|i: int| 0 <= i < k.len() ==> key_char(#[trigger] k[i]),
    ensures
        no_lt(k),
{
    assert forall|i: int| 0 <= i < k.len() implies k[i] != '<' by {
        assert(key_char(k[i]));
    }
}

/// Re-written attributes add no `<`.
proof fn lemma_attr_scan_no_lt(r: Seq<char>, acc: Seq<char>)
    requires
        no_lt(acc),
    ensures
        attr_scan(r, acc) matches Some(o) ==> no_lt(o),
    decreases r.len(),
{
    if r.len() > 0 {
        match crate::text::first_of(r, '=', 0) {
            None => {},
            Some(eq) => {
                let key = trim(r.take(eq));
                if key.len() > 0 && crate::emit::all_key_chars(key) {
                    let r2 = trim_start(r.skip(eq + 1));
                    if r2.len() > 0 && (r2[0] == '"' || r2[0] == '\'') {
                        let q = r2[0];
                        let r3 = r2.drop_first();
                        match crate::text::first_of(r3, q, 0) {
                            None => {},
                            Some(end) => {
                                crate::text::lemma_first_of(r, '=', 0);
                                crate::text::lemma_trim_start_len(r.skip(eq + 1));
                                crate::text::lemma_first_of(r3, q, 0);
                                crate::text::lemma_trim_start_len(r3.skip(end + 1));
                                reveal_strlit(" ");
                                reveal_strlit("=\"");
                                reveal_strlit("\"");
                                lemma_key_no_lt(key);
                                lemma_escaped_no_lt(r3.take(end));
                                let acc2 = acc + " "@ + key + "=\""@ + escaped(r3.take(end)) + "\""@;
                                lemma_no_lt_concat(acc, " "@);
                                lemma_no_lt_concat(acc + " "@, key);
                                lemma_no_lt_concat(acc + " "@ + key, "=\""@);
                                lemma_no_lt_concat(acc + " "@ + key + "=\""@, escaped(r3.take(end)));
                                lemma_no_lt_concat(
                                    acc + " "@ + key + "=\""@ + escaped(r3.take(end)),
                                    "\""@,
                                );
                                lemma_attr_scan_no_lt(trim_start(r3.skip(end + 1)), acc2);
                            },
                        }
                    }
                }
            },
        }
    }
}

proof fn lemma_split_tag_no_lt(b: Seq<char>)
    ensures
        split_tag(b) matches Some((name, at)) ==> no_lt(at),
{
    match crate::emit::name_end(b, 0) {
        None => {},
        Some(ne) => {
            let rest = trim(b.skip(ne));
            if rest.len() > 0 {
                lemma_attr_scan_no_lt(rest, Seq::empty());
            }
        },
    }
}

proof fn lemma_allowed_tag_start(n: Seq<char>)
    requires
        allowed_tag(n),
    ensures
        n.len() > 0,
        tag_start(n[0]),
{
    reveal_strlit("br");
    reveal_strlit("a");
    reveal_strlit("b");
    reveal_strlit("strong");
    reveal_strlit("em");
    reveal_strlit("span");
    reveal_strlit("u");
}

proof fn lemma_open_tag(n: Seq<char>, at: Seq<char>, end: Seq<char>)
    requires
        allowed_tag(n),
        no_lt(at),
        no_lt(end),
        end.len() > 0,
    ensures
        tags_only("<"@ + n + at + end),
{
    reveal_strlit("<");
    lemma_allowed_tag_start(n);
    let s = "<"@ + n + at + end;
    let tail = n + at + end;
    assert(n.len() > 0);
    assert forall|i: int| 0 <= i < s.len() && #[trigger] s[i] == '<' implies i + 2 < s.len() && (
    tag_start(s[i + 1]) || (s[i + 1] == '/' && tag_start(s[i + 2]))) by {
        if i == 0 {
            assert(s[1] == n[0]);
        } else {
            assert(s[i] == tail[i - 1]);
            if i - 1 < n.len() {
                assert(tail[i - 1] == n[i - 1]);
                assert(n[i - 1] != '<') by {
                    reveal_strlit("br");
                    reveal_strlit("a");
                    reveal_strlit("b");
                    reveal_strlit("strong");
                    reveal_strlit("em");
                    reveal_strlit("span");
                    reveal_strlit("u");
                }
            } else if i - 1 < n.len() + at.len() {
                assert(tail[i - 1] == at[i - 1 - n.len()]);
            } else {
                assert(tail[i - 1] == end[i - 1 - n.len() - at.len()]);
            }
        }
    }
}

proof fn lemma_close_tag(n: Seq<char>)
    requires
        allowed_tag(n),
    ensures
        tags_only("</"@ + n + ">"@),
{
    reveal_strlit("</");
    reveal_strlit(">");
    reveal_strlit("br");
    reveal_strlit("a");
    reveal_strlit("b");
    reveal_strlit("strong");
    reveal_strlit("em");
    reveal_strlit("span");
    reveal_strlit("u");
    let s = "</"@ + n + ">"@;
    assert(s[1] == '/');
    assert(s[2] == n[0]);
    assert forall|i: int| 0 <= i < s.len() && #[trigger] s[i] == '<' implies i + 2 < s.len() && (
    tag_start(s[i + 1]) || (s[i + 1] == '/' && tag_start(s[i + 2]))) by {
        if i > 0 {
            if i < 2 + n.len() {
                assert(s[i] == n[i - 2]);
            } else {
                assert(s[i] == '>');
            }
        }
    }
}

/// Whatever the allowlist scan writes after `out` keeps every `<` on an
/// allowed inline tag.
proof fn lemma_allow_scan_tags_only(v: Seq<char>, pos: int, stack: Seq<Seq<char>>, out: Seq<char>)
    requires
        tags_only(out),
    ensures
        allow_scan(v, pos, stack, out) matches Some(o) ==> tags_only(o),
    decreases v.len() - pos,
{
    if pos < 0 || pos >= v.len() {
    } else if v[pos] == '<' {
        match crate::text::first_of(v, '>', pos + 1) {
            None => {},
            Some(end) => {
                crate::text::lemma_first_of(v, '>', pos + 1);
                let inner = v.subrange(pos + 1, end);
                let closing = inner.len() > 0 && inner[0] == '/';
                let body = if closing {
                    inner.drop_first()
                } else {
                    inner
                };
                let te = trim_end(body);
                let self_close = te.len() > 0 && te.last() == '/';
                let nb = trim(crate::text::strip_all_end(te, '/'));
                if nb.len() > 0 {
                    match split_tag(nb) {
                        None => {},
                        Some((name, at)) => {
                            let nl = lower(name);
                            if allowed_tag(nl) {
                                lemma_split_tag_no_lt(nb);
                                if closing {
                                    if stack.len() > 0 && stack.last() == nl {
                                        lemma_close_tag(nl);
                                        lemma_tags_only_concat(out, "</"@ + nl + ">"@);
                                        assert(out + "</"@ + nl + ">"@ == out + ("</"@ + nl
                                            + ">"@));
                                        lemma_allow_scan_tags_only(
                                            v,
                                            end + 1,
                                            stack.drop_last(),
                                            out + "</"@ + nl + ">"@,
                                        );
                                    }
                                } else if self_close || nl == "br"@ {
                                    reveal_strlit(" />");
                                    lemma_open_tag(nl, at, " />"@);
                                    lemma_tags_only_concat(out, "<"@ + nl + at + " />"@);
                                    assert(out + "<"@ + nl + at + " />"@ == out + ("<"@ + nl + at
                                        + " />"@));
                                    lemma_allow_scan_tags_only(
                                        v,
                                        end + 1,
                                        stack,
                                        out + "<"@ + nl + at + " />"@,
                                    );
                                } else {
                                    reveal_strlit(">");
                                    lemma_open_tag(nl, at, ">"@);
                                    lemma_tags_only_concat(out, "<"@ + nl + at + ">"@);
                                    assert(out + "<"@ + nl + at + ">"@ == out + ("<"@ + nl + at
                                        + ">"@));
                                    lemma_allow_scan_tags_only(
                                        v,
                                        end + 1,
                                        stack.push(nl),
                                        out + "<"@ + nl + at + ">"@,
                                    );
                                }
                            }
                        },
                    }
                }
            },
        }
    } else {
        crate::text::lemma_first_of(v, '<', pos + 1);
        let next = match crate::text::first_of(v, '<', pos + 1) {
            Some(k) => k,
            None => v.len() as int,
        };
        lemma_escaped_no_lt(v.subrange(pos, next));
        lemma_no_lt_tags_only(escaped(v.subrange(pos, next)));
        lemma_tags_only_concat(out, escaped(v.subrange(pos, next)));
        lemma_allow_scan_tags_only(v, next, stack, out + escaped(v.subrange(pos, next)));
    }
}

/// Text that keeps every `<` on an allowed inline tag holds no `</mj-`,
/// in any letter case.
pub proof fn lemma_tags_only_no_closer(s: Seq<char>)
    requires
        tags_only(s),
    ensures
        !contains_ci(s, "</mj-"@),
{
    reveal_strlit("</mj-");
    let needle = lower("</mj-"@);
    assert(needle =~= "</mj-"@);
    let h = lower(s);
    lemma_find_from_is_first(h, needle, 0);
    if find_from(h, needle, 0) is Some {
        let p = find_from(h, needle, 0)->0;
        assert(occurs_at(h, needle, p));
        assert(h.subrange(p, p + 5)[0] == h[p]);
        assert(h.subrange(p, p + 5)[1] == h[p + 1]);
        assert(h.subrange(p, p + 5)[2] == h[p + 2]);
        assert(h[p] == lower_char(s[p]));
        assert(h[p + 1] == lower_char(s[p + 1]));
        assert(h[p + 2] == lower_char(s[p + 2]));
        assert(s[p] == '<');
        assert(false);
    }
}

/// What `<mj-text>` content becomes holds no `</mj-` in any letter case:
/// text can never close the element that holds it. Every `<` left in it
/// opens or closes one of the allowed inline tags.
pub proof fn law_text_cannot_close_mj(content: Seq<char>)
    ensures
        tags_only(text_inner(content)),
        !contains_ci(text_inner(content), "</mj-"@),
        !contains(text_inner(content), "</mj-"@),
{
    match allow_scan(content, 0, Seq::empty(), Seq::empty()) {
        Some(o) => {
            lemma_no_lt_tags_only(Seq::empty());
            lemma_allow_scan_tags_only(content, 0, Seq::empty(), Seq::empty());
        },
        None => {
            lemma_escaped_no_lt(content);
            lemma_no_lt_tags_only(escaped(content));
        },
    }
    lemma_tags_only_no_closer(text_inner(content));
    if contains(text_inner(content), "</mj-"@) {
        lemma_lower_contains(text_inner(content), "</mj-"@);
    }
}

/// A case-sensitive occurrence is also one that ignores case.
proof fn lemma_lower_contains(s: Seq<char>, n: Seq<char>)
    requires
        contains(s, n),
    ensures
        contains_ci(s, n),
{
    lemma_find_from_is_first(s, n, 0);
    let p = find_from(s, n, 0)->0;
    assert(occurs_at(s, n, p));
    assert(lower(s).subrange(p, p + n.len()) =~= lower(n)) by {
        assert forall|k: int| 0 <= k < n.len() implies lower(s).subrange(p, p + n.len())[k]
            == lower(n)[k] by {
            assert(s.subrange(p, p + n.len())[k] == n[k]);
        }
    }
    assert(occurs_at(lower(s), lower(n), p));
    lemma_find_from_is_first(lower(s), lower(n), 0);
    if find_from(lower(s), lower(n), 0) is None {
        assert(!occurs_at(lower(s), lower(n), p));
    }
}

/// What ignoring case finds in a slice of `s`, it finds in `s`.
proof fn lemma_contains_ci_slice(s: Seq<char>, a: int, b: int, n: Seq<char>)
    requires
        0 <= a <= b <= s.len(),
        contains_ci(s.subrange(a, b), n),
    ensures
        contains_ci(s, n),
{
    let part = s.subrange(a, b);
    let ln = lower(n);
    lemma_find_from_is_first(lower(part), ln, 0);
    let p = find_from(lower(part), ln, 0)->0;
    assert(occurs_at(lower(part), ln, p));
    assert(lower(s).subrange(a + p, a + p + ln.len()) =~= lower(part).subrange(p, p + ln.len()));
    assert(occurs_at(lower(s), ln, a + p));
    lemma_find_from_is_first(lower(s), ln, 0);
}

/// What `<mj-table>` content becomes holds no `</mj-` in any letter case:
/// rows can never close the element that holds them.
pub proof fn law_table_cannot_close_mj(content: Seq<char>)
    ensures
        !contains_ci(table_inner(content), "</mj-"@),
{
    if contains_ci(content, "</mj-"@) {
        lemma_escaped_no_lt(content);
        lemma_no_lt_tags_only(escaped(content));
        lemma_tags_only_no_closer(escaped(content));
    } else {
        let a = lemma_trim_start_from(content);
        let ts = trim_start(content);
        let b = lemma_trim_end_to(ts);
        assert(trim(content) =~= content.subrange(a, a + b));
        if contains_ci(trim(content), "</mj-"@) {
            lemma_contains_ci_slice(content, a, a + b, "</mj-"@);
        }
    }
}

} // verus!

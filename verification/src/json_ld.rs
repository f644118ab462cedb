//! `head.json_ld`: the structured-data block placed in `<mj-head>`.
//!
//! The JSON text is read by `serde_json`; what the library decides from that
//! reading (the payload it emits, the findings validation reports) is stated
//! and proved here over the reading's plain values.
use vstd::prelude::*;

use serde_json::{to_string_pretty, Value};

use crate::text::{contains_ci, owned, push_str, trim, trim_str, views};

verus! {

/// What `serde_json` makes of a JSON text, as plain values.
pub enum JsonReading {
    /// Not JSON; the parser's message.
    Invalid(String),
    /// A string, number, boolean or null.
    Scalar,
    /// An object: its pretty-printed form, its keys, and its `@type` when
    /// that is a string.
    Object(String, Vec<String>, Option<String>),
    /// An array: its pretty-printed form; for each element that is an
    /// object, that object's keys; and for each element, its `@type` when it
    /// is an object whose `@type` is a string.
    Array(String, Vec<Option<Vec<String>>>, Vec<Option<String>>),
}

/// The view of a [`JsonReading`].
pub enum JsonShape {
    Invalid(Seq<char>),
    Scalar,
    Object(Seq<char>, Seq<Seq<char>>, Option<Seq<char>>),
    Array(Seq<char>, Seq<Option<Seq<Seq<char>>>>, Seq<Option<Seq<char>>>),
}

pub open spec fn opt_view(o: Option<String>) -> Option<Seq<char>> {
    match o {
        Some(s) => Some(s@),
        None => None,
    }
}

pub open spec fn opt_views(v: Seq<Option<String>>) -> Seq<Option<Seq<char>>> {
    v.map_values(|o: Option<String>| opt_view(o))
}

pub open spec fn key_lists(v: Seq<Option<Vec<String>>>) -> Seq<Option<Seq<Seq<char>>>> {
    v.map_values(
        |o: Option<Vec<String>>|
            match o {
                Some(ks) => Some(views(ks@)),
                None => None,
            },
    )
}

impl View for JsonReading {
    type V = JsonShape;

    open spec fn view(&self) -> JsonShape {
        match self {
            JsonReading::Invalid(m) => JsonShape::Invalid(m@),
            JsonReading::Scalar => JsonShape::Scalar,
            JsonReading::Object(p, ks, ty) => JsonShape::Object(p@, views(ks@), opt_view(*ty)),
            JsonReading::Array(p, eks, tys) => JsonShape::Array(p@, key_lists(eks@), opt_views(tys@)),
        }
    }
}

/// What `serde_json` reads from a JSON text: a function of the text alone.
pub uninterp spec fn json_reading(raw: Seq<char>) -> JsonShape;

/// Reads `raw` with `serde_json::from_str` into a `serde_json::Value`.
/// A parse error becomes its `Display` message. An object or array is
/// printed with `serde_json::to_string_pretty` (which cannot fail on a parsed
/// value: its map keys are strings) and its keys listed, in the map's own
/// (sorted) order, with the `@type` member when it is a string; any other
/// value is a scalar. The contract claims only that
/// the result is a function of `raw`, named [`json_reading`]; nothing is said
/// of the parser's grammar, its messages or the printed layout.
#[verifier::external_body]
pub(crate) fn read_json(raw: &str) -> (r: JsonReading)
    ensures
        r@ == json_reading(raw@),
{
    match serde_json::from_str::<Value>(raw) {
        Err(e) => JsonReading::Invalid(e.to_string()),
        Ok(v) => {
            let p = to_string_pretty(&v).unwrap_or_default();
            let ty = |e: &Value| e.get("@type").and_then(Value::as_str).map(String::from);
            match &v {
                Value::Object(m) => JsonReading::Object(p, m.keys().cloned().collect(), ty(&v)),
                Value::Array(a) => JsonReading::Array(p,
                    a.iter().map(|e| e.as_object().map(|m| m.keys().cloned().collect())).collect(),
                    a.iter().map(ty).collect()),
                _ => JsonReading::Scalar,
            }
        },
    }
}

/// What the MJML carries for a reading: the pretty form of an object or
/// array, or the refusal of anything else.
pub open spec fn payload_of(r: JsonShape) -> Result<Seq<char>, Seq<char>> {
    match r {
        JsonShape::Invalid(m) => Err("head.json_ld is not valid JSON: "@ + m),
        JsonShape::Scalar => Err("head.json_ld must be a JSON object or array"@),
        JsonShape::Object(p, _, _) => Ok(p),
        JsonShape::Array(p, _, _) => Ok(p),
    }
}

/// The emitted payload for `head.json_ld`: nothing when blank, else the
/// payload of the trimmed text's reading.
pub open spec fn json_ld_payload(raw: Seq<char>) -> Result<Option<Seq<char>>, Seq<char>> {
    if trim(raw).len() == 0 {
        Ok(None)
    } else {
        match payload_of(json_reading(trim(raw))) {
            Ok(p) => Ok(Some(p)),
            Err(e) => Err(e),
        }
    }
}

/// The payload for a given reading (see [`payload_of`]).
pub fn payload_from_reading(r: &JsonReading) -> (out: Result<String, String>)
    ensures
        out matches Ok(p) ==> payload_of(r@) == Ok::<Seq<char>, Seq<char>>(p@),
        out matches Err(e) ==> payload_of(r@) == Err::<Seq<char>, Seq<char>>(e@),
{
    match r {
        JsonReading::Invalid(m) => {
            let mut e = owned("head.json_ld is not valid JSON: ");
            push_str(&mut e, m.as_str());
            Err(e)
        },
        JsonReading::Scalar => Err(owned("head.json_ld must be a JSON object or array")),
        JsonReading::Object(p, _, _) => Ok(owned(p.as_str())),
        JsonReading::Array(p, _, _) => Ok(owned(p.as_str())),
    }
}

/// The payload of `head.json_ld` (see [`json_ld_payload`]).
pub fn json_ld_payload_exec(raw: &str) -> (out: Result<Option<String>, String>)
    ensures
        out matches Ok(Some(p)) ==> json_ld_payload(raw@) == Ok::<Option<Seq<char>>, Seq<char>>(Some(p@)),
        out matches Ok(None) ==> json_ld_payload(raw@) == Ok::<Option<Seq<char>>, Seq<char>>(None),
        out matches Err(e) ==> json_ld_payload(raw@) == Err::<Option<Seq<char>>, Seq<char>>(e@),
{
    let t = trim_str(raw);
    if t.as_str().is_empty() {
        return Ok(None);
    }
    match payload_from_reading(&read_json(t.as_str())) {
        Ok(p) => Ok(Some(p)),
        Err(e) => Err(e),
    }
}

/// A reading's pretty form holds a closer that would end the `<script>` or
/// the MJML element around it.
pub open spec fn has_forbidden_closer(pretty: Seq<char>) -> bool {
    contains_ci(pretty, "</script"@) || contains_ci(pretty, "</mj-"@)
}

/// `"@type"` is among the keys.
pub open spec fn has_type_key(keys: Seq<Seq<char>>) -> bool {
    keys.contains("@type"@)
}

/// An array element that is an object with a `"@type"` key.
pub open spec fn typed_entry(o: Option<Seq<Seq<char>>>) -> bool {
    match o {
        Some(ks) => has_type_key(ks),
        None => false,
    }
}

/// Some element of the array is an object with a `"@type"` key.
pub open spec fn any_typed(els: Seq<Option<Seq<Seq<char>>>>) -> bool {
    exists|i: int| 0 <= i < els.len() && typed_entry(#[trigger] els[i])
}

/// Errors and warnings that validation reports for a reading.
pub open spec fn findings_of(r: JsonShape) -> (Seq<Seq<char>>, Seq<Seq<char>>) {
    let closer = "head.json_ld pretty form contains a forbidden closer"@;
    match r {
        JsonShape::Invalid(m) => (seq!["head.json_ld is not valid JSON: "@ + m], Seq::empty()),
        JsonShape::Scalar => (seq!["head.json_ld must be a JSON object or array"@], Seq::empty()),
        JsonShape::Object(p, ks, _) => (
            if has_forbidden_closer(p) { seq![closer] } else { Seq::empty() },
            if has_type_key(ks) { Seq::empty() } else { seq!["head.json_ld has no @type at the root"@] },
        ),
        JsonShape::Array(p, els, _) => (
            if has_forbidden_closer(p) { seq![closer] } else { Seq::empty() },
            if any_typed(els) { Seq::empty() } else { seq!["head.json_ld array has no @type on any element"@] },
        ),
    }
}

fn has_type_key_exec(keys: &Vec<String>) -> (r: bool)
    ensures
        r == has_type_key(views(keys@)),
{
    let mut i: usize = 0;
    while i < keys.len()
        invariant
            i <= keys.len(),
            forall|j: int| 0 <= j < i ==> views(keys@)[j] != "@type"@,
        decreases keys.len() - i,
    {
        if crate::text::eq_str(keys[i].as_str(), "@type") {
            assert(views(keys@)[i as int] == "@type"@);
            return true;
        }
        i += 1;
    }
    false
}

/// Errors and warnings for a given reading (see [`findings_of`]).
pub fn findings_from_reading(r: &JsonReading) -> (out: (Vec<String>, Vec<String>))
    ensures
        (views(out.0@), views(out.1@)) == findings_of(r@),
{
    let mut errors: Vec<String> = Vec::new();
    let mut warnings: Vec<String> = Vec::new();
    match r {
        JsonReading::Invalid(m) => {
            let mut e = owned("head.json_ld is not valid JSON: ");
            push_str(&mut e, m.as_str());
            errors.push(e);
        },
        JsonReading::Scalar => {
            errors.push(owned("head.json_ld must be a JSON object or array"));
        },
        JsonReading::Object(p, ks, _) => {
            if crate::text::contains_ci_str(p.as_str(), "</script") || crate::text::contains_ci_str(
                p.as_str(),
                "</mj-",
            ) {
                errors.push(owned("head.json_ld pretty form contains a forbidden closer"));
            }
            if !has_type_key_exec(ks) {
                warnings.push(owned("head.json_ld has no @type at the root"));
            }
        },
        JsonReading::Array(p, els, _) => {
            if crate::text::contains_ci_str(p.as_str(), "</script") || crate::text::contains_ci_str(
                p.as_str(),
                "</mj-",
            ) {
                errors.push(owned("head.json_ld pretty form contains a forbidden closer"));
            }
            let mut any = false;
            let mut i: usize = 0;
            while i < els.len()
                invariant
                    i <= els.len(),
                    any == exists|j: int| 0 <= j < i && typed_entry(#[trigger] key_lists(els@)[j]),
                decreases els.len() - i,
            {
                match &els[i] {
                    Some(ks) => {
                        if has_type_key_exec(ks) {
                            any = true;
                        }
                    },
                    None => {},
                }
                assert(key_lists(els@)[i as int] == match els@[i as int] {
                    Some(ks) => Some(views(ks@)),
                    None => None::<Seq<Seq<char>>>,
                });
                i += 1;
            }
            if !any {
                warnings.push(owned("head.json_ld array has no @type on any element"));
            }
        },
    }
    assert(views(errors@) =~= findings_of(r@).0);
    assert(views(warnings@) =~= findings_of(r@).1);
    (errors, warnings)
}

/// What validation reports of `head.json_ld`: nothing when blank, else the
/// findings of the trimmed text's reading.
pub open spec fn json_ld_findings(raw: Seq<char>) -> (Seq<Seq<char>>, Seq<Seq<char>>) {
    if trim(raw).len() == 0 {
        (Seq::empty(), Seq::empty())
    } else {
        findings_of(json_reading(trim(raw)))
    }
}

/// Errors and warnings for `head.json_ld` (see [`json_ld_findings`]).
pub fn json_ld_findings_exec(raw: &str) -> (out: (Vec<String>, Vec<String>))
    ensures
        (views(out.0@), views(out.1@)) == json_ld_findings(raw@),
{
    let t = trim_str(raw);
    if t.as_str().is_empty() {
        let e: Vec<String> = Vec::new();
        let w: Vec<String> = Vec::new();
        assert(views(e@) =~= Seq::<Seq<char>>::empty());
        return (e, w);
    }
    findings_from_reading(&read_json(t.as_str()))
}

} // verus!

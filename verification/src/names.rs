//! The identifier synthesizer: tag names inferred from type expressions,
//! and error-type names derived from function names.

use vstd::prelude::*;
use vstd::string::StrSliceExecFns;
use vstd::string::StringExecFns;
use crate::text::push_chars;
use crate::types::{strings_view, TypeExpr, TypeExprV};

verus! {

/// What `char::to_uppercase` yields for a character.
pub uninterp spec fn upper_of(c: char) -> Seq<char>;

/// Relies on `char::to_uppercase`: yields the Unicode uppercase mapping of
/// the character as one or more characters, a function of the character
/// alone.
#[verifier::external_body]
fn char_to_uppercase(c: char) -> (r: Vec<char>)
    ensures
        r@ == upper_of(c),
        r@.len() >= 1,
{
    c.to_uppercase().collect()
}

/// The snake-to-camel transform of `s` from position `i` on: `_` separates
/// segments and is dropped; a segment's first character is replaced by its
/// uppercase mapping; every other character is kept. `boundary` says
/// whether position `i` begins a segment.
pub open spec fn camel_from(s: Seq<char>, i: int, boundary: bool) -> Seq<char>
    decreases s.len() - i,
{
    if i < 0 || i >= s.len() {
        Seq::empty()
    } else if s[i] == '_' {
        camel_from(s, i + 1, true)
    } else if boundary {
        upper_of(s[i]) + camel_from(s, i + 1, false)
    } else {
        seq![s[i]] + camel_from(s, i + 1, false)
    }
}

/// The camel-case form of an identifier: each `_`-separated piece with its
/// first character upper-cased, concatenated.
pub open spec fn camel_of(s: Seq<char>) -> Seq<char> {
    camel_from(s, 0, true)
}

/// The error-type name derived from a function name: its camel-case form
/// followed by `Error`.
pub open spec fn error_name_of(s: Seq<char>) -> Seq<char> {
    camel_of(s) + "Error"@
}

/// Appends the camel-case form of `ident` to `name`.
pub fn snake_case_to_camel_case(ident: &str, name: &mut String)
    ensures
        final(name)@ == old(name)@ + camel_of(ident@),
{
    let n = ident.unicode_len();
    let mut i: usize = 0;
    let mut boundary = true;
    while i < n
        invariant
            i <= n,
            n == ident@.len(),
            old(name)@ + camel_of(ident@) == name@ + camel_from(ident@, i as int, boundary),
        decreases n - i,
    {
        let c = ident.get_char(i);
        if c == '_' {
            boundary = true;
        } else if boundary {
            let up = char_to_uppercase(c);
            push_chars(name, &up);
            assert((name@ + upper_of(ident@[i as int])) + camel_from(ident@, i + 1, false) =~= name@
                + (upper_of(ident@[i as int]) + camel_from(ident@, i + 1, false)));
            boundary = false;
        } else {
            crate::text::push_char(name, c);
            assert(name@.push(ident@[i as int]) + camel_from(ident@, i + 1, false) =~= name@ + (seq![
                ident@[i as int],
            ] + camel_from(ident@, i + 1, false)));
            boundary = false;
        }
        i += 1;
    }
    assert(name@ + camel_from(ident@, n as int, boundary) =~= name@);
}

/// The error-type name for a function: the camel-case form of its name,
/// followed by `Error`.
pub fn fn_name_to_error(ident: &str) -> (r: String)
    ensures
        r@ == error_name_of(ident@),
{
    let mut name = String::new();
    snake_case_to_camel_case(ident, &mut name);
    assert(name@ =~= camel_of(ident@));
    name.append("Error");
    name
}

/// The concatenated camel-case forms of a path's segments, from index `i`
/// on.
pub open spec fn camel_concat_from(segments: Seq<Seq<char>>, i: int) -> Seq<char>
    decreases segments.len() - i,
{
    if i < 0 || i >= segments.len() {
        Seq::empty()
    } else {
        camel_of(segments[i]) + camel_concat_from(segments, i + 1)
    }
}

/// The concatenated camel-case forms of a path's segments.
pub open spec fn camel_concat(segments: Seq<Seq<char>>) -> Seq<char> {
    camel_concat_from(segments, 0)
}

/// The tag inferred from a type expression: a single-segment path names its
/// tag verbatim, preserving its casing; a multi-segment path names the
/// concatenation of its camel-cased segments; a parenthesized group defers
/// to the type it wraps; no other shape infers a tag.
pub open spec fn tag_of(t: TypeExprV) -> Option<Seq<char>>
    decreases t,
{
    match t {
        TypeExprV::Path { leading: _, segments } => if segments.len() == 1 {
            Option::Some(segments[0])
        } else if segments.len() >= 2 {
            Option::Some(camel_concat(segments))
        } else {
            Option::None
        },
        TypeExprV::Grouped { inner } => tag_of(*inner),
        TypeExprV::Other { .. } => Option::None,
    }
}

/// The tag for a multi-segment path: its camel-cased segments, concatenated.
fn path_to_variant(segments: &Vec<String>) -> (r: String)
    ensures
        r@ == camel_concat(strings_view(segments@)),
{
    let mut name = String::new();
    let mut i: usize = 0;
    while i < segments.len()
        invariant
            i <= segments@.len(),
            camel_concat(strings_view(segments@)) == name@ + camel_concat_from(
                strings_view(segments@),
                i as int,
            ),
        decreases segments@.len() - i,
    {
        snake_case_to_camel_case(segments[i].as_str(), &mut name);
        assert(strings_view(segments@)[i as int] == segments@[i as int]@);
        assert((name@ + camel_of(segments@[i as int]@)) + camel_concat_from(
            strings_view(segments@),
            i + 1,
        ) =~= name@ + (camel_of(segments@[i as int]@) + camel_concat_from(
            strings_view(segments@),
            i + 1,
        )));
        i += 1;
    }
    assert(name@ + camel_concat_from(strings_view(segments@), segments@.len() as int) =~= name@);
    name
}

/// The inferred tag for a type expression, or nothing where no tag can be
/// inferred.
pub fn type_to_variant(typ: &TypeExpr) -> (r: Option<String>)
    ensures
        (match r {
            Option::Some(s) => tag_of(typ@) == Option::Some(s@),
            Option::None => tag_of(typ@) is None,
        }),
    decreases *typ,
{
    match typ {
        TypeExpr::Path { leading: _, segments } => {
            if segments.len() == 1 {
                let s = segments[0].clone();
                assert(strings_view(segments@)[0] == segments@[0]@);
                Option::Some(s)
            } else if segments.len() >= 2 {
                Option::Some(path_to_variant(segments))
            } else {
                Option::None
            }
        },
        TypeExpr::Grouped { inner } => type_to_variant(inner),
        TypeExpr::Other { .. } => Option::None,
    }
}

/// Law: a leaf whose type expression is a single-segment path and carries
/// no alias infers its tag as that segment's identifier, unchanged.
pub proof fn lemma_single_segment_tag(leading: bool, segments: Seq<Seq<char>>)
    requires
        segments.len() == 1,
    ensures
        tag_of(TypeExprV::Path { leading, segments }) == Option::Some(segments[0]),
{
}

/// Law: a leaf whose type expression is a multi-segment path and carries no
/// alias infers its tag as the concatenation of the camel-cased segments.
pub proof fn lemma_multi_segment_tag(leading: bool, segments: Seq<Seq<char>>)
    requires
        segments.len() >= 2,
    ensures
        tag_of(TypeExprV::Path { leading, segments }) == Option::Some(camel_concat(segments)),
{
}


} // verus!

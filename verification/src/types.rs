//! The data model of a declaration and of the union it resolves to: type
//! expressions, visibility qualifiers, resolved variants, the composite
//! error schema, and the errors a declaration can be rejected with.

use vstd::prelude::*;
use crate::text::str_eq;

verus! {

/// A type expression, as far as this generator reads it: a plain path (an
/// identifier, or identifiers joined by `::`, optionally with a leading
/// `::`), a parenthesized group around another type expression, or any
/// other shape, kept as raw text and treated as opaque.
pub enum TypeExpr {
    Path { leading: bool, segments: Vec<String> },
    Grouped { inner: Box<TypeExpr> },
    Other { text: String },
}

/// The mathematical value of a [`TypeExpr`].
#[verifier::ext_equal]
pub enum TypeExprV {
    Path { leading: bool, segments: Seq<Seq<char>> },
    Grouped { inner: Box<TypeExprV> },
    Other { text: Seq<char> },
}

/// The views of a vector of strings, elementwise.
pub open spec fn strings_view(v: Seq<String>) -> Seq<Seq<char>> {
    v.map_values(|s: String| s@)
}

pub open spec fn type_expr_view(t: TypeExpr) -> TypeExprV
    decreases t,
{
    match t {
        TypeExpr::Path { leading, segments } => TypeExprV::Path {
            leading,
            segments: strings_view(segments@),
        },
        TypeExpr::Grouped { inner } => TypeExprV::Grouped {
            inner: Box::new(type_expr_view(*inner)),
        },
        TypeExpr::Other { text } => TypeExprV::Other { text: text@ },
    }
}

impl View for TypeExpr {
    type V = TypeExprV;

    open spec fn view(&self) -> TypeExprV {
        type_expr_view(*self)
    }
}

impl TypeExpr {
    /// Whether two type expressions are the same expression.
    pub fn same_as(&self, other: &TypeExpr) -> (r: bool)
        ensures
            r == (self@ == other@),
        decreases *self,
    {
        match (self, other) {
            (
                TypeExpr::Path { leading: l1, segments: s1 },
                TypeExpr::Path { leading: l2, segments: s2 },
            ) => {
                assert(self@ == TypeExprV::Path { leading: *l1, segments: strings_view(s1@) });
                assert(other@ == TypeExprV::Path { leading: *l2, segments: strings_view(s2@) });
                if *l1 != *l2 || s1.len() != s2.len() {
                    assert(strings_view(s1@).len() == s1@.len());
                    assert(strings_view(s2@).len() == s2@.len());
                    return false;
                }
                let mut i: usize = 0;
                while i < s1.len()
                    invariant
                        i <= s1@.len(),
                        s1@.len() == s2@.len(),
                        self@ == (TypeExprV::Path { leading: *l1, segments: strings_view(s1@) }),
                        other@ == (TypeExprV::Path { leading: *l1, segments: strings_view(s2@) }),
                        forall|k: int| 0 <= k < i ==> strings_view(s1@)[k] == strings_view(s2@)[k],
                    decreases s1@.len() - i,
                {
                    if !str_eq(s1[i].as_str(), s2[i].as_str()) {
                        assert(strings_view(s1@)[i as int] != strings_view(s2@)[i as int]);
                        return false;
                    }
                    assert(strings_view(s1@)[i as int] == strings_view(s2@)[i as int]);
                    i += 1;
                }
                assert(strings_view(s1@) =~= strings_view(s2@));
                true
            },
            (TypeExpr::Grouped { inner: i1 }, TypeExpr::Grouped { inner: i2 }) => {
                let r = i1.same_as(i2);
                assert(r == (self@ == other@));
                r
            },
            (TypeExpr::Other { text: t1 }, TypeExpr::Other { text: t2 }) => {
                str_eq(t1.as_str(), t2.as_str())
            },
            _ => {
                assert(self@ != other@);
                false
            },
        }
    }

    /// A fresh type expression with the same value.
    pub fn duplicate(&self) -> (r: TypeExpr)
        ensures
            r@ == self@,
        decreases *self,
    {
        match self {
            TypeExpr::Path { leading, segments } => {
                let mut segs: Vec<String> = Vec::new();
                let mut i: usize = 0;
                while i < segments.len()
                    invariant
                        i <= segments@.len(),
                        segs@.len() == i,
                        forall|m: int| 0 <= m < i ==> segs@[m]@ == segments@[m]@,
                    decreases segments@.len() - i,
                {
                    segs.push(segments[i].clone());
                    i += 1;
                }
                assert(strings_view(segs@) =~= strings_view(segments@)) by {
                    assert forall|m: int| 0 <= m < segs@.len() implies strings_view(segs@)[m]
                        == strings_view(segments@)[m] by {
                        assert(strings_view(segs@)[m] == segs@[m]@);
                        assert(strings_view(segments@)[m] == segments@[m]@);
                    }
                }
                TypeExpr::Path { leading: *leading, segments: segs }
            },
            TypeExpr::Grouped { inner } => TypeExpr::Grouped { inner: Box::new(inner.duplicate()) },
            TypeExpr::Other { text } => TypeExpr::Other { text: text.clone() },
        }
    }
}

impl Visibility {
    /// A fresh visibility qualifier with the same value.
    pub fn duplicate(&self) -> (r: Visibility)
        ensures
            r@ == self@,
    {
        match self {
            Visibility::Inherited => Visibility::Inherited,
            Visibility::Public => Visibility::Public,
            Visibility::Restricted { path } => Visibility::Restricted { path: path.clone() },
        }
    }
}

/// The view of an optional string.
pub open spec fn option_string_view(o: Option<String>) -> Option<Seq<char>> {
    match o {
        Option::Some(s) => Option::Some(s@),
        Option::None => Option::None,
    }
}

/// A visibility qualifier: absent, `pub`, or `pub(...)` with the text
/// between the parentheses kept as written.
pub enum Visibility {
    Inherited,
    Public,
    Restricted { path: String },
}

#[verifier::ext_equal]
pub enum VisibilityV {
    Inherited,
    Public,
    Restricted { path: Seq<char> },
}

impl View for Visibility {
    type V = VisibilityV;

    open spec fn view(&self) -> VisibilityV {
        match *self {
            Visibility::Inherited => VisibilityV::Inherited,
            Visibility::Public => VisibilityV::Public,
            Visibility::Restricted { path } => VisibilityV::Restricted { path: path@ },
        }
    }
}

/// One resolved leaf of a union: the wrapped source type and the tag naming
/// its case.
pub struct Variant {
    pub typ: TypeExpr,
    pub name: String,
}

#[verifier::ext_equal]
pub struct VariantV {
    pub typ: TypeExprV,
    pub name: Seq<char>,
}

impl View for Variant {
    type V = VariantV;

    open spec fn view(&self) -> VariantV {
        VariantV { typ: self.typ@, name: self.name@ }
    }
}

/// The views of a vector of variants, elementwise.
pub open spec fn variants_view(v: Seq<Variant>) -> Seq<VariantV> {
    v.map_values(|x: Variant| x@)
}

/// The views of a vector of type expressions, elementwise.
pub open spec fn type_exprs_view(v: Seq<TypeExpr>) -> Seq<TypeExprV> {
    v.map_values(|x: TypeExpr| x@)
}

/// A resolved schema: everything the synthesizer needs to emit one union.
pub struct CompositeError {
    pub visibility: Visibility,
    pub name: String,
    pub variants: Vec<Variant>,
    pub composed: Vec<TypeExpr>,
}

#[verifier::ext_equal]
pub struct CompositeErrorV {
    pub visibility: VisibilityV,
    pub name: Seq<char>,
    pub variants: Seq<VariantV>,
    pub composed: Seq<TypeExprV>,
}

impl View for CompositeError {
    type V = CompositeErrorV;

    open spec fn view(&self) -> CompositeErrorV {
        CompositeErrorV {
            visibility: self.visibility@,
            name: self.name@,
            variants: variants_view(self.variants@),
            composed: type_exprs_view(self.composed@),
        }
    }
}

/// What the generator reads of a function the declaration is attached to:
/// its name, its visibility, and the text of its declared result type, if
/// it declares one.
pub struct FunctionSig {
    pub visibility: Visibility,
    pub name: String,
    pub output: Option<String>,
}

#[verifier::ext_equal]
pub struct FunctionSigV {
    pub visibility: VisibilityV,
    pub name: Seq<char>,
    pub output: Option<Seq<char>>,
}

impl View for FunctionSig {
    type V = FunctionSigV;

    open spec fn view(&self) -> FunctionSigV {
        FunctionSigV {
            visibility: self.visibility@,
            name: self.name@,
            output: match self.output {
                Option::Some(t) => Option::Some(t@),
                Option::None => Option::None,
            },
        }
    }
}

/// A declaration whose text does not match the grammar. `pos` is the
/// character offset the parser stopped at.
#[derive(Debug, PartialEq, Eq, Structural, Clone, Copy)]
pub enum SyntaxError {
    /// The `type` keyword is missing.
    ExpectedKeywordType { pos: usize },
    /// The target type name is missing or is not an identifier.
    ExpectedName { pos: usize },
    /// A clause's type expression is missing.
    ExpectedType { pos: usize },
    /// The alias after `as` is missing or is not an identifier.
    ExpectedAlias { pos: usize },
    /// Text follows where the declaration should end.
    ExpectedEnd { pos: usize },
    /// A `pub(...)` qualifier is never closed.
    UnclosedVisibility { pos: usize },
}

/// A well-formed declaration that cannot be resolved into a schema. Clauses
/// are numbered from zero, in declaration order.
#[derive(Debug, PartialEq, Eq, Structural, Clone, Copy)]
pub enum ResolutionError {
    /// The clause has no explicit alias and its type expression is not one
    /// a tag can be inferred from.
    TagNotInferable { clause: usize },
    /// Two clauses resolve to the same tag.
    DuplicateTag { first: usize, second: usize },
}

/// Everything that can go wrong with one declaration.
#[derive(Debug, PartialEq, Eq, Structural, Clone, Copy)]
pub enum Error {
    Syntax(SyntaxError),
    Resolution(ResolutionError),
}

} // verus!

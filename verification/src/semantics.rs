//! A model of the values of a synthesized union, faithful to the emitted
//! code: which case a value lives in and which leaf value it holds. The
//! emitted conversions wrap a leaf value in its case; the emitted
//! rendering and cause accessor defer to the held value; the emitted
//! delegation re-wraps the held value in the absorbing union. Stating
//! those operations here lets their laws be proved once, over every
//! schema, and exercised on concrete schemas.

use vstd::prelude::*;
use vstd::pervasive::unreached;
use crate::types::{CompositeError, CompositeErrorV, TypeExpr, TypeExprV};

verus! {

/// A value of one declared leaf source type, as the generated code
/// observes it: its type expression and the text its own textual
/// rendering produces.
pub struct LeafValue {
    pub typ: TypeExpr,
    pub rendering: String,
}

/// The mathematical value of a [`LeafValue`].
#[verifier::ext_equal]
pub struct LeafValueV {
    pub typ: TypeExprV,
    pub rendering: Seq<char>,
}

impl View for LeafValue {
    type V = LeafValueV;

    open spec fn view(&self) -> LeafValueV {
        LeafValueV { typ: self.typ@, rendering: self.rendering@ }
    }
}

/// A value of a synthesized union: the case it lives in, holding one
/// leaf value.
pub struct UnionValue {
    pub case: usize,
    pub held: LeafValue,
}

/// The mathematical value of a [`UnionValue`].
#[verifier::ext_equal]
pub struct UnionValueV {
    pub case: int,
    pub held: LeafValueV,
}

impl View for UnionValue {
    type V = UnionValueV;

    open spec fn view(&self) -> UnionValueV {
        UnionValueV { case: self.case as int, held: self.held@ }
    }
}

/// A union value well formed against a schema: its case exists and holds
/// exactly that case's source type.
pub open spec fn value_wf(e: CompositeErrorV, v: UnionValueV) -> bool {
    &&& 0 <= v.case < e.variants.len()
    &&& v.held.typ == e.variants[v.case].typ
}

/// What the emitted textual rendering produces for a union value: the
/// held value's own rendering, by pure delegation.
pub open spec fn rendering_of(v: UnionValueV) -> Seq<char> {
    v.held.rendering
}

/// What the emitted cause accessor yields for a union value: the held
/// value itself.
pub open spec fn cause_of_s(v: UnionValueV) -> LeafValueV {
    v.held
}

/// The first case of `e` at or after `k` whose source type is `t`; the
/// case count where none is.
pub open spec fn first_case_from(e: CompositeErrorV, t: TypeExprV, k: int) -> int
    decreases e.variants.len() - k,
{
    if k < 0 || k >= e.variants.len() {
        e.variants.len() as int
    } else if e.variants[k].typ == t {
        k
    } else {
        first_case_from(e, t, k + 1)
    }
}

/// What the emitted delegation produces: the held value re-wrapped in the
/// first case of the absorbing union that declares its source type.
pub open spec fn delegate_s(v: UnionValueV, outer: CompositeErrorV) -> UnionValueV {
    UnionValueV { case: first_case_from(outer, v.held.typ, 0), held: v.held }
}

/// The emitted leaf conversion: total, wrapping the value in its case.
pub fn leaf_into(e: &CompositeError, case: usize, value: LeafValue) -> (r: UnionValue)
    requires
        case < e@.variants.len(),
        value@.typ == e@.variants[case as int].typ,
    ensures
        r@ == (UnionValueV { case: case as int, held: value@ }),
        value_wf(e@, r@),
{
    UnionValue { case, held: value }
}

/// The emitted textual rendering: defers to the held value's rendering.
pub fn render_value(e: &CompositeError, v: &UnionValue) -> (r: String)
    requires
        value_wf(e@, v@),
    ensures
        r@ == rendering_of(v@),
{
    v.held.rendering.clone()
}

/// The emitted cause accessor: hands out the held value.
pub fn cause_of<'a>(e: &CompositeError, v: &'a UnionValue) -> (r: &'a LeafValue)
    requires
        value_wf(e@, v@),
    ensures
        r@ == cause_of_s(v@),
{
    &v.held
}

/// Scanning for a case of type `t` from `m` finds `k`, the first case at
/// or after `m` with that type.
proof fn lemma_first_case_found(e: CompositeErrorV, t: TypeExprV, k: int, m: int)
    requires
        0 <= m <= k < e.variants.len(),
        e.variants[k].typ == t,
        forall|x: int| m <= x < k ==> e.variants[x].typ != t,
    ensures
        first_case_from(e, t, m) == k,
    decreases k - m,
{
    if m < k {
        lemma_first_case_found(e, t, k, m + 1);
    }
}

/// The emitted delegation operation: dispatches on the case and converts
/// the held value into the absorbing union through that union's own leaf
/// conversion for the held source type.
pub fn delegate_value(inner: &CompositeError, v: UnionValue, outer: &CompositeError) -> (r:
    UnionValue)
    requires
        value_wf(inner@, v@),
        exists|k: int| 0 <= k < outer@.variants.len() && outer@.variants[k].typ == v@.held.typ,
    ensures
        r@ == delegate_s(v@, outer@),
        value_wf(outer@, r@),
        r@.held == v@.held,
{
    let ghost ov = outer@;
    let mut k: usize = 0;
    while k < outer.variants.len()
        invariant
            k <= outer.variants@.len(),
            ov == outer@,
            value_wf(inner@, v@),
            exists|w: int| 0 <= w < ov.variants.len() && ov.variants[w].typ == v@.held.typ,
            forall|x: int| 0 <= x < k ==> ov.variants[x].typ != v@.held.typ,
        decreases outer.variants@.len() - k,
    {
        proof {
            assert(ov.variants[k as int] == outer.variants@[k as int]@);
        }
        if outer.variants[k].typ.same_as(&v.held.typ) {
            proof {
                lemma_first_case_found(ov, v@.held.typ, k as int, 0);
            }
            return UnionValue { case: k, held: v.held };
        }
        k += 1;
    }
    proof {
        let w = choose|w: int| 0 <= w < ov.variants.len() && ov.variants[w].typ == v@.held.typ;
        assert(ov.variants[w].typ != v@.held.typ);
    }
    unreached()
}

/// Law: a zero-clause schema describes an uninhabited union: no value is
/// well formed against it, so the emitted exhaustive-but-empty dispatch
/// is unreachable.
pub proof fn lemma_uninhabited(e: CompositeErrorV, v: UnionValueV)
    requires
        e.variants.len() == 0,
    ensures
        !value_wf(e, v),
{
}

/// Law: converting a value of a declared leaf source type into the union
/// and rendering the result yields exactly the value's own rendering, and
/// its own self as the cause: rendering is pure delegation, never
/// reformatting.
pub proof fn lemma_round_trip_rendering(e: CompositeErrorV, case: int, value: LeafValueV)
    requires
        0 <= case < e.variants.len(),
        value.typ == e.variants[case].typ,
    ensures
        rendering_of(UnionValueV { case, held: value }) == value.rendering,
        cause_of_s(UnionValueV { case, held: value }) == value,
{
}

/// Law: a leaf value taken into an inner union and then delegated into an
/// outer union is observably identical — same held cause, same rendering
/// — to the same value taken directly into the outer union; and where no
/// earlier case of the outer union declares the same source type, the two
/// paths land in the very same case.
pub proof fn lemma_absorption_transitive(
    inner: CompositeErrorV,
    outer: CompositeErrorV,
    icase: int,
    ocase: int,
    value: LeafValueV,
)
    requires
        0 <= icase < inner.variants.len(),
        value.typ == inner.variants[icase].typ,
        0 <= ocase < outer.variants.len(),
        outer.variants[ocase].typ == value.typ,
    ensures
        delegate_s(UnionValueV { case: icase, held: value }, outer).held == (UnionValueV {
            case: ocase,
            held: value,
        }).held,
        rendering_of(delegate_s(UnionValueV { case: icase, held: value }, outer)) == rendering_of(
            UnionValueV { case: ocase, held: value },
        ),
        cause_of_s(delegate_s(UnionValueV { case: icase, held: value }, outer)) == cause_of_s(
            UnionValueV { case: ocase, held: value },
        ),
        (forall|x: int| 0 <= x < ocase ==> outer.variants[x].typ != value.typ) ==> delegate_s(
            UnionValueV { case: icase, held: value },
            outer,
        ) == (UnionValueV { case: ocase, held: value }),
{
    if forall|x: int| 0 <= x < ocase ==> outer.variants[x].typ != value.typ {
        lemma_first_case_found(outer, value.typ, ocase, 0);
    }
}

} // verus!

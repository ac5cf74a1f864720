//! The code synthesizer: turns a resolved schema into the text of the
//! union definition, its conversions, its delegation implementation and
//! its diagnostic plumbing, and patches a declared result type.

use vstd::prelude::*;
use vstd::string::StringExecFns;
use crate::types::{
    CompositeError, CompositeErrorV, FunctionSig, TypeExpr, TypeExprV, Variant, VariantV,
    Visibility, VisibilityV,
};

verus! {

/// `items` joined by `sep`.
pub open spec fn join_with(items: Seq<Seq<char>>, sep: Seq<char>) -> Seq<char>
    decreases items.len(),
{
    if items.len() == 0 {
        Seq::empty()
    } else if items.len() == 1 {
        items[0]
    } else {
        items[0] + sep + join_with(items.skip(1), sep)
    }
}

/// Joining one more item appends a separator and the item.
pub proof fn lemma_join_push(items: Seq<Seq<char>>, x: Seq<char>, sep: Seq<char>)
    ensures
        join_with(items.push(x), sep) == if items.len() == 0 {
            x
        } else {
            join_with(items, sep) + sep + x
        },
    decreases items.len(),
{
    if items.len() == 0 {
        assert(items.push(x) =~= seq![x]);
    } else if items.len() == 1 {
        assert(items.push(x).skip(1) =~= seq![x]);
        assert(items.push(x)[0] == items[0]);
        assert(join_with(items.push(x), sep) == items.push(x)[0] + sep + join_with(
            items.push(x).skip(1),
            sep,
        ));
        assert(join_with(seq![x], sep) == seq![x][0]);
        assert(seq![x][0] == x);
    } else {
        assert(items.push(x).skip(1) =~= items.skip(1).push(x));
        lemma_join_push(items.skip(1), x, sep);
        assert(items.push(x)[0] == items[0]);
        assert((items[0] + sep + join_with(items.skip(1), sep)) + sep + x =~= items[0] + sep + (
        join_with(items.skip(1), sep) + sep + x));
    }
}

/// `items` concatenated.
pub open spec fn concat_all(items: Seq<Seq<char>>) -> Seq<char>
    decreases items.len(),
{
    if items.len() == 0 {
        Seq::empty()
    } else {
        items[0] + concat_all(items.skip(1))
    }
}

/// Concatenating one more item appends it.
pub proof fn lemma_concat_push(items: Seq<Seq<char>>, x: Seq<char>)
    ensures
        concat_all(items.push(x)) == concat_all(items) + x,
    decreases items.len(),
{
    if items.len() == 0 {
        assert(items.push(x) =~= seq![x]);
        assert(items.push(x).skip(1) =~= Seq::<Seq<char>>::empty());
        assert(concat_all(items.push(x)) == items.push(x)[0] + concat_all(items.push(x).skip(1)));
        assert(items.push(x)[0] == x);
        assert(x + Seq::<char>::empty() =~= x);
        assert(Seq::<char>::empty() + x =~= x);
    } else {
        assert(items.push(x).skip(1) =~= items.skip(1).push(x));
        lemma_concat_push(items.skip(1), x);
        assert(items.push(x)[0] == items[0]);
        assert((items[0] + concat_all(items.skip(1))) + x =~= items[0] + (concat_all(
            items.skip(1),
        ) + x));
    }
}

/// The text a visibility qualifier is emitted as, with its trailing space.
pub open spec fn render_vis(v: VisibilityV) -> Seq<char> {
    match v {
        VisibilityV::Inherited => Seq::empty(),
        VisibilityV::Public => "pub "@,
        VisibilityV::Restricted { path } => "pub("@ + path + ") "@,
    }
}

/// The text a type expression is emitted as: a path canonically, with its
/// segments joined by `::`; a group in parentheses; any other shape as
/// written.
pub open spec fn render_type_s(t: TypeExprV) -> Seq<char>
    decreases t,
{
    match t {
        TypeExprV::Path { leading, segments } => (if leading {
            "::"@
        } else {
            Seq::empty()
        }) + join_with(segments, "::"@),
        TypeExprV::Grouped { inner } => "("@ + render_type_s(*inner) + ")"@,
        TypeExprV::Other { text } => text,
    }
}

/// The text of one union case: the tag, holding one value of the source
/// type.
pub open spec fn render_variant(v: VariantV) -> Seq<char> {
    v.name + "("@ + render_type_s(v.typ) + ")"@
}

pub open spec fn rendered_variants(vs: Seq<VariantV>) -> Seq<Seq<char>> {
    vs.map_values(|v: VariantV| render_variant(v))
}

/// The cases of the union between its braces: empty for an uninhabited
/// union, else the cases joined by commas.
pub open spec fn variants_block(vs: Seq<VariantV>) -> Seq<char> {
    if vs.len() == 0 {
        Seq::empty()
    } else {
        " "@ + join_with(rendered_variants(vs), ", "@) + " "@
    }
}

/// The text of the union definition itself.
pub open spec fn enum_text(e: CompositeErrorV) -> Seq<char> {
    "#[derive(::core::fmt::Debug)]\n"@ + render_vis(e.visibility) + "enum "@ + e.name + " {"@
        + variants_block(e.variants) + "}\n"@
}

/// The text of the conversion from one leaf source type into the union:
/// total, wrapping the value in that leaf's case.
pub open spec fn from_variant_text(name: Seq<char>, v: VariantV) -> Seq<char> {
    "#[automatically_derived]\nimpl ::core::convert::From<"@ + render_type_s(v.typ) + "> for "@
        + name + " { fn from(value: "@ + render_type_s(v.typ) + ") -> "@ + name + " { "@ + name
        + "::"@ + v.name + "(value) } }\n"@
}

/// The text of the conversion from an absorbed union into this one: it
/// routes through the absorbed union's delegation operation.
pub open spec fn from_composed_text(name: Seq<char>, t: TypeExprV) -> Seq<char> {
    "#[automatically_derived]\nimpl ::core::convert::From<"@ + render_type_s(t) + "> for "@ + name
        + " { fn from(value: "@ + render_type_s(t)
        + ") -> "@ + name + " { ::throwing::SubError::to_super_error(value) } }\n"@
}

/// One bound of the delegation operation: the target must convert from
/// this leaf's source type.
pub open spec fn render_bound(v: VariantV) -> Seq<char> {
    "::core::convert::From<"@ + render_type_s(v.typ) + ">"@
}

pub open spec fn rendered_bounds(vs: Seq<VariantV>) -> Seq<Seq<char>> {
    vs.map_values(|v: VariantV| render_bound(v))
}

/// One arm of the delegation operation: the held value converted into the
/// target.
pub open spec fn render_delegate_arm(name: Seq<char>, v: VariantV) -> Seq<char> {
    name + "::"@ + v.name + "(e) => ::core::convert::From::from(e)"@
}

pub open spec fn rendered_delegate_arms(name: Seq<char>, vs: Seq<VariantV>) -> Seq<Seq<char>> {
    vs.map_values(|v: VariantV| render_delegate_arm(name, v))
}

/// The arms of a match between its braces: empty where there are none.
pub open spec fn arms_block(arms: Seq<Seq<char>>) -> Seq<char> {
    if arms.len() == 0 {
        Seq::empty()
    } else {
        " "@ + join_with(arms, ", "@) + " "@
    }
}

/// The text of the delegation implementation: for every target `T` that
/// converts from each of the union's leaf source types, dispatch on the
/// case and convert the held value.
pub open spec fn sub_error_text(e: CompositeErrorV) -> Seq<char> {
    "#[automatically_derived]\nimpl<T> ::throwing::SubError<T> for "@ + e.name + " where T: "@
        + join_with(rendered_bounds(e.variants), " + "@)
        + " { fn to_super_error(self) -> T { match self {"@ + arms_block(
        rendered_delegate_arms(e.name, e.variants),
    ) + "} } }\n"@
}

/// One arm of the textual rendering: defer to the held value's rendering.
pub open spec fn render_display_arm(name: Seq<char>, v: VariantV) -> Seq<char> {
    name + "::"@ + v.name + "(e) => ::core::fmt::Display::fmt(e, f)"@
}

pub open spec fn rendered_display_arms(name: Seq<char>, vs: Seq<VariantV>) -> Seq<Seq<char>> {
    vs.map_values(|v: VariantV| render_display_arm(name, v))
}

/// The body of a dispatching implementation: an exhaustive-but-empty match
/// for the uninhabited union, else a match over the cases.
pub open spec fn dispatch_body(arms: Seq<Seq<char>>) -> Seq<char> {
    if arms.len() == 0 {
        "match *self {}"@
    } else {
        "match self {"@ + arms_block(arms) + "}"@
    }
}

/// The text of the textual-rendering implementation.
pub open spec fn display_text(e: CompositeErrorV) -> Seq<char> {
    "#[automatically_derived]\nimpl ::core::fmt::Display for "@ + e.name
        + " { fn fmt(&self, f: &mut ::core::fmt::Formatter<'_>) -> ::core::fmt::Result { "@
        + dispatch_body(rendered_display_arms(e.name, e.variants)) + " } }\n"@
}

/// One arm of the cause accessor: the held value is the cause.
pub open spec fn render_source_arm(name: Seq<char>, v: VariantV) -> Seq<char> {
    name + "::"@ + v.name + "(e) => ::core::option::Option::Some(e)"@
}

pub open spec fn rendered_source_arms(name: Seq<char>, vs: Seq<VariantV>) -> Seq<Seq<char>> {
    vs.map_values(|v: VariantV| render_source_arm(name, v))
}

/// The text of the cause-accessor implementation.
pub open spec fn error_impl_text(e: CompositeErrorV) -> Seq<char> {
    "#[automatically_derived]\nimpl ::std::error::Error for "@ + e.name
        + " { fn source(&self) -> ::core::option::Option<&(dyn ::std::error::Error + 'static)> { "@
        + dispatch_body(rendered_source_arms(e.name, e.variants)) + " } }\n"@
}

pub open spec fn from_variant_texts(e: CompositeErrorV) -> Seq<Seq<char>> {
    e.variants.map_values(|v: VariantV| from_variant_text(e.name, v))
}

pub open spec fn from_composed_texts(e: CompositeErrorV) -> Seq<Seq<char>> {
    e.composed.map_values(|t: TypeExprV| from_composed_text(e.name, t))
}

/// The whole generated artifact for one schema: the union, one conversion
/// per leaf, one conversion per absorbed union, the delegation
/// implementation, and the diagnostic implementations.
pub open spec fn definition_text(e: CompositeErrorV) -> Seq<char> {
    enum_text(e) + concat_all(from_variant_texts(e)) + concat_all(from_composed_texts(e))
        + sub_error_text(e) + display_text(e) + error_impl_text(e)
}

/// The declared result type wrapped as "value or generated error"; a
/// function with no declared result keeps the unit result.
pub open spec fn wrapped_return(ret: Option<Seq<char>>, error: Seq<char>) -> Seq<char> {
    "::core::result::Result<"@ + (match ret {
        Option::Some(t) => t,
        Option::None => "()"@,
    }) + ", "@ + error + ">"@
}


/// One join step: appending the separator (after the first item) and the
/// item extends the join of the taken prefix.
proof fn lemma_join_step(items: Seq<Seq<char>>, i: int, sep: Seq<char>, base: Seq<char>)
    requires
        0 <= i < items.len(),
    ensures
        i == 0 ==> (base + join_with(items.take(i), sep)) + items[i] == base + join_with(
            items.take(i + 1),
            sep,
        ),
        i > 0 ==> ((base + join_with(items.take(i), sep)) + sep) + items[i] == base + join_with(
            items.take(i + 1),
            sep,
        ),
{
    assert(items.take(i).push(items[i]) =~= items.take(i + 1));
    lemma_join_push(items.take(i), items[i], sep);
    if i == 0 {
        assert(items.take(0int) =~= Seq::<Seq<char>>::empty());
        assert(join_with(items.take(0int), sep) == Seq::<char>::empty());
        assert((base + Seq::<char>::empty()) + items[i] =~= base + items[i]);
        assert(join_with(items.take(1int), sep) == items[0]);
    } else {
        let j = join_with(items.take(i), sep);
        assert(((base + j) + sep) + items[i] =~= base + ((j + sep) + items[i]));
    }
}

/// Appends `items` joined by `sep`.
fn append_join(out: &mut String, items: &Vec<String>, sep: &str)
    ensures
        final(out)@ == old(out)@ + join_with(crate::types::strings_view(items@), sep@),
{
    let ghost sv = crate::types::strings_view(items@);
    let mut i: usize = 0;
    assert(sv.take(0int) =~= Seq::<Seq<char>>::empty());
    assert(out@ + Seq::<char>::empty() =~= out@);
    while i < items.len()
        invariant
            i <= items@.len(),
            sv == crate::types::strings_view(items@),
            out@ == old(out)@ + join_with(sv.take(i as int), sep@),
        decreases items@.len() - i,
    {
        proof {
            assert(sv[i as int] == items@[i as int]@);
        }
        if i > 0 {
            out.append(sep);
        }
        out.append(items[i].as_str());
        proof {
            lemma_join_step(sv, i as int, sep@, old(out)@);
        }
        i += 1;
    }
    assert(sv.take(items@.len() as int) =~= sv);
}

/// Appends `items`, concatenated.
fn append_concat(out: &mut String, items: &Vec<String>)
    ensures
        final(out)@ == old(out)@ + concat_all(crate::types::strings_view(items@)),
{
    let ghost sv = crate::types::strings_view(items@);
    let mut i: usize = 0;
    assert(sv.take(0int) =~= Seq::<Seq<char>>::empty());
    assert(out@ + Seq::<char>::empty() =~= out@);
    while i < items.len()
        invariant
            i <= items@.len(),
            sv == crate::types::strings_view(items@),
            out@ == old(out)@ + concat_all(sv.take(i as int)),
        decreases items@.len() - i,
    {
        proof {
            assert(sv[i as int] == items@[i as int]@);
            assert(sv.take(i as int).push(sv[i as int]) =~= sv.take(i + 1));
            lemma_concat_push(sv.take(i as int), sv[i as int]);
            assert((old(out)@ + concat_all(sv.take(i as int))) + sv[i as int] =~= old(out)@ + (
            concat_all(sv.take(i as int)) + sv[i as int]));
        }
        out.append(items[i].as_str());
        i += 1;
    }
    assert(sv.take(items@.len() as int) =~= sv);
}

/// Appends the emitted form of a visibility qualifier.
fn append_vis(out: &mut String, v: &Visibility)
    ensures
        final(out)@ == old(out)@ + render_vis(v@),
{
    match v {
        Visibility::Inherited => {
            assert(out@ + Seq::<char>::empty() =~= out@);
        },
        Visibility::Public => {
            out.append("pub ");
        },
        Visibility::Restricted { path } => {
            out.append("pub(");
            out.append(path.as_str());
            out.append(") ");
            assert(((old(out)@ + "pub("@) + path@) + ") "@ =~= old(out)@ + (("pub("@ + path@)
                + ") "@));
        },
    }
}

/// The emitted text of a type expression.
fn render_type(t: &TypeExpr) -> (r: String)
    ensures
        r@ == render_type_s(t@),
    decreases *t,
{
    match t {
        TypeExpr::Path { leading, segments } => {
            let mut out = String::new();
            if *leading {
                out.append("::");
            }
            let ghost lead = out@;
            append_join(&mut out, segments, "::");
            assert(lead =~= (if *leading {
                "::"@
            } else {
                Seq::<char>::empty()
            }));
            out
        },
        TypeExpr::Grouped { inner } => {
            let mut out = String::from_str("(");
            let inner_r = render_type(inner);
            out.append(inner_r.as_str());
            out.append(")");
            out
        },
        TypeExpr::Other { text } => text.clone(),
    }
}

/// The emitted text of one union case.
fn render_variant_x(v: &Variant) -> (r: String)
    ensures
        r@ == render_variant(v@),
{
    let mut out = v.name.clone();
    out.append("(");
    let ty = render_type(&v.typ);
    out.append(ty.as_str());
    out.append(")");
    out
}

/// The emitted union definition.
fn error_enum(error: &CompositeError) -> (r: String)
    ensures
        r@ == enum_text(error@),
{
    let ghost ev = error@;
    let mut out = String::from_str("#[derive(::core::fmt::Debug)]\n");
    append_vis(&mut out, &error.visibility);
    out.append("enum ");
    out.append(error.name.as_str());
    out.append(" {");
    let ghost prefix = out@;
    if error.variants.len() > 0 {
        let mut items: Vec<String> = Vec::new();
        let mut i: usize = 0;
        while i < error.variants.len()
            invariant
                i <= error.variants@.len(),
                ev == error@,
                items@.len() == i,
                forall|m: int| 0 <= m < i ==> items@[m]@ == rendered_variants(ev.variants)[m],
            decreases error.variants@.len() - i,
        {
            let item = render_variant_x(&error.variants[i]);
            proof {
                assert(ev.variants[i as int] == error.variants@[i as int]@);
                assert(rendered_variants(ev.variants)[i as int] == render_variant(
                    ev.variants[i as int],
                ));
            }
            items.push(item);
            i += 1;
        }
        assert(crate::types::strings_view(items@) =~= rendered_variants(ev.variants)) by {
            assert forall|m: int| 0 <= m < items@.len() implies crate::types::strings_view(
                items@,
            )[m] == rendered_variants(ev.variants)[m] by {
                assert(crate::types::strings_view(items@)[m] == items@[m]@);
            }
        }
        out.append(" ");
        append_join(&mut out, &items, ", ");
        out.append(" ");
        assert((((prefix + " "@) + join_with(rendered_variants(ev.variants), ", "@)) + " "@) =~= (
        prefix + ((" "@ + join_with(rendered_variants(ev.variants), ", "@)) + " "@)));
    } else {
        assert(prefix + variants_block(ev.variants) =~= prefix);
    }
    out.append("}\n");
    out
}

/// The emitted conversion from one leaf source type into the union.
fn impl_from_variant(error: &CompositeError, variant: &Variant) -> (r: String)
    ensures
        r@ == from_variant_text(error@.name, variant@),
{
    let ty = render_type(&variant.typ);
    let mut out = String::from_str("#[automatically_derived]\nimpl ::core::convert::From<");
    out.append(ty.as_str());
    out.append("> for ");
    out.append(error.name.as_str());
    out.append(" { fn from(value: ");
    out.append(ty.as_str());
    out.append(") -> ");
    out.append(error.name.as_str());
    out.append(" { ");
    out.append(error.name.as_str());
    out.append("::");
    out.append(variant.name.as_str());
    out.append("(value) } }\n");
    out
}

/// The emitted conversion from an absorbed union into this one.
fn impl_from_composed(error: &CompositeError, typ: &TypeExpr) -> (r: String)
    ensures
        r@ == from_composed_text(error@.name, typ@),
{
    let ty = render_type(typ);
    let mut out = String::from_str("#[automatically_derived]\nimpl ::core::convert::From<");
    out.append(ty.as_str());
    out.append("> for ");
    out.append(error.name.as_str());
    out.append(" { fn from(value: ");
    out.append(ty.as_str());
    out.append(") -> ");
    out.append(error.name.as_str());
    out.append(" { ::throwing::SubError::to_super_error(value) } }\n");
    out
}


/// The emitted bound for one leaf: the target converts from its source
/// type.
fn render_bound_x(v: &Variant) -> (r: String)
    ensures
        r@ == render_bound(v@),
{
    let mut out = String::from_str("::core::convert::From<");
    let ty = render_type(&v.typ);
    out.append(ty.as_str());
    out.append(">");
    out
}

/// The emitted delegation arm for one leaf.
fn delegate_arm_x(name: &String, v: &Variant) -> (r: String)
    ensures
        r@ == render_delegate_arm(name@, v@),
{
    let mut out = name.clone();
    out.append("::");
    out.append(v.name.as_str());
    out.append("(e) => ::core::convert::From::from(e)");
    out
}

/// The emitted rendering arm for one leaf.
fn display_arm_x(name: &String, v: &Variant) -> (r: String)
    ensures
        r@ == render_display_arm(name@, v@),
{
    let mut out = name.clone();
    out.append("::");
    out.append(v.name.as_str());
    out.append("(e) => ::core::fmt::Display::fmt(e, f)");
    out
}

/// The emitted cause arm for one leaf.
fn source_arm_x(name: &String, v: &Variant) -> (r: String)
    ensures
        r@ == render_source_arm(name@, v@),
{
    let mut out = name.clone();
    out.append("::");
    out.append(v.name.as_str());
    out.append("(e) => ::core::option::Option::Some(e)");
    out
}

/// The emitted delegation implementation.
fn impl_sub_error(error: &CompositeError) -> (r: String)
    ensures
        r@ == sub_error_text(error@),
{
    let ghost ev = error@;
    let mut out = String::from_str(
        "#[automatically_derived]\nimpl<T> ::throwing::SubError<T> for ",
    );
    out.append(error.name.as_str());
    out.append(" where T: ");
    let mut bounds: Vec<String> = Vec::new();
    let mut i: usize = 0;
    while i < error.variants.len()
        invariant
            i <= error.variants@.len(),
            ev == error@,
            bounds@.len() == i,
            forall|m: int| 0 <= m < i ==> bounds@[m]@ == rendered_bounds(ev.variants)[m],
        decreases error.variants@.len() - i,
    {
        let item = render_bound_x(&error.variants[i]);
        proof {
            assert(ev.variants[i as int] == error.variants@[i as int]@);
            assert(rendered_bounds(ev.variants)[i as int] == render_bound(ev.variants[i as int]));
        }
        bounds.push(item);
        i += 1;
    }
    assert(crate::types::strings_view(bounds@) =~= rendered_bounds(ev.variants)) by {
        assert forall|m: int| 0 <= m < bounds@.len() implies crate::types::strings_view(bounds@)[m]
            == rendered_bounds(ev.variants)[m] by {
            assert(crate::types::strings_view(bounds@)[m] == bounds@[m]@);
        }
    }
    append_join(&mut out, &bounds, " + ");
    out.append(" { fn to_super_error(self) -> T { match self {");
    let ghost prefix = out@;
    if error.variants.len() > 0 {
        let mut arms: Vec<String> = Vec::new();
        let mut j: usize = 0;
        while j < error.variants.len()
            invariant
                j <= error.variants@.len(),
                ev == error@,
                arms@.len() == j,
                forall|m: int|
                    0 <= m < j ==> arms@[m]@ == rendered_delegate_arms(ev.name, ev.variants)[m],
            decreases error.variants@.len() - j,
        {
            let item = delegate_arm_x(&error.name, &error.variants[j]);
            proof {
                assert(ev.variants[j as int] == error.variants@[j as int]@);
                assert(rendered_delegate_arms(ev.name, ev.variants)[j as int]
                    == render_delegate_arm(ev.name, ev.variants[j as int]));
            }
            arms.push(item);
            j += 1;
        }
        assert(crate::types::strings_view(arms@) =~= rendered_delegate_arms(ev.name, ev.variants))
            by {
            assert forall|m: int| 0 <= m < arms@.len() implies crate::types::strings_view(arms@)[m]
                == rendered_delegate_arms(ev.name, ev.variants)[m] by {
                assert(crate::types::strings_view(arms@)[m] == arms@[m]@);
            }
        }
        out.append(" ");
        append_join(&mut out, &arms, ", ");
        out.append(" ");
        assert((((prefix + " "@) + join_with(rendered_delegate_arms(ev.name, ev.variants), ", "@))
            + " "@) =~= (prefix + ((" "@ + join_with(
            rendered_delegate_arms(ev.name, ev.variants),
            ", "@,
        )) + " "@)));
    } else {
        assert(prefix + arms_block(rendered_delegate_arms(ev.name, ev.variants)) =~= prefix);
    }
    out.append("} } }\n");
    out
}

/// The emitted textual-rendering implementation.
fn impl_display(error: &CompositeError) -> (r: String)
    ensures
        r@ == display_text(error@),
{
    let ghost ev = error@;
    let mut out = String::from_str("#[automatically_derived]\nimpl ::core::fmt::Display for ");
    out.append(error.name.as_str());
    out.append(" { fn fmt(&self, f: &mut ::core::fmt::Formatter<'_>) -> ::core::fmt::Result { ");
    let ghost prefix = out@;
    if error.variants.len() == 0 {
        out.append("match *self {}");
    } else {
        out.append("match self {");
        let ghost prefix2 = out@;
        let mut arms: Vec<String> = Vec::new();
        let mut j: usize = 0;
        while j < error.variants.len()
            invariant
                j <= error.variants@.len(),
                ev == error@,
                arms@.len() == j,
                forall|m: int|
                    0 <= m < j ==> arms@[m]@ == rendered_display_arms(ev.name, ev.variants)[m],
            decreases error.variants@.len() - j,
        {
            let item = display_arm_x(&error.name, &error.variants[j]);
            proof {
                assert(ev.variants[j as int] == error.variants@[j as int]@);
                assert(rendered_display_arms(ev.name, ev.variants)[j as int] == render_display_arm(
                    ev.name,
                    ev.variants[j as int],
                ));
            }
            arms.push(item);
            j += 1;
        }
        assert(crate::types::strings_view(arms@) =~= rendered_display_arms(ev.name, ev.variants))
            by {
            assert forall|m: int| 0 <= m < arms@.len() implies crate::types::strings_view(arms@)[m]
                == rendered_display_arms(ev.name, ev.variants)[m] by {
                assert(crate::types::strings_view(arms@)[m] == arms@[m]@);
            }
        }
        out.append(" ");
        append_join(&mut out, &arms, ", ");
        out.append(" ");
        out.append("}");
        assert(out@ =~= prefix + dispatch_body(rendered_display_arms(ev.name, ev.variants)));
    }
    out.append(" } }\n");
    out
}

/// The emitted cause-accessor implementation.
fn impl_error(error: &CompositeError) -> (r: String)
    ensures
        r@ == error_impl_text(error@),
{
    let ghost ev = error@;
    let mut out = String::from_str("#[automatically_derived]\nimpl ::std::error::Error for ");
    out.append(error.name.as_str());
    out.append(
        " { fn source(&self) -> ::core::option::Option<&(dyn ::std::error::Error + 'static)> { ",
    );
    let ghost prefix = out@;
    if error.variants.len() == 0 {
        out.append("match *self {}");
    } else {
        out.append("match self {");
        let mut arms: Vec<String> = Vec::new();
        let mut j: usize = 0;
        while j < error.variants.len()
            invariant
                j <= error.variants@.len(),
                ev == error@,
                arms@.len() == j,
                forall|m: int|
                    0 <= m < j ==> arms@[m]@ == rendered_source_arms(ev.name, ev.variants)[m],
            decreases error.variants@.len() - j,
        {
            let item = source_arm_x(&error.name, &error.variants[j]);
            proof {
                assert(ev.variants[j as int] == error.variants@[j as int]@);
                assert(rendered_source_arms(ev.name, ev.variants)[j as int] == render_source_arm(
                    ev.name,
                    ev.variants[j as int],
                ));
            }
            arms.push(item);
            j += 1;
        }
        assert(crate::types::strings_view(arms@) =~= rendered_source_arms(ev.name, ev.variants))
            by {
            assert forall|m: int| 0 <= m < arms@.len() implies crate::types::strings_view(arms@)[m]
                == rendered_source_arms(ev.name, ev.variants)[m] by {
                assert(crate::types::strings_view(arms@)[m] == arms@[m]@);
            }
        }
        out.append(" ");
        append_join(&mut out, &arms, ", ");
        out.append(" ");
        out.append("}");
        assert(out@ =~= prefix + dispatch_body(rendered_source_arms(ev.name, ev.variants)));
    }
    out.append(" } }\n");
    out
}

/// The whole generated artifact for one schema.
pub fn error_definition(error: &CompositeError) -> (r: String)
    ensures
        r@ == definition_text(error@),
{
    let ghost ev = error@;
    let mut stream = error_enum(error);
    let mut froms: Vec<String> = Vec::new();
    let mut i: usize = 0;
    while i < error.variants.len()
        invariant
            i <= error.variants@.len(),
            ev == error@,
            froms@.len() == i,
            forall|m: int| 0 <= m < i ==> froms@[m]@ == from_variant_texts(ev)[m],
        decreases error.variants@.len() - i,
    {
        let item = impl_from_variant(error, &error.variants[i]);
        proof {
            assert(ev.variants[i as int] == error.variants@[i as int]@);
            assert(from_variant_texts(ev)[i as int] == from_variant_text(
                ev.name,
                ev.variants[i as int],
            ));
        }
        froms.push(item);
        i += 1;
    }
    assert(crate::types::strings_view(froms@) =~= from_variant_texts(ev)) by {
        assert forall|m: int| 0 <= m < froms@.len() implies crate::types::strings_view(froms@)[m]
            == from_variant_texts(ev)[m] by {
            assert(crate::types::strings_view(froms@)[m] == froms@[m]@);
        }
    }
    append_concat(&mut stream, &froms);
    let mut comps: Vec<String> = Vec::new();
    let mut j: usize = 0;
    while j < error.composed.len()
        invariant
            j <= error.composed@.len(),
            ev == error@,
            comps@.len() == j,
            forall|m: int| 0 <= m < j ==> comps@[m]@ == from_composed_texts(ev)[m],
        decreases error.composed@.len() - j,
    {
        let item = impl_from_composed(error, &error.composed[j]);
        proof {
            assert(ev.composed[j as int] == error.composed@[j as int]@);
            assert(from_composed_texts(ev)[j as int] == from_composed_text(
                ev.name,
                ev.composed[j as int],
            ));
        }
        comps.push(item);
        j += 1;
    }
    assert(crate::types::strings_view(comps@) =~= from_composed_texts(ev)) by {
        assert forall|m: int| 0 <= m < comps@.len() implies crate::types::strings_view(comps@)[m]
            == from_composed_texts(ev)[m] by {
            assert(crate::types::strings_view(comps@)[m] == comps@[m]@);
        }
    }
    append_concat(&mut stream, &comps);
    let sub = impl_sub_error(error);
    stream.append(sub.as_str());
    let disp = impl_display(error);
    stream.append(disp.as_str());
    let err = impl_error(error);
    stream.append(err.as_str());
    stream
}

/// The declared result type wrapped as "value or generated error".
fn wrap_return_with_result(ret: &Option<String>, error: &String) -> (r: String)
    ensures
        r@ == wrapped_return(
            match *ret {
                Option::Some(t) => Option::Some(t@),
                Option::None => Option::None,
            },
            error@,
        ),
{
    let mut out = String::from_str("::core::result::Result<");
    match ret {
        Option::Some(t) => out.append(t.as_str()),
        Option::None => out.append("()"),
    }
    out.append(", ");
    out.append(error.as_str());
    out.append(">");
    out
}

/// The function with its declared result type rewritten to "value or
/// generated error"; its name and visibility are kept.
pub fn patch_function(function: FunctionSig, error: String) -> (r: FunctionSig)
    ensures
        r@.name == function@.name,
        r@.visibility == function@.visibility,
        r@.output == Option::Some(wrapped_return(function@.output, error@)),
{
    let out = wrap_return_with_result(&function.output, &error);
    FunctionSig { visibility: function.visibility, name: function.name, output: Option::Some(out) }
}


/// Law: a zero-clause schema emits an uninhabited union: nothing between
/// the union's braces, and both the textual rendering and the cause
/// accessor dispatch by an exhaustive-but-empty match.
pub proof fn lemma_uninhabited_emission(e: CompositeErrorV)
    requires
        e.variants.len() == 0,
    ensures
        variants_block(e.variants) == Seq::<char>::empty(),
        dispatch_body(rendered_display_arms(e.name, e.variants)) == "match *self {}"@,
        dispatch_body(rendered_source_arms(e.name, e.variants)) == "match *self {}"@,
{
    assert(rendered_display_arms(e.name, e.variants).len() == 0);
    assert(rendered_source_arms(e.name, e.variants).len() == 0);
}

} // verus!

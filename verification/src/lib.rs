//! A source-to-source generator for tagged-union error types.
//!
//! A textual declaration such as `pub type LoadError = ParseIntError |
//! io::Error | break ReadError` names the failure kinds a piece of code may
//! produce. From it the generator emits the text of a tagged-union type,
//! one conversion per leaf kind, one absorption conversion per composed
//! kind, a delegation implementation that lets the union be folded into
//! any larger union, and display/cause plumbing.

pub mod attributes;
pub mod codegen;
pub mod names;
pub mod semantics;
pub mod text;
pub mod tokens;
pub mod types;

use vstd::prelude::*;
use crate::attributes::{
    parse_define_error_args_s, parse_throws_args_s, DefineErrorArgs, ThrowsArgs, VariantArg,
    VariantArgV,
};
use crate::codegen::{definition_text, error_definition, patch_function, wrapped_return};
use crate::names::{error_name_of, fn_name_to_error, tag_of, type_to_variant};
use crate::text::str_to_chars;
use crate::tokens::{lemma_tokenize_wf, tokenize, tokens_from};
use crate::types::{
    option_string_view, type_exprs_view, variants_view, CompositeError, CompositeErrorV, Error,
    FunctionSig, FunctionSigV, ResolutionError, TypeExpr, TypeExprV, Variant, VariantV,
};

verus! {

/// The delegation protocol: a composite error that can re-express every one
/// of its held values as a value of `T`. The generated code implements this
/// for each synthesized union, so a union can be absorbed by a larger one.
pub trait SubError<T> {
    fn to_super_error(self) -> T;
}

/// The tag a leaf clause resolves to: its explicit alias where one was
/// given, else the tag inferred from its type expression. Nothing for a
/// composed clause, and nothing out of range.
pub open spec fn clause_resolved_tag(args: Seq<VariantArgV>, j: int) -> Option<Seq<char>> {
    if 0 <= j < args.len() {
        match args[j] {
            VariantArgV::Variant { typ, name } => match name {
                Option::Some(n) => Option::Some(n),
                Option::None => tag_of(typ),
            },
            VariantArgV::Composed { .. } => Option::None,
        }
    } else {
        Option::None
    }
}

/// The clauses from index `i` on, resolved: leaves become variants with
/// concrete tags, in order; composed clauses are set aside, in order; the
/// first leaf whose tag cannot be resolved fails.
pub open spec fn resolve_from(args: Seq<VariantArgV>, i: int) -> Result<
    (Seq<VariantV>, Seq<TypeExprV>),
    ResolutionError,
>
    decreases args.len() - i,
{
    if i < 0 || i >= args.len() {
        Result::Ok((Seq::empty(), Seq::empty()))
    } else {
        match args[i] {
            VariantArgV::Variant { typ, name } => {
                match (match name {
                    Option::Some(n) => Option::Some(n),
                    Option::None => tag_of(typ),
                }) {
                    Option::None => Result::Err(
                        ResolutionError::TagNotInferable { clause: i as usize },
                    ),
                    Option::Some(t) => match resolve_from(args, i + 1) {
                        Result::Err(e) => Result::Err(e),
                        Result::Ok(p) => Result::Ok((seq![VariantV { typ, name: t }] + p.0, p.1)),
                    },
                }
            },
            VariantArgV::Composed { typ } => match resolve_from(args, i + 1) {
                Result::Err(e) => Result::Err(e),
                Result::Ok(p) => Result::Ok((p.0, seq![typ] + p.1)),
            },
        }
    }
}

/// Whether clauses `k` and `j` resolve to the same tag.
pub open spec fn is_dup_pair(args: Seq<VariantArgV>, k: int, j: int) -> bool {
    &&& 0 <= k < j < args.len()
    &&& clause_resolved_tag(args, k) is Some
    &&& clause_resolved_tag(args, k) == clause_resolved_tag(args, j)
}

pub open spec fn has_dup_before(args: Seq<VariantArgV>, j: int) -> bool {
    exists|k: int| is_dup_pair(args, k, j)
}

/// The first clause that repeats an earlier clause's tag, scanning from
/// `j`; the clause count where none does.
pub open spec fn dup_second_from(args: Seq<VariantArgV>, j: int) -> int
    decreases args.len() - j,
{
    if j < 0 || j >= args.len() {
        args.len() as int
    } else if has_dup_before(args, j) {
        j
    } else {
        dup_second_from(args, j + 1)
    }
}

/// The first clause before `j` sharing `j`'s tag, scanning from `k`; `j`
/// where none does.
pub open spec fn dup_first_from(args: Seq<VariantArgV>, j: int, k: int) -> int
    decreases j - k,
{
    if k < 0 || k >= j {
        j
    } else if is_dup_pair(args, k, j) {
        k
    } else {
        dup_first_from(args, j, k + 1)
    }
}

/// The whole resolution of a clause list: every leaf gets its tag, in
/// order; composed clauses are set aside, in order; a leaf without a
/// resolvable tag fails, and so does a repeated tag, naming both clauses.
pub open spec fn resolve_args(args: Seq<VariantArgV>) -> Result<
    (Seq<VariantV>, Seq<TypeExprV>),
    ResolutionError,
> {
    match resolve_from(args, 0) {
        Result::Err(e) => Result::Err(e),
        Result::Ok(p) => {
            let second = dup_second_from(args, 0);
            if second < args.len() {
                Result::Err(
                    ResolutionError::DuplicateTag {
                        first: dup_first_from(args, second, 0) as usize,
                        second: second as usize,
                    },
                )
            } else {
                Result::Ok(p)
            }
        },
    }
}

/// Prefixes already-resolved variants and composed types onto the
/// resolution of the remaining clauses.
pub open spec fn with_prefix(
    r: Result<(Seq<VariantV>, Seq<TypeExprV>), ResolutionError>,
    vs: Seq<VariantV>,
    cs: Seq<TypeExprV>,
) -> Result<(Seq<VariantV>, Seq<TypeExprV>), ResolutionError> {
    match r {
        Result::Err(e) => Result::Err(e),
        Result::Ok(p) => Result::Ok((vs + p.0, cs + p.1)),
    }
}

/// The number of leaf clauses before index `j`.
pub open spec fn leaf_count(args: Seq<VariantArgV>, j: int) -> int
    decreases j,
{
    if j <= 0 {
        0
    } else {
        leaf_count(args, j - 1) + (if args[j - 1] matches VariantArgV::Variant { .. } {
            1int
        } else {
            0int
        })
    }
}

/// Where resolution from `i` succeeds, the leaf clause at `j` stands in
/// the resolved variants at its leaf rank, with its own type, under its
/// alias where it has one and under its inferred tag where it has none.
proof fn lemma_resolve_from_leaf(args: Seq<VariantArgV>, i: int, j: int)
    requires
        0 <= i <= j < args.len(),
        args[j] matches VariantArgV::Variant { .. },
        resolve_from(args, i) matches Result::Ok(_),
    ensures
        resolve_from(args, i) matches Result::Ok(p) ==> {
            let idx = leaf_count(args, j) - leaf_count(args, i);
            &&& 0 <= idx < p.0.len()
            &&& (match args[j] {
                VariantArgV::Variant { typ, name } => p.0[idx].typ == typ && (match name {
                    Option::Some(a) => p.0[idx].name == a,
                    Option::None => tag_of(typ) == Option::Some(p.0[idx].name),
                }),
                VariantArgV::Composed { .. } => true,
            })
        },
    decreases j - i,
{
    if i == j {
    } else {
        match resolve_from(args, i + 1) {
            Result::Err(_) => {},
            Result::Ok(_) => {
                lemma_resolve_from_leaf(args, i + 1, j);
            },
        }
    }
}

/// Law: a leaf clause with an explicit alias resolves to exactly that
/// alias; inference is never consulted for it. The resolved variant stands
/// at the clause's leaf rank and wraps the clause's own type.
pub proof fn lemma_alias_resolved_exactly(args: Seq<VariantArgV>, j: int)
    requires
        0 <= j < args.len(),
        args[j] matches VariantArgV::Variant { name: Option::Some(_), .. },
        resolve_args(args) matches Result::Ok(_),
    ensures
        resolve_args(args) matches Result::Ok(p) ==> {
            &&& 0 <= leaf_count(args, j) < p.0.len()
            &&& (args[j] matches VariantArgV::Variant { typ, name: Option::Some(a) } ==> p.0[
                leaf_count(args, j)
            ] == (VariantV { typ, name: a }))
        },
{
    lemma_resolve_from_leaf(args, 0, j);
}

/// Law: a leaf clause without an alias resolves to the tag inferred from
/// its type expression. The resolved variant stands at the clause's leaf
/// rank and wraps the clause's own type.
pub proof fn lemma_inferred_tag_resolved(args: Seq<VariantArgV>, j: int)
    requires
        0 <= j < args.len(),
        args[j] matches VariantArgV::Variant { name: Option::None, .. },
        resolve_args(args) matches Result::Ok(_),
    ensures
        resolve_args(args) matches Result::Ok(p) ==> {
            &&& 0 <= leaf_count(args, j) < p.0.len()
            &&& (args[j] matches VariantArgV::Variant { typ, name: Option::None } ==> tag_of(typ)
                == Option::Some(p.0[leaf_count(args, j)].name) && p.0[leaf_count(args, j)].typ
                == typ)
        },
{
    lemma_resolve_from_leaf(args, 0, j);
}

/// Scanning for the partner of clause `j` from `m` finds `k`, the first
/// clause at or after `m` sharing `j`'s tag.
proof fn lemma_dup_first_found(args: Seq<VariantArgV>, j: int, k: int, m: int)
    requires
        0 <= m <= k,
        is_dup_pair(args, k, j),
        forall|x: int| m <= x < k ==> !is_dup_pair(args, x, j),
    ensures
        dup_first_from(args, j, m) == k,
    decreases k - m,
{
    if m < k {
        lemma_dup_first_found(args, j, k, m + 1);
    }
}

/// Splits resolved clauses into the union's variants and the absorbed
/// composite types, resolving every tag and rejecting a repeated one.
pub fn split_variants(args: Vec<VariantArg>) -> (r: Result<
    (Vec<Variant>, Vec<TypeExpr>),
    ResolutionError,
>)
    ensures
        (match r {
            Result::Ok((vs, cs)) => resolve_args(attributes::variant_args_view(args@))
                == Result::<(Seq<VariantV>, Seq<TypeExprV>), ResolutionError>::Ok(
                (variants_view(vs@), type_exprs_view(cs@)),
            ),
            Result::Err(e) => resolve_args(attributes::variant_args_view(args@)) == Result::<
                (Seq<VariantV>, Seq<TypeExprV>),
                ResolutionError,
            >::Err(e),
        }),
{
    let ghost av = attributes::variant_args_view(args@);
    let mut variants: Vec<Variant> = Vec::new();
    let mut composed: Vec<TypeExpr> = Vec::new();
    let mut tags: Vec<Option<String>> = Vec::new();
    let mut i: usize = 0;
    assert(variants_view(variants@) =~= Seq::<VariantV>::empty());
    assert(type_exprs_view(composed@) =~= Seq::<TypeExprV>::empty());
    while i < args.len()
        invariant
            i <= args@.len(),
            av == attributes::variant_args_view(args@),
            tags@.len() == i,
            forall|m: int|
                0 <= m < i ==> option_string_view(#[trigger] tags@[m]) == clause_resolved_tag(
                    av,
                    m,
                ),
            resolve_from(av, 0) == with_prefix(
                resolve_from(av, i as int),
                variants_view(variants@),
                type_exprs_view(composed@),
            ),
        decreases args@.len() - i,
    {
        assert(av[i as int] == args@[i as int]@);
        let ghost old_vs = variants_view(variants@);
        let ghost old_cs = type_exprs_view(composed@);
        match &args[i] {
            VariantArg::Variant { typ, name } => {
                let tag_opt: Option<String> = match name {
                    Option::Some(n) => Option::Some(n.clone()),
                    Option::None => type_to_variant(typ),
                };
                match tag_opt {
                    Option::None => {
                        assert(resolve_from(av, i as int) == Result::<
                            (Seq<VariantV>, Seq<TypeExprV>),
                            ResolutionError,
                        >::Err(ResolutionError::TagNotInferable { clause: i }));
                        return Result::Err(ResolutionError::TagNotInferable { clause: i });
                    },
                    Option::Some(tag) => {
                        let ghost tagv = tag@;
                        tags.push(Option::Some(tag.clone()));
                        variants.push(Variant { typ: typ.duplicate(), name: tag });
                        proof {
                            let x = VariantV { typ: args@[i as int]@->Variant_typ, name: tagv };
                            assert(variants_view(variants@) =~= old_vs.push(x));
                            match resolve_from(av, i + 1) {
                                Result::Err(_) => {},
                                Result::Ok(p) => {
                                    assert(old_vs.push(x) + p.0 =~= old_vs + (seq![x] + p.0));
                                },
                            }
                        }
                    },
                }
            },
            VariantArg::Composed { typ } => {
                tags.push(Option::None);
                composed.push(typ.duplicate());
                proof {
                    let t = args@[i as int]@->Composed_typ;
                    assert(type_exprs_view(composed@) =~= old_cs.push(t));
                    match resolve_from(av, i + 1) {
                        Result::Err(_) => {},
                        Result::Ok(p) => {
                            assert(old_cs.push(t) + p.1 =~= old_cs + (seq![t] + p.1));
                        },
                    }
                }
            },
        }
        i += 1;
    }
    assert(resolve_from(av, 0) == Result::<(Seq<VariantV>, Seq<TypeExprV>), ResolutionError>::Ok(
        (variants_view(variants@), type_exprs_view(composed@)),
    )) by {
        assert(variants_view(variants@) + Seq::<VariantV>::empty() =~= variants_view(variants@));
        assert(type_exprs_view(composed@) + Seq::<TypeExprV>::empty() =~= type_exprs_view(
            composed@,
        ));
    }
    let mut j: usize = 0;
    while j < tags.len()
        invariant
            j <= tags@.len(),
            tags@.len() == args@.len(),
            av == attributes::variant_args_view(args@),
            forall|m: int|
                0 <= m < tags@.len() ==> option_string_view(#[trigger] tags@[m])
                    == clause_resolved_tag(av, m),
            dup_second_from(av, 0) == dup_second_from(av, j as int),
            resolve_from(av, 0) == Result::<(Seq<VariantV>, Seq<TypeExprV>), ResolutionError>::Ok(
                (variants_view(variants@), type_exprs_view(composed@)),
            ),
        decreases tags@.len() - j,
    {
        let mut k: usize = 0;
        while k < j
            invariant
                k <= j < tags@.len(),
                tags@.len() == args@.len(),
                av == attributes::variant_args_view(args@),
                forall|m: int|
                    0 <= m < tags@.len() ==> option_string_view(#[trigger] tags@[m])
                        == clause_resolved_tag(av, m),
                dup_second_from(av, 0) == dup_second_from(av, j as int),
                resolve_from(av, 0) == Result::<
                    (Seq<VariantV>, Seq<TypeExprV>),
                    ResolutionError,
                >::Ok((variants_view(variants@), type_exprs_view(composed@))),
                forall|m: int| 0 <= m < k ==> !is_dup_pair(av, m, j as int),
            decreases j - k,
        {
            let mut same = false;
            match (&tags[k], &tags[j]) {
                (Option::Some(a), Option::Some(b)) => {
                    same = crate::text::str_eq(a.as_str(), b.as_str());
                },
                _ => {},
            }
            if same {
                proof {
                    assert(is_dup_pair(av, k as int, j as int));
                    assert(has_dup_before(av, j as int));
                    assert(dup_second_from(av, j as int) == j as int);
                    lemma_dup_first_found(av, j as int, k as int, 0);
                }
                return Result::Err(ResolutionError::DuplicateTag { first: k, second: j });
            }
            assert(!is_dup_pair(av, k as int, j as int));
            k += 1;
        }
        assert(!has_dup_before(av, j as int)) by {
            if has_dup_before(av, j as int) {
                let w = choose|w: int| is_dup_pair(av, w, j as int);
                assert(!is_dup_pair(av, w, j as int));
            }
        }
        j += 1;
    }
    assert(dup_second_from(av, av.len() as int) == av.len());
    Result::Ok((variants, composed))
}

/// What generating a free-standing declaration from `text` yields: the
/// emitted artifact for the declared union, or the error the declaration
/// is rejected with.
pub open spec fn define_error_s(text: Seq<char>) -> Result<Seq<char>, Error> {
    match parse_define_error_args_s(text, tokens_from(text, 0)) {
        Result::Err(e) => Result::Err(Error::Syntax(e)),
        Result::Ok(d) => match resolve_args(d.variants) {
            Result::Err(e) => Result::Err(Error::Resolution(e)),
            Result::Ok(p) => Result::Ok(
                definition_text(
                    CompositeErrorV {
                        visibility: d.type_def.visibility,
                        name: d.type_def.name,
                        variants: p.0,
                        composed: p.1,
                    },
                ),
            ),
        },
    }
}

/// Generates a free-standing declaration: parses `text`, resolves every
/// tag, and emits the union with its conversions, delegation and
/// diagnostics.
pub fn define_error(text: &str) -> (r: Result<String, Error>)
    ensures
        (match (r, define_error_s(text@)) {
            (Result::Ok(a), Result::Ok(b)) => a@ == b,
            (Result::Err(x), Result::Err(y)) => x == y,
            _ => false,
        }),
{
    let chars = str_to_chars(text);
    let toks = tokenize(&chars);
    proof {
        lemma_tokenize_wf(chars@);
    }
    match DefineErrorArgs::parse(&chars, &toks) {
        Result::Err(e) => Result::Err(Error::Syntax(e)),
        Result::Ok(d) => {
            let DefineErrorArgs { type_def, variants } = d;
            match split_variants(variants) {
                Result::Err(e) => Result::Err(Error::Resolution(e)),
                Result::Ok((vs, cs)) => {
                    let error = CompositeError {
                        visibility: type_def.visibility,
                        name: type_def.name,
                        variants: vs,
                        composed: cs,
                    };
                    Result::Ok(error_definition(&error))
                },
            }
        },
    }
}

/// What attaching a declaration to a function yields: the function with
/// its result type wrapped, and the emitted artifact for the union, named
/// explicitly or after the function.
pub open spec fn throws_s(attr: Seq<char>, function: FunctionSigV) -> Result<
    (FunctionSigV, Seq<char>),
    Error,
> {
    match parse_throws_args_s(attr, tokens_from(attr, 0)) {
        Result::Err(e) => Result::Err(Error::Syntax(e)),
        Result::Ok(d) => {
            let name = match d.name {
                Option::Some(n) => n,
                Option::None => error_name_of(function.name),
            };
            match resolve_args(d.variants) {
                Result::Err(e) => Result::Err(Error::Resolution(e)),
                Result::Ok(p) => Result::Ok(
                    (
                        FunctionSigV {
                            visibility: function.visibility,
                            name: function.name,
                            output: Option::Some(wrapped_return(function.output, name)),
                        },
                        definition_text(
                            CompositeErrorV {
                                visibility: function.visibility,
                                name: name,
                                variants: p.0,
                                composed: p.1,
                            },
                        ),
                    ),
                ),
            }
        },
    }
}

/// Attaches a declaration to a function: parses `attr`, names the union
/// explicitly or after the function, rewrites the function's declared
/// result type to "value or generated error", and emits the union.
pub fn throws(attr: &str, function: FunctionSig) -> (r: Result<(FunctionSig, String), Error>)
    ensures
        (match (r, throws_s(attr@, function@)) {
            (Result::Ok((f, s)), Result::Ok(p)) => f@ == p.0 && s@ == p.1,
            (Result::Err(x), Result::Err(y)) => x == y,
            _ => false,
        }),
{
    let ghost fv = function@;
    let chars = str_to_chars(attr);
    let toks = tokenize(&chars);
    proof {
        lemma_tokenize_wf(chars@);
    }
    match ThrowsArgs::parse(&chars, &toks) {
        Result::Err(e) => Result::Err(Error::Syntax(e)),
        Result::Ok(d) => {
            let ThrowsArgs { name, variants } = d;
            let name: String = match name {
                Option::Some(n) => n,
                Option::None => fn_name_to_error(function.name.as_str()),
            };
            match split_variants(variants) {
                Result::Err(e) => Result::Err(Error::Resolution(e)),
                Result::Ok((vs, cs)) => {
                    let vis = function.visibility.duplicate();
                    let name_for_patch = name.clone();
                    let error = CompositeError {
                        visibility: vis,
                        name: name,
                        variants: vs,
                        composed: cs,
                    };
                    let stream = error_definition(&error);
                    let patched = patch_function(function, name_for_patch);
                    Result::Ok((patched, stream))
                },
            }
        },
    }
}

} // verus!

//! The declaration parser. The grammar, over the tokens of
//! [`crate::tokens`]:
//!
//! ```text
//! define_error_args: type_def [ "=" clauses ]
//! throws_args:       [ "type" name "=" ] clauses | [ "type" name ]
//! type_def:          [ visibility ] "type" name
//! visibility:        "pub" [ "(" raw ")" ]
//! clauses:           [ clause { "|" clause } [ "|" ] ]
//! clause:            "break" type | type [ "as" name ]
//! ```
//!
//! A `type` is any non-empty token run up to the next `|` or `as` that
//! stands outside every bracket pair; it is kept as written, and is read
//! only as far as tag inference needs: a plain path is kept segment by
//! segment, a parenthesized group is unwrapped, anything else is opaque.

use vstd::prelude::*;
use vstd::string::StrSliceExecFns;
use crate::text::{chars_substring, str_eq};
use crate::tokens::{token_end, token_start, token_wf, tokens_view, toks_wf, Token, TokenV};
use crate::types::{strings_view, SyntaxError, TypeExpr, TypeExprV, Visibility, VisibilityV};

verus! {

/// The words the grammar reserves.
pub open spec fn is_keyword(w: Seq<char>) -> bool {
    w == "type"@ || w == "break"@ || w == "as"@ || w == "pub"@
}

pub open spec fn is_digit(c: char) -> bool {
    '0' as u32 <= c as u32 && c as u32 <= '9' as u32
}

/// The words that can name a type or a variant: non-empty, not starting
/// with a digit, and not a keyword of the grammar.
pub open spec fn is_ident_text(w: Seq<char>) -> bool {
    w.len() > 0 && !is_digit(w[0]) && !is_keyword(w)
}

/// The text of a word token; empty for every other token.
pub open spec fn token_text(t: TokenV) -> Seq<char> {
    match t {
        TokenV::Word { text, .. } => text,
        _ => Seq::empty(),
    }
}

pub open spec fn is_word_tok(t: TokenV) -> bool {
    t matches TokenV::Word { .. }
}

pub open spec fn is_punct_tok(t: TokenV, c: char) -> bool {
    match t {
        TokenV::Punct { ch, .. } => ch == c,
        _ => false,
    }
}

/// Whether token `t` is the keyword `w`.
pub open spec fn is_kw(t: TokenV, w: Seq<char>) -> bool {
    is_word_tok(t) && token_text(t) == w
}

/// The character position to blame at token index `i`: where that token
/// starts, or the end of the text.
pub open spec fn pos_at(s: Seq<char>, toks: Seq<TokenV>, i: int) -> int {
    if 0 <= i < toks.len() {
        token_start(toks[i])
    } else {
        s.len() as int
    }
}

/// Whether `t` opens a bracket pair: `(`, `[` or `<`.
pub open spec fn is_opener(t: TokenV) -> bool {
    is_punct_tok(t, '(') || is_punct_tok(t, '[') || is_punct_tok(t, '<')
}

/// Whether `t` closes a bracket pair: `)`, `]` or `>`.
pub open spec fn is_closer(t: TokenV) -> bool {
    is_punct_tok(t, ')') || is_punct_tok(t, ']') || is_punct_tok(t, '>')
}

/// The first index at or after `i` where a clause's type expression ends:
/// a `|` or an `as` outside every bracket pair, or the end of the tokens.
pub open spec fn type_end(toks: Seq<TokenV>, i: int, depth: int) -> int
    decreases toks.len() - i,
{
    if i < 0 || i >= toks.len() {
        i
    } else if is_opener(toks[i]) {
        type_end(toks, i + 1, depth + 1)
    } else if is_closer(toks[i]) {
        type_end(toks, i + 1, if depth > 0 { depth - 1 } else { 0 })
    } else if depth <= 0 && (is_punct_tok(toks[i], '|') || is_kw(toks[i], "as"@)) {
        i
    } else {
        type_end(toks, i + 1, depth)
    }
}

pub proof fn lemma_type_end_bounds(toks: Seq<TokenV>, i: int, depth: int)
    requires
        0 <= i <= toks.len(),
    ensures
        i <= type_end(toks, i, depth) <= toks.len(),
    decreases toks.len() - i,
{
    if i < toks.len() {
        if is_opener(toks[i]) {
            lemma_type_end_bounds(toks, i + 1, depth + 1);
        } else if is_closer(toks[i]) {
            lemma_type_end_bounds(toks, i + 1, if depth > 0 { depth - 1 } else { 0 });
        } else if depth <= 0 && (is_punct_tok(toks[i], '|') || is_kw(toks[i], "as"@)) {
        } else {
            lemma_type_end_bounds(toks, i + 1, depth);
        }
    }
}

/// The index of the `)` that closes at nesting `depth` zero, scanning from
/// `i`; the end of the tokens where none does.
pub open spec fn paren_close(toks: Seq<TokenV>, i: int, depth: int) -> int
    decreases toks.len() - i,
{
    if i < 0 || i >= toks.len() {
        i
    } else if is_punct_tok(toks[i], ')') {
        if depth <= 0 {
            i
        } else {
            paren_close(toks, i + 1, depth - 1)
        }
    } else if is_punct_tok(toks[i], '(') {
        paren_close(toks, i + 1, depth + 1)
    } else {
        paren_close(toks, i + 1, depth)
    }
}

/// Whether the token run `[i, b)` keeps every bracket pair balanced: the
/// nesting never drops below zero and ends at zero.
pub open spec fn balanced_run(toks: Seq<TokenV>, i: int, b: int, depth: int) -> bool
    decreases b - i,
{
    if i >= b {
        depth == 0
    } else if is_opener(toks[i]) {
        balanced_run(toks, i + 1, b, depth + 1)
    } else if is_closer(toks[i]) {
        depth > 0 && balanced_run(toks, i + 1, b, depth - 1)
    } else {
        balanced_run(toks, i + 1, b, depth)
    }
}

/// Whether the token run `[a, b)` is a plain path: an optional leading
/// `::`, then identifiers joined by `::`.
pub open spec fn is_path_shape(toks: Seq<TokenV>, a: int, b: int) -> bool {
    let st = if toks[a] matches TokenV::PathSep { .. } {
        a + 1
    } else {
        a
    };
    &&& st < b
    &&& (b - st) % 2 == 1
    &&& forall|k: int|
        st <= k < b ==> if (k - st) % 2 == 0 {
            is_word_tok(#[trigger] toks[k]) && is_ident_text(token_text(toks[k]))
        } else {
            toks[k] matches TokenV::PathSep { .. }
        }
}

/// The segments of the path in the token run `[a, b)`.
pub open spec fn path_segments(toks: Seq<TokenV>, a: int, b: int) -> Seq<Seq<char>> {
    let st = if toks[a] matches TokenV::PathSep { .. } {
        a + 1
    } else {
        a
    };
    Seq::new((((b - st) + 1) / 2) as nat, |q: int| token_text(toks[st + 2 * q]))
}

/// The raw text the token run `[a, b)` was read from: from the start of
/// its first token to the end of its last.
pub open spec fn raw_text(s: Seq<char>, toks: Seq<TokenV>, a: int, b: int) -> Seq<char> {
    s.subrange(token_start(toks[a]), token_end(toks[b - 1]))
}

/// The type expression the token run `[a, b)` stands for.
pub open spec fn type_expr_at(s: Seq<char>, toks: Seq<TokenV>, a: int, b: int) -> TypeExprV
    decreases b - a,
{
    if is_path_shape(toks, a, b) {
        TypeExprV::Path {
            leading: toks[a] matches TokenV::PathSep { .. },
            segments: path_segments(toks, a, b),
        }
    } else if b - a >= 3 && is_punct_tok(toks[a], '(') && is_punct_tok(toks[b - 1], ')')
        && balanced_run(toks, a + 1, b - 1, 0) {
        TypeExprV::Grouped { inner: Box::new(type_expr_at(s, toks, a + 1, b - 1)) }
    } else {
        TypeExprV::Other { text: raw_text(s, toks, a, b) }
    }
}

/// A clause before resolution: a leaf with an optional explicit tag, or a
/// composite error to absorb.
pub enum VariantArg {
    Variant { typ: TypeExpr, name: Option<String> },
    Composed { typ: TypeExpr },
}

/// The mathematical value of a [`VariantArg`].
#[verifier::ext_equal]
pub enum VariantArgV {
    Variant { typ: TypeExprV, name: Option<Seq<char>> },
    Composed { typ: TypeExprV },
}

impl View for VariantArg {
    type V = VariantArgV;

    open spec fn view(&self) -> VariantArgV {
        match *self {
            VariantArg::Variant { typ, name } => VariantArgV::Variant {
                typ: typ@,
                name: match name {
                    Option::Some(n) => Option::Some(n@),
                    Option::None => Option::None,
                },
            },
            VariantArg::Composed { typ } => VariantArgV::Composed { typ: typ@ },
        }
    }
}

/// The views of a vector of clauses, elementwise.
pub open spec fn variant_args_view(v: Seq<VariantArg>) -> Seq<VariantArgV> {
    v.map_values(|x: VariantArg| x@)
}

/// The head of a declaration: its visibility and the union's name.
pub struct TypeDef {
    pub visibility: Visibility,
    pub name: String,
}

/// The mathematical value of a [`TypeDef`].
#[verifier::ext_equal]
pub struct TypeDefV {
    pub visibility: VisibilityV,
    pub name: Seq<char>,
}

impl View for TypeDef {
    type V = TypeDefV;

    open spec fn view(&self) -> TypeDefV {
        TypeDefV { visibility: self.visibility@, name: self.name@ }
    }
}

/// A parsed free-standing declaration.
pub struct DefineErrorArgs {
    pub type_def: TypeDef,
    pub variants: Vec<VariantArg>,
}

/// The mathematical value of a [`DefineErrorArgs`].
#[verifier::ext_equal]
pub struct DefineErrorArgsV {
    pub type_def: TypeDefV,
    pub variants: Seq<VariantArgV>,
}

impl View for DefineErrorArgs {
    type V = DefineErrorArgsV;

    open spec fn view(&self) -> DefineErrorArgsV {
        DefineErrorArgsV { type_def: self.type_def@, variants: variant_args_view(self.variants@) }
    }
}

/// A parsed function-attachment declaration: an optional explicit union
/// name, and the clauses.
pub struct ThrowsArgs {
    pub name: Option<String>,
    pub variants: Vec<VariantArg>,
}

/// The mathematical value of a [`ThrowsArgs`].
#[verifier::ext_equal]
pub struct ThrowsArgsV {
    pub name: Option<Seq<char>>,
    pub variants: Seq<VariantArgV>,
}

impl View for ThrowsArgs {
    type V = ThrowsArgsV;

    open spec fn view(&self) -> ThrowsArgsV {
        ThrowsArgsV {
            name: match self.name {
                Option::Some(n) => Option::Some(n@),
                Option::None => Option::None,
            },
            variants: variant_args_view(self.variants@),
        }
    }
}

/// The visibility at token index `i`, and the index just past it.
pub open spec fn parse_visibility_s(s: Seq<char>, toks: Seq<TokenV>, i: int) -> Result<
    (VisibilityV, int),
    SyntaxError,
> {
    if i < toks.len() && is_kw(toks[i], "pub"@) {
        if i + 1 < toks.len() && is_punct_tok(toks[i + 1], '(') {
            let close = paren_close(toks, i + 2, 0);
            if close < toks.len() {
                let path = if close == i + 2 {
                    Seq::empty()
                } else {
                    raw_text(s, toks, i + 2, close)
                };
                Result::Ok((VisibilityV::Restricted { path }, close + 1))
            } else {
                Result::Err(
                    SyntaxError::UnclosedVisibility { pos: token_start(toks[i + 1]) as usize },
                )
            }
        } else {
            Result::Ok((VisibilityV::Public, i + 1))
        }
    } else {
        Result::Ok((VisibilityV::Inherited, i))
    }
}

/// The declaration head at token index `i`, and the index just past it.
pub open spec fn parse_type_def_s(s: Seq<char>, toks: Seq<TokenV>, i: int) -> Result<
    (TypeDefV, int),
    SyntaxError,
> {
    match parse_visibility_s(s, toks, i) {
        Result::Err(e) => Result::Err(e),
        Result::Ok((vis, j)) => {
            if j < toks.len() && is_kw(toks[j], "type"@) {
                if j + 1 < toks.len() && is_word_tok(toks[j + 1]) && is_ident_text(
                    token_text(toks[j + 1]),
                ) {
                    Result::Ok(
                        (TypeDefV { visibility: vis, name: token_text(toks[j + 1]) }, j + 2),
                    )
                } else {
                    Result::Err(SyntaxError::ExpectedName { pos: pos_at(s, toks, j + 1) as usize })
                }
            } else {
                Result::Err(SyntaxError::ExpectedKeywordType { pos: pos_at(s, toks, j) as usize })
            }
        },
    }
}

/// The clause at token index `i`, and the index just past it.
pub open spec fn parse_variant_arg_s(s: Seq<char>, toks: Seq<TokenV>, i: int) -> Result<
    (VariantArgV, int),
    SyntaxError,
> {
    if i < toks.len() && is_kw(toks[i], "break"@) {
        let e = type_end(toks, i + 1, 0);
        if e <= i + 1 {
            Result::Err(SyntaxError::ExpectedType { pos: pos_at(s, toks, i + 1) as usize })
        } else {
            Result::Ok((VariantArgV::Composed { typ: type_expr_at(s, toks, i + 1, e) }, e))
        }
    } else {
        let e = type_end(toks, i, 0);
        if e <= i {
            Result::Err(SyntaxError::ExpectedType { pos: pos_at(s, toks, i) as usize })
        } else {
            let typ = type_expr_at(s, toks, i, e);
            if e < toks.len() && is_kw(toks[e], "as"@) {
                if e + 1 < toks.len() && is_word_tok(toks[e + 1]) && is_ident_text(
                    token_text(toks[e + 1]),
                ) {
                    Result::Ok(
                        (
                            VariantArgV::Variant {
                                typ,
                                name: Option::Some(token_text(toks[e + 1])),
                            },
                            e + 2,
                        ),
                    )
                } else {
                    Result::Err(SyntaxError::ExpectedAlias { pos: pos_at(s, toks, e + 1) as usize })
                }
            } else {
                Result::Ok((VariantArgV::Variant { typ, name: Option::None }, e))
            }
        }
    }
}

/// Where parsing a clause succeeds, it consumes at least one token and
/// stays within the tokens.
pub proof fn lemma_parse_variant_arg_bounds(s: Seq<char>, toks: Seq<TokenV>, i: int)
    requires
        0 <= i <= toks.len(),
    ensures
        parse_variant_arg_s(s, toks, i) matches Result::Ok((arg, j)) ==> i < j <= toks.len(),
{
    if i < toks.len() && is_kw(toks[i], "break"@) {
        lemma_type_end_bounds(toks, i + 1, 0);
    } else {
        lemma_type_end_bounds(toks, i, 0);
    }
}

/// The clause list at token index `i`, and the index just past it: clauses
/// separated by `|`, a trailing `|` allowed, ending at the end of the
/// tokens or before a token no clause can start with.
pub open spec fn parse_variant_list_s(s: Seq<char>, toks: Seq<TokenV>, i: int) -> Result<
    (Seq<VariantArgV>, int),
    SyntaxError,
>
    decreases toks.len() - i,
{
    if i < 0 || i >= toks.len() {
        Result::Ok((Seq::empty(), i))
    } else {
        match parse_variant_arg_s(s, toks, i) {
            Result::Err(e) => Result::Err(e),
            Result::Ok((arg, j)) => {
                if j < toks.len() && is_punct_tok(toks[j], '|') {
                    let next = if j + 1 > i { j + 1 } else { i + 1 };
                    match parse_variant_list_s(s, toks, next) {
                        Result::Err(e) => Result::Err(e),
                        Result::Ok((rest, k)) => Result::Ok((seq![arg] + rest, k)),
                    }
                } else {
                    Result::Ok((seq![arg], j))
                }
            },
        }
    }
}

/// Where parsing a clause list succeeds, it stays within the tokens.
pub proof fn lemma_parse_variant_list_bounds(s: Seq<char>, toks: Seq<TokenV>, i: int)
    requires
        0 <= i <= toks.len(),
    ensures
        parse_variant_list_s(s, toks, i) matches Result::Ok((vs, k)) ==> i <= k <= toks.len(),
    decreases toks.len() - i,
{
    if 0 <= i < toks.len() {
        lemma_parse_variant_arg_bounds(s, toks, i);
        match parse_variant_arg_s(s, toks, i) {
            Result::Err(_) => {},
            Result::Ok((arg, j)) => {
                if j < toks.len() && is_punct_tok(toks[j], '|') {
                    let next = if j + 1 > i {
                        j + 1
                    } else {
                        i + 1
                    };
                    lemma_parse_variant_list_bounds(s, toks, next);
                }
            },
        }
    }
}

/// The whole free-standing declaration the tokens of `s` hold.
pub open spec fn parse_define_error_args_s(s: Seq<char>, toks: Seq<TokenV>) -> Result<
    DefineErrorArgsV,
    SyntaxError,
> {
    match parse_type_def_s(s, toks, 0) {
        Result::Err(e) => Result::Err(e),
        Result::Ok((td, j)) => {
            if j >= toks.len() {
                Result::Ok(DefineErrorArgsV { type_def: td, variants: Seq::empty() })
            } else if is_punct_tok(toks[j], '=') {
                match parse_variant_list_s(s, toks, j + 1) {
                    Result::Err(e) => Result::Err(e),
                    Result::Ok((vs, k)) => {
                        if k >= toks.len() {
                            Result::Ok(DefineErrorArgsV { type_def: td, variants: vs })
                        } else {
                            Result::Err(
                                SyntaxError::ExpectedEnd { pos: pos_at(s, toks, k) as usize },
                            )
                        }
                    },
                }
            } else {
                Result::Err(SyntaxError::ExpectedEnd { pos: pos_at(s, toks, j) as usize })
            }
        },
    }
}

/// The whole function-attachment declaration the tokens of `s` hold.
pub open spec fn parse_throws_args_s(s: Seq<char>, toks: Seq<TokenV>) -> Result<
    ThrowsArgsV,
    SyntaxError,
> {
    if toks.len() == 0 {
        Result::Ok(ThrowsArgsV { name: Option::None, variants: Seq::empty() })
    } else if is_kw(toks[0], "type"@) {
        if 1 < toks.len() && is_word_tok(toks[1]) && is_ident_text(token_text(toks[1])) {
            if 2 >= toks.len() {
                Result::Ok(
                    ThrowsArgsV { name: Option::Some(token_text(toks[1])), variants: Seq::empty() },
                )
            } else if is_punct_tok(toks[2], '=') {
                match parse_variant_list_s(s, toks, 3) {
                    Result::Err(e) => Result::Err(e),
                    Result::Ok((vs, k)) => {
                        if k >= toks.len() {
                            Result::Ok(
                                ThrowsArgsV { name: Option::Some(token_text(toks[1])), variants: vs },
                            )
                        } else {
                            Result::Err(
                                SyntaxError::ExpectedEnd { pos: pos_at(s, toks, k) as usize },
                            )
                        }
                    },
                }
            } else {
                Result::Err(SyntaxError::ExpectedEnd { pos: pos_at(s, toks, 2) as usize })
            }
        } else {
            Result::Err(SyntaxError::ExpectedName { pos: pos_at(s, toks, 1) as usize })
        }
    } else {
        match parse_variant_list_s(s, toks, 0) {
            Result::Err(e) => Result::Err(e),
            Result::Ok((vs, k)) => {
                if k >= toks.len() {
                    Result::Ok(ThrowsArgsV { name: Option::None, variants: vs })
                } else {
                    Result::Err(SyntaxError::ExpectedEnd { pos: pos_at(s, toks, k) as usize })
                }
            },
        }
    }
}


/// The start position of a token.
fn token_start_x(t: &Token) -> (r: usize)
    ensures
        r as int == token_start(t@),
{
    match t {
        Token::Word { start, .. } => *start,
        Token::PathSep { start } => *start,
        Token::Arrow { start } => *start,
        Token::Punct { start, .. } => *start,
    }
}

/// The position just past a token.
fn token_end_x(t: &Token) -> (r: usize)
    requires
        token_end(t@) <= usize::MAX as int,
    ensures
        r as int == token_end(t@),
{
    match t {
        Token::Word { end, .. } => *end,
        Token::PathSep { start } => *start + 2,
        Token::Arrow { start } => *start + 2,
        Token::Punct { start, .. } => *start + 1,
    }
}

/// Whether `t` is the keyword `w`.
fn is_kw_x(t: &Token, w: &str) -> (r: bool)
    ensures
        r == is_kw(t@, w@),
{
    match t {
        Token::Word { text, .. } => str_eq(text.as_str(), w),
        _ => false,
    }
}

/// Whether `t` is the punctuation character `c`.
fn is_punct_x(t: &Token, c: char) -> (r: bool)
    ensures
        r == is_punct_tok(t@, c),
{
    match t {
        Token::Punct { ch, .. } => *ch == c,
        _ => false,
    }
}

/// Whether `w` can name a type or a variant.
fn is_ident_str(w: &String) -> (r: bool)
    ensures
        r == is_ident_text(w@),
{
    let n = w.as_str().unicode_len();
    if n == 0 {
        return false;
    }
    let c0 = w.as_str().get_char(0);
    let u = c0 as u32;
    if '0' as u32 <= u && u <= '9' as u32 {
        return false;
    }
    if str_eq(w.as_str(), "type") || str_eq(w.as_str(), "break") || str_eq(w.as_str(), "as")
        || str_eq(w.as_str(), "pub") {
        return false;
    }
    true
}

/// The raw text a token run was read from.
fn raw_text_x(chars: &Vec<char>, toks: &Vec<Token>, a: usize, b: usize) -> (r: String)
    requires
        toks_wf(chars@, tokens_view(toks@)),
        a < b <= toks@.len(),
    ensures
        r@ == raw_text(chars@, tokens_view(toks@), a as int, b as int),
{
    let ghost tv = tokens_view(toks@);
    let n_chars = chars.len();
    assert(tv[a as int] == toks@[a as int]@);
    assert(tv[b - 1 as int] == toks@[b - 1 as int]@);
    assert(token_wf(chars@, tv[a as int]));
    assert(token_wf(chars@, tv[b - 1 as int]));
    let st = token_start_x(&toks[a]);
    let en = token_end_x(&toks[b - 1]);
    chars_substring(chars, st, en)
}

/// The index of the `)` that closes at nesting depth zero, scanning from
/// `i`; the end of the tokens where none does.
fn paren_close_x(toks: &Vec<Token>, i: usize) -> (r: usize)
    requires
        i <= toks@.len(),
    ensures
        r as int == paren_close(tokens_view(toks@), i as int, 0),
        i <= r <= toks@.len(),
{
    let ghost tv = tokens_view(toks@);
    let mut j: usize = i;
    let mut d: usize = 0;
    while j < toks.len()
        invariant
            i <= j <= toks@.len(),
            d <= j,
            tv == tokens_view(toks@),
            paren_close(tv, i as int, 0) == paren_close(tv, j as int, d as int),
        decreases toks@.len() - j,
    {
        assert(tv[j as int] == toks@[j as int]@);
        if is_punct_x(&toks[j], ')') {
            if d == 0 {
                return j;
            }
            d = d - 1;
        } else if is_punct_x(&toks[j], '(') {
            d = d + 1;
        }
        j = j + 1;
    }
    toks.len()
}

/// The first index at or after `i` where a clause's type expression ends.
fn type_end_x(toks: &Vec<Token>, i: usize) -> (r: usize)
    requires
        i <= toks@.len(),
    ensures
        r as int == type_end(tokens_view(toks@), i as int, 0),
        i <= r <= toks@.len(),
{
    let ghost tv = tokens_view(toks@);
    let mut j: usize = i;
    let mut d: usize = 0;
    while j < toks.len()
        invariant
            i <= j <= toks@.len(),
            d <= j,
            tv == tokens_view(toks@),
            type_end(tv, i as int, 0) == type_end(tv, j as int, d as int),
        decreases toks@.len() - j,
    {
        assert(tv[j as int] == toks@[j as int]@);
        let opener = is_punct_x(&toks[j], '(') || is_punct_x(&toks[j], '[') || is_punct_x(
            &toks[j],
            '<',
        );
        let closer = is_punct_x(&toks[j], ')') || is_punct_x(&toks[j], ']') || is_punct_x(
            &toks[j],
            '>',
        );
        if opener {
            d = d + 1;
        } else if closer {
            if d > 0 {
                d = d - 1;
            }
        } else if d == 0 && (is_punct_x(&toks[j], '|') || is_kw_x(&toks[j], "as")) {
            return j;
        }
        j = j + 1;
    }
    toks.len()
}

/// Whether the token run `[i, b)` keeps every bracket pair balanced.
fn balanced_run_x(toks: &Vec<Token>, i: usize, b: usize) -> (r: bool)
    requires
        i <= b <= toks@.len(),
    ensures
        r == balanced_run(tokens_view(toks@), i as int, b as int, 0),
{
    let ghost tv = tokens_view(toks@);
    let mut j: usize = i;
    let mut d: usize = 0;
    while j < b
        invariant
            i <= j <= b <= toks@.len(),
            d <= j,
            tv == tokens_view(toks@),
            balanced_run(tv, i as int, b as int, 0) == balanced_run(
                tv,
                j as int,
                b as int,
                d as int,
            ),
        decreases b - j,
    {
        assert(tv[j as int] == toks@[j as int]@);
        let opener = is_punct_x(&toks[j], '(') || is_punct_x(&toks[j], '[') || is_punct_x(
            &toks[j],
            '<',
        );
        let closer = is_punct_x(&toks[j], ')') || is_punct_x(&toks[j], ']') || is_punct_x(
            &toks[j],
            '>',
        );
        if opener {
            d = d + 1;
        } else if closer {
            if d == 0 {
                return false;
            }
            d = d - 1;
        }
        j = j + 1;
    }
    d == 0
}

/// Whether the token run `[a, b)` is a plain path.
fn is_path_shape_x(toks: &Vec<Token>, a: usize, b: usize) -> (r: bool)
    requires
        a < b <= toks@.len(),
    ensures
        r == is_path_shape(tokens_view(toks@), a as int, b as int),
{
    let ghost tv = tokens_view(toks@);
    assert(tv[a as int] == toks@[a as int]@);
    let leading = match &toks[a] {
        Token::PathSep { .. } => true,
        _ => false,
    };
    let st: usize = if leading {
        a + 1
    } else {
        a
    };
    assert(st as int == (if tv[a as int] matches TokenV::PathSep { .. } {
        a + 1
    } else {
        a as int
    }));
    if st >= b {
        return false;
    }
    if (b - st) % 2 != 1 {
        return false;
    }
    let mut k: usize = st;
    while k < b
        invariant
            st <= k <= b <= toks@.len(),
            tv == tokens_view(toks@),
            a < b,
            st as int == (if tv[a as int] matches TokenV::PathSep { .. } {
                a + 1
            } else {
                a as int
            }),
            st < b,
            ((b - st) as int) % 2 == 1,
            forall|m: int|
                st <= m < k ==> if (m - st) % 2 == 0 {
                    is_word_tok(#[trigger] tv[m]) && is_ident_text(token_text(tv[m]))
                } else {
                    tv[m] matches TokenV::PathSep { .. }
                },
        decreases b - k,
    {
        assert(tv[k as int] == toks@[k as int]@);
        if (k - st) % 2 == 0 {
            let ok = match &toks[k] {
                Token::Word { text, .. } => is_ident_str(text),
                _ => false,
            };
            if !ok {
                assert(!is_path_shape(tv, a as int, b as int));
                return false;
            }
        } else {
            let ok = match &toks[k] {
                Token::PathSep { .. } => true,
                _ => false,
            };
            if !ok {
                assert(!is_path_shape(tv, a as int, b as int));
                return false;
            }
        }
        k = k + 1;
    }
    true
}

/// The type expression the token run `[a, b)` stands for.
fn type_expr_at_x(chars: &Vec<char>, toks: &Vec<Token>, a: usize, b: usize) -> (r: TypeExpr)
    requires
        toks_wf(chars@, tokens_view(toks@)),
        a < b <= toks@.len(),
    ensures
        r@ == type_expr_at(chars@, tokens_view(toks@), a as int, b as int),
    decreases b - a,
{
    let ghost tv = tokens_view(toks@);
    assert(tv[a as int] == toks@[a as int]@);
    assert(tv[b - 1 as int] == toks@[b - 1 as int]@);
    if is_path_shape_x(toks, a, b) {
        let leading = match &toks[a] {
            Token::PathSep { .. } => true,
            _ => false,
        };
        let st: usize = if leading {
            a + 1
        } else {
            a
        };
        let n: usize = (b - st) / 2 + 1;
        assert(n as int == ((b - st) + 1) / 2);
        let mut segments: Vec<String> = Vec::new();
        let mut q: usize = 0;
        while q < n
            invariant
                q <= n,
                tv == tokens_view(toks@),
                is_path_shape(tv, a as int, b as int),
                st as int == (if tv[a as int] matches TokenV::PathSep { .. } {
                    a + 1
                } else {
                    a as int
                }),
                st < b <= toks@.len(),
                n as int == ((b - st) + 1) / 2,
                segments@.len() == q,
                forall|m: int| 0 <= m < q ==> segments@[m]@ == token_text(tv[st + 2 * m]),
            decreases n - q,
        {
            assert(st + 2 * q < b);
            let idx: usize = st + 2 * q;
            assert(tv[idx as int] == toks@[idx as int]@);
            assert(is_word_tok(tv[idx as int]) && is_ident_text(token_text(tv[idx as int])));
            let text = match &toks[idx] {
                Token::Word { text, .. } => text.clone(),
                _ => String::new(),
            };
            assert(text@ == token_text(tv[idx as int]));
            segments.push(text);
            q = q + 1;
        }
        assert forall|m: int| 0 <= m < n implies strings_view(segments@)[m] == path_segments(
            tv,
            a as int,
            b as int,
        )[m] by {
            assert(strings_view(segments@)[m] == segments@[m]@);
        }
        assert(strings_view(segments@) =~= path_segments(tv, a as int, b as int));
        TypeExpr::Path { leading, segments }
    } else if b - a >= 3 && is_punct_x(&toks[a], '(') && is_punct_x(&toks[b - 1], ')')
        && balanced_run_x(toks, a + 1, b - 1) {
        let inner = type_expr_at_x(chars, toks, a + 1, b - 1);
        TypeExpr::Grouped { inner: Box::new(inner) }
    } else {
        TypeExpr::Other { text: raw_text_x(chars, toks, a, b) }
    }
}


/// The character position to blame at token index `i`.
fn pos_at_x(chars: &Vec<char>, toks: &Vec<Token>, i: usize) -> (r: usize)
    ensures
        r as int == pos_at(chars@, tokens_view(toks@), i as int),
{
    if i < toks.len() {
        assert(tokens_view(toks@)[i as int] == toks@[i as int]@);
        token_start_x(&toks[i])
    } else {
        chars.len()
    }
}

/// Reads a visibility qualifier at token index `i`.
fn parse_visibility(chars: &Vec<char>, toks: &Vec<Token>, i: usize) -> (r: Result<
    (Visibility, usize),
    SyntaxError,
>)
    requires
        toks_wf(chars@, tokens_view(toks@)),
        i <= toks@.len(),
    ensures
        (match r {
            Result::Ok((v, j)) => parse_visibility_s(chars@, tokens_view(toks@), i as int)
                == Result::<(VisibilityV, int), SyntaxError>::Ok((v@, j as int)) && i <= j
                <= toks@.len(),
            Result::Err(e) => parse_visibility_s(chars@, tokens_view(toks@), i as int)
                == Result::<(VisibilityV, int), SyntaxError>::Err(e),
        }),
{
    let ghost tv = tokens_view(toks@);
    if i < toks.len() {
        assert(tv[i as int] == toks@[i as int]@);
    }
    if i < toks.len() && is_kw_x(&toks[i], "pub") {
        if i + 1 < toks.len() {
            assert(tv[(i + 1) as int] == toks@[(i + 1) as int]@);
        }
        if i + 1 < toks.len() && is_punct_x(&toks[i + 1], '(') {
            let close = paren_close_x(toks, i + 2);
            if close < toks.len() {
                let path = if close == i + 2 {
                    String::new()
                } else {
                    raw_text_x(chars, toks, i + 2, close)
                };
                Result::Ok((Visibility::Restricted { path }, close + 1))
            } else {
                Result::Err(
                    SyntaxError::UnclosedVisibility { pos: token_start_x(&toks[i + 1]) },
                )
            }
        } else {
            Result::Ok((Visibility::Public, i + 1))
        }
    } else {
        Result::Ok((Visibility::Inherited, i))
    }
}

impl TypeDef {
    /// Reads a declaration head, `[visibility] "type" name`, at token
    /// index `i`.
    pub fn parse(chars: &Vec<char>, toks: &Vec<Token>, i: usize) -> (r: Result<
        (TypeDef, usize),
        SyntaxError,
    >)
        requires
            toks_wf(chars@, tokens_view(toks@)),
            i <= toks@.len(),
        ensures
            (match r {
                Result::Ok((td, j)) => parse_type_def_s(chars@, tokens_view(toks@), i as int)
                    == Result::<(TypeDefV, int), SyntaxError>::Ok((td@, j as int)) && i <= j
                    <= toks@.len(),
                Result::Err(e) => parse_type_def_s(chars@, tokens_view(toks@), i as int)
                    == Result::<(TypeDefV, int), SyntaxError>::Err(e),
            }),
    {
        let ghost tv = tokens_view(toks@);
        match parse_visibility(chars, toks, i) {
            Result::Err(e) => Result::Err(e),
            Result::Ok((vis, j)) => {
                if j < toks.len() {
                    assert(tv[j as int] == toks@[j as int]@);
                }
                if j < toks.len() && is_kw_x(&toks[j], "type") {
                    if j + 1 < toks.len() {
                        assert(tv[(j + 1) as int] == toks@[(j + 1) as int]@);
                    }
                    let mut name_ok = false;
                    if j + 1 < toks.len() {
                        name_ok = match &toks[j + 1] {
                            Token::Word { text, .. } => is_ident_str(text),
                            _ => false,
                        };
                    }
                    if name_ok {
                        let name = match &toks[j + 1] {
                            Token::Word { text, .. } => text.clone(),
                            _ => String::new(),
                        };
                        Result::Ok((TypeDef { visibility: vis, name }, j + 2))
                    } else {
                        Result::Err(SyntaxError::ExpectedName { pos: pos_at_x(chars, toks, j + 1) })
                    }
                } else {
                    Result::Err(
                        SyntaxError::ExpectedKeywordType { pos: pos_at_x(chars, toks, j) },
                    )
                }
            },
        }
    }
}

impl VariantArg {
    /// Reads one clause, `"break" type` or `type ["as" name]`, at token
    /// index `i`.
    pub fn parse(chars: &Vec<char>, toks: &Vec<Token>, i: usize) -> (r: Result<
        (VariantArg, usize),
        SyntaxError,
    >)
        requires
            toks_wf(chars@, tokens_view(toks@)),
            i <= toks@.len(),
        ensures
            (match r {
                Result::Ok((arg, j)) => parse_variant_arg_s(chars@, tokens_view(toks@), i as int)
                    == Result::<(VariantArgV, int), SyntaxError>::Ok((arg@, j as int)) && i < j
                    <= toks@.len(),
                Result::Err(e) => parse_variant_arg_s(chars@, tokens_view(toks@), i as int)
                    == Result::<(VariantArgV, int), SyntaxError>::Err(e),
            }),
    {
        let ghost tv = tokens_view(toks@);
        if i < toks.len() {
            assert(tv[i as int] == toks@[i as int]@);
        }
        if i < toks.len() && is_kw_x(&toks[i], "break") {
            let e = type_end_x(toks, i + 1);
            if e <= i + 1 {
                Result::Err(SyntaxError::ExpectedType { pos: pos_at_x(chars, toks, i + 1) })
            } else {
                let typ = type_expr_at_x(chars, toks, i + 1, e);
                Result::Ok((VariantArg::Composed { typ }, e))
            }
        } else {
            let e = type_end_x(toks, i);
            if e <= i {
                Result::Err(SyntaxError::ExpectedType { pos: pos_at_x(chars, toks, i) })
            } else {
                let typ = type_expr_at_x(chars, toks, i, e);
                if e < toks.len() {
                    assert(tv[e as int] == toks@[e as int]@);
                }
                if e < toks.len() && is_kw_x(&toks[e], "as") {
                    if e + 1 < toks.len() {
                        assert(tv[(e + 1) as int] == toks@[(e + 1) as int]@);
                    }
                    let mut alias_ok = false;
                    if e + 1 < toks.len() {
                        alias_ok = match &toks[e + 1] {
                            Token::Word { text, .. } => is_ident_str(text),
                            _ => false,
                        };
                    }
                    if alias_ok {
                        let name = match &toks[e + 1] {
                            Token::Word { text, .. } => text.clone(),
                            _ => String::new(),
                        };
                        Result::Ok((VariantArg::Variant { typ, name: Option::Some(name) }, e + 2))
                    } else {
                        Result::Err(
                            SyntaxError::ExpectedAlias { pos: pos_at_x(chars, toks, e + 1) },
                        )
                    }
                } else {
                    Result::Ok((VariantArg::Variant { typ, name: Option::None }, e))
                }
            }
        }
    }
}

/// Reads a clause list at token index `i`.
fn parse_variant_list(chars: &Vec<char>, toks: &Vec<Token>, i: usize) -> (r: Result<
    (Vec<VariantArg>, usize),
    SyntaxError,
>)
    requires
        toks_wf(chars@, tokens_view(toks@)),
        i <= toks@.len(),
    ensures
        (match r {
            Result::Ok((vs, k)) => parse_variant_list_s(chars@, tokens_view(toks@), i as int)
                == Result::<(Seq<VariantArgV>, int), SyntaxError>::Ok(
                (variant_args_view(vs@), k as int),
            ) && i <= k <= toks@.len(),
            Result::Err(e) => parse_variant_list_s(chars@, tokens_view(toks@), i as int)
                == Result::<(Seq<VariantArgV>, int), SyntaxError>::Err(e),
        }),
    decreases toks@.len() - i,
{
    let ghost tv = tokens_view(toks@);
    if i >= toks.len() {
        let vs: Vec<VariantArg> = Vec::new();
        assert(variant_args_view(vs@) =~= Seq::<VariantArgV>::empty());
        return Result::Ok((vs, i));
    }
    match VariantArg::parse(chars, toks, i) {
        Result::Err(e) => Result::Err(e),
        Result::Ok((arg, j)) => {
            let ghost argv = arg@;
            if j < toks.len() {
                assert(tv[j as int] == toks@[j as int]@);
            }
            if j < toks.len() && is_punct_x(&toks[j], '|') {
                match parse_variant_list(chars, toks, j + 1) {
                    Result::Err(e) => Result::Err(e),
                    Result::Ok((rest, k)) => {
                        let ghost restv = rest@;
                        let mut vs = rest;
                        vs.insert(0, arg);
                        assert(variant_args_view(vs@) =~= seq![argv] + variant_args_view(restv));
                        Result::Ok((vs, k))
                    },
                }
            } else {
                let mut vs: Vec<VariantArg> = Vec::new();
                vs.push(arg);
                assert(variant_args_view(vs@) =~= seq![argv]);
                Result::Ok((vs, j))
            }
        },
    }
}

impl DefineErrorArgs {
    /// Reads a whole free-standing declaration from the tokens of `chars`.
    pub fn parse(chars: &Vec<char>, toks: &Vec<Token>) -> (r: Result<DefineErrorArgs, SyntaxError>)
        requires
            toks_wf(chars@, tokens_view(toks@)),
        ensures
            (match r {
                Result::Ok(d) => parse_define_error_args_s(chars@, tokens_view(toks@))
                    == Result::<DefineErrorArgsV, SyntaxError>::Ok(d@),
                Result::Err(e) => parse_define_error_args_s(chars@, tokens_view(toks@))
                    == Result::<DefineErrorArgsV, SyntaxError>::Err(e),
            }),
    {
        let ghost tv = tokens_view(toks@);
        match TypeDef::parse(chars, toks, 0) {
            Result::Err(e) => Result::Err(e),
            Result::Ok((td, j)) => {
                if j >= toks.len() {
                    let vs: Vec<VariantArg> = Vec::new();
                    assert(variant_args_view(vs@) =~= Seq::<VariantArgV>::empty());
                    return Result::Ok(DefineErrorArgs { type_def: td, variants: vs });
                }
                assert(tv[j as int] == toks@[j as int]@);
                if is_punct_x(&toks[j], '=') {
                    match parse_variant_list(chars, toks, j + 1) {
                        Result::Err(e) => Result::Err(e),
                        Result::Ok((vs, k)) => {
                            if k >= toks.len() {
                                Result::Ok(DefineErrorArgs { type_def: td, variants: vs })
                            } else {
                                Result::Err(
                                    SyntaxError::ExpectedEnd { pos: pos_at_x(chars, toks, k) },
                                )
                            }
                        },
                    }
                } else {
                    Result::Err(SyntaxError::ExpectedEnd { pos: pos_at_x(chars, toks, j) })
                }
            },
        }
    }
}

impl ThrowsArgs {
    /// Reads a whole function-attachment declaration from the tokens of
    /// `chars`.
    pub fn parse(chars: &Vec<char>, toks: &Vec<Token>) -> (r: Result<ThrowsArgs, SyntaxError>)
        requires
            toks_wf(chars@, tokens_view(toks@)),
        ensures
            (match r {
                Result::Ok(d) => parse_throws_args_s(chars@, tokens_view(toks@))
                    == Result::<ThrowsArgsV, SyntaxError>::Ok(d@),
                Result::Err(e) => parse_throws_args_s(chars@, tokens_view(toks@))
                    == Result::<ThrowsArgsV, SyntaxError>::Err(e),
            }),
    {
        let ghost tv = tokens_view(toks@);
        if toks.len() == 0 {
            let vs: Vec<VariantArg> = Vec::new();
            assert(variant_args_view(vs@) =~= Seq::<VariantArgV>::empty());
            return Result::Ok(ThrowsArgs { name: Option::None, variants: vs });
        }
        assert(tv[0] == toks@[0]@);
        if is_kw_x(&toks[0], "type") {
            if toks.len() > 1 {
                assert(tv[1] == toks@[1]@);
            }
            let mut name_ok = false;
            if toks.len() > 1 {
                name_ok = match &toks[1] {
                    Token::Word { text, .. } => is_ident_str(text),
                    _ => false,
                };
            }
            if !name_ok {
                return Result::Err(SyntaxError::ExpectedName { pos: pos_at_x(chars, toks, 1) });
            }
            let name = match &toks[1] {
                Token::Word { text, .. } => text.clone(),
                _ => String::new(),
            };
            if toks.len() <= 2 {
                let vs: Vec<VariantArg> = Vec::new();
                assert(variant_args_view(vs@) =~= Seq::<VariantArgV>::empty());
                return Result::Ok(ThrowsArgs { name: Option::Some(name), variants: vs });
            }
            assert(tv[2] == toks@[2]@);
            if is_punct_x(&toks[2], '=') {
                match parse_variant_list(chars, toks, 3) {
                    Result::Err(e) => Result::Err(e),
                    Result::Ok((vs, k)) => {
                        if k >= toks.len() {
                            Result::Ok(ThrowsArgs { name: Option::Some(name), variants: vs })
                        } else {
                            Result::Err(SyntaxError::ExpectedEnd { pos: pos_at_x(chars, toks, k) })
                        }
                    },
                }
            } else {
                Result::Err(SyntaxError::ExpectedEnd { pos: pos_at_x(chars, toks, 2) })
            }
        } else {
            match parse_variant_list(chars, toks, 0) {
                Result::Err(e) => Result::Err(e),
                Result::Ok((vs, k)) => {
                    if k >= toks.len() {
                        Result::Ok(ThrowsArgs { name: Option::None, variants: vs })
                    } else {
                        Result::Err(SyntaxError::ExpectedEnd { pos: pos_at_x(chars, toks, k) })
                    }
                },
            }
        }
    }
}

} // verus!

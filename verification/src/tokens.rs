//! The tokenizer for declaration text. A declaration is cut into words
//! (identifier-like runs), `::` and `->` pairs, and single punctuation
//! characters; ASCII whitespace separates tokens and is dropped. Every
//! token remembers the character span it was read from, so that a type
//! expression can later be kept exactly as written.

use vstd::prelude::*;
use crate::text::chars_substring;

verus! {

/// One token of a declaration.
pub enum Token {
    /// An identifier-like run of characters.
    Word { text: String, start: usize, end: usize },
    /// A `::` pair.
    PathSep { start: usize },
    /// A `->` pair.
    Arrow { start: usize },
    /// Any other single non-space character.
    Punct { ch: char, start: usize },
}

/// The mathematical value of a [`Token`].
#[verifier::ext_equal]
pub enum TokenV {
    Word { text: Seq<char>, start: int, end: int },
    PathSep { start: int },
    Arrow { start: int },
    Punct { ch: char, start: int },
}

impl View for Token {
    type V = TokenV;

    open spec fn view(&self) -> TokenV {
        match *self {
            Token::Word { text, start, end } => TokenV::Word {
                text: text@,
                start: start as int,
                end: end as int,
            },
            Token::PathSep { start } => TokenV::PathSep { start: start as int },
            Token::Arrow { start } => TokenV::Arrow { start: start as int },
            Token::Punct { ch, start } => TokenV::Punct { ch, start: start as int },
        }
    }
}

/// The views of a vector of tokens, elementwise.
pub open spec fn tokens_view(v: Seq<Token>) -> Seq<TokenV> {
    v.map_values(|t: Token| t@)
}

/// The characters that separate tokens.
pub open spec fn is_space(c: char) -> bool {
    c == ' ' || c == '\t' || c == '\n' || c == '\r'
}

/// The characters a word may consist of: ASCII letters, digits, `_`, and
/// every character beyond ASCII.
pub open spec fn is_word_char(c: char) -> bool {
    c == '_' || ('a' as u32 <= c as u32 && c as u32 <= 'z' as u32) || ('A' as u32 <= c as u32
        && c as u32 <= 'Z' as u32) || ('0' as u32 <= c as u32 && c as u32 <= '9' as u32) || c as u32
        > 127
}

/// The end of the word that starts at position `i`: the first position at
/// or after `i` holding no word character.
pub open spec fn word_end(s: Seq<char>, i: int) -> int
    decreases s.len() - i,
{
    if 0 <= i < s.len() && is_word_char(s[i]) {
        word_end(s, i + 1)
    } else {
        i
    }
}

pub proof fn lemma_word_end(s: Seq<char>, i: int)
    requires
        0 <= i <= s.len(),
    ensures
        i <= word_end(s, i) <= s.len(),
        i < s.len() && is_word_char(s[i]) ==> word_end(s, i) >= i + 1,
    decreases s.len() - i,
{
    if i < s.len() && is_word_char(s[i]) {
        lemma_word_end(s, i + 1);
    }
}

/// The position a token starts at.
pub open spec fn token_start(t: TokenV) -> int {
    match t {
        TokenV::Word { start, .. } => start,
        TokenV::PathSep { start } => start,
        TokenV::Arrow { start } => start,
        TokenV::Punct { start, .. } => start,
    }
}

/// The position just past a token.
pub open spec fn token_end(t: TokenV) -> int {
    match t {
        TokenV::Word { end, .. } => end,
        TokenV::PathSep { start } => start + 2,
        TokenV::Arrow { start } => start + 2,
        TokenV::Punct { start, .. } => start + 1,
    }
}

/// A token whose span lies within `s` and whose text, for a word, is
/// exactly the characters of its span.
pub open spec fn token_wf(s: Seq<char>, t: TokenV) -> bool {
    &&& 0 <= token_start(t)
    &&& token_start(t) < token_end(t) <= s.len()
    &&& (t matches TokenV::Word { text, start, end } ==> text == s.subrange(start, end))
}

/// The position just past the word that starts at `i`, bounded so that it
/// always advances and stays within `s`; where a word does start at `i`,
/// this is exactly [`word_end`].
pub open spec fn word_stop(s: Seq<char>, i: int) -> int {
    if i + 1 <= word_end(s, i) <= s.len() {
        word_end(s, i)
    } else {
        i + 1
    }
}

pub proof fn lemma_word_stop(s: Seq<char>, i: int)
    requires
        0 <= i < s.len(),
        is_word_char(s[i]),
    ensures
        word_stop(s, i) == word_end(s, i),
        i + 1 <= word_stop(s, i) <= s.len(),
{
    lemma_word_end(s, i);
}

/// The tokens of `s` from position `i` on.
pub open spec fn tokens_from(s: Seq<char>, i: int) -> Seq<TokenV>
    decreases s.len() - i,
{
    if i < 0 || i >= s.len() {
        Seq::empty()
    } else if is_space(s[i]) {
        tokens_from(s, i + 1)
    } else if s[i] == ':' && i + 1 < s.len() && s[i + 1] == ':' {
        seq![TokenV::PathSep { start: i }] + tokens_from(s, i + 2)
    } else if s[i] == '-' && i + 1 < s.len() && s[i + 1] == '>' {
        seq![TokenV::Arrow { start: i }] + tokens_from(s, i + 2)
    } else if is_word_char(s[i]) {
        seq![
            TokenV::Word { text: s.subrange(i, word_stop(s, i)), start: i, end: word_stop(s, i) },
        ] + tokens_from(s, word_stop(s, i))
    } else {
        seq![TokenV::Punct { ch: s[i], start: i }] + tokens_from(s, i + 1)
    }
}

/// Every token of `s` from position `i` on is well formed, the tokens lie
/// at or after `i`, and they lie in order, without overlap.
pub proof fn lemma_tokens_wf(s: Seq<char>, i: int)
    requires
        0 <= i <= s.len(),
    ensures
        forall|k: int|
            0 <= k < tokens_from(s, i).len() ==> token_wf(s, #[trigger] tokens_from(s, i)[k]) && i
                <= token_start(tokens_from(s, i)[k]),
        forall|k1: int, k2: int|
            0 <= k1 < k2 < tokens_from(s, i).len() ==> token_end(#[trigger] tokens_from(s, i)[k1])
                <= token_start(#[trigger] tokens_from(s, i)[k2]),
    decreases s.len() - i, 0int,
{
    if i >= s.len() {
    } else if is_space(s[i]) {
        lemma_tokens_wf(s, i + 1);
        assert(tokens_from(s, i) == tokens_from(s, i + 1));
        assert forall|k: int| 0 <= k < tokens_from(s, i).len() implies token_wf(
            s,
            #[trigger] tokens_from(s, i)[k],
        ) && i <= token_start(tokens_from(s, i)[k]) by {
            assert(tokens_from(s, i)[k] == tokens_from(s, i + 1)[k]);
        }
        assert forall|k1: int, k2: int|
            0 <= k1 < k2 < tokens_from(s, i).len() implies token_end(
            #[trigger] tokens_from(s, i)[k1],
        ) <= token_start(#[trigger] tokens_from(s, i)[k2]) by {
            assert(tokens_from(s, i)[k1] == tokens_from(s, i + 1)[k1]);
            assert(tokens_from(s, i)[k2] == tokens_from(s, i + 1)[k2]);
        }
    } else if s[i] == ':' && i + 1 < s.len() && s[i + 1] == ':' {
        lemma_tokens_wf_step(s, i, TokenV::PathSep { start: i }, i + 2);
    } else if s[i] == '-' && i + 1 < s.len() && s[i + 1] == '>' {
        lemma_tokens_wf_step(s, i, TokenV::Arrow { start: i }, i + 2);
    } else if is_word_char(s[i]) {
        lemma_word_stop(s, i);
        lemma_tokens_wf_step(
            s,
            i,
            TokenV::Word { text: s.subrange(i, word_stop(s, i)), start: i, end: word_stop(s, i) },
            word_stop(s, i),
        );
    } else {
        lemma_tokens_wf_step(s, i, TokenV::Punct { ch: s[i], start: i }, i + 1);
    }
}

/// One step of [`lemma_tokens_wf`]: the token read at `i` is well formed
/// and everything after it lies past its end.
proof fn lemma_tokens_wf_step(s: Seq<char>, i: int, first: TokenV, next: int)
    requires
        0 <= i < s.len(),
        i < next <= s.len(),
        tokens_from(s, i) == seq![first] + tokens_from(s, next),
        token_wf(s, first),
        token_start(first) == i,
        token_end(first) == next,
    ensures
        forall|k: int|
            0 <= k < tokens_from(s, i).len() ==> token_wf(s, #[trigger] tokens_from(s, i)[k]) && i
                <= token_start(tokens_from(s, i)[k]),
        forall|k1: int, k2: int|
            0 <= k1 < k2 < tokens_from(s, i).len() ==> token_end(#[trigger] tokens_from(s, i)[k1])
                <= token_start(#[trigger] tokens_from(s, i)[k2]),
    decreases s.len() - next, 1int,
{
    lemma_tokens_wf(s, next);
    let toks = tokens_from(s, i);
    let rest = tokens_from(s, next);
    assert(toks[0] == first);
    assert forall|k: int| 1 <= k < toks.len() implies toks[k] == rest[k - 1] by {}
}

/// Whether `c` separates tokens.
fn is_space_c(c: char) -> (r: bool)
    ensures
        r == is_space(c),
{
    c == ' ' || c == '\t' || c == '\n' || c == '\r'
}

/// Whether `c` may stand in a word.
fn is_word_char_c(c: char) -> (r: bool)
    ensures
        r == is_word_char(c),
{
    let u = c as u32;
    c == '_' || ('a' as u32 <= u && u <= 'z' as u32) || ('A' as u32 <= u && u <= 'Z' as u32) || ('0'
        as u32 <= u && u <= '9' as u32) || u > 127
}

/// Cuts `chars` into its tokens.
pub fn tokenize(chars: &Vec<char>) -> (r: Vec<Token>)
    ensures
        tokens_view(r@) == tokens_from(chars@, 0),
{
    let ghost s = chars@;
    let mut toks: Vec<Token> = Vec::new();
    let mut i: usize = 0;
    assert(tokens_view(toks@) =~= Seq::<TokenV>::empty());
    while i < chars.len()
        invariant
            i <= s.len(),
            s == chars@,
            tokens_from(s, 0) == tokens_view(toks@) + tokens_from(s, i as int),
        decreases s.len() - i,
    {
        let c = chars[i];
        if is_space_c(c) {
            i += 1;
        } else if c == ':' && i + 1 < chars.len() && chars[i + 1] == ':' {
            let t = Token::PathSep { start: i };
            proof {
                push_token_step(s, toks@, t, i as int, i + 2);
            }
            toks.push(t);
            i += 2;
        } else if c == '-' && i + 1 < chars.len() && chars[i + 1] == '>' {
            let t = Token::Arrow { start: i };
            proof {
                push_token_step(s, toks@, t, i as int, i + 2);
            }
            toks.push(t);
            i += 2;
        } else if is_word_char_c(c) {
            let mut j: usize = i;
            while j < chars.len() && is_word_char_c(chars[j])
                invariant
                    i <= j <= s.len(),
                    s == chars@,
                    word_end(s, i as int) == word_end(s, j as int),
                decreases s.len() - j,
            {
                j += 1;
            }
            assert(word_end(s, j as int) == j);
            proof {
                lemma_word_stop(s, i as int);
            }
            let text = chars_substring(chars, i, j);
            let t = Token::Word { text, start: i, end: j };
            proof {
                push_token_step(s, toks@, t, i as int, j as int);
            }
            toks.push(t);
            i = j;
        } else {
            let t = Token::Punct { ch: c, start: i };
            proof {
                push_token_step(s, toks@, t, i as int, i + 1);
            }
            toks.push(t);
            i += 1;
        }
    }
    toks
}

/// One tokenizer step: pushing the token read at `i` keeps the prefix
/// equation, where `next` is the position just after the token.
proof fn push_token_step(s: Seq<char>, toks: Seq<Token>, t: Token, i: int, next: int)
    requires
        0 <= i < s.len(),
        tokens_from(s, 0) == tokens_view(toks) + tokens_from(s, i),
        tokens_from(s, i) == seq![t@] + tokens_from(s, next),
    ensures
        tokens_from(s, 0) == tokens_view(toks.push(t)) + tokens_from(s, next),
{
    assert(tokens_view(toks.push(t)) =~= tokens_view(toks).push(t@));
    assert(tokens_view(toks).push(t@) + tokens_from(s, next) =~= tokens_view(toks) + (seq![t@]
        + tokens_from(s, next)));
}




/// A token list that describes `s`: every token well formed, in order,
/// without overlap.
pub open spec fn toks_wf(s: Seq<char>, toks: Seq<TokenV>) -> bool {
    &&& forall|k: int| 0 <= k < toks.len() ==> token_wf(s, #[trigger] toks[k])
    &&& forall|k1: int, k2: int|
        0 <= k1 < k2 < toks.len() ==> token_end(#[trigger] toks[k1]) <= token_start(
            #[trigger] toks[k2],
        )
}

/// The tokens of a whole text are well formed, in order, without overlap.
pub proof fn lemma_tokenize_wf(s: Seq<char>)
    ensures
        toks_wf(s, tokens_from(s, 0)),
{
    lemma_tokens_wf(s, 0);
}

} // verus!

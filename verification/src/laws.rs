//! Properties of the lexical grammar that hold for whole classes of inputs,
//! stated over the model in `model` and proved once and for all.

use vstd::prelude::*;

use crate::model::{
    classify_word, digits_end, ident_end, is_digit_char, is_ident_char, is_ident_start_char,
    is_whitespace_char, keyword_of, lemma_digits_end_bounds, lemma_digits_end_chars,
    lemma_ident_end_bounds, lemma_ident_end_chars, lex_all, lex_from, number_end, scan_token,
    skip_trivia,
};
use crate::token::TokenModel;

verus! {

/// An input consists solely of trivia when the trivia skipper started at its
/// beginning consumes all of it.
pub open spec fn trivia_only(s: Seq<char>) -> bool {
    skip_trivia(s, 0) == s.len()
}

/// An identifier-shaped word: non-empty, beginning with a letter or an
/// underscore, continuing with letters, digits and underscores only.
pub open spec fn ident_shaped(w: Seq<char>) -> bool {
    &&& w.len() > 0
    &&& is_ident_start_char(w[0])
    &&& forall|k: int| 0 <= k < w.len() ==> is_ident_char(w[k])
}

/// An input consisting solely of trivia — whitespace and comments of any of
/// the three forms, in any arrangement — produces an empty token stream.
pub proof fn lemma_trivia_only_yields_nothing(s: Seq<char>)
    requires
        trivia_only(s),
    ensures
        lex_all(s) == Seq::<Option<TokenModel>>::empty(),
{
}

/// An input consisting solely of whitespace is trivia-only, so it produces
/// an empty token stream.
pub proof fn lemma_whitespace_only_is_trivia(s: Seq<char>)
    requires
        forall|k: int| 0 <= k < s.len() ==> is_whitespace_char(s[k]),
    ensures
        trivia_only(s),
        lex_all(s) == Seq::<Option<TokenModel>>::empty(),
{
    lemma_whitespace_skipped_from(s, 0);
    lemma_trivia_only_yields_nothing(s);
}

proof fn lemma_whitespace_skipped_from(s: Seq<char>, i: int)
    requires
        0 <= i <= s.len(),
        forall|k: int| 0 <= k < s.len() ==> is_whitespace_char(s[k]),
    ensures
        skip_trivia(s, i) == s.len(),
    decreases s.len() - i,
{
    if i < s.len() {
        lemma_whitespace_skipped_from(s, i + 1);
    }
}

/// The maximal run of identifier characters covers the whole word.
proof fn lemma_ident_end_covers(w: Seq<char>, i: int)
    requires
        0 <= i <= w.len(),
        forall|k: int| 0 <= k < w.len() ==> is_ident_char(w[k]),
    ensures
        ident_end(w, i) == w.len(),
    decreases w.len() - i,
{
    if i < w.len() {
        lemma_ident_end_covers(w, i + 1);
    }
}

/// An input that is exactly one identifier-shaped word lexes to exactly one
/// token: the classification of that word.
proof fn lemma_word_lexes_alone(w: Seq<char>)
    requires
        ident_shaped(w),
    ensures
        lex_all(w) == seq![Some(classify_word(w))],
{
    assert(!is_whitespace_char(w[0]) && w[0] != '/' && w[0] != '#');
    assert(skip_trivia(w, 0) == 0);
    lemma_ident_end_covers(w, 0);
    assert(scan_token(w, 0) == (Some(classify_word(w.subrange(0, w.len() as int))), w.len() as int));
    assert(w.subrange(0, w.len() as int) =~= w);
    assert(skip_trivia(w, w.len() as int) == w.len());
    assert(lex_from(w, w.len() as int) =~= Seq::<Option<TokenModel>>::empty());
    assert(lex_all(w) =~= seq![Some(classify_word(w))]);
}

/// Every reserved word of the keyword table, given as the entire input,
/// lexes to its keyword token — never to an identifier.
pub proof fn lemma_keyword_yields_keyword(w: Seq<char>)
    requires
        keyword_of(w) is Some,
    ensures
        lex_all(w) == seq![Some(keyword_of(w)->Some_0)],
        !(keyword_of(w)->Some_0 is Ident),
{
    lemma_keyword_is_ident_shaped(w);
    lemma_word_lexes_alone(w);
}

/// Every identifier-shaped word outside the keyword table, given as the
/// entire input, lexes to an `Ident` holding exactly that spelling.
pub proof fn lemma_non_keyword_yields_ident(w: Seq<char>)
    requires
        ident_shaped(w),
        keyword_of(w) is None,
    ensures
        lex_all(w) == seq![Some(TokenModel::Ident(w))],
{
    lemma_word_lexes_alone(w);
}

/// Whatever the input, an `Ident` produced by classification holds an
/// identifier-shaped text: never empty, and never starting with a digit.
pub proof fn lemma_ident_token_shape(s: Seq<char>, i: int, w: Seq<char>)
    requires
        0 <= i < s.len(),
        scan_token(s, i).0 == Some(TokenModel::Ident(w)),
    ensures
        ident_shaped(w),
        !is_digit_char(w[0]),
{
    let j = ident_end(s, i);
    assert(is_ident_start_char(s[i]));
    assert(j == ident_end(s, i + 1));
    lemma_ident_end_bounds(s, i + 1);
    lemma_ident_end_chars(s, i);
    assert(w =~= s.subrange(i, j));
    assert(forall|k: int| 0 <= k < w.len() ==> is_ident_char(#[trigger] w[k]));
}

/// Whatever the input, a `Number` produced by classification holds a
/// non-empty text that starts with a digit — so no sign is ever part of the
/// literal — and consists of digits and at most one dot.
pub proof fn lemma_number_token_shape(s: Seq<char>, i: int, t: Seq<char>)
    requires
        0 <= i < s.len(),
        scan_token(s, i).0 == Some(TokenModel::Number(t)),
    ensures
        t.len() > 0,
        is_digit_char(t[0]),
        forall|k: int| 0 <= k < t.len() ==> is_digit_char(#[trigger] t[k]) || t[k] == '.',
{
    let e = number_end(s, i);
    assert(is_digit_char(s[i]));
    let d = digits_end(s, i);
    assert(d == digits_end(s, i + 1));
    lemma_digits_end_bounds(s, i + 1);
    lemma_digits_end_chars(s, i);
    assert(t =~= s.subrange(i, e));
    if d < s.len() && s[d] == '.' && d + 1 < s.len() && is_digit_char(s[d + 1]) {
        lemma_digits_end_bounds(s, d + 1);
        lemma_digits_end_chars(s, d + 1);
    }
    assert(forall|k: int| 0 <= k < t.len() ==> is_digit_char(#[trigger] t[k]) || t[k] == '.');
}

/// Each entry of the keyword table is an identifier-shaped spelling.
proof fn lemma_keyword_is_ident_shaped(w: Seq<char>)
    requires
        keyword_of(w) is Some,
    ensures
        ident_shaped(w),
        !(keyword_of(w)->Some_0 is Ident),
{
    reveal_strlit("struct");
    reveal_strlit("null");
    reveal_strlit("void");
    reveal_strlit("int");
    reveal_strlit("float");
    reveal_strlit("string");
    reveal_strlit("boolean");
    reveal_strlit("else");
    reveal_strlit("if");
    reveal_strlit("while");
    reveal_strlit("for");
    reveal_strlit("return");
    reveal_strlit("let");
    reveal_strlit("mut");
    reveal_strlit("fn");
    reveal_strlit("true");
    reveal_strlit("false");
}

} // verus!

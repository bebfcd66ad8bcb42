//! The mathematical model of the lexical grammar.
//!
//! Every function here is specification-only. The positions they compute are
//! character offsets into the input, viewed as a `Seq<char>`. The executable
//! scanner in `lexer` and the string decoder in `decode` are proved to agree
//! with these functions exactly.

use vstd::prelude::*;

use crate::token::TokenModel;

verus! {

// ---------------------------------------------------------------------------
// Character classes
// ---------------------------------------------------------------------------

/// Whitespace skipped between tokens: space, tab, newline, form feed.
pub open spec fn is_whitespace_char(c: char) -> bool {
    c == ' ' || c == '\t' || c == '\n' || c == '\x0c'
}

/// A decimal digit.
pub open spec fn is_digit_char(c: char) -> bool {
    '0' <= c && c <= '9'
}

/// A character that may begin an identifier: a letter or an underscore.
pub open spec fn is_ident_start_char(c: char) -> bool {
    ('a' <= c && c <= 'z') || ('A' <= c && c <= 'Z') || c == '_'
}

/// A character that may continue an identifier.
pub open spec fn is_ident_char(c: char) -> bool {
    is_ident_start_char(c) || is_digit_char(c)
}

// ---------------------------------------------------------------------------
// Trivia
// ---------------------------------------------------------------------------

/// The offset of the first newline at or after `i`, or the end of input if
/// none remains. Line and hash comments extend to (but exclude) this point.
pub open spec fn line_end(s: Seq<char>, i: int) -> int
    decreases s.len() - i
        when 0 <= i <= s.len()
{
    if i >= s.len() {
        i
    } else if s[i] == '\n' {
        i
    } else {
        line_end(s, i + 1)
    }
}

/// The offset just past the end of a block comment body, scanning from `i`
/// with `depth` comment levels currently open. `/*` opens a further level,
/// `*/` closes one; the scan ends when the depth returns to zero. An
/// unterminated comment consumes to the end of the input.
pub open spec fn block_comment_end(s: Seq<char>, i: int, depth: int) -> int
    decreases s.len() - i
        when 0 <= i <= s.len()
{
    if i >= s.len() {
        i
    } else if s[i] == '/' && i + 1 < s.len() && s[i + 1] == '*' {
        block_comment_end(s, i + 2, depth + 1)
    } else if s[i] == '*' && i + 1 < s.len() && s[i + 1] == '/' {
        if depth == 1 {
            i + 2
        } else {
            block_comment_end(s, i + 2, depth - 1)
        }
    } else {
        block_comment_end(s, i + 1, depth)
    }
}

/// The first offset at or after `i` that starts neither whitespace, a line
/// comment (`//`), a nested block comment (`/*`), nor a hash comment (`#`);
/// the end of input if only trivia remains.
pub open spec fn skip_trivia(s: Seq<char>, i: int) -> int
    decreases s.len() - i
        when 0 <= i <= s.len()
        via skip_trivia_decreases
{
    if i >= s.len() {
        i
    } else if is_whitespace_char(s[i]) {
        skip_trivia(s, i + 1)
    } else if s[i] == '/' && i + 1 < s.len() && s[i + 1] == '/' {
        skip_trivia(s, line_end(s, i + 2))
    } else if s[i] == '/' && i + 1 < s.len() && s[i + 1] == '*' {
        skip_trivia(s, block_comment_end(s, i + 2, 1))
    } else if s[i] == '#' {
        skip_trivia(s, line_end(s, i + 1))
    } else {
        i
    }
}

#[via_fn]
proof fn skip_trivia_decreases(s: Seq<char>, i: int) {
    if i < s.len() {
        if is_whitespace_char(s[i]) {
        } else if s[i] == '/' && i + 1 < s.len() && s[i + 1] == '/' {
            lemma_line_end_bounds(s, i + 2);
        } else if s[i] == '/' && i + 1 < s.len() && s[i + 1] == '*' {
            lemma_block_comment_end_bounds(s, i + 2, 1);
        } else if s[i] == '#' {
            lemma_line_end_bounds(s, i + 1);
        }
    }
}

pub proof fn lemma_line_end_bounds(s: Seq<char>, i: int)
    requires
        0 <= i <= s.len(),
    ensures
        i <= line_end(s, i) <= s.len(),
    decreases s.len() - i,
{
    if i < s.len() && s[i] != '\n' {
        lemma_line_end_bounds(s, i + 1);
    }
}

pub proof fn lemma_block_comment_end_bounds(s: Seq<char>, i: int, depth: int)
    requires
        0 <= i <= s.len(),
    ensures
        i <= block_comment_end(s, i, depth) <= s.len(),
    decreases s.len() - i,
{
    if i >= s.len() {
    } else if s[i] == '/' && i + 1 < s.len() && s[i + 1] == '*' {
        lemma_block_comment_end_bounds(s, i + 2, depth + 1);
    } else if s[i] == '*' && i + 1 < s.len() && s[i + 1] == '/' {
        if depth != 1 {
            lemma_block_comment_end_bounds(s, i + 2, depth - 1);
        }
    } else {
        lemma_block_comment_end_bounds(s, i + 1, depth);
    }
}

pub proof fn lemma_skip_trivia_bounds(s: Seq<char>, i: int)
    requires
        0 <= i <= s.len(),
    ensures
        i <= skip_trivia(s, i) <= s.len(),
    decreases s.len() - i,
{
    if i >= s.len() {
    } else if is_whitespace_char(s[i]) {
        lemma_skip_trivia_bounds(s, i + 1);
    } else if s[i] == '/' && i + 1 < s.len() && s[i + 1] == '/' {
        lemma_line_end_bounds(s, i + 2);
        lemma_skip_trivia_bounds(s, line_end(s, i + 2));
    } else if s[i] == '/' && i + 1 < s.len() && s[i + 1] == '*' {
        lemma_block_comment_end_bounds(s, i + 2, 1);
        lemma_skip_trivia_bounds(s, block_comment_end(s, i + 2, 1));
    } else if s[i] == '#' {
        lemma_line_end_bounds(s, i + 1);
        lemma_skip_trivia_bounds(s, line_end(s, i + 1));
    }
}

// ---------------------------------------------------------------------------
// Token shapes
// ---------------------------------------------------------------------------

/// The offset just past the longest run of identifier characters from `i`.
pub open spec fn ident_end(s: Seq<char>, i: int) -> int
    decreases s.len() - i
        when 0 <= i <= s.len()
{
    if i < s.len() && is_ident_char(s[i]) {
        ident_end(s, i + 1)
    } else {
        i
    }
}

/// The offset just past the longest run of digits from `i`.
pub open spec fn digits_end(s: Seq<char>, i: int) -> int
    decreases s.len() - i
        when 0 <= i <= s.len()
{
    if i < s.len() && is_digit_char(s[i]) {
        digits_end(s, i + 1)
    } else {
        i
    }
}

/// The offset just past a numeric literal starting at `i`: a run of digits,
/// optionally followed by a dot and a further run of digits. The dot is
/// consumed only when a digit follows it (maximal munch).
pub open spec fn number_end(s: Seq<char>, i: int) -> int {
    let d = digits_end(s, i);
    if d < s.len() && s[d] == '.' && d + 1 < s.len() && is_digit_char(s[d + 1]) {
        digits_end(s, d + 1)
    } else {
        d
    }
}

/// Scanning the body of a string literal from `i` (just past the opening
/// quote): the offset just past the closing quote, or `None` when the
/// literal never terminates. A backslash escapes the following character,
/// except that a backslash at the end of input or directly before a newline
/// leaves the literal unterminated.
pub open spec fn string_end(s: Seq<char>, i: int) -> Option<int>
    decreases s.len() - i
        when 0 <= i <= s.len()
{
    if i >= s.len() {
        None
    } else if s[i] == '"' {
        Some(i + 1)
    } else if s[i] == '\\' {
        if i + 1 < s.len() && s[i + 1] != '\n' {
            string_end(s, i + 2)
        } else {
            None
        }
    } else {
        string_end(s, i + 1)
    }
}

pub proof fn lemma_string_end_bounds(s: Seq<char>, i: int)
    requires
        0 <= i <= s.len(),
        string_end(s, i) is Some,
    ensures
        i + 1 <= string_end(s, i)->Some_0 <= s.len(),
    decreases s.len() - i,
{
    if i >= s.len() {
    } else if s[i] == '"' {
    } else if s[i] == '\\' {
        if i + 1 < s.len() && s[i + 1] != '\n' {
            lemma_string_end_bounds(s, i + 2);
        }
    } else {
        lemma_string_end_bounds(s, i + 1);
    }
}

// ---------------------------------------------------------------------------
// String decoding
// ---------------------------------------------------------------------------

/// The character denoted by a backslash escape: `\n` and `\t` become the
/// control characters; any other escaped character stands for itself
/// (covering `\\` and `\"`, and leniently every unrecognized escape).
pub open spec fn escape_char(c: char) -> char {
    if c == 'n' {
        '\n'
    } else if c == 't' {
        '\t'
    } else {
        c
    }
}

/// The decoded content of a string-literal body from offset `i` onwards:
/// stops at an unescaped quote or at the end of input; a trailing backslash
/// with nothing after it is silently dropped.
pub open spec fn decode_from(s: Seq<char>, i: int) -> Seq<char>
    decreases s.len() - i
        when 0 <= i
{
    if i >= s.len() {
        Seq::empty()
    } else if s[i] == '\\' {
        if i + 1 < s.len() {
            seq![escape_char(s[i + 1])] + decode_from(s, i + 2)
        } else {
            Seq::empty()
        }
    } else if s[i] == '"' {
        Seq::empty()
    } else {
        seq![s[i]] + decode_from(s, i + 1)
    }
}

/// The decoded content of a raw string lexeme, opening quote included:
/// the first character is dropped and the remainder is decoded.
pub open spec fn decode_string(raw: Seq<char>) -> Seq<char> {
    decode_from(raw, 1)
}

// ---------------------------------------------------------------------------
// Classification
// ---------------------------------------------------------------------------

/// The fixed keyword table: the reserved words of the language, each mapped
/// to its token; `None` for every other spelling.
pub open spec fn keyword_of(w: Seq<char>) -> Option<TokenModel> {
    if w == "struct"@ {
        Some(TokenModel::Struct)
    } else if w == "null"@ {
        Some(TokenModel::Null)
    } else if w == "void"@ {
        Some(TokenModel::TVoid)
    } else if w == "int"@ {
        Some(TokenModel::TInt)
    } else if w == "float"@ {
        Some(TokenModel::TFloat)
    } else if w == "string"@ {
        Some(TokenModel::TString)
    } else if w == "boolean"@ {
        Some(TokenModel::TBoolean)
    } else if w == "else"@ {
        Some(TokenModel::Else)
    } else if w == "if"@ {
        Some(TokenModel::If)
    } else if w == "while"@ {
        Some(TokenModel::While)
    } else if w == "for"@ {
        Some(TokenModel::For)
    } else if w == "return"@ {
        Some(TokenModel::Return)
    } else if w == "let"@ {
        Some(TokenModel::Let)
    } else if w == "mut"@ {
        Some(TokenModel::Mut)
    } else if w == "fn"@ {
        Some(TokenModel::Fn)
    } else if w == "true"@ {
        Some(TokenModel::True)
    } else if w == "false"@ {
        Some(TokenModel::False)
    } else {
        None
    }
}

/// An identifier-shaped word is either a reserved word or an identifier
/// spelled exactly as matched.
pub open spec fn classify_word(w: Seq<char>) -> TokenModel {
    match keyword_of(w) {
        Some(t) => t,
        None => TokenModel::Ident(w),
    }
}

/// The operator or punctuation token starting at `i`, with the offset just
/// past it, preferring two-character operators over their one-character
/// prefixes (maximal munch); `None` when the character starts no token.
pub open spec fn op_at(s: Seq<char>, i: int) -> Option<(TokenModel, int)>
    recommends
        0 <= i < s.len(),
{
    let c = s[i];
    let two = i + 1 < s.len();
    if c == '=' {
        if two && s[i + 1] == '=' {
            Some((TokenModel::EqEq, i + 2))
        } else {
            Some((TokenModel::Eq, i + 1))
        }
    } else if c == '!' {
        if two && s[i + 1] == '=' {
            Some((TokenModel::BangEq, i + 2))
        } else {
            Some((TokenModel::Bang, i + 1))
        }
    } else if c == '<' {
        if two && s[i + 1] == '=' {
            Some((TokenModel::LTEQ, i + 2))
        } else {
            Some((TokenModel::LT, i + 1))
        }
    } else if c == '>' {
        if two && s[i + 1] == '=' {
            Some((TokenModel::GTEQ, i + 2))
        } else {
            Some((TokenModel::GT, i + 1))
        }
    } else if c == '-' {
        if two && s[i + 1] == '>' {
            Some((TokenModel::Arrow, i + 2))
        } else {
            Some((TokenModel::Dash, i + 1))
        }
    } else if c == '&' {
        if two && s[i + 1] == '&' {
            Some((TokenModel::AndAnd, i + 2))
        } else {
            None
        }
    } else if c == '|' {
        if two && s[i + 1] == '|' {
            Some((TokenModel::OrOr, i + 2))
        } else {
            None
        }
    } else if c == '.' {
        Some((TokenModel::Dot, i + 1))
    } else if c == ';' {
        Some((TokenModel::Semi, i + 1))
    } else if c == ',' {
        Some((TokenModel::Comma, i + 1))
    } else if c == '{' {
        Some((TokenModel::LBrace, i + 1))
    } else if c == '}' {
        Some((TokenModel::RBrace, i + 1))
    } else if c == '(' {
        Some((TokenModel::LParen, i + 1))
    } else if c == ')' {
        Some((TokenModel::RParen, i + 1))
    } else if c == '[' {
        Some((TokenModel::LBracket, i + 1))
    } else if c == ']' {
        Some((TokenModel::RBracket, i + 1))
    } else if c == '+' {
        Some((TokenModel::Plus, i + 1))
    } else if c == '*' {
        Some((TokenModel::Star, i + 1))
    } else if c == '/' {
        Some((TokenModel::Slash, i + 1))
    } else if c == '%' {
        Some((TokenModel::Percent, i + 1))
    } else {
        None
    }
}

/// One classification step at offset `i`, which must lie at a non-trivia
/// character. Yields the token model (or `None` for an unrecognized
/// character) and the offset just past the consumed text; an unrecognized
/// character and an unterminated string literal both consume exactly one
/// character, so scanning always advances.
pub open spec fn scan_token(s: Seq<char>, i: int) -> (Option<TokenModel>, int)
    recommends
        0 <= i < s.len(),
{
    let c = s[i];
    if is_ident_start_char(c) {
        let j = ident_end(s, i);
        (Some(classify_word(s.subrange(i, j))), j)
    } else if is_digit_char(c) {
        let j = number_end(s, i);
        (Some(TokenModel::Number(s.subrange(i, j))), j)
    } else if c == '"' {
        match string_end(s, i + 1) {
            Some(j) => (Some(TokenModel::String(decode_string(s.subrange(i, j)))), j),
            None => (None, i + 1),
        }
    } else {
        match op_at(s, i) {
            Some((t, j)) => (Some(t), j),
            None => (None, i + 1),
        }
    }
}

pub proof fn lemma_ident_end_bounds(s: Seq<char>, i: int)
    requires
        0 <= i <= s.len(),
    ensures
        i <= ident_end(s, i) <= s.len(),
    decreases s.len() - i,
{
    if i < s.len() && is_ident_char(s[i]) {
        lemma_ident_end_bounds(s, i + 1);
    }
}

/// Every character inside the maximal identifier run is an identifier
/// character.
pub proof fn lemma_ident_end_chars(s: Seq<char>, i: int)
    requires
        0 <= i <= s.len(),
    ensures
        forall|k: int| i <= k < ident_end(s, i) ==> is_ident_char(s[k]),
    decreases s.len() - i,
{
    if i < s.len() && is_ident_char(s[i]) {
        lemma_ident_end_chars(s, i + 1);
        lemma_ident_end_bounds(s, i + 1);
        assert forall|k: int| i <= k < ident_end(s, i) implies is_ident_char(s[k]) by {
            if k > i {
                assert(is_ident_char(s[k]));
            }
        }
    }
}

/// Every character inside the maximal digit run is a digit.
pub proof fn lemma_digits_end_chars(s: Seq<char>, i: int)
    requires
        0 <= i <= s.len(),
    ensures
        forall|k: int| i <= k < digits_end(s, i) ==> is_digit_char(s[k]),
    decreases s.len() - i,
{
    if i < s.len() && is_digit_char(s[i]) {
        lemma_digits_end_chars(s, i + 1);
        lemma_digits_end_bounds(s, i + 1);
        assert forall|k: int| i <= k < digits_end(s, i) implies is_digit_char(s[k]) by {
            if k > i {
                assert(is_digit_char(s[k]));
            }
        }
    }
}

pub proof fn lemma_digits_end_bounds(s: Seq<char>, i: int)
    requires
        0 <= i <= s.len(),
    ensures
        i <= digits_end(s, i) <= s.len(),
    decreases s.len() - i,
{
    if i < s.len() && is_digit_char(s[i]) {
        lemma_digits_end_bounds(s, i + 1);
    }
}

pub proof fn lemma_number_end_bounds(s: Seq<char>, i: int)
    requires
        0 <= i <= s.len(),
    ensures
        i <= number_end(s, i) <= s.len(),
{
    lemma_digits_end_bounds(s, i);
    let d = digits_end(s, i);
    if d < s.len() && s[d] == '.' && d + 1 < s.len() && is_digit_char(s[d + 1]) {
        lemma_digits_end_bounds(s, d + 1);
    }
}

/// Classification always advances past at least one character and never
/// past the end of the input.
pub proof fn lemma_scan_token_progress(s: Seq<char>, i: int)
    requires
        0 <= i < s.len(),
    ensures
        i < scan_token(s, i).1 <= s.len(),
{
    let c = s[i];
    if is_ident_start_char(c) {
        lemma_ident_end_bounds(s, i + 1);
        assert(ident_end(s, i) == ident_end(s, i + 1));
    } else if is_digit_char(c) {
        lemma_digits_end_bounds(s, i + 1);
        assert(digits_end(s, i) == digits_end(s, i + 1));
        let d = digits_end(s, i);
        if d < s.len() && s[d] == '.' && d + 1 < s.len() && is_digit_char(s[d + 1]) {
            lemma_digits_end_bounds(s, d + 1);
        }
    } else if c == '"' {
        if string_end(s, i + 1) is Some {
            lemma_string_end_bounds(s, i + 1);
        }
    }
}

// ---------------------------------------------------------------------------
// The whole stream
// ---------------------------------------------------------------------------

/// The stream of classification results from offset `i` to the end of the
/// input: each element is the model of one produced token, or `None` where
/// an unrecognized character was reported and skipped.
pub open spec fn lex_from(s: Seq<char>, i: int) -> Seq<Option<TokenModel>>
    decreases s.len() - i
        when 0 <= i <= s.len()
        via lex_from_decreases
{
    let j = skip_trivia(s, i);
    if j >= s.len() {
        Seq::empty()
    } else {
        seq![scan_token(s, j).0] + lex_from(s, scan_token(s, j).1)
    }
}

#[via_fn]
proof fn lex_from_decreases(s: Seq<char>, i: int) {
    lemma_skip_trivia_bounds(s, i);
    let j = skip_trivia(s, i);
    if j < s.len() {
        lemma_scan_token_progress(s, j);
    }
}

/// The stream of classification results for the whole input.
pub open spec fn lex_all(s: Seq<char>) -> Seq<Option<TokenModel>> {
    lex_from(s, 0)
}

} // verus!

//! The tokenizer: a stateful cursor over an input text that yields one
//! classified token (or one lexical failure) per call.

use vstd::prelude::*;
use vstd::string::*;

use crate::model::{
    block_comment_end, classify_word, digits_end, ident_end, is_digit_char, is_ident_char,
    is_ident_start_char, is_whitespace_char, lemma_scan_token_progress,
    lex_all, lex_from, line_end, number_end, op_at, scan_token, skip_trivia, string_end,
};
use crate::token::TokenModel;

pub use crate::decode::parse_string;
pub use crate::token::LexError;
pub use crate::token::Token;

verus! {

// ---------------------------------------------------------------------------
// Character classes, executable side
// ---------------------------------------------------------------------------

fn is_whitespace(c: char) -> (b: bool)
    ensures
        b == is_whitespace_char(c),
{
    c == ' ' || c == '\t' || c == '\n' || c == '\x0c'
}

fn is_digit(c: char) -> (b: bool)
    ensures
        b == is_digit_char(c),
{
    '0' <= c && c <= '9'
}

fn is_ident_start(c: char) -> (b: bool)
    ensures
        b == is_ident_start_char(c),
{
    ('a' <= c && c <= 'z') || ('A' <= c && c <= 'Z') || c == '_'
}

fn is_ident_continue(c: char) -> (b: bool)
    ensures
        b == is_ident_char(c),
{
    is_ident_start(c) || is_digit(c)
}

// ---------------------------------------------------------------------------
// Scanners
// ---------------------------------------------------------------------------

/// Advances from `from` to the next newline or the end of the input.
fn scan_line_end(src: &str, len: usize, from: usize) -> (r: usize)
    requires
        len == src@.len(),
        from <= len,
    ensures
        r as int == line_end(src@, from as int),
        from <= r <= len,
{
    let ghost s = src@;
    let mut k = from;
    while k < len
        invariant
            from <= k <= len,
            len == s.len(),
            s == src@,
            line_end(s, from as int) == line_end(s, k as int),
        ensures
            k as int == line_end(s, k as int),
        decreases len - k,
    {
        if src.get_char(k) == '\n' {
            break;
        }
        k = k + 1;
    }
    k
}

/// Skips the body of a nested block comment, the opening `/*` already
/// consumed. `/*` opens a further level and `*/` closes one; the scan stops
/// after the `*/` that closes the outermost level, or at the end of the
/// input when the comment never terminates.
fn skip_block_comment(src: &str, len: usize, from: usize) -> (r: usize)
    requires
        len == src@.len(),
        from <= len,
    ensures
        r as int == block_comment_end(src@, from as int, 1),
        from <= r <= len,
{
    let ghost s = src@;
    let mut k = from;
    let mut depth: usize = 1;
    loop
        invariant_except_break
            1 <= depth,
            2 * depth <= k + 2,
            block_comment_end(s, from as int, 1) == block_comment_end(s, k as int, depth as int),
        invariant
            from <= k <= len,
            len == s.len(),
            s == src@,
        ensures
            k as int == block_comment_end(s, from as int, 1),
        decreases len - k,
    {
        if k >= len {
            break;
        }
        let c = src.get_char(k);
        if c == '/' && k + 1 < len && src.get_char(k + 1) == '*' {
            k = k + 2;
            depth = depth + 1;
        } else if c == '*' && k + 1 < len && src.get_char(k + 1) == '/' {
            if depth == 1 {
                k = k + 2;
                break;
            }
            k = k + 2;
            depth = depth - 1;
        } else {
            k = k + 1;
        }
    }
    k
}

/// Skips whitespace, line comments, nested block comments, and hash
/// comments, stopping at the first character that begins none of them.
fn skip_trivia_from(src: &str, len: usize, from: usize) -> (r: usize)
    requires
        len == src@.len(),
        from <= len,
    ensures
        r as int == skip_trivia(src@, from as int),
        from <= r <= len,
{
    let ghost s = src@;
    let mut k = from;
    loop
        invariant
            from <= k <= len,
            len == s.len(),
            s == src@,
            skip_trivia(s, from as int) == skip_trivia(s, k as int),
        ensures
            k as int == skip_trivia(s, from as int),
        decreases len - k,
    {
        if k >= len {
            break;
        }
        let c = src.get_char(k);
        if is_whitespace(c) {
            k = k + 1;
        } else if c == '/' && k + 1 < len && src.get_char(k + 1) == '/' {
            k = scan_line_end(src, len, k + 2);
        } else if c == '/' && k + 1 < len && src.get_char(k + 1) == '*' {
            k = skip_block_comment(src, len, k + 2);
        } else if c == '#' {
            k = scan_line_end(src, len, k + 1);
        } else {
            break;
        }
    }
    k
}

/// Advances from `from` past the longest run of identifier characters.
fn scan_ident_end(src: &str, len: usize, from: usize) -> (r: usize)
    requires
        len == src@.len(),
        from <= len,
    ensures
        r as int == ident_end(src@, from as int),
        from <= r <= len,
{
    let ghost s = src@;
    let mut k = from;
    while k < len && is_ident_continue(src.get_char(k))
        invariant
            from <= k <= len,
            len == s.len(),
            s == src@,
            ident_end(s, from as int) == ident_end(s, k as int),
        decreases len - k,
    {
        k = k + 1;
    }
    k
}

/// Advances from `from` past the longest run of digits.
fn scan_digits_end(src: &str, len: usize, from: usize) -> (r: usize)
    requires
        len == src@.len(),
        from <= len,
    ensures
        r as int == digits_end(src@, from as int),
        from <= r <= len,
{
    let ghost s = src@;
    let mut k = from;
    while k < len && is_digit(src.get_char(k))
        invariant
            from <= k <= len,
            len == s.len(),
            s == src@,
            digits_end(s, from as int) == digits_end(s, k as int),
        decreases len - k,
    {
        k = k + 1;
    }
    k
}

/// Advances from `from` past a numeric literal: digits, then a fractional
/// part only when a digit directly follows the dot.
fn scan_number_end(src: &str, len: usize, from: usize) -> (r: usize)
    requires
        len == src@.len(),
        from <= len,
    ensures
        r as int == number_end(src@, from as int),
        from <= r <= len,
{
    let d = scan_digits_end(src, len, from);
    if d < len && src.get_char(d) == '.' && d + 1 < len && is_digit(src.get_char(d + 1)) {
        scan_digits_end(src, len, d + 1)
    } else {
        d
    }
}

/// Scans the body of a string literal, `from` pointing just past the opening
/// quote; yields the offset just past the closing quote, or `None` when the
/// literal never terminates.
fn scan_string_end(src: &str, len: usize, from: usize) -> (r: Option<usize>)
    requires
        len == src@.len(),
        from <= len,
    ensures
        match r {
            Some(e) => string_end(src@, from as int) == Some(e as int) && from < e <= len,
            None => string_end(src@, from as int) is None,
        },
{
    let ghost s = src@;
    let mut k = from;
    loop
        invariant
            from <= k <= len,
            len == s.len(),
            s == src@,
            string_end(s, from as int) == string_end(s, k as int),
        decreases len - k,
    {
        if k >= len {
            return None;
        }
        let c = src.get_char(k);
        if c == '"' {
            return Some(k + 1);
        }
        if c == '\\' {
            if k + 1 < len && src.get_char(k + 1) != '\n' {
                k = k + 2;
            } else {
                return None;
            }
        } else {
            k = k + 1;
        }
    }
}

/// Classifies an identifier-shaped word: a reserved word yields its keyword
/// token, any other spelling an `Ident` holding that exact spelling.
fn keyword_or_ident(word: &str) -> (t: Token)
    ensures
        t@ == classify_word(word@),
{
    if str_eq_str(word, "struct") {
        Token::Struct
    } else if str_eq_str(word, "null") {
        Token::Null
    } else if str_eq_str(word, "void") {
        Token::TVoid
    } else if str_eq_str(word, "int") {
        Token::TInt
    } else if str_eq_str(word, "float") {
        Token::TFloat
    } else if str_eq_str(word, "string") {
        Token::TString
    } else if str_eq_str(word, "boolean") {
        Token::TBoolean
    } else if str_eq_str(word, "else") {
        Token::Else
    } else if str_eq_str(word, "if") {
        Token::If
    } else if str_eq_str(word, "while") {
        Token::While
    } else if str_eq_str(word, "for") {
        Token::For
    } else if str_eq_str(word, "return") {
        Token::Return
    } else if str_eq_str(word, "let") {
        Token::Let
    } else if str_eq_str(word, "mut") {
        Token::Mut
    } else if str_eq_str(word, "fn") {
        Token::Fn
    } else if str_eq_str(word, "true") {
        Token::True
    } else if str_eq_str(word, "false") {
        Token::False
    } else {
        Token::Ident(word.to_owned())
    }
}

/// Character-by-character equality of two string slices.
fn str_eq_str(a: &str, b: &str) -> (r: bool)
    ensures
        r == (a@ == b@),
{
    let la = a.unicode_len();
    let lb = b.unicode_len();
    if la != lb {
        return false;
    }
    let mut i: usize = 0;
    while i < la
        invariant
            i <= la,
            la == a@.len(),
            la == b@.len(),
            forall|k: int| 0 <= k < i ==> a@[k] == b@[k],
        decreases la - i,
    {
        if a.get_char(i) != b.get_char(i) {
            return false;
        }
        i = i + 1;
    }
    proof {
        assert(a@ =~= b@);
    }
    true
}

/// The operator or punctuation token at `at`, preferring two-character
/// operators over their one-character prefixes.
fn scan_operator(src: &str, len: usize, at: usize) -> (r: Option<(Token, usize)>)
    requires
        len == src@.len(),
        at < len,
    ensures
        match r {
            Some(p) => op_at(src@, at as int) == Some((p.0@, p.1 as int)) && at < p.1 <= len,
            None => op_at(src@, at as int) is None,
        },
{
    let c = src.get_char(at);
    let two = at + 1 < len;
    if c == '=' {
        if two && src.get_char(at + 1) == '=' {
            Some((Token::EqEq, at + 2))
        } else {
            Some((Token::Eq, at + 1))
        }
    } else if c == '!' {
        if two && src.get_char(at + 1) == '=' {
            Some((Token::BangEq, at + 2))
        } else {
            Some((Token::Bang, at + 1))
        }
    } else if c == '<' {
        if two && src.get_char(at + 1) == '=' {
            Some((Token::LTEQ, at + 2))
        } else {
            Some((Token::LT, at + 1))
        }
    } else if c == '>' {
        if two && src.get_char(at + 1) == '=' {
            Some((Token::GTEQ, at + 2))
        } else {
            Some((Token::GT, at + 1))
        }
    } else if c == '-' {
        if two && src.get_char(at + 1) == '>' {
            Some((Token::Arrow, at + 2))
        } else {
            Some((Token::Dash, at + 1))
        }
    } else if c == '&' {
        if two && src.get_char(at + 1) == '&' {
            Some((Token::AndAnd, at + 2))
        } else {
            None
        }
    } else if c == '|' {
        if two && src.get_char(at + 1) == '|' {
            Some((Token::OrOr, at + 2))
        } else {
            None
        }
    } else if c == '.' {
        Some((Token::Dot, at + 1))
    } else if c == ';' {
        Some((Token::Semi, at + 1))
    } else if c == ',' {
        Some((Token::Comma, at + 1))
    } else if c == '{' {
        Some((Token::LBrace, at + 1))
    } else if c == '}' {
        Some((Token::RBrace, at + 1))
    } else if c == '(' {
        Some((Token::LParen, at + 1))
    } else if c == ')' {
        Some((Token::RParen, at + 1))
    } else if c == '[' {
        Some((Token::LBracket, at + 1))
    } else if c == ']' {
        Some((Token::RBracket, at + 1))
    } else if c == '+' {
        Some((Token::Plus, at + 1))
    } else if c == '*' {
        Some((Token::Star, at + 1))
    } else if c == '/' {
        Some((Token::Slash, at + 1))
    } else if c == '%' {
        Some((Token::Percent, at + 1))
    } else {
        None
    }
}

// ---------------------------------------------------------------------------
// The cursor
// ---------------------------------------------------------------------------

/// Whether an exec-level result models one element of the abstract stream:
/// a token whose model is `t` where classification yielded `t`, or an
/// `UnrecognizedCharacter` error spanning exactly the skipped character.
pub open spec fn result_models(
    r: Result<Token, LexError>,
    ot: Option<TokenModel>,
    start: int,
    end: int,
) -> bool {
    match ot {
        Some(t) => match r {
            Ok(tok) => tok@ == t,
            Err(_) => false,
        },
        None => match r {
            Ok(_) => false,
            Err(e) => e == (LexError::UnrecognizedCharacter {
                start: start as usize,
                end: end as usize,
            }),
        },
    }
}

/// The models of a sequence of produced results: `Some` of the token's
/// model for each token, `None` for each reported error.
pub open spec fn results_model(rs: Seq<Result<Token, LexError>>) -> Seq<Option<TokenModel>> {
    rs.map_values(
        |r: Result<Token, LexError>|
            match r {
                Ok(t) => Some(t@),
                Err(_) => None,
            },
    )
}

/// A pull-based tokenizer over a borrowed input text.
///
/// Each call to [`Lexer::next`] skips trivia, consumes the longest matching
/// lexical rule, and yields the token (or the failure) together with an
/// advanced cursor; [`Lexer::span`] and [`Lexer::slice`] report the source
/// extent of whatever the last call consumed.
pub struct Lexer<'a> {
    src: &'a str,
    len: usize,
    pos: usize,
    tok_start: usize,
    tok_end: usize,
}

impl<'a> Lexer<'a> {
    /// The input text as a sequence of characters.
    pub closed spec fn input(self) -> Seq<char> {
        self.src@
    }

    /// The cursor: the character offset where the next call will start.
    pub closed spec fn position(self) -> int {
        self.pos as int
    }

    /// The start offset of the most recently consumed text.
    pub closed spec fn token_start(self) -> int {
        self.tok_start as int
    }

    /// The offset just past the most recently consumed text.
    pub closed spec fn token_end(self) -> int {
        self.tok_end as int
    }

    /// The cursor and the recorded span always lie within the input.
    pub closed spec fn wf(self) -> bool {
        &&& self.len == self.input().len()
        &&& self.pos <= self.len
        &&& self.tok_start <= self.tok_end <= self.len
    }

    /// A fresh cursor at the start of `src`.
    pub fn new(src: &'a str) -> (lexer: Lexer<'a>)
        ensures
            lexer.wf(),
            lexer.input() == src@,
            lexer.position() == 0,
            lexer.token_start() == 0,
            lexer.token_end() == 0,
    {
        let len = src.unicode_len();
        Lexer { src, len, pos: 0, tok_start: 0, tok_end: 0 }
    }

    /// Produces the next token.
    ///
    /// Trivia before the token is discarded. At the end of the input the
    /// call yields `None`; otherwise it yields the token that the longest
    /// matching rule produces at the first non-trivia character, or an
    /// [`LexError::UnrecognizedCharacter`] spanning that single character
    /// when no rule matches, and the cursor advances past the consumed
    /// text — always by at least one character, so scanning makes progress
    /// on any input.
    pub fn next(&mut self) -> (r: Option<Result<Token, LexError>>)
        requires
            old(self).wf(),
        ensures
            final(self).wf(),
            final(self).input() == old(self).input(),
            old(self).position() <= final(self).position(),
            r is Some ==> old(self).position() < final(self).position(),
            ({
                let s = old(self).input();
                let j = skip_trivia(s, old(self).position());
                if j >= s.len() {
                    &&& r is None
                    &&& final(self).position() == s.len()
                    &&& final(self).token_start() == s.len()
                    &&& final(self).token_end() == s.len()
                } else {
                    let (ot, e) = scan_token(s, j);
                    &&& final(self).position() == e
                    &&& final(self).token_start() == j
                    &&& final(self).token_end() == e
                    &&& r matches Some(res) && result_models(res, ot, j, e)
                }
            }),
    {
        let ghost s = self.src@;
        let pos = skip_trivia_from(self.src, self.len, self.pos);
        if pos >= self.len {
            self.pos = self.len;
            self.tok_start = self.len;
            self.tok_end = self.len;
            return None;
        }
        proof {
            lemma_scan_token_progress(s, pos as int);
        }
        let c = self.src.get_char(pos);
        let (res, end): (Result<Token, LexError>, usize) = if is_ident_start(c) {
            let e = scan_ident_end(self.src, self.len, pos);
            let word = self.src.substring_char(pos, e);
            (Ok(keyword_or_ident(word)), e)
        } else if is_digit(c) {
            let e = scan_number_end(self.src, self.len, pos);
            let text = self.src.substring_char(pos, e);
            (Ok(Token::Number(text.to_owned())), e)
        } else if c == '"' {
            match scan_string_end(self.src, self.len, pos + 1) {
                Some(e) => {
                    let raw = self.src.substring_char(pos, e);
                    (Ok(Token::String(parse_string(raw))), e)
                },
                None => {
                    (Err(LexError::UnrecognizedCharacter { start: pos, end: pos + 1 }), pos + 1)
                },
            }
        } else {
            match scan_operator(self.src, self.len, pos) {
                Some(p) => (Ok(p.0), p.1),
                None => {
                    (Err(LexError::UnrecognizedCharacter { start: pos, end: pos + 1 }), pos + 1)
                },
            }
        };
        self.tok_start = pos;
        self.tok_end = end;
        self.pos = end;
        Some(res)
    }

    /// The span of the most recently consumed text, as start and end
    /// character offsets.
    pub fn span(&self) -> (r: (usize, usize))
        ensures
            r.0 as int == self.token_start(),
            r.1 as int == self.token_end(),
    {
        (self.tok_start, self.tok_end)
    }

    /// The most recently consumed source text itself.
    pub fn slice(&self) -> (r: &'a str)
        requires
            self.wf(),
        ensures
            r@ == self.input().subrange(self.token_start(), self.token_end()),
    {
        self.src.substring_char(self.tok_start, self.tok_end)
    }
}

/// Runs a fresh cursor over the whole input and collects every produced
/// result: the collected sequence models the abstract stream exactly.
pub fn tokenize(src: &str) -> (results: Vec<Result<Token, LexError>>)
    ensures
        results_model(results@) == lex_all(src@),
{
    let mut lexer = Lexer::new(src);
    let mut results: Vec<Result<Token, LexError>> = Vec::new();
    loop
        invariant
            lexer.wf(),
            lexer.input() == src@,
            results_model(results@) + lex_from(src@, lexer.position()) == lex_all(src@),
        ensures
            results_model(results@) == lex_all(src@),
        decreases src@.len() - lexer.position(),
    {
        let ghost pos_before = lexer.position();
        let r = lexer.next();
        match r {
            None => {
                proof {
                    assert(lex_from(src@, pos_before) =~= Seq::<Option<TokenModel>>::empty());
                    assert(results_model(results@) =~= lex_all(src@));
                }
                break;
            },
            Some(res) => {
                results.push(res);
                proof {
                    let j = skip_trivia(src@, pos_before);
                    let (ot, e) = scan_token(src@, j);
                    assert(lex_from(src@, pos_before) == seq![ot] + lex_from(src@, e));
                    assert(results_model(results@) =~= results_model(results@.drop_last())
                        + seq![ot]);
                }
            },
        }
    }
    results
}

} // verus!

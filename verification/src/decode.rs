//! The string-literal decoder.

use vstd::prelude::*;
use vstd::string::*;

use crate::model::{decode_from, decode_string, escape_char};

verus! {

/// Decodes a raw string lexeme into its logical content.
///
/// The lexeme starts with the opening double quote, which is dropped. Each
/// backslash escapes the character after it: `\n` becomes a newline, `\t` a
/// tab, and any other escaped character (covering `\\` and `\"`) stands for
/// itself. An unescaped double quote ends the content; a trailing backslash
/// with nothing after it is silently dropped.
pub fn parse_string(lexeme: &str) -> (result: String)
    ensures
        result@ == decode_string(lexeme@),
{
    let ghost s = lexeme@;
    let len = lexeme.unicode_len();
    let mut result = String::new();
    if len == 0 {
        return result;
    }
    let mut i: usize = 1;
    while i < len
        invariant_except_break
            1 <= i <= len,
        invariant
            len == s.len(),
            s == lexeme@,
            result@ + decode_from(s, i as int) == decode_from(s, 1),
        ensures
            decode_from(s, i as int) == Seq::<char>::empty(),
        decreases len - i,
    {
        let c = lexeme.get_char(i);
        if c == '\\' {
            if i + 1 < len {
                let e = lexeme.get_char(i + 1);
                if e == 'n' {
                    result.append("\n");
                    proof {
                        reveal_strlit("\n");
                        assert("\n"@ =~= seq![escape_char(s[i as int + 1])]);
                    }
                } else if e == 't' {
                    result.append("\t");
                    proof {
                        reveal_strlit("\t");
                        assert("\t"@ =~= seq![escape_char(s[i as int + 1])]);
                    }
                } else {
                    let piece = lexeme.substring_char(i + 1, i + 2);
                    result.append(piece);
                    proof {
                        assert(piece@ =~= seq![escape_char(s[i as int + 1])]);
                    }
                }
                i = i + 2;
            } else {
                // Trailing backslash: nothing follows, so it is dropped.
                i = len;
                break;
            }
        } else if c == '"' {
            break;
        } else {
            let piece = lexeme.substring_char(i, i + 1);
            result.append(piece);
            proof {
                assert(piece@ =~= seq![s[i as int]]);
            }
            i = i + 1;
        }
    }
    result
}

} // verus!

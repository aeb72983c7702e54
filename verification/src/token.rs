//! The token validator: a pure lexical check that a candidate bearer token
//! is `sha256~` followed by exactly 43 characters of the URL-safe base64
//! alphabet (`A`-`Z`, `a`-`z`, `0`-`9`, `-`, `_`), anchored at both ends.
//!
//! The canonical alphabet here is deliberately the URL-safe one: `+`, `/`
//! and `=` are rejected. The check is lexical only; it says nothing about
//! whether any service accepts the token.

use vstd::prelude::*;

verus! {

/// A character allowed in the body of a token: URL-safe base64.
pub open spec fn is_token_body_char(c: char) -> bool {
    ||| 'A' as u32 <= c as u32 <= 'Z' as u32
    ||| 'a' as u32 <= c as u32 <= 'z' as u32
    ||| '0' as u32 <= c as u32 <= '9' as u32
    ||| c == '-'
    ||| c == '_'
}

/// The whole-string token shape: the 7-character prefix `sha256~` and then
/// exactly 43 body characters, 50 characters in all, nothing before or after.
pub open spec fn valid_token(s: Seq<char>) -> bool {
    &&& s.len() == 50
    &&& s[0] == 's'
    &&& s[1] == 'h'
    &&& s[2] == 'a'
    &&& s[3] == '2'
    &&& s[4] == '5'
    &&& s[5] == '6'
    &&& s[6] == '~'
    &&& forall|i: int| 7 <= i < 50 ==> is_token_body_char(s[i])
}

/// Decides `valid_token` for a candidate string.
pub fn is_valid_token(s: &str) -> (r: bool)
    ensures
        r == valid_token(s@),
{
    let n = s.unicode_len();
    if n != 50 {
        return false;
    }
    if s.get_char(0) != 's' || s.get_char(1) != 'h' || s.get_char(2) != 'a' || s.get_char(3)
        != '2' || s.get_char(4) != '5' || s.get_char(5) != '6' || s.get_char(6) != '~' {
        return false;
    }
    let mut i: usize = 7;
    while i < 50
        invariant
            7 <= i <= 50,
            s@.len() == 50,
            forall|j: int| 7 <= j < i ==> is_token_body_char(s@[j]),
        decreases 50 - i,
    {
        let c = s.get_char(i);
        let u = c as u32;
        let in_alphabet = (('A' as u32) <= u && u <= ('Z' as u32)) || (('a' as u32) <= u && u
            <= ('z' as u32)) || (('0' as u32) <= u && u <= ('9' as u32)) || c == '-' || c == '_';
        if !in_alphabet {
            return false;
        }
        i += 1;
    }
    true
}

} // verus!

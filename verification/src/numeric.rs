//! Recognition of the texts that read as a floating-point literal.
//!
//! The accepted texts are, with upper and lower case letters alike:
//!
//! ```text
//! Float  ::= Sign? ( 'inf' | 'infinity' | 'nan' | Number )
//! Number ::= ( Digit+ | Digit+ '.' Digit* | Digit* '.' Digit+ ) Exp?
//! Exp    ::= 'e' Sign? Digit+
//! Sign   ::= [+-]
//! Digit  ::= [0-9]
//! ```

use vstd::prelude::*;
use crate::text::bytes_of;

verus! {

pub const DIGIT_0: u8 = 48;
pub const DIGIT_9: u8 = 57;
pub const PLUS: u8 = 43;
pub const MINUS: u8 = 45;
pub const DOT: u8 = 46;
pub const UPPER_A: u8 = 65;
pub const UPPER_Z: u8 = 90;
pub const LOWER_A: u8 = 97;
pub const LOWER_E: u8 = 101;
pub const LOWER_F: u8 = 102;
pub const LOWER_I: u8 = 105;
pub const LOWER_N: u8 = 110;
pub const LOWER_T: u8 = 116;
pub const LOWER_Y: u8 = 121;

/// An ASCII decimal digit.
pub open spec fn is_digit(b: u8) -> bool {
    DIGIT_0 <= b <= DIGIT_9
}

/// A plus or minus sign.
pub open spec fn is_sign(b: u8) -> bool {
    b == PLUS || b == MINUS
}

/// The lower-case form of an ASCII letter; any other byte unchanged.
pub open spec fn lower(b: u8) -> u8 {
    if UPPER_A <= b <= UPPER_Z {
        (b + 32) as u8
    } else {
        b
    }
}

/// The first index at or after `i` that holds no digit.
pub open spec fn digits_end(s: Seq<u8>, i: int) -> int
    decreases s.len() - i,
{
    if 0 <= i < s.len() && is_digit(s[i]) {
        digits_end(s, i + 1)
    } else {
        i
    }
}

/// `s`, put in lower case, is `word`.
pub open spec fn spells(s: Seq<u8>, word: Seq<u8>) -> bool {
    s.len() == word.len() && forall|k: int| 0 <= k < s.len() ==> lower(#[trigger] s[k]) == word[k]
}

/// From index `b` on, `s` is at its end or holds an exponent and nothing else.
pub open spec fn exponent_or_end(s: Seq<u8>, b: int) -> bool {
    b == s.len() || (0 <= b < s.len() && {
        let c = if b + 1 < s.len() && is_sign(s[b + 1]) {
            b + 2
        } else {
            b + 1
        };
        lower(s[b]) == LOWER_E && c < s.len() && digits_end(s, c) == s.len()
    })
}

/// `s` is a `Number` of the grammar.
pub open spec fn number_literal(s: Seq<u8>) -> bool {
    let a = digits_end(s, 0);
    let dot = a < s.len() && s[a] == DOT;
    let b = if dot {
        digits_end(s, a + 1)
    } else {
        a
    };
    let digits = if dot {
        b - 1
    } else {
        b
    };
    digits > 0 && exponent_or_end(s, b)
}

/// `s` without a leading sign.
pub open spec fn unsigned_part(s: Seq<u8>) -> Seq<u8> {
    if s.len() > 0 && is_sign(s[0]) {
        s.subrange(1, s.len() as int)
    } else {
        s
    }
}

/// `s` is a `Float` of the grammar.
pub open spec fn float_literal(s: Seq<u8>) -> bool {
    let u = unsigned_part(s);
    ||| spells(u, seq![LOWER_I, LOWER_N, LOWER_F])
    ||| spells(u, seq![LOWER_I, LOWER_N, LOWER_F, LOWER_I, LOWER_N, LOWER_I, LOWER_T, LOWER_Y])
    ||| spells(u, seq![LOWER_N, LOWER_A, LOWER_N])
    ||| number_literal(u)
}

fn lower_byte(b: u8) -> (r: u8)
    ensures
        r == lower(b),
{
    if UPPER_A <= b && b <= UPPER_Z {
        b + 32
    } else {
        b
    }
}

fn spells_word(s: &[u8], from: usize, word: &[u8]) -> (r: bool)
    requires
        from <= s@.len(),
    ensures
        r == spells(s@.subrange(from as int, s@.len() as int), word@),
{
    let n = s.len();
    let ghost rest = s@.subrange(from as int, s@.len() as int);
    if n - from != word.len() {
        return false;
    }
    let mut k: usize = 0;
    while k < word.len()
        invariant
            n == s@.len(),
            from <= n,
            n - from == word@.len(),
            rest == s@.subrange(from as int, s@.len() as int),
            0 <= k <= word@.len(),
            forall|j: int| 0 <= j < k ==> lower(#[trigger] rest[j]) == word@[j],
        decreases word@.len() - k,
    {
        if lower_byte(s[from + k]) != word[k] {
            assert(lower(rest[k as int]) != word@[k as int]);
            return false;
        }
        k = k + 1;
    }
    true
}

fn scan_digits(s: &[u8], from: usize) -> (r: usize)
    requires
        from <= s@.len(),
    ensures
        from <= r <= s@.len(),
        r == digits_end(s@, from as int),
{
    let n = s.len();
    let mut i: usize = from;
    while i < n && DIGIT_0 <= s[i] && s[i] <= DIGIT_9
        invariant
            n == s@.len(),
            from <= i <= n,
            digits_end(s@, from as int) == digits_end(s@, i as int),
        decreases n - i,
    {
        i = i + 1;
    }
    i
}

fn is_number(s: &[u8]) -> (r: bool)
    ensures
        r == number_literal(s@),
{
    let n = s.len();
    let a = scan_digits(s, 0);
    let dot = a < n && s[a] == DOT;
    let b = if dot {
        scan_digits(s, a + 1)
    } else {
        a
    };
    let digits = if dot {
        b - 1
    } else {
        b
    };
    if digits == 0 {
        return false;
    }
    if b == n {
        return true;
    }
    if lower_byte(s[b]) != LOWER_E {
        return false;
    }
    let c = if b + 1 < n && (s[b + 1] == PLUS || s[b + 1] == MINUS) {
        b + 2
    } else {
        b + 1
    };
    if c >= n {
        return false;
    }
    scan_digits(s, c) == n
}

/// Whether `text` reads as a floating-point literal.
pub fn is_float_literal(text: &str) -> (r: bool)
    ensures
        r == float_literal(bytes_of(text@)),
{
    let s = text.as_bytes();
    let n = s.len();
    let from: usize = if n > 0 && (s[0] == PLUS || s[0] == MINUS) {
        1
    } else {
        0
    };
    let ghost u = unsigned_part(s@);
    assert(u =~= s@.subrange(from as int, n as int));
    let inf: [u8; 3] = [LOWER_I, LOWER_N, LOWER_F];
    let infinity: [u8; 8] = [LOWER_I, LOWER_N, LOWER_F, LOWER_I, LOWER_N, LOWER_I, LOWER_T, LOWER_Y];
    let nan: [u8; 3] = [LOWER_N, LOWER_A, LOWER_N];
    assert(inf@ =~= seq![LOWER_I, LOWER_N, LOWER_F]);
    assert(infinity@ =~= seq![LOWER_I, LOWER_N, LOWER_F, LOWER_I, LOWER_N, LOWER_I, LOWER_T, LOWER_Y]);
    assert(nan@ =~= seq![LOWER_N, LOWER_A, LOWER_N]);
    if spells_word(s, from, inf.as_slice()) || spells_word(s, from, infinity.as_slice())
        || spells_word(s, from, nan.as_slice()) {
        return true;
    }
    match vstd::slice::slice_subrange(s, from, n) {
        rest => is_number(rest),
    }
}

} // verus!

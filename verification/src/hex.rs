//! Lowercase hexadecimal rendering of byte sequences, and the strict
//! decoder used to turn a digest string back into digest bytes.

use vstd::prelude::*;
use vstd::string::StrSliceExecFns;
use vstd::string::StringExecFns;

verus! {

/// The lowercase hexadecimal digit character for a value below sixteen.
pub open spec fn hex_char_of(n: int) -> char {
    if n == 0 {
        '0'
    } else if n == 1 {
        '1'
    } else if n == 2 {
        '2'
    } else if n == 3 {
        '3'
    } else if n == 4 {
        '4'
    } else if n == 5 {
        '5'
    } else if n == 6 {
        '6'
    } else if n == 7 {
        '7'
    } else if n == 8 {
        '8'
    } else if n == 9 {
        '9'
    } else if n == 10 {
        'a'
    } else if n == 11 {
        'b'
    } else if n == 12 {
        'c'
    } else if n == 13 {
        'd'
    } else if n == 14 {
        'e'
    } else {
        'f'
    }
}

/// Numeric value of a lowercase hexadecimal digit character; -1 for any
/// other character (uppercase digits are deliberately not accepted, since
/// digest strings are rendered in lowercase only).
pub open spec fn hex_val(c: char) -> int {
    if c == '0' {
        0
    } else if c == '1' {
        1
    } else if c == '2' {
        2
    } else if c == '3' {
        3
    } else if c == '4' {
        4
    } else if c == '5' {
        5
    } else if c == '6' {
        6
    } else if c == '7' {
        7
    } else if c == '8' {
        8
    } else if c == '9' {
        9
    } else if c == 'a' {
        10
    } else if c == 'b' {
        11
    } else if c == 'c' {
        12
    } else if c == 'd' {
        13
    } else if c == 'e' {
        14
    } else if c == 'f' {
        15
    } else {
        -1
    }
}

/// Lowercase hexadecimal rendering of a byte sequence: two digits per
/// byte, high nibble first.
pub open spec fn hex_of(bytes: Seq<u8>) -> Seq<char> {
    Seq::new(
        bytes.len() * 2,
        |i: int|
            if i % 2 == 0 {
                hex_char_of(bytes[i / 2] as int / 16)
            } else {
                hex_char_of(bytes[i / 2] as int % 16)
            },
    )
}

/// Whether a character sequence is a well-formed lowercase hexadecimal
/// string: even length, every character a lowercase hexadecimal digit.
pub open spec fn is_hex_str(s: Seq<char>) -> bool {
    s.len() % 2 == 0 && forall|i: int| 0 <= i < s.len() ==> hex_val(#[trigger] s[i]) >= 0
}

/// The byte sequence a well-formed hexadecimal string denotes.
pub open spec fn hex_decoded(s: Seq<char>) -> Seq<u8> {
    Seq::new(s.len() / 2, |i: int| (hex_val(s[2 * i]) * 16 + hex_val(s[2 * i + 1])) as u8)
}

/// Reading a digit back recovers the value that produced it.
pub proof fn lemma_hex_val_of_char(n: int)
    requires
        0 <= n < 16,
    ensures
        hex_val(hex_char_of(n)) == n,
{
}

/// Rendering, then decoding, is the identity: `hex_of` produces a
/// well-formed hexadecimal string that denotes exactly the bytes it was
/// rendered from.
pub proof fn lemma_hex_round_trip(bytes: Seq<u8>)
    ensures
        hex_of(bytes).len() == bytes.len() * 2,
        is_hex_str(hex_of(bytes)),
        hex_decoded(hex_of(bytes)) == bytes,
{
    let h = hex_of(bytes);
    assert forall|i: int| 0 <= i < h.len() implies hex_val(#[trigger] h[i]) >= 0 by {
        if i % 2 == 0 {
            lemma_hex_val_of_char(bytes[i / 2] as int / 16);
        } else {
            lemma_hex_val_of_char(bytes[i / 2] as int % 16);
        }
    }
    assert forall|i: int| 0 <= i < bytes.len() implies hex_decoded(h)[i] == bytes[i] by {
        let b = bytes[i] as int;
        lemma_hex_val_of_char(b / 16);
        lemma_hex_val_of_char(b % 16);
        assert((2 * i) / 2 == i && (2 * i + 1) / 2 == i) by (nonlinear_arith);
        assert((2 * i) % 2 == 0 && (2 * i + 1) % 2 == 1) by (nonlinear_arith);
        assert(h[2 * i] == hex_char_of(b / 16));
        assert(h[2 * i + 1] == hex_char_of(b % 16));
        assert((b / 16) * 16 + b % 16 == b) by (nonlinear_arith);
    }
    assert(hex_decoded(h) =~= bytes);
}

/// A lowercase hexadecimal digit character is recovered from its value.
pub proof fn lemma_hex_char_of_val(c: char)
    requires
        hex_val(c) >= 0,
    ensures
        0 <= hex_val(c) < 16,
        hex_char_of(hex_val(c)) == c,
{
}

/// Decoding, then rendering, restores a well-formed lowercase
/// hexadecimal string.
pub proof fn lemma_hex_encode_decode(s: Seq<char>)
    requires
        is_hex_str(s),
    ensures
        hex_of(hex_decoded(s)) == s,
{
    let d = hex_decoded(s);
    assert forall|i: int| 0 <= i < s.len() implies hex_of(d)[i] == s[i] by {
        let k = i / 2;
        let a = hex_val(s[2 * k]);
        let b = hex_val(s[2 * k + 1]);
        lemma_hex_char_of_val(s[2 * k]);
        lemma_hex_char_of_val(s[2 * k + 1]);
        assert(d[k] == (a * 16 + b) as u8);
        assert((a * 16 + b) / 16 == a && (a * 16 + b) % 16 == b) by (nonlinear_arith)
            requires
                0 <= a < 16,
                0 <= b < 16,
        ;
        if i % 2 == 0 {
            assert(i == 2 * k);
            assert(hex_of(d)[i] == hex_char_of(d[k] as int / 16));
        } else {
            assert(i == 2 * k + 1);
            assert(hex_of(d)[i] == hex_char_of(d[k] as int % 16));
        }
    }
    assert(hex_of(d) =~= s);
}

/// One lowercase hexadecimal digit, as a one-character string slice.
fn hex_digit_str(n: u8) -> (s: &'static str)
    requires
        n < 16,
    ensures
        s@ =~= seq![hex_char_of(n as int)],
{
    proof {
        reveal_strlit("0");
        reveal_strlit("1");
        reveal_strlit("2");
        reveal_strlit("3");
        reveal_strlit("4");
        reveal_strlit("5");
        reveal_strlit("6");
        reveal_strlit("7");
        reveal_strlit("8");
        reveal_strlit("9");
        reveal_strlit("a");
        reveal_strlit("b");
        reveal_strlit("c");
        reveal_strlit("d");
        reveal_strlit("e");
        reveal_strlit("f");
    }
    if n == 0 {
        "0"
    } else if n == 1 {
        "1"
    } else if n == 2 {
        "2"
    } else if n == 3 {
        "3"
    } else if n == 4 {
        "4"
    } else if n == 5 {
        "5"
    } else if n == 6 {
        "6"
    } else if n == 7 {
        "7"
    } else if n == 8 {
        "8"
    } else if n == 9 {
        "9"
    } else if n == 10 {
        "a"
    } else if n == 11 {
        "b"
    } else if n == 12 {
        "c"
    } else if n == 13 {
        "d"
    } else if n == 14 {
        "e"
    } else {
        "f"
    }
}

/// Render a byte slice as its lowercase hexadecimal string.
pub fn to_hex(bytes: &[u8]) -> (s: String)
    ensures
        s@ == hex_of(bytes@),
{
    let mut s = String::new();
    let mut i: usize = 0;
    while i < bytes.len()
        invariant
            i <= bytes@.len(),
            s@ =~= hex_of(bytes@.take(i as int)),
        decreases bytes@.len() - i,
    {
        let b = bytes[i];
        let hi = hex_digit_str(b / 16);
        s.append(hi);
        let lo = hex_digit_str(b % 16);
        s.append(lo);
        i = i + 1;
        proof {
            let t = bytes@.take(i as int);
            assert forall|j: int| 0 <= j < s@.len() implies s@[j] == hex_of(t)[j] by {
                assert(t[j / 2] == bytes@[j / 2]);
            }
            assert(s@ =~= hex_of(t));
        }
    }
    proof {
        assert(bytes@.take(bytes@.len() as int) =~= bytes@);
    }
    s
}

/// Numeric value of one lowercase hexadecimal digit character, if it is
/// one.
fn hex_val_exec(c: char) -> (r: Option<u8>)
    ensures
        match r {
            Some(v) => v < 16 && hex_val(c) == v as int,
            None => hex_val(c) == -1,
        },
{
    if c == '0' {
        Some(0)
    } else if c == '1' {
        Some(1)
    } else if c == '2' {
        Some(2)
    } else if c == '3' {
        Some(3)
    } else if c == '4' {
        Some(4)
    } else if c == '5' {
        Some(5)
    } else if c == '6' {
        Some(6)
    } else if c == '7' {
        Some(7)
    } else if c == '8' {
        Some(8)
    } else if c == '9' {
        Some(9)
    } else if c == 'a' {
        Some(10)
    } else if c == 'b' {
        Some(11)
    } else if c == 'c' {
        Some(12)
    } else if c == 'd' {
        Some(13)
    } else if c == 'e' {
        Some(14)
    } else if c == 'f' {
        Some(15)
    } else {
        None
    }
}

/// Decode a strict lowercase hexadecimal string into its bytes; `None`
/// exactly when the string is not a well-formed lowercase hexadecimal
/// string.
pub fn from_hex(s: &str) -> (r: Option<Vec<u8>>)
    ensures
        match r {
            Some(v) => is_hex_str(s@) && v@ == hex_decoded(s@),
            None => !is_hex_str(s@),
        },
{
    let n = s.unicode_len();
    if n % 2 != 0 {
        return None;
    }
    let mut v: Vec<u8> = Vec::new();
    let mut i: usize = 0;
    while i < n
        invariant
            n == s@.len(),
            n % 2 == 0,
            i % 2 == 0,
            i <= n,
            v@.len() == i / 2,
            forall|j: int| 0 <= j < i ==> hex_val(#[trigger] s@[j]) >= 0,
            forall|k: int|
                0 <= k < i / 2 ==> v@[k] == (hex_val(s@[2 * k]) * 16 + hex_val(s@[2 * k + 1])) as u8,
        decreases n - i,
    {
        let c_hi = s.get_char(i);
        let c_lo = s.get_char(i + 1);
        match (hex_val_exec(c_hi), hex_val_exec(c_lo)) {
            (Some(hi), Some(lo)) => {
                v.push(hi * 16 + lo);
            },
            _ => {
                return None;
            },
        }
        i = i + 2;
    }
    proof {
        assert(v@ =~= hex_decoded(s@));
    }
    Some(v)
}

} // verus!

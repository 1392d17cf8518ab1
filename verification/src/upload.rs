//! Deriving a usable file extension from a raw, untrusted upload file
//! name, for the case where the declared content type offers none: the
//! name is length-capped, trimmed, split at its first dot, and the
//! extension cleansed of path-traversal and separator characters.

use vstd::prelude::*;
use vstd::string::StrSliceExecFns;
use vstd::string::StringExecFns;

verus! {

/// The Unicode white-space characters, as `str::trim` removes them.
pub open spec fn is_space(c: char) -> bool {
    ||| c == '\u{09}'
    ||| c == '\u{0a}'
    ||| c == '\u{0b}'
    ||| c == '\u{0c}'
    ||| c == '\u{0d}'
    ||| c == ' '
    ||| c == '\u{85}'
    ||| c == '\u{a0}'
    ||| c == '\u{1680}'
    ||| c == '\u{2000}'
    ||| c == '\u{2001}'
    ||| c == '\u{2002}'
    ||| c == '\u{2003}'
    ||| c == '\u{2004}'
    ||| c == '\u{2005}'
    ||| c == '\u{2006}'
    ||| c == '\u{2007}'
    ||| c == '\u{2008}'
    ||| c == '\u{2009}'
    ||| c == '\u{200a}'
    ||| c == '\u{2028}'
    ||| c == '\u{2029}'
    ||| c == '\u{202f}'
    ||| c == '\u{205f}'
    ||| c == '\u{3000}'
}

/// The sequence with its leading white space removed.
pub open spec fn trim_start(s: Seq<char>) -> Seq<char>
    decreases s.len(),
{
    if s.len() > 0 && is_space(s[0]) {
        trim_start(s.subrange(1, s.len() as int))
    } else {
        s
    }
}

/// The sequence with its trailing white space removed.
pub open spec fn trim_end(s: Seq<char>) -> Seq<char>
    decreases s.len(),
{
    if s.len() > 0 && is_space(s[s.len() - 1]) {
        trim_end(s.subrange(0, s.len() - 1))
    } else {
        s
    }
}

/// The sequence with white space removed at both ends.
pub open spec fn trimmed(s: Seq<char>) -> Seq<char> {
    trim_end(trim_start(s))
}

/// What follows the first dot, if the sequence has one.
pub open spec fn ext_after_first_dot(s: Seq<char>) -> Option<Seq<char>>
    decreases s.len(),
{
    if s.len() == 0 {
        None
    } else if s[0] == '.' {
        Some(s.subrange(1, s.len() as int))
    } else {
        ext_after_first_dot(s.subrange(1, s.len() as int))
    }
}

/// The sequence with every non-overlapping dot-dot pair removed, found
/// left to right.
pub open spec fn strip_dotdot(s: Seq<char>) -> Seq<char>
    decreases s.len(),
{
    if s.len() >= 2 && s[0] == '.' && s[1] == '.' {
        strip_dotdot(s.subrange(2, s.len() as int))
    } else if s.len() >= 1 {
        seq![s[0]] + strip_dotdot(s.subrange(1, s.len() as int))
    } else {
        Seq::empty()
    }
}

/// The sequence with every slash and colon removed.
pub open spec fn drop_seps(s: Seq<char>) -> Seq<char>
    decreases s.len(),
{
    if s.len() == 0 {
        Seq::empty()
    } else if s[0] == '/' || s[0] == ':' {
        drop_seps(s.subrange(1, s.len() as int))
    } else {
        seq![s[0]] + drop_seps(s.subrange(1, s.len() as int))
    }
}

/// The sequence without its leading dot, if it has one.
pub open spec fn strip_leading_dot(s: Seq<char>) -> Seq<char> {
    if s.len() > 0 && s[0] == '.' {
        s.subrange(1, s.len() as int)
    } else {
        s
    }
}

/// How many bytes one character takes in UTF-8.
pub open spec fn char_utf8_len(c: char) -> int {
    if (c as u32) < 0x80 {
        1
    } else if (c as u32) < 0x800 {
        2
    } else if (c as u32) < 0x10000 {
        3
    } else {
        4
    }
}

/// How many bytes a character sequence takes in UTF-8.
pub open spec fn utf8_len(s: Seq<char>) -> int
    decreases s.len(),
{
    if s.len() == 0 {
        0
    } else {
        utf8_len(s.subrange(0, s.len() - 1)) + char_utf8_len(s[s.len() - 1])
    }
}

/// The extension derived from a raw upload file name without a usable
/// declared content type: an overlong name yields nothing; a name
/// without a dot yields the fallback marker; otherwise what follows the
/// first dot of the trimmed name, with dot-dot pairs, slashes, colons
/// and one leading dot removed.
pub open spec fn sanitized_extension(raw: Seq<char>) -> Seq<char> {
    if utf8_len(raw) >= 255 {
        Seq::empty()
    } else {
        match ext_after_first_dot(trimmed(raw)) {
            Some(e) => strip_leading_dot(drop_seps(strip_dotdot(e))),
            None => "badext"@,
        }
    }
}

/// Removing leading white space keeps the suffix past the spaces.
proof fn lemma_trim_start_at(s: Seq<char>, a: int)
    requires
        0 <= a <= s.len(),
        forall|j: int| 0 <= j < a ==> is_space(#[trigger] s[j]),
        a < s.len() ==> !is_space(s[a]),
    ensures
        trim_start(s) == s.subrange(a, s.len() as int),
    decreases a,
{
    if a == 0 {
        assert(s.subrange(0, s.len() as int) =~= s);
    } else {
        let rest = s.subrange(1, s.len() as int);
        lemma_trim_start_at(rest, a - 1);
        assert(rest.subrange(a - 1, rest.len() as int) =~= s.subrange(a, s.len() as int));
    }
}

/// Removing trailing white space keeps the prefix before the spaces.
proof fn lemma_trim_end_at(s: Seq<char>, b: int)
    requires
        0 <= b <= s.len(),
        forall|j: int| b <= j < s.len() ==> is_space(#[trigger] s[j]),
        b > 0 ==> !is_space(s[b - 1]),
    ensures
        trim_end(s) == s.subrange(0, b),
    decreases s.len() - b,
{
    if b == s.len() {
        assert(s.subrange(0, s.len() as int) =~= s);
    } else {
        let rest = s.subrange(0, s.len() - 1);
        lemma_trim_end_at(rest, b);
        assert(rest.subrange(0, b) =~= s.subrange(0, b));
    }
}

/// A dot at position `p`, with none before it, splits the sequence
/// there.
proof fn lemma_ext_found(s: Seq<char>, p: int)
    requires
        0 <= p < s.len(),
        forall|j: int| 0 <= j < p ==> (#[trigger] s[j]) != '.',
        s[p] == '.',
    ensures
        ext_after_first_dot(s) == Some(s.subrange(p + 1, s.len() as int)),
    decreases p,
{
    if p == 0 {
    } else {
        let rest = s.subrange(1, s.len() as int);
        lemma_ext_found(rest, p - 1);
        assert(rest.subrange(p, rest.len() as int) =~= s.subrange(p + 1, s.len() as int));
    }
}

/// A sequence without a dot splits nowhere.
proof fn lemma_ext_none(s: Seq<char>)
    requires
        forall|j: int| 0 <= j < s.len() ==> (#[trigger] s[j]) != '.',
    ensures
        ext_after_first_dot(s) is None,
    decreases s.len(),
{
    if s.len() > 0 {
        lemma_ext_none(s.subrange(1, s.len() as int));
    }
}

/// One more character adds its own UTF-8 size.
proof fn lemma_utf8_len_step(s: Seq<char>, i: int)
    requires
        0 <= i < s.len(),
    ensures
        utf8_len(s.subrange(0, i + 1)) == utf8_len(s.subrange(0, i)) + char_utf8_len(s[i]),
{
    let t = s.subrange(0, i + 1);
    assert(t.subrange(0, t.len() - 1) =~= s.subrange(0, i));
}

/// The UTF-8 size of a prefix never exceeds the whole's.
proof fn lemma_utf8_len_mono(s: Seq<char>, i: int)
    requires
        0 <= i <= s.len(),
    ensures
        utf8_len(s.subrange(0, i)) <= utf8_len(s),
    decreases s.len() - i,
{
    if i == s.len() {
        assert(s.subrange(0, s.len() as int) =~= s);
    } else {
        lemma_utf8_len_step(s, i);
        lemma_utf8_len_mono(s, i + 1);
    }
}

/// Whether a character is Unicode white space.
fn is_space_exec(c: char) -> (b: bool)
    ensures
        b == is_space(c),
{
    c == '\u{09}' || c == '\u{0a}' || c == '\u{0b}' || c == '\u{0c}' || c == '\u{0d}' || c == ' '
        || c == '\u{85}' || c == '\u{a0}' || c == '\u{1680}' || c == '\u{2000}' || c == '\u{2001}'
        || c == '\u{2002}' || c == '\u{2003}' || c == '\u{2004}' || c == '\u{2005}' || c
        == '\u{2006}' || c == '\u{2007}' || c == '\u{2008}' || c == '\u{2009}' || c == '\u{200a}'
        || c == '\u{2028}' || c == '\u{2029}' || c == '\u{202f}' || c == '\u{205f}' || c
        == '\u{3000}'
}

/// Whether the name takes 255 or more bytes in UTF-8.
fn name_too_long(s: &str) -> (r: bool)
    ensures
        r == (utf8_len(s@) >= 255),
{
    let n = s.unicode_len();
    let mut acc: usize = 0;
    let mut i: usize = 0;
    while i < n && acc < 255
        invariant
            i <= n,
            n == s@.len(),
            acc == utf8_len(s@.subrange(0, i as int)),
            acc <= 258,
        decreases n - i,
    {
        let c = s.get_char(i);
        let u = c as u32;
        let l: usize = if u < 0x80 {
            1
        } else if u < 0x800 {
            2
        } else if u < 0x10000 {
            3
        } else {
            4
        };
        proof {
            lemma_utf8_len_step(s@, i as int);
        }
        acc = acc + l;
        i = i + 1;
    }
    if acc >= 255 {
        proof {
            lemma_utf8_len_mono(s@, i as int);
        }
        true
    } else {
        proof {
            assert(s@.subrange(0, n as int) =~= s@);
        }
        false
    }
}

/// The input with every non-overlapping dot-dot pair removed.
fn remove_dotdot(t: &str) -> (r: String)
    ensures
        r@ == strip_dotdot(t@),
{
    let n = t.unicode_len();
    let mut out = String::new();
    let mut i: usize = 0;
    proof {
        assert(t@.subrange(0, n as int) =~= t@);
        assert(out@ + strip_dotdot(t@) =~= strip_dotdot(t@));
    }
    while i < n
        invariant
            i <= n,
            n == t@.len(),
            out@ + strip_dotdot(t@.subrange(i as int, n as int)) == strip_dotdot(t@),
        decreases n - i,
    {
        let ghost suf = t@.subrange(i as int, n as int);
        let ghost prev = out@;
        let c = t.get_char(i);
        if c == '.' && i + 1 < n && t.get_char(i + 1) == '.' {
            proof {
                assert(suf.subrange(2, suf.len() as int) =~= t@.subrange(i + 2, n as int));
            }
            i = i + 2;
        } else {
            let piece = t.substring_char(i, i + 1);
            out.append(piece);
            proof {
                assert(suf.subrange(1, suf.len() as int) =~= t@.subrange(i + 1, n as int));
                assert(strip_dotdot(suf) == seq![suf[0]] + strip_dotdot(
                    suf.subrange(1, suf.len() as int),
                ));
                assert(out@ =~= prev + seq![suf[0]]);
                assert(out@ + strip_dotdot(t@.subrange(i + 1, n as int)) =~= prev + strip_dotdot(
                    suf,
                ));
            }
            i = i + 1;
        }
    }
    proof {
        assert(t@.subrange(n as int, n as int) =~= Seq::<char>::empty());
        assert(out@ + Seq::<char>::empty() =~= out@);
    }
    out
}

/// The input with every slash and colon removed.
fn remove_seps(t: &str) -> (r: String)
    ensures
        r@ == drop_seps(t@),
{
    let n = t.unicode_len();
    let mut out = String::new();
    let mut i: usize = 0;
    proof {
        assert(t@.subrange(0, n as int) =~= t@);
        assert(out@ + drop_seps(t@) =~= drop_seps(t@));
    }
    while i < n
        invariant
            i <= n,
            n == t@.len(),
            out@ + drop_seps(t@.subrange(i as int, n as int)) == drop_seps(t@),
        decreases n - i,
    {
        let ghost suf = t@.subrange(i as int, n as int);
        let ghost prev = out@;
        let c = t.get_char(i);
        proof {
            assert(suf.subrange(1, suf.len() as int) =~= t@.subrange(i + 1, n as int));
        }
        if c == '/' || c == ':' {
        } else {
            let piece = t.substring_char(i, i + 1);
            out.append(piece);
            proof {
                assert(drop_seps(suf) == seq![suf[0]] + drop_seps(
                    suf.subrange(1, suf.len() as int),
                ));
                assert(out@ =~= prev + seq![suf[0]]);
                assert(out@ + drop_seps(t@.subrange(i + 1, n as int)) =~= prev + drop_seps(suf));
            }
        }
        i = i + 1;
    }
    proof {
        assert(t@.subrange(n as int, n as int) =~= Seq::<char>::empty());
        assert(out@ + Seq::<char>::empty() =~= out@);
    }
    out
}

/// Derive the extension from a raw, untrusted upload file name, exactly
/// as `sanitized_extension` describes.
pub fn sanitize_extension(raw: &str) -> (r: String)
    ensures
        r@ == sanitized_extension(raw@),
{
    if name_too_long(raw) {
        return String::new();
    }
    let n = raw.unicode_len();
    let mut a: usize = 0;
    while a < n && is_space_exec(raw.get_char(a))
        invariant
            a <= n,
            n == raw@.len(),
            forall|j: int| 0 <= j < a ==> is_space(#[trigger] raw@[j]),
        decreases n - a,
    {
        a = a + 1;
    }
    let mut b: usize = n;
    while b > a && is_space_exec(raw.get_char(b - 1))
        invariant
            a <= b <= n,
            n == raw@.len(),
            forall|j: int| b <= j < n ==> is_space(#[trigger] raw@[j]),
        decreases b,
    {
        b = b - 1;
    }
    proof {
        lemma_trim_start_at(raw@, a as int);
        let t1 = raw@.subrange(a as int, n as int);
        lemma_trim_end_at(t1, b - a);
        assert(t1.subrange(0, b - a) =~= raw@.subrange(a as int, b as int));
    }
    let t = raw.substring_char(a, b);
    let m = b - a;
    let mut p: usize = 0;
    while p < m && t.get_char(p) != '.'
        invariant
            p <= m,
            m == t@.len(),
            forall|j: int| 0 <= j < p ==> (#[trigger] t@[j]) != '.',
        decreases m - p,
    {
        p = p + 1;
    }
    if p == m {
        proof {
            lemma_ext_none(t@);
        }
        return String::from_str("badext");
    }
    proof {
        lemma_ext_found(t@, p as int);
    }
    let e = t.substring_char(p + 1, m);
    let e1 = remove_dotdot(e);
    let e2 = remove_seps(e1.as_str());
    let e2s = e2.as_str();
    let len2 = e2s.unicode_len();
    if len2 > 0 && e2s.get_char(0) == '.' {
        let stripped = e2s.substring_char(1, len2);
        stripped.to_owned()
    } else {
        e2
    }
}

} // verus!

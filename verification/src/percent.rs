//! URL percent-encoding.

use vstd::prelude::*;
use crate::error::HttpError;

verus! {

/// The value of a hexadecimal digit; `None` for any other byte.
pub open spec fn hex_value(b: u8) -> Option<u8> {
    if '0' as u8 <= b && b <= '9' as u8 {
        Some((b - '0' as u8) as u8)
    } else if 'A' as u8 <= b && b <= 'F' as u8 {
        Some((b - 'A' as u8 + 10) as u8)
    } else if 'a' as u8 <= b && b <= 'f' as u8 {
        Some((b - 'a' as u8 + 10) as u8)
    } else {
        None
    }
}

/// Whether `s` begins with a `%` and two hexadecimal digits.
pub open spec fn starts_with_escape(s: Seq<u8>) -> bool {
    &&& s.len() >= 3
    &&& s[0] == '%' as u8
    &&& hex_value(s[1]) is Some
    &&& hex_value(s[2]) is Some
}

/// Whether every `%` in `s` is followed by two hexadecimal digits.
pub open spec fn well_formed(s: Seq<u8>) -> bool
    decreases s.len(),
{
    if s.len() == 0 {
        true
    } else if s[0] != '%' as u8 {
        well_formed(s.skip(1))
    } else if starts_with_escape(s) {
        well_formed(s.skip(3))
    } else {
        false
    }
}

/// `s` with each escape replaced by the byte it stands for, as far as `s`
/// is well formed: decoding stops in front of the first malformed escape.
pub open spec fn unescaped(s: Seq<u8>) -> Seq<u8>
    decreases s.len(),
{
    if s.len() == 0 {
        Seq::empty()
    } else if s[0] != '%' as u8 {
        seq![s[0]] + unescaped(s.skip(1))
    } else if starts_with_escape(s) {
        seq![(16 * hex_value(s[1]).unwrap() + hex_value(s[2]).unwrap()) as u8] + unescaped(
            s.skip(3),
        )
    } else {
        Seq::empty()
    }
}

/// Whether `b` stands for itself in an escaped path: the ASCII letters and
/// digits, and `-`, `.`, `_`, `~` and `/`.
pub open spec fn is_plain(b: u8) -> bool {
    ||| ('a' as u8 <= b && b <= 'z' as u8)
    ||| ('A' as u8 <= b && b <= 'Z' as u8)
    ||| ('0' as u8 <= b && b <= '9' as u8)
    ||| b == '-' as u8
    ||| b == '.' as u8
    ||| b == '_' as u8
    ||| b == '~' as u8
    ||| b == '/' as u8
}

/// The upper-case hexadecimal digit for a value below 16.
pub open spec fn hex_digit(n: u8) -> u8 {
    if n < 10 {
        ('0' as u8 + n) as u8
    } else {
        ('A' as u8 + n - 10) as u8
    }
}

/// What one byte becomes when escaped.
pub open spec fn escaped_byte(b: u8) -> Seq<u8> {
    if is_plain(b) {
        seq![b]
    } else {
        seq!['%' as u8, hex_digit(b / 16), hex_digit(b % 16)]
    }
}

/// `s` with every byte that is not plain replaced by `%` and its two
/// hexadecimal digits.
pub open spec fn escaped(s: Seq<u8>) -> Seq<u8>
    decreases s.len(),
{
    if s.len() == 0 {
        Seq::empty()
    } else {
        escaped_byte(s[0]) + escaped(s.skip(1))
    }
}

fn fromhex(b: u8) -> (r: Option<u8>)
    ensures
        r == hex_value(b),
        r matches Some(v) ==> v < 16,
{
    if '0' as u8 <= b && b <= '9' as u8 {
        Some(b - '0' as u8)
    } else if 'A' as u8 <= b && b <= 'F' as u8 {
        Some(b - 'A' as u8 + 10)
    } else if 'a' as u8 <= b && b <= 'f' as u8 {
        Some(b - 'a' as u8 + 10)
    } else {
        None
    }
}

fn tohex(n: u8) -> (r: u8)
    requires
        n < 16,
    ensures
        r == hex_digit(n),
{
    if n < 10 {
        '0' as u8 + n
    } else {
        'A' as u8 + (n - 10)
    }
}

fn plain(b: u8) -> (r: bool)
    ensures
        r == is_plain(b),
{
    ('a' as u8 <= b && b <= 'z' as u8) || ('A' as u8 <= b && b <= 'Z' as u8) || ('0' as u8 <= b
        && b <= '9' as u8) || b == '-' as u8 || b == '.' as u8 || b == '_' as u8 || b == '~' as u8
        || b == '/' as u8
}

/// Decodes URL percent-escaping, appending the result to `out`.  Fails with
/// `BadRequest` if the encoding is bad; `out` then holds what was decoded in
/// front of the bad escape.
pub fn unescape(path: &[u8], out: &mut Vec<u8>) -> (r: Result<(), HttpError>)
    ensures
        final(out)@ == old(out)@ + unescaped(path@),
        r is Ok <==> well_formed(path@),
        r is Err ==> r matches Err(HttpError::BadRequest),
{
    let mut i: usize = 0;
    assert(path@.skip(0) == path@);
    assert(out@.skip(out@.len() as int) + unescaped(path@) == unescaped(path@));
    while i < path.len()
        invariant
            i <= path.len(),
            old(out)@.len() <= out@.len(),
            out@.subrange(0, old(out)@.len() as int) == old(out)@,
            unescaped(path@) == out@.skip(old(out)@.len() as int) + unescaped(
                path@.skip(i as int),
            ),
            well_formed(path@) == well_formed(path@.skip(i as int)),
        decreases path.len() - i,
    {
        let ghost rest = path@.skip(i as int);
        let ghost done = out@.skip(old(out)@.len() as int);
        let c = path[i];
        if c == '%' as u8 {
            if path.len() - i < 3 {
                assert(out@ == old(out)@ + unescaped(path@));
                return Err(HttpError::BadRequest);
            }
            match (fromhex(path[i + 1]), fromhex(path[i + 2])) {
                (Some(a), Some(b)) => {
                    out.push(a * 16 + b);
                    assert(rest.skip(3) == path@.skip(i + 3));
                    assert(out@.skip(old(out)@.len() as int) == done.push((a * 16 + b) as u8));
                    i += 3;
                },
                _ => {
                    assert(out@ == old(out)@ + unescaped(path@));
                    return Err(HttpError::BadRequest);
                },
            }
        } else {
            out.push(c);
            assert(rest.skip(1) == path@.skip(i + 1));
            assert(out@.skip(old(out)@.len() as int) == done.push(c));
            i += 1;
        }
    }
    assert(out@ == old(out)@ + unescaped(path@));
    Ok(())
}

/// Escapes a byte string for use in a URL path, appending the result to
/// `out`: a byte that is not plain becomes `%` and two upper-case
/// hexadecimal digits.
pub fn escape(path: &[u8], out: &mut Vec<u8>)
    ensures
        final(out)@ == old(out)@ + escaped(path@),
{
    let mut i: usize = 0;
    assert(path@.skip(0) == path@);
    assert(out@.skip(out@.len() as int) + escaped(path@) == escaped(path@));
    while i < path.len()
        invariant
            i <= path.len(),
            old(out)@.len() <= out@.len(),
            out@.subrange(0, old(out)@.len() as int) == old(out)@,
            escaped(path@) == out@.skip(old(out)@.len() as int) + escaped(path@.skip(i as int)),
        decreases path.len() - i,
    {
        let ghost rest = path@.skip(i as int);
        let ghost done = out@.skip(old(out)@.len() as int);
        let c = path[i];
        if plain(c) {
            out.push(c);
            assert(out@.skip(old(out)@.len() as int) == done + escaped_byte(c));
        } else {
            out.push('%' as u8);
            out.push(tohex(c / 16));
            out.push(tohex(c % 16));
            assert(out@.skip(old(out)@.len() as int) == done + escaped_byte(c));
        }
        assert(rest.skip(1) == path@.skip(i + 1));
        i += 1;
    }
    assert(out@ == old(out)@ + escaped(path@));
}

/// Decoding what two well-formed pieces decode to, one after the other,
/// decodes their concatenation.
pub proof fn unescaped_concat(a: Seq<u8>, b: Seq<u8>)
    requires
        well_formed(a),
    ensures
        unescaped(a + b) == unescaped(a) + unescaped(b),
        well_formed(a + b) == well_formed(b),
    decreases a.len(),
{
    if a.len() == 0 {
        assert(a + b == b);
    } else if a[0] != '%' as u8 {
        assert((a + b).skip(1) == a.skip(1) + b);
        unescaped_concat(a.skip(1), b);
    } else {
        assert(starts_with_escape(a + b));
        assert((a + b).skip(3) == a.skip(3) + b);
        unescaped_concat(a.skip(3), b);
    }
}

/// Every byte string decodes to itself after escaping: `unescape` inverts
/// `escape`, and what `escape` writes is always well formed.
pub proof fn unescape_inverts_escape(b: Seq<u8>)
    ensures
        well_formed(escaped(b)),
        unescaped(escaped(b)) == b,
    decreases b.len(),
{
    if b.len() > 0 {
        let head = escaped_byte(b[0]);
        unescape_inverts_escape(b.skip(1));
        assert(well_formed(head) && unescaped(head) == seq![b[0]]) by {
            if is_plain(b[0]) {
                assert(well_formed(head.skip(1)));
                assert(unescaped(head.skip(1)) == Seq::<u8>::empty());
            } else {
                assert(hex_value(hex_digit(b[0] / 16)) == Some((b[0] / 16) as u8));
                assert(hex_value(hex_digit(b[0] % 16)) == Some((b[0] % 16) as u8));
                assert(starts_with_escape(head));
                assert(well_formed(head.skip(3)));
                assert(unescaped(head.skip(3)) == Seq::<u8>::empty());
            }
        }
        unescaped_concat(head, escaped(b.skip(1)));
        assert(seq![b[0]] + b.skip(1) == b);
    }
}

/// A byte string without `%` is well formed and decodes to itself.
pub proof fn unescaped_without_percent(b: Seq<u8>)
    requires
        forall|i: int| 0 <= i < b.len() ==> b[i] != '%' as u8,
    ensures
        well_formed(b),
        unescaped(b) == b,
    decreases b.len(),
{
    if b.len() > 0 {
        unescaped_without_percent(b.skip(1));
        assert(seq![b[0]] + b.skip(1) == b);
    }
}

} // verus!

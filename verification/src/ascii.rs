//! Operations on byte strings in an 8-bit superset of ASCII.
//!
//! HTTP leaves the character encoding of header bytes open; only the ASCII
//! letters take part in case folding here, every other byte stands for itself.

use vstd::prelude::*;

verus! {

/// The lower-case form of `b`: `A`..`Z` move to `a`..`z`, all else stays.
pub open spec fn lower(b: u8) -> u8 {
    if 'A' as u8 <= b && b <= 'Z' as u8 {
        (b + 32) as u8
    } else {
        b
    }
}

/// `s` with every byte in lower case.
pub open spec fn lowered(s: Seq<u8>) -> Seq<u8> {
    s.map_values(|b: u8| lower(b))
}

/// Whether `a` and `b` are equal up to the case of ASCII letters.
pub open spec fn eq_ignore_case(a: Seq<u8>, b: Seq<u8>) -> bool {
    &&& a.len() == b.len()
    &&& forall|i: int| 0 <= i < a.len() ==> lower(a[i]) == lower(#[trigger] b[i])
}

/// Whether `s` begins with `prefix`, up to the case of ASCII letters.
pub open spec fn has_prefix_ignore_case(s: Seq<u8>, prefix: Seq<u8>) -> bool {
    &&& prefix.len() <= s.len()
    &&& eq_ignore_case(s.subrange(0, prefix.len() as int), prefix)
}

/// Folds one byte to lower case.
pub fn to_lower(b: u8) -> (r: u8)
    ensures
        r == lower(b),
{
    if 'A' as u8 <= b && b <= 'Z' as u8 {
        b + 32
    } else {
        b
    }
}

/// Byte strings that can be asked whether they begin with some 8-bit text.
pub trait AsciiPrefix {
    /// The bytes that the object stands for.
    spec fn bytes(&self) -> Seq<u8>;

    /// Checks whether this object starts with `prefix`, letters compared
    /// without regard to case.
    fn starts_with_ignore_ascii_case(&self, prefix: &[u8]) -> (r: bool)
        ensures
            r == has_prefix_ignore_case(self.bytes(), prefix@),
    ;
}

impl AsciiPrefix for Vec<u8> {
    open spec fn bytes(&self) -> Seq<u8> {
        self@
    }

    fn starts_with_ignore_ascii_case(&self, prefix: &[u8]) -> (r: bool) {
        slice_has_prefix(self.as_slice(), prefix)
    }
}

impl<'a> AsciiPrefix for &'a [u8] {
    open spec fn bytes(&self) -> Seq<u8> {
        self@
    }

    fn starts_with_ignore_ascii_case(&self, prefix: &[u8]) -> (r: bool) {
        slice_has_prefix(*self, prefix)
    }
}

fn slice_has_prefix(s: &[u8], prefix: &[u8]) -> (r: bool)
    ensures
        r == has_prefix_ignore_case(s@, prefix@),
{
    if s.len() < prefix.len() {
        return false;
    }
    let ghost head = s@.subrange(0, prefix@.len() as int);
    let mut i: usize = 0;
    while i < prefix.len()
        invariant
            i <= prefix.len() <= s.len(),
            head == s@.subrange(0, prefix@.len() as int),
            forall|j: int| 0 <= j < i ==> lower(head[j]) == lower(#[trigger] prefix@[j]),
        decreases prefix.len() - i,
    {
        if to_lower(s[i]) != to_lower(prefix[i]) {
            assert(head[i as int] == s@[i as int]);
            return false;
        }
        i += 1;
    }
    true
}

} // verus!

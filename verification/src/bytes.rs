//! Small tools for byte strings.

use vstd::prelude::*;
use vstd::string::*;

verus! {

/// The bytes of a string literal.
pub open spec fn lit(s: &str) -> Seq<u8> {
    s.spec_bytes()
}

/// The content of an optional byte string.
pub open spec fn opt_view(o: Option<Vec<u8>>) -> Option<Seq<u8>> {
    match o {
        Some(v) => Some(v@),
        None => None,
    }
}

/// The content of an optional slice.
pub open spec fn opt_slice_view(o: Option<&[u8]>) -> Option<Seq<u8>> {
    match o {
        Some(s) => Some(s@),
        None => None,
    }
}

/// The index of the first `b` in `s`, or the length of `s` if it holds none.
pub open spec fn first_index(s: Seq<u8>, b: u8) -> int
    decreases s.len(),
{
    if s.len() == 0 {
        0
    } else if s[0] == b {
        0
    } else {
        1 + first_index(s.skip(1), b)
    }
}

/// `s` without its first `n` bytes; empty where `s` is no longer than `n`.
pub open spec fn after(s: Seq<u8>, n: int) -> Seq<u8> {
    if 0 <= n <= s.len() {
        s.skip(n)
    } else {
        Seq::empty()
    }
}

/// `first_index` is where the first `b` stands: no `b` stands in front of
/// it, and it is within `s` exactly if `s` holds a `b`.
pub proof fn first_index_is_first(s: Seq<u8>, b: u8)
    ensures
        0 <= first_index(s, b) <= s.len(),
        forall|i: int| 0 <= i < first_index(s, b) ==> s[i] != b,
        first_index(s, b) < s.len() ==> s[first_index(s, b)] == b,
        first_index(s, b) == s.len() <==> !s.contains(b),
    decreases s.len(),
{
    if s.len() > 0 && s[0] != b {
        first_index_is_first(s.skip(1), b);
        let n = first_index(s, b);
        assert forall|i: int| 0 <= i < n implies s[i] != b by {
            if i > 0 {
                assert(s.skip(1)[i - 1] == s[i]);
            }
        }
        if n < s.len() {
            assert(s.skip(1)[n - 1] == s[n]);
        } else {
            assert forall|i: int| 0 <= i < s.len() implies s[i] != b by {}
        }
    } else if s.len() > 0 {
        assert(s[0] == b);
    }
}

/// Where an index holds `b` and no index in front of it does, it is the
/// first index of `b`.
pub proof fn first_index_found(s: Seq<u8>, b: u8, n: int)
    requires
        0 <= n <= s.len(),
        forall|i: int| 0 <= i < n ==> s[i] != b,
        n < s.len() ==> s[n] == b,
    ensures
        first_index(s, b) == n,
{
    first_index_is_first(s, b);
    let m = first_index(s, b);
    if m < n {
        assert(s[m] == b);
    } else if n < m {
        assert(s[n] == b);
    }
}

/// Appending is associative.
pub proof fn concat_assoc(a: Seq<u8>, b: Seq<u8>, c: Seq<u8>)
    ensures
        (a + b) + c == a + (b + c),
{
    assert((a + b) + c =~= a + (b + c));
}

/// Appending nothing changes nothing.
pub proof fn concat_empty(a: Seq<u8>)
    ensures
        a + Seq::<u8>::empty() == a,
        Seq::<u8>::empty() + a == a,
{
    assert(a + Seq::<u8>::empty() =~= a);
    assert(Seq::<u8>::empty() + a =~= a);
}

/// Byte-for-byte equality of two slices.
pub fn bytes_eq(a: &[u8], b: &[u8]) -> (r: bool)
    ensures
        r == (a@ == b@),
{
    if a.len() != b.len() {
        return false;
    }
    let mut i: usize = 0;
    while i < a.len()
        invariant
            i <= a.len(),
            a.len() == b.len(),
            forall|j: int| 0 <= j < i ==> a@[j] == b@[j],
        decreases a.len() - i,
    {
        if a[i] != b[i] {
            return false;
        }
        i += 1;
    }
    assert(a@ =~= b@);
    true
}

/// Finds the first `b` in `s`; returns the length of `s` if there is none.
pub fn indexof(s: &[u8], b: u8) -> (n: usize)
    ensures
        n == first_index(s@, b),
        n <= s@.len(),
{
    let mut i: usize = 0;
    while i < s.len()
        invariant
            i <= s.len(),
            forall|j: int| 0 <= j < i ==> s@[j] != b,
        decreases s.len() - i,
    {
        if s[i] == b {
            proof {
                first_index_found(s@, b, i as int);
            }
            return i;
        }
        i += 1;
    }
    proof {
        first_index_found(s@, b, i as int);
    }
    i
}

/// Copies a slice into a vector of its own.
pub fn to_vec(s: &[u8]) -> (v: Vec<u8>)
    ensures
        v@ == s@,
{
    let mut v: Vec<u8> = Vec::new();
    v.extend_from_slice(s);
    v
}

} // verus!

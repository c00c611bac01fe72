//! Operations on paths.

use vstd::prelude::*;

verus! {

/// What becomes of the byte `c` when the byte in front of it was `prev`:
/// a NUL turns into `_`, a `/` behind a `/` is dropped, a `.` behind a `/`
/// turns into `:`, and every other byte stays.
pub open spec fn sanitized_byte(prev: Option<u8>, c: u8) -> Option<u8> {
    if c == 0 {
        Some('_' as u8)
    } else if c == '/' as u8 && prev == Some('/' as u8) {
        None
    } else if c == '.' as u8 && prev == Some('/' as u8) {
        Some(':' as u8)
    } else {
        Some(c)
    }
}

/// The sanitized form of a path: each byte judged by the byte that stood in
/// front of it in `s`.
pub open spec fn sanitized(s: Seq<u8>) -> Seq<u8>
    decreases s.len(),
{
    if s.len() == 0 {
        Seq::empty()
    } else {
        let init = s.drop_last();
        let prev = if init.len() == 0 {
            None
        } else {
            Some(init.last())
        };
        match sanitized_byte(prev, s.last()) {
            Some(b) => sanitized(init).push(b),
            None => sanitized(init),
        }
    }
}

/// Whether `s` is free of what sanitizing removes: it holds no NUL, no `/`
/// directly behind a `/`, and no `.` directly behind a `/`.
pub open spec fn is_clean(s: Seq<u8>) -> bool {
    forall|i: int|
        0 <= i < s.len() ==> {
            &&& #[trigger] s[i] != 0
            &&& i > 0 && s[i - 1] == '/' as u8 ==> s[i] != '/' as u8 && s[i] != '.' as u8
        }
}

fn sanitize_byte(prev: Option<u8>, c: u8) -> (r: Option<u8>)
    ensures
        r == sanitized_byte(prev, c),
{
    let after_slash = match prev {
        Some(p) => p == '/' as u8,
        None => false,
    };
    if c == 0 {
        Some('_' as u8)
    } else if c == '/' as u8 && after_slash {
        None
    } else if c == '.' as u8 && after_slash {
        Some(':' as u8)
    } else {
        Some(c)
    }
}

/// Sanitizes a path received from a client, in place: replaces NULs,
/// collapses duplicate slashes, and replaces dots that begin a component.
pub fn sanitize(path: &mut Vec<u8>)
    ensures
        final(path)@ == sanitized(old(path)@),
{
    let n = path.len();
    let mut last: Option<u8> = None;
    let mut used: usize = 0;
    let mut i: usize = 0;
    assert(path@.subrange(0, 0) == sanitized(old(path)@.subrange(0, 0)));
    while i < n
        invariant
            used <= i <= n,
            n == path.len() == old(path)@.len(),
            path@.subrange(0, used as int) == sanitized(old(path)@.subrange(0, i as int)),
            forall|k: int| i <= k < n ==> path@[k] == old(path)@[k],
            last == if i == 0 {
                None
            } else {
                Some(old(path)@[i - 1])
            },
        decreases n - i,
    {
        let ghost before = path@;
        let ghost seen = old(path)@.subrange(0, i as int);
        let ghost next = old(path)@.subrange(0, i + 1);
        let c = path[i];
        assert(next.drop_last() == seen);
        assert(next.last() == c);
        match sanitize_byte(last, c) {
            Some(r) => {
                path[used] = r;
                assert(path@.subrange(0, used + 1) == before.subrange(0, used as int).push(r));
                used += 1;
            },
            None => {},
        }
        last = Some(c);
        i += 1;
    }
    assert(old(path)@.subrange(0, n as int) == old(path)@);
    path.truncate(used);
}

/// A sanitized path ends in `/` exactly where the path itself does, and is
/// empty only where the path is.
pub proof fn sanitized_last(s: Seq<u8>)
    requires
        s.len() > 0,
    ensures
        sanitized(s).len() > 0,
        sanitized(s).last() == '/' as u8 <==> s.last() == '/' as u8,
    decreases s.len(),
{
    if s.len() > 1 {
        sanitized_last(s.drop_last());
    }
}

/// Sanitizing leaves nothing that it removes: the result never holds a NUL,
/// two adjacent slashes, or a dot directly behind a slash.  No component of
/// a sanitized path therefore begins with a dot, `..` included.
pub proof fn sanitized_is_clean(s: Seq<u8>)
    ensures
        is_clean(sanitized(s)),
    decreases s.len(),
{
    if s.len() > 0 {
        let init = s.drop_last();
        sanitized_is_clean(init);
        if init.len() > 0 {
            sanitized_last(init);
        }
        let out = sanitized(s);
        assert forall|i: int| 0 <= i < out.len() implies {
            &&& #[trigger] out[i] != 0
            &&& i > 0 && out[i - 1] == '/' as u8 ==> out[i] != '/' as u8 && out[i] != '.' as u8
        } by {
            if i < sanitized(init).len() {
                assert(out[i] == sanitized(init)[i]);
            }
        }
    }
}

/// Sanitizing changes nothing in a path that is already clean.
pub proof fn sanitized_keeps_clean(s: Seq<u8>)
    requires
        is_clean(s),
    ensures
        sanitized(s) == s,
    decreases s.len(),
{
    if s.len() > 0 {
        let init = s.drop_last();
        assert(is_clean(init)) by {
            assert forall|i: int| 0 <= i < init.len() implies {
                &&& #[trigger] init[i] != 0
                &&& i > 0 && init[i - 1] == '/' as u8 ==> init[i] != '/' as u8 && init[i]
                    != '.' as u8
            } by {
                assert(init[i] == s[i]);
            }
        }
        sanitized_keeps_clean(init);
        assert(s[s.len() - 1] != 0);
        assert(init.push(s.last()) == s);
    }
}

/// What sanitizing makes of the start of a path does not depend on how the
/// path goes on: the sanitized form of `a` begins the sanitized form of
/// `a + b`.
pub proof fn sanitized_prefix(a: Seq<u8>, b: Seq<u8>)
    ensures
        sanitized(a).len() <= sanitized(a + b).len(),
        sanitized(a + b).take(sanitized(a).len() as int) == sanitized(a),
    decreases b.len(),
{
    if b.len() == 0 {
        assert(a + b == a);
        assert(sanitized(a).take(sanitized(a).len() as int) == sanitized(a));
    } else {
        sanitized_prefix(a, b.drop_last());
        assert((a + b).drop_last() == a + b.drop_last());
        let shorter = sanitized(a + b.drop_last());
        let n = sanitized(a).len() as int;
        assert(sanitized(a + b).take(n) == shorter.take(n));
    }
}

/// Sanitizing twice gives what sanitizing once gives.
pub proof fn sanitize_idempotent(s: Seq<u8>)
    ensures
        sanitized(sanitized(s)) == sanitized(s),
{
    sanitized_is_clean(s);
    sanitized_keeps_clean(sanitized(s));
}

} // verus!

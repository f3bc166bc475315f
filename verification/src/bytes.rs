//! Byte-level text scanning: ASCII case folding, substring search and
//! whitespace trimming, each implemented against an exact mathematical
//! description over byte sequences.

use vstd::prelude::*;
use vstd::slice::slice_subrange;

verus! {

/// ASCII uppercase of one byte; bytes outside `a`..=`z` are unchanged.
pub open spec fn upper_byte(b: u8) -> u8 {
    if 97 <= b <= 122 {
        (b - 32) as u8
    } else {
        b
    }
}

/// ASCII lowercase of one byte; bytes outside `A`..=`Z` are unchanged.
pub open spec fn lower_byte(b: u8) -> u8 {
    if 65 <= b <= 90 {
        (b + 32) as u8
    } else {
        b
    }
}

/// ASCII uppercase of a byte sequence.
pub open spec fn upper_bytes(s: Seq<u8>) -> Seq<u8> {
    s.map_values(|b: u8| upper_byte(b))
}

/// ASCII lowercase of a byte sequence.
pub open spec fn lower_bytes(s: Seq<u8>) -> Seq<u8> {
    s.map_values(|b: u8| lower_byte(b))
}

/// The needle `n` occurs in `h` starting at position `i`.
pub open spec fn matches_at(h: Seq<u8>, n: Seq<u8>, i: int) -> bool {
    &&& 0 <= i
    &&& i + n.len() <= h.len()
    &&& forall|t: int| 0 <= t < n.len() ==> h[i + t] == n[t]
}

/// The needle `n` occurs somewhere in `h`.
pub open spec fn contains_bytes(h: Seq<u8>, n: Seq<u8>) -> bool {
    exists|i: int| matches_at(h, n, i)
}

/// An ASCII whitespace byte, as stripped from the ends of a field.
pub open spec fn is_ws(b: u8) -> bool {
    b == 32 || b == 9 || b == 10 || b == 13 || b == 11 || b == 12
}

/// The sequence with its leading whitespace removed.
pub open spec fn trim_front(s: Seq<u8>) -> Seq<u8>
    decreases s.len(),
{
    if s.len() > 0 && is_ws(s[0]) {
        trim_front(s.drop_first())
    } else {
        s
    }
}

/// The sequence with its trailing whitespace removed.
pub open spec fn trim_back(s: Seq<u8>) -> Seq<u8>
    decreases s.len(),
{
    if s.len() > 0 && is_ws(s.last()) {
        trim_back(s.drop_last())
    } else {
        s
    }
}

/// The sequence with whitespace removed from both ends.
pub open spec fn trim_bytes(s: Seq<u8>) -> Seq<u8> {
    trim_back(trim_front(s))
}

/// ASCII-uppercases a byte string.
pub fn to_upper_vec(s: &[u8]) -> (r: Vec<u8>)
    ensures
        r@ == upper_bytes(s@),
{
    let mut r: Vec<u8> = Vec::new();
    let mut i: usize = 0;
    while i < s.len()
        invariant
            i <= s@.len(),
            r@ =~= upper_bytes(s@).take(i as int),
        decreases s@.len() - i,
    {
        let b = s[i];
        if 97 <= b && b <= 122 {
            r.push(b - 32);
        } else {
            r.push(b);
        }
        proof {
            assert(upper_bytes(s@)[i as int] == upper_byte(s@[i as int]));
            assert(r@ =~= upper_bytes(s@).take(i + 1));
        }
        i = i + 1;
    }
    proof {
        assert(upper_bytes(s@).take(s@.len() as int) =~= upper_bytes(s@));
    }
    r
}

/// ASCII-lowercases a byte string.
pub fn to_lower_vec(s: &[u8]) -> (r: Vec<u8>)
    ensures
        r@ == lower_bytes(s@),
{
    let mut r: Vec<u8> = Vec::new();
    let mut i: usize = 0;
    while i < s.len()
        invariant
            i <= s@.len(),
            r@ =~= lower_bytes(s@).take(i as int),
        decreases s@.len() - i,
    {
        let b = s[i];
        if 65 <= b && b <= 90 {
            r.push(b + 32);
        } else {
            r.push(b);
        }
        proof {
            assert(lower_bytes(s@)[i as int] == lower_byte(s@[i as int]));
            assert(r@ =~= lower_bytes(s@).take(i + 1));
        }
        i = i + 1;
    }
    proof {
        assert(lower_bytes(s@).take(s@.len() as int) =~= lower_bytes(s@));
    }
    r
}

/// Whether the needle occurs at position `i` of the haystack.
fn matches_at_exec(h: &[u8], n: &[u8], i: usize) -> (r: bool)
    requires
        i + n@.len() <= h@.len(),
    ensures
        r == matches_at(h@, n@, i as int),
{
    let hl = h.len();
    let mut j: usize = 0;
    while j < n.len()
        invariant
            i + n@.len() <= h@.len(),
            hl == h@.len(),
            j <= n@.len(),
            forall|t: int| 0 <= t < j ==> h@[i + t] == n@[t],
        decreases n@.len() - j,
    {
        if h[i + j] != n[j] {
            return false;
        }
        j = j + 1;
    }
    true
}

/// Whether the needle occurs anywhere in the haystack.
pub fn contains_bytes_exec(h: &[u8], n: &[u8]) -> (r: bool)
    ensures
        r == contains_bytes(h@, n@),
{
    if n.len() > h.len() {
        proof {
            assert forall|i: int| !matches_at(h@, n@, i) by {}
        }
        return false;
    }
    if n.len() == 0 {
        proof {
            assert(matches_at(h@, n@, 0));
        }
        return true;
    }
    let mut i: usize = 0;
    let hl = h.len();
    let last = hl - n.len();
    while i <= last
        invariant
            1 <= n@.len() <= h@.len(),
            hl == h@.len(),
            last == h@.len() - n@.len(),
            last < hl,
            i <= last + 1,
            forall|i0: int| 0 <= i0 < i ==> !matches_at(h@, n@, i0),
        decreases last + 1 - i,
    {
        if matches_at_exec(h, n, i) {
            return true;
        }
        i = i + 1;
    }
    proof {
        assert forall|i0: int| !matches_at(h@, n@, i0) by {
            if 0 <= i0 <= last {
                assert(!matches_at(h@, n@, i0));
            }
        }
    }
    false
}

/// The position of the first occurrence of `b` in `s`, if any.
pub fn find_byte(s: &[u8], b: u8) -> (r: Option<usize>)
    ensures
        match r {
            Some(i) => i < s@.len() && s@[i as int] == b && forall|t: int|
                0 <= t < i ==> s@[t] != b,
            None => forall|t: int| 0 <= t < s@.len() ==> s@[t] != b,
        },
{
    let mut i: usize = 0;
    while i < s.len()
        invariant
            i <= s@.len(),
            forall|t: int| 0 <= t < i ==> s@[t] != b,
        decreases s@.len() - i,
    {
        if s[i] == b {
            return Some(i);
        }
        i = i + 1;
    }
    None
}

/// The subslice of `s` with whitespace removed from both ends.
pub fn trim_exec<'a>(s: &'a [u8]) -> (r: &'a [u8])
    ensures
        r@ == trim_bytes(s@),
{
    let mut lo: usize = 0;
    let mut hi: usize = s.len();
    proof {
        assert(s@.subrange(0, s@.len() as int) =~= s@);
    }
    while lo < hi && is_ws_exec(s[lo])
        invariant
            lo <= hi <= s@.len(),
            trim_front(s@) == trim_front(s@.subrange(lo as int, s@.len() as int)),
            hi == s@.len(),
        decreases hi - lo,
    {
        proof {
            let cur = s@.subrange(lo as int, s@.len() as int);
            assert(cur.drop_first() =~= s@.subrange(lo + 1, s@.len() as int));
        }
        lo = lo + 1;
    }
    proof {
        let cur = s@.subrange(lo as int, s@.len() as int);
        if lo < hi {
            assert(!is_ws(cur[0]));
        }
        assert(trim_front(s@) == cur);
    }
    while hi > lo && is_ws_exec(s[hi - 1])
        invariant
            lo <= hi <= s@.len(),
            trim_front(s@) == s@.subrange(lo as int, s@.len() as int),
            trim_back(s@.subrange(lo as int, s@.len() as int)) == trim_back(
                s@.subrange(lo as int, hi as int),
            ),
        decreases hi,
    {
        proof {
            let cur = s@.subrange(lo as int, hi as int);
            assert(cur.drop_last() =~= s@.subrange(lo as int, hi - 1));
        }
        hi = hi - 1;
    }
    proof {
        let cur = s@.subrange(lo as int, hi as int);
        if hi > lo {
            assert(!is_ws(cur.last()));
        }
        assert(trim_bytes(s@) == cur);
    }
    slice_subrange(s, lo, hi)
}

/// Whether a byte is ASCII whitespace.
fn is_ws_exec(b: u8) -> (r: bool)
    ensures
        r == is_ws(b),
{
    b == 32 || b == 9 || b == 10 || b == 13 || b == 11 || b == 12
}

} // verus!

//! Comparing strings, and where one sequence of characters occurs inside another.

use vstd::prelude::*;
use vstd::string::StringSliceAdditionalSpecFns;
use vstd::utf8::encode_utf8_decode_utf8;

verus! {

/// Whether `part` stands in `s` from index `at` on.
pub open spec fn occurs_at(part: Seq<char>, s: Seq<char>, at: int) -> bool {
    &&& 0 <= at
    &&& at + part.len() <= s.len()
    &&& s.subrange(at, at + part.len()) == part
}

/// Whether `part` stands somewhere in `s`, as one piece.
pub open spec fn occurs_in(part: Seq<char>, s: Seq<char>) -> bool {
    exists|at: int| occurs_at(part, s, at)
}

/// What occurs in one of two sequences occurs in the two put together.
pub proof fn lemma_occurs_in_either(part: Seq<char>, a: Seq<char>, b: Seq<char>)
    requires
        occurs_in(part, a) || occurs_in(part, b),
    ensures
        occurs_in(part, a + b),
{
    if occurs_in(part, a) {
        let at = choose|at: int| occurs_at(part, a, at);
        assert((a + b).subrange(at, at + part.len()) == a.subrange(at, at + part.len()));
        assert(occurs_at(part, a + b, at));
    } else {
        let at = choose|at: int| occurs_at(part, b, at);
        assert((a + b).subrange(a.len() + at, a.len() + at + part.len()) == b.subrange(
            at,
            at + part.len(),
        ));
        assert(occurs_at(part, a + b, a.len() + at));
    }
}

/// A sequence that does not hold the character `c` and occurs in `a`, `c`, `b`
/// put together occurs in `a` or in `b`.
pub proof fn lemma_occurs_beside(part: Seq<char>, a: Seq<char>, c: char, b: Seq<char>)
    requires
        forall|i: int| 0 <= i < part.len() ==> part[i] != c,
        occurs_in(part, a + seq![c] + b),
    ensures
        occurs_in(part, a) || occurs_in(part, b),
{
    let s = a + seq![c] + b;
    let at = choose|at: int| occurs_at(part, s, at);
    let piece = s.subrange(at, at + part.len());
    if at + part.len() <= a.len() {
        assert(a.subrange(at, at + part.len()) == piece);
        assert(occurs_at(part, a, at));
    } else if at > a.len() {
        let from = at - a.len() - 1;
        assert(b.subrange(from, from + part.len()) == piece);
        assert(occurs_at(part, b, from));
    } else {
        assert(piece[a.len() - at] == c);
    }
}

/// Whether two strings hold the same characters.
pub fn same_text(a: &str, b: &str) -> (same: bool)
    ensures
        same == (a@ == b@),
{
    let x = a.as_bytes();
    let y = b.as_bytes();
    proof {
        encode_utf8_decode_utf8(a@);
        encode_utf8_decode_utf8(b@);
    }
    if x.len() != y.len() {
        return false;
    }
    let mut i: usize = 0;
    while i < x.len()
        invariant
            i <= x.len() == y.len(),
            x@ == a.spec_bytes(),
            y@ == b.spec_bytes(),
            forall|j: int| 0 <= j < i ==> x[j] == y[j],
        decreases x.len() - i,
    {
        if x[i] != y[i] {
            return false;
        }
        i = i + 1;
    }
    assert(x@ == y@);
    true
}

} // verus!

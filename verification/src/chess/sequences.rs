//! Facts about sequences that the proofs of the engine share.

use vstd::prelude::*;

verus! {

/// What a sequence holds after one more element is appended.
pub proof fn lemma_push_contains<T>(s: Seq<T>, x: T)
    ensures
        forall|c: T| #[trigger] s.push(x).contains(c) <==> s.contains(c) || c == x,
        s.no_duplicates() && !s.contains(x) ==> s.push(x).no_duplicates(),
{
    assert forall|c: T| #[trigger] s.push(x).contains(c) <==> s.contains(c) || c == x by {
        if s.push(x).contains(c) {
            let i = choose|i: int| 0 <= i < s.push(x).len() && s.push(x)[i] == c;
            if i < s.len() {
                assert(s[i] == c);
            }
        }
        if s.contains(c) {
            let i = choose|i: int| 0 <= i < s.len() && s[i] == c;
            assert(s.push(x)[i] == c);
        }
        if c == x {
            assert(s.push(x)[s.len() as int] == c);
        }
    }
    if s.no_duplicates() && !s.contains(x) {
        assert forall|i: int, j: int|
            0 <= i < s.push(x).len() && 0 <= j < s.push(x).len() && i != j implies s.push(x)[i]
            != s.push(x)[j] by {
            if i < s.len() && j < s.len() {
            } else if i < s.len() {
                assert(s[i] != x);
            } else {
                assert(s[j] != x);
            }
        }
    }
}

/// The first `j + 1` elements hold what the first `j` hold and the element
/// at `j`.
pub proof fn lemma_take_next<T>(s: Seq<T>, j: int)
    requires
        0 <= j < s.len(),
    ensures
        forall|c: T| #[trigger] s.take(j + 1).contains(c) <==> s.take(j).contains(c) || c == s[j],
        s.no_duplicates() ==> !s.take(j).contains(s[j]),
{
    assert(s.take(j + 1) =~= s.take(j).push(s[j]));
    lemma_push_contains(s.take(j), s[j]);
    if s.no_duplicates() && s.take(j).contains(s[j]) {
        let q = choose|q: int| 0 <= q < s.take(j).len() && s.take(j)[q] == s[j];
        assert(s[q] == s[j]);
    }
}

} // verus!

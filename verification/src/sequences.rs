//! Facts about what sequences hold.

use vstd::prelude::*;

verus! {

/// Two sequences together hold what either holds.
pub proof fn lemma_join_contains<A>(a: Seq<A>, b: Seq<A>, x: A)
    ensures
        (a + b).contains(x) == (a.contains(x) || b.contains(x)),
{
    if a.contains(x) {
        let i = choose|i: int| 0 <= i < a.len() && a[i] == x;
        assert((a + b)[i] == x);
    }
    if b.contains(x) {
        let i = choose|i: int| 0 <= i < b.len() && b[i] == x;
        assert((a + b)[a.len() + i] == x);
    }
    if (a + b).contains(x) {
        let i = choose|i: int| 0 <= i < (a + b).len() && (a + b)[i] == x;
        if i < a.len() {
            assert(a[i] == x);
        } else {
            assert(b[i - a.len()] == x);
        }
    }
}

/// A sequence with one more item holds that and what it held.
pub proof fn lemma_push_contains<A>(s: Seq<A>, last: A, x: A)
    ensures
        s.push(last).contains(x) == (s.contains(x) || x == last),
{
    assert(s.push(last) =~= s + seq![last]);
    lemma_one_contains(last, x);
    lemma_join_contains(s, seq![last], x);
}

/// A sequence of one item holds that item.
pub proof fn lemma_one_contains<A>(only: A, x: A)
    ensures
        seq![only].contains(x) == (x == only),
{
    assert(seq![only][0] == only);
}

} // verus!

//! The traversal queue: a permutation of the catalog indices `0..n`.
//!
//! The queue is the level of indirection that lets shuffle and re-sorts
//! reorder traversal without losing track of what is playing.  Everything
//! here revolves around `is_permutation`, the invariant that every catalog
//! index appears in the queue exactly once.

use vstd::prelude::*;
use vstd::seq_lib::group_to_multiset_ensures;

verus! {

/// `q` lists every index below `n` exactly once.
pub open spec fn is_permutation(q: Seq<usize>, n: nat) -> bool {
    &&& q.len() == n
    &&& forall|i: int| 0 <= i < q.len() ==> (#[trigger] q[i]) < n
    &&& forall|i: int, j: int| 0 <= i < j < q.len() ==> q[i] != q[j]
    &&& forall|v: int| 0 <= v < n ==> #[trigger] q.contains(v as usize)
}

/// The identity ordering `0, 1, .., n-1`.
pub open spec fn identity_seq(n: nat) -> Seq<usize> {
    Seq::new(n, |i: int| i as usize)
}

/// The first position of `x` in `s`, scanning from the front.
pub open spec fn find_usize(s: Seq<usize>, x: usize) -> Option<int>
    decreases s.len(),
{
    if s.len() == 0 {
        Option::None
    } else if s[0] == x {
        Option::Some(0)
    } else {
        match find_usize(s.drop_first(), x) {
            Option::Some(i) => Option::Some(i + 1),
            Option::None => Option::None,
        }
    }
}

/// What `find_usize` returns: the first hit when there is one, and
/// nothing exactly when `x` does not occur.
pub proof fn lemma_find_usize_props(s: Seq<usize>, x: usize)
    ensures
        match find_usize(s, x) {
            Option::Some(i) => 0 <= i < s.len() && s[i] == x && (forall|k: int|
                0 <= k < i ==> s[k] != x),
            Option::None => !s.contains(x),
        },
    decreases s.len(),
{
    if s.len() > 0 && s[0] != x {
        lemma_find_usize_props(s.drop_first(), x);
        match find_usize(s.drop_first(), x) {
            Option::Some(i) => {
                assert(s.drop_first()[i] == s[i + 1]);
                assert forall|k: int| 0 <= k < i + 1 implies s[k] != x by {
                    if k > 0 {
                        assert(s.drop_first()[k - 1] == s[k]);
                    }
                }
            },
            Option::None => {
                assert forall|k: int| 0 <= k < s.len() implies s[k] != x by {
                    if k > 0 {
                        assert(s.drop_first()[k - 1] == s[k]);
                        assert(!s.drop_first().contains(x));
                    }
                }
            },
        }
    }
}

/// Builds the identity queue over `n` catalog indices.
pub fn identity_queue(n: usize) -> (q: Vec<usize>)
    ensures
        q@ == identity_seq(n as nat),
        is_permutation(q@, n as nat),
{
    let mut q: Vec<usize> = Vec::new();
    let mut i: usize = 0;
    while i < n
        invariant
            i <= n,
            q@.len() == i,
            forall|k: int| 0 <= k < i ==> #[trigger] q@[k] == k,
        decreases n - i,
    {
        q.push(i);
        i += 1;
    }
    proof {
        assert(q@ =~= identity_seq(n as nat));
        assert forall|v: int| 0 <= v < n implies #[trigger] q@.contains(v as usize) by {
            assert(q@[v] == v as usize);
        }
    }
    q
}

/// Finds the queue position holding catalog index `x`.
pub fn position_of(q: &Vec<usize>, x: usize) -> (r: Option<usize>)
    ensures
        match r {
            Option::Some(p) => find_usize(q@, x) == Option::Some(p as int),
            Option::None => find_usize(q@, x) is None,
        },
{
    let mut i: usize = 0;
    while i < q.len()
        invariant
            i <= q@.len(),
            forall|k: int| 0 <= k < i ==> q@[k] != x,
        decreases q@.len() - i,
    {
        if q[i] == x {
            proof {
                lemma_find_usize_props(q@, x);
                match find_usize(q@, x) {
                    Option::Some(j) => {
                        if j < i as int {
                            assert(q@[j] == x);
                            assert(false);
                        }
                        if j > i as int {
                            assert(q@[i as int] != x);
                            assert(false);
                        }
                    },
                    Option::None => {
                        assert(q@[i as int] == x);
                        assert(q@.contains(x));
                        assert(false);
                    },
                }
            }
            return Some(i);
        }
        i += 1;
    }
    proof {
        lemma_find_usize_props(q@, x);
        match find_usize(q@, x) {
            Option::Some(j) => {
                assert(q@[j] != x);
                assert(false);
            },
            Option::None => {},
        }
    }
    None
}

/// A sequence with the same contents as a permutation of `0..n` is itself
/// such a permutation.
pub proof fn lemma_permutation_from_multiset(a: Seq<usize>, b: Seq<usize>, n: nat)
    requires
        is_permutation(a, n),
        b.to_multiset() == a.to_multiset(),
    ensures
        is_permutation(b, n),
{
    broadcast use group_to_multiset_ensures;

    assert(b.len() == b.to_multiset().len());
    assert(a.len() == a.to_multiset().len());
    assert forall|i: int| 0 <= i < b.len() implies (#[trigger] b[i]) < n by {
        assert(b.contains(b[i]));
        assert(b.to_multiset().count(b[i]) > 0);
        assert(a.contains(b[i]));
        let j = choose|j: int| 0 <= j < a.len() && a[j] == b[i];
        assert(a[j] < n);
    }
    assert forall|v: int| 0 <= v < n implies #[trigger] b.contains(v as usize) by {
        assert(a.contains(v as usize));
        assert(a.to_multiset().count(v as usize) > 0);
    }
    a.lemma_multiset_has_no_duplicates();
    assert forall|x: usize| b.to_multiset().contains(x) implies b.to_multiset().count(x) == 1 by {
        assert(a.to_multiset().count(x) == b.to_multiset().count(x));
    }
    b.lemma_multiset_has_no_duplicates_conv();
    assert forall|i: int, j: int| 0 <= i < j < b.len() implies b[i] != b[j] by {
        assert(b.no_duplicates());
    }
}

/// Relies on rand's `SliceRandom::shuffle`: it permutes the slice in place,
/// so the new contents are a rearrangement of the old ones.  Nothing is
/// assumed about which rearrangement comes out.
#[verifier::external_body]
pub(crate) fn shuffle_in_place(q: &mut Vec<usize>)
    ensures
        final(q)@.to_multiset() == old(q)@.to_multiset(),
{
    let mut rng = rand::thread_rng();
    rand::seq::SliceRandom::shuffle(q.as_mut_slice(), &mut rng);
}

/// Relies on rand's `IteratorRandom::choose` over `0..n`: a nonempty range
/// yields some element, and every element of the range is below `n`.
#[verifier::external_body]
pub(crate) fn random_index(n: usize) -> (r: usize)
    requires
        n > 0,
    ensures
        r < n,
{
    let mut rng = rand::thread_rng();
    rand::seq::IteratorRandom::choose(0..n, &mut rng).unwrap_or(0)
}

} // verus!

//! Small verified helpers for moving fixed-width byte blocks around.

use vstd::prelude::*;

verus! {

broadcast use vstd::array::group_array_axioms;

/// Append all bytes of `b` to `out`.
pub(crate) fn push_block<const N: usize>(out: &mut Vec<u8>, b: &[u8; N])
    ensures
        final(out)@ == old(out)@ + b@,
{
    let mut i: usize = 0;
    while i < N
        invariant
            i <= N,
            out@ == old(out)@ + b@.take(i as int),
        decreases N - i,
    {
        out.push(b[i]);
        proof {
            assert(b@.take(i + 1) =~= b@.take(i as int).push(b@[i as int]));
        }
        i += 1;
    }
    proof {
        assert(b@.take(N as int) =~= b@);
    }
}

/// Copy `N` bytes of `b` starting at `off` into a fresh array.
pub(crate) fn read_block<const N: usize>(b: &[u8], off: usize) -> (r: [u8; N])
    requires
        off + N <= b@.len(),
    ensures
        r@ == b@.subrange(off as int, off as int + N as int),
{
    let len = b.len();
    let mut out = [0u8; N];
    let mut i: usize = 0;
    while i < N
        invariant
            i <= N,
            off + N <= len == b@.len(),
            out@.len() == N,
            forall|j: int| 0 <= j < i ==> out@[j] == b@[off + j],
        decreases N - i,
    {
        out[i] = b[off + i];
        i += 1;
    }
    proof {
        assert(out@ =~= b@.subrange(off as int, off as int + N as int));
    }
    out
}

/// The views of a sequence of byte blocks.
pub open spec fn block_views<const N: usize>(s: Seq<[u8; N]>) -> Seq<Seq<u8>> {
    s.map_values(|k: [u8; N]| k@)
}

/// Bytewise lexicographic order, with a shorter prefix coming first.
pub open spec fn lex_leq(a: Seq<u8>, b: Seq<u8>) -> bool
    decreases a.len(),
{
    if a.len() == 0 {
        true
    } else if b.len() == 0 {
        false
    } else if a[0] < b[0] {
        true
    } else if a[0] > b[0] {
        false
    } else {
        lex_leq(a.drop_first(), b.drop_first())
    }
}

/// The lexicographic order as a relation value, for sorting.
pub open spec fn block_order() -> spec_fn(Seq<u8>, Seq<u8>) -> bool {
    |a: Seq<u8>, b: Seq<u8>| lex_leq(a, b)
}

proof fn lemma_lex_reflexive(a: Seq<u8>)
    ensures
        lex_leq(a, a),
    decreases a.len(),
{
    if a.len() > 0 {
        lemma_lex_reflexive(a.drop_first());
    }
}

proof fn lemma_lex_connected(a: Seq<u8>, b: Seq<u8>)
    ensures
        lex_leq(a, b) || lex_leq(b, a),
    decreases a.len(),
{
    if a.len() > 0 && b.len() > 0 && a[0] == b[0] {
        lemma_lex_connected(a.drop_first(), b.drop_first());
    }
}

proof fn lemma_lex_antisymmetric(a: Seq<u8>, b: Seq<u8>)
    requires
        lex_leq(a, b),
        lex_leq(b, a),
    ensures
        a == b,
    decreases a.len(),
{
    if a.len() == 0 {
        assert(b.len() == 0);
        assert(a =~= b);
    } else {
        assert(b.len() > 0);
        assert(a[0] == b[0]);
        lemma_lex_antisymmetric(a.drop_first(), b.drop_first());
        assert(a =~= b) by {
            assert(a.drop_first() =~= b.drop_first());
            assert(a.drop_first().len() == a.len() - 1);
            assert(b.drop_first().len() == b.len() - 1);
            assert(a.len() == b.len());
            assert(forall|i: int|
                1 <= i < a.len() ==> a[i] == a.drop_first()[i - 1] && b[i] == b.drop_first()[i
                    - 1]);
        }
    }
}

proof fn lemma_lex_transitive(a: Seq<u8>, b: Seq<u8>, c: Seq<u8>)
    requires
        lex_leq(a, b),
        lex_leq(b, c),
    ensures
        lex_leq(a, c),
    decreases a.len(),
{
    if a.len() > 0 && b.len() > 0 && c.len() > 0 && a[0] == b[0] && b[0] == c[0] {
        lemma_lex_transitive(a.drop_first(), b.drop_first(), c.drop_first());
    }
}

/// The lexicographic order on byte strings is a total ordering.
pub proof fn lemma_block_order_total()
    ensures
        vstd::relations::total_ordering(block_order()),
{
    let leq = block_order();
    assert(vstd::relations::reflexive(leq)) by {
        assert forall|x: Seq<u8>| #[trigger] leq(x, x) by {
            lemma_lex_reflexive(x);
        }
    }
    assert(vstd::relations::antisymmetric(leq)) by {
        assert forall|x: Seq<u8>, y: Seq<u8>| #[trigger] leq(x, y) && #[trigger] leq(y, x)
            implies x == y by {
            lemma_lex_antisymmetric(x, y);
        }
    }
    assert(vstd::relations::transitive(leq)) by {
        assert forall|x: Seq<u8>, y: Seq<u8>, z: Seq<u8>|
            #[trigger] leq(x, y) && #[trigger] leq(y, z) implies leq(x, z) by {
            lemma_lex_transitive(x, y, z);
        }
    }
    assert(vstd::relations::strongly_connected(leq)) by {
        assert forall|x: Seq<u8>, y: Seq<u8>| #[trigger] leq(x, y) || #[trigger] leq(y, x) by {
            lemma_lex_connected(x, y);
        }
    }
}

/// Whether `a` comes at or before `b` in lexicographic order.
pub(crate) fn block_leq<const N: usize>(a: &[u8; N], b: &[u8; N]) -> (r: bool)
    ensures
        r == lex_leq(a@, b@),
{
    proof {
        assert(a@.skip(0) =~= a@);
        assert(b@.skip(0) =~= b@);
    }
    let mut i: usize = 0;
    while i < N
        invariant
            i <= N,
            a@.len() == N,
            b@.len() == N,
            lex_leq(a@, b@) == lex_leq(a@.skip(i as int), b@.skip(i as int)),
        decreases N - i,
    {
        proof {
            assert(a@.skip(i as int).drop_first() =~= a@.skip(i + 1));
            assert(b@.skip(i as int).drop_first() =~= b@.skip(i + 1));
        }
        if a[i] < b[i] {
            return true;
        }
        if a[i] > b[i] {
            return false;
        }
        i += 1;
    }
    proof {
        assert(a@.skip(N as int).len() == 0);
    }
    true
}

/// Sort byte blocks into lexicographic order by repeatedly extracting a
/// least remaining block.  The result is the canonical ordering of the
/// input's multiset of blocks.
pub(crate) fn sort_blocks<const N: usize>(v: Vec<[u8; N]>) -> (r: Vec<[u8; N]>)
    ensures
        block_views(r@) == block_views(v@).sort_by(block_order()),
        r@.len() == v@.len(),
{
    proof {
        lemma_block_order_total();
        broadcast use vstd::seq_lib::group_to_multiset_ensures;
    }
    let mut rest = v;
    let mut out: Vec<[u8; N]> = Vec::new();
    let ghost orig: Seq<Seq<u8>> = block_views(rest@);
    while rest.len() > 0
        invariant
            vstd::relations::sorted_by(block_views(out@), block_order()),
            block_views(out@).to_multiset().add(block_views(rest@).to_multiset())
                =~= orig.to_multiset(),
            forall|i: int, j: int|
                0 <= i < out@.len() && 0 <= j < rest@.len() ==> lex_leq(
                    #[trigger] block_views(out@)[i],
                    #[trigger] block_views(rest@)[j],
                ),
        decreases rest@.len(),
    {
        proof {
            broadcast use vstd::seq_lib::group_to_multiset_ensures;
        }
        let mut m: usize = 0;
        let mut j: usize = 1;
        proof {
            lemma_lex_reflexive(rest@[0]@);
        }
        while j < rest.len()
            invariant
                0 <= m < j <= rest@.len(),
                rest@.len() > 0,
                forall|k: int| 0 <= k < j ==> lex_leq(rest@[m as int]@, #[trigger] rest@[k]@),
            decreases rest@.len() - j,
        {
            let keep = block_leq(&rest[m], &rest[j]);
            proof {
                lemma_lex_connected(rest@[m as int]@, rest@[j as int]@);
            }
            if !keep {
                proof {
                    assert forall|k: int| 0 <= k < j + 1 implies lex_leq(
                        rest@[j as int]@,
                        #[trigger] rest@[k]@,
                    ) by {
                        if k < j {
                            lemma_lex_transitive(rest@[j as int]@, rest@[m as int]@, rest@[k]@);
                        } else {
                            lemma_lex_reflexive(rest@[j as int]@);
                        }
                    }
                }
                m = j;
            }
            j += 1;
        }
        let ghost prev_out = block_views(out@);
        let ghost prev_rest = block_views(rest@);
        let least = rest.remove(m);
        out.push(least);
        proof {
            assert(block_views(out@) =~= prev_out.push(least@));
            assert(block_views(rest@) =~= prev_rest.remove(m as int));
            assert(prev_rest[m as int] == least@);
            assert(block_views(out@).to_multiset().add(block_views(rest@).to_multiset())
                =~= orig.to_multiset()) by {
                assert(block_views(out@).to_multiset() =~= prev_out.to_multiset().insert(least@));
                assert(block_views(rest@).to_multiset() =~= prev_rest.to_multiset().remove(
                    least@,
                ));
                assert(prev_rest.to_multiset().contains(least@));
            }
            assert(vstd::relations::sorted_by(block_views(out@), block_order())) by {
                assert(forall|i: int|
                    0 <= i < prev_out.len() ==> lex_leq(
                        #[trigger] prev_out[i],
                        least@,
                    ));
            }
            assert forall|i: int, j2: int|
                0 <= i < out@.len() && 0 <= j2 < rest@.len() implies lex_leq(
                #[trigger] block_views(out@)[i],
                #[trigger] block_views(rest@)[j2],
            ) by {
                let jj = if j2 < m { j2 } else { j2 + 1 };
                assert(block_views(rest@)[j2] == prev_rest[jj]);
                if i < prev_out.len() {
                    assert(lex_leq(block_views(out@)[i], prev_rest[jj]));
                } else {
                    assert(block_views(out@)[i] == least@);
                    assert(lex_leq(least@, prev_rest[jj]));
                }
            }
        }
    }
    proof {
        assert(block_views(rest@).to_multiset() =~= Seq::<Seq<u8>>::empty().to_multiset());
        assert(block_views(out@).to_multiset() =~= orig.to_multiset()) by {
            broadcast use vstd::seq_lib::group_to_multiset_ensures;
            assert(block_views(rest@).to_multiset().len() == 0);
        }
        orig.lemma_sort_by_ensures(block_order());
        vstd::seq_lib::lemma_sorted_unique(
            block_views(out@),
            orig.sort_by(block_order()),
            block_order(),
        );
        assert(block_views(out@).len() == out@.len());
        assert(block_views(out@).to_multiset().len() == orig.to_multiset().len()) by {
            broadcast use vstd::seq_lib::group_to_multiset_ensures;
        }
        assert(out@.len() == v@.len()) by {
            broadcast use vstd::seq_lib::group_to_multiset_ensures;
        }
    }
    out
}

/// Two 32-byte blocks joined into one 64-byte block.
pub(crate) fn join_blocks(a: &[u8; 32], b: &[u8; 32]) -> (r: [u8; 64])
    ensures
        r@ == a@ + b@,
{
    let mut out = [0u8; 64];
    let mut i: usize = 0;
    while i < 32
        invariant
            i <= 32,
            out@.len() == 64,
            forall|j: int| 0 <= j < i ==> out@[j] == a@[j],
        decreases 32 - i,
    {
        out[i] = a[i];
        i += 1;
    }
    let mut k: usize = 0;
    while k < 32
        invariant
            k <= 32,
            out@.len() == 64,
            forall|j: int| 0 <= j < 32 ==> out@[j] == a@[j],
            forall|j: int| 0 <= j < k ==> out@[32 + j] == b@[j],
        decreases 32 - k,
    {
        out[32 + k] = b[k];
        k += 1;
    }
    proof {
        assert(out@ =~= a@ + b@);
    }
    out
}

/// Whether two byte blocks hold the same bytes.
pub(crate) fn block_eq<const N: usize>(a: &[u8; N], b: &[u8; N]) -> (r: bool)
    ensures
        r == (a@ == b@),
{
    let mut i: usize = 0;
    while i < N
        invariant
            i <= N,
            forall|j: int| 0 <= j < i ==> a@[j] == b@[j],
        decreases N - i,
    {
        if a[i] != b[i] {
            return false;
        }
        i += 1;
    }
    proof {
        assert(a@ =~= b@);
    }
    true
}

} // verus!

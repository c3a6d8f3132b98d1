//! The emulated-RAM equivalence check: a determinism mask from two or more
//! reference snapshots of the stock core (bytes on which they all agree),
//! and the comparison of a candidate snapshot with the first reference on
//! exactly the masked bytes.

use vstd::prelude::*;

verus! {

/// Whether all reference snapshots agree at byte `i`.
pub open spec fn deterministic_at(refs: Seq<Vec<u8>>, i: int) -> bool {
    forall|r: int| 0 <= r < refs.len() ==> #[trigger] refs[r]@[i] == refs[0]@[i]
}

/// Whether all reference snapshots have the size of the first.
pub open spec fn same_sizes(refs: Seq<Vec<u8>>) -> bool {
    forall|r: int| 0 <= r < refs.len() ==> #[trigger] refs[r]@.len() == refs[0]@.len()
}

/// The first reference whose size differs from the first reference's.
pub fn size_mismatch(refs: &Vec<Vec<u8>>) -> (res: Option<usize>)
    requires
        refs@.len() >= 1,
    ensures
        res is None <==> same_sizes(refs@),
        res matches Some(r) ==> r < refs@.len() && refs@[r as int]@.len() != refs@[0]@.len() && forall|q: int|
            0 <= q < r ==> #[trigger] refs@[q]@.len() == refs@[0]@.len(),
{
    let len: usize = refs[0].len();
    let mut r: usize = 0;
    while r < refs.len()
        invariant
            r <= refs@.len(),
            refs@.len() >= 1,
            len == refs@[0]@.len(),
            forall|q: int| 0 <= q < r ==> #[trigger] refs@[q]@.len() == refs@[0]@.len(),
        decreases refs@.len() - r,
    {
        if refs[r].len() != len {
            return Some(r);
        }
        r = r + 1;
    }
    None
}

/// Number of `false` entries of the mask (the nondeterministic bytes).
pub open spec fn count_false(mask: Seq<bool>) -> nat
    decreases mask.len(),
{
    if mask.len() == 0 {
        0
    } else {
        count_false(mask.drop_last()) + if mask.last() { 0nat } else { 1nat }
    }
}

/// The determinism mask of the references (true where all of them agree)
/// and the number of bytes where they do not.
pub fn determinism_mask(refs: &Vec<Vec<u8>>) -> (res: (Vec<bool>, usize))
    requires
        refs@.len() >= 1,
        same_sizes(refs@),
    ensures
        res.0@.len() == refs@[0]@.len(),
        forall|i: int| 0 <= i < res.0@.len() ==> #[trigger] res.0@[i] == deterministic_at(refs@, i),
        res.1 == count_false(res.0@),
{
    let len: usize = refs[0].len();
    let mut mask: Vec<bool> = Vec::new();
    let mut nondet: usize = 0;
    let mut i: usize = 0;
    while i < len
        invariant
            i <= len,
            refs@.len() >= 1,
            same_sizes(refs@),
            len == refs@[0]@.len(),
            mask@.len() == i,
            forall|k: int| 0 <= k < i ==> #[trigger] mask@[k] == deterministic_at(refs@, k),
            nondet == count_false(mask@),
            nondet <= i,
        decreases len - i,
    {
        let v: u8 = refs[0][i];
        let mut agree: bool = true;
        let mut r: usize = 0;
        while r < refs.len()
            invariant
                r <= refs@.len(),
                refs@.len() >= 1,
                same_sizes(refs@),
                i < len == refs@[0]@.len(),
                v == refs@[0]@[i as int],
                agree == forall|q: int| 0 <= q < r ==> #[trigger] refs@[q]@[i as int] == v,
            decreases refs@.len() - r,
        {
            assert(refs@[r as int]@.len() == len);
            if refs[r][i] != v {
                agree = false;
            }
            r = r + 1;
        }
        let ghost old_mask = mask@;
        mask.push(agree);
        assert(mask@.drop_last() =~= old_mask);
        if !agree {
            nondet = nondet + 1;
        }
        i = i + 1;
    }
    (mask, nondet)
}

/// Indices below `n` of the masked bytes where the candidate differs from
/// the reference, in increasing order.
pub open spec fn mismatches(reference: Seq<u8>, mask: Seq<bool>, cand: Seq<u8>, n: int) -> Seq<int>
    decreases n,
{
    if n <= 0 {
        Seq::empty()
    } else {
        let prev = mismatches(reference, mask, cand, n - 1);
        if mask[n - 1] && cand[n - 1] != reference[n - 1] {
            prev.push(n - 1)
        } else {
            prev
        }
    }
}

proof fn lemma_mismatches_bounded(reference: Seq<u8>, mask: Seq<bool>, cand: Seq<u8>, n: int)
    ensures
        mismatches(reference, mask, cand, n).len() <= if n < 0 { 0 } else { n },
        forall|k: int| 0 <= k < mismatches(reference, mask, cand, n).len() ==> 0 <= #[trigger] mismatches(reference, mask, cand, n)[k] < n,
    decreases n,
{
    if n > 0 {
        lemma_mismatches_bounded(reference, mask, cand, n - 1);
    }
}

/// Compares a candidate snapshot with the reference on the masked bytes:
/// the number of differing bytes, and the first eight of them as
/// (offset, reference byte, candidate byte).
pub fn compare_candidate(reference: &[u8], mask: &[bool], cand: &[u8]) -> (res: (usize, Vec<(usize, u8, u8)>))
    requires
        mask@.len() == reference@.len(),
        cand@.len() == reference@.len(),
    ensures
        ({
            let m = mismatches(reference@, mask@, cand@, reference@.len() as int);
            &&& res.0 == m.len()
            &&& (res.0 == 0 <==> forall|i: int|
                0 <= i < reference@.len() && #[trigger] mask@[i] ==> cand@[i] == reference@[i])
            &&& res.1@.len() == (if m.len() < 8 { m.len() } else { 8 })
            &&& forall|k: int| 0 <= k < res.1@.len() ==> #[trigger] res.1@[k] == (
                m[k] as usize,
                reference@[m[k]],
                cand@[m[k]],
            )
        }),
{
    let mut count: usize = 0;
    let mut first: Vec<(usize, u8, u8)> = Vec::new();
    let mut i: usize = 0;
    while i < reference.len()
        invariant
            i <= reference@.len(),
            mask@.len() == reference@.len(),
            cand@.len() == reference@.len(),
            count == mismatches(reference@, mask@, cand@, i as int).len(),
            first@.len() == (if count < 8 { count as int } else { 8 }),
            forall|k: int| 0 <= k < first@.len() ==> #[trigger] first@[k] == (
                mismatches(reference@, mask@, cand@, i as int)[k] as usize,
                reference@[mismatches(reference@, mask@, cand@, i as int)[k]],
                cand@[mismatches(reference@, mask@, cand@, i as int)[k]],
            ),
        decreases reference@.len() - i,
    {
        proof {
            lemma_mismatches_bounded(reference@, mask@, cand@, i as int);
        }
        let ghost prev = mismatches(reference@, mask@, cand@, i as int);
        if mask[i] && cand[i] != reference[i] {
            if first.len() < 8 {
                first.push((i, reference[i], cand[i]));
            }
            count = count + 1;
        }
        assert forall|k: int| 0 <= k < first@.len() implies #[trigger] first@[k] == (
            mismatches(reference@, mask@, cand@, i + 1)[k] as usize,
            reference@[mismatches(reference@, mask@, cand@, i + 1)[k]],
            cand@[mismatches(reference@, mask@, cand@, i + 1)[k]],
        ) by {
            if k < prev.len() {
                assert(mismatches(reference@, mask@, cand@, i + 1)[k] == prev[k]);
            }
        }
        i = i + 1;
    }
    proof {
        lemma_no_mismatches(reference@, mask@, cand@, reference@.len() as int);
    }
    (count, first)
}

/// No masked byte differs exactly when the list of differing bytes is empty.
proof fn lemma_no_mismatches(reference: Seq<u8>, mask: Seq<bool>, cand: Seq<u8>, n: int)
    requires
        0 <= n <= reference.len(),
        mask.len() == reference.len(),
        cand.len() == reference.len(),
    ensures
        mismatches(reference, mask, cand, n).len() == 0 <==> forall|i: int|
            0 <= i < n && #[trigger] mask[i] ==> cand[i] == reference[i],
    decreases n,
{
    if n > 0 {
        lemma_no_mismatches(reference, mask, cand, n - 1);
        let prev = mismatches(reference, mask, cand, n - 1);
        if mask[n - 1] && cand[n - 1] != reference[n - 1] {
            assert(mismatches(reference, mask, cand, n).len() == prev.len() + 1);
        }
    }
}

/// Every reference snapshot passes the mask built from the references: no
/// deterministic byte of it differs from the first reference (the stock
/// core is never flagged against itself).
pub proof fn lemma_references_pass(refs: Seq<Vec<u8>>, mask: Seq<bool>, r: int)
    requires
        0 <= r < refs.len(),
        same_sizes(refs),
        mask.len() == refs[0]@.len(),
        forall|i: int| 0 <= i < mask.len() ==> #[trigger] mask[i] == deterministic_at(refs, i),
    ensures
        mismatches(refs[0]@, mask, refs[r]@, refs[0]@.len() as int).len() == 0,
{
    assert(refs[r]@.len() == refs[0]@.len());
    assert forall|i: int| 0 <= i < refs[0]@.len() && #[trigger] mask[i] implies refs[r]@[i] == refs[0]@[i] by {
        assert(deterministic_at(refs, i));
    }
    lemma_no_mismatches(refs[0]@, mask, refs[r]@, refs[0]@.len() as int);
}

/// More references make a stricter mask: a byte deterministic across the
/// references plus one more is deterministic across the references alone.
pub proof fn lemma_more_refs_stricter(refs: Seq<Vec<u8>>, extra: Vec<u8>, i: int)
    requires
        refs.len() >= 1,
        deterministic_at(refs.push(extra), i),
    ensures
        deterministic_at(refs, i),
{
    assert forall|r: int| 0 <= r < refs.len() implies #[trigger] refs[r]@[i] == refs[0]@[i] by {
        assert(refs.push(extra)[r] == refs[r]);
        assert(refs.push(extra)[0] == refs[0]);
    }
}

} // verus!

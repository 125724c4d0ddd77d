//! Bit masks over the indices of KMS objects of one type.
use vstd::prelude::*;

use crate::object_type::KmsObjectIndex;

verus! {

/// The bit that stands for index `i` in a 32-bit mask.
pub open spec fn index_bit(i: int) -> u32 {
    (1u32 << (i as u32)) as u32
}

/// Whether index `i` is set in `mask`.
pub open spec fn mask_has(mask: u32, i: int) -> bool {
    0 <= i < 32 && mask & index_bit(i) != 0
}

/// The mask with the bit of every index in `indices` set.
pub open spec fn index_mask(indices: Seq<KmsObjectIndex>) -> u32
    decreases indices.len(),
{
    if indices.len() == 0 {
        0
    } else {
        index_mask(indices.drop_last()) | index_bit(indices.last() as int)
    }
}

/// Whether every index fits in a 32-bit mask.
pub open spec fn indices_fit(indices: Seq<KmsObjectIndex>) -> bool {
    forall|i: int| 0 <= i < indices.len() ==> #[trigger] indices[i] < 32
}

/// Computes the mask of a list of indices.
pub fn mask_of(indices: &[KmsObjectIndex]) -> (mask: u32)
    requires
        indices_fit(indices@),
    ensures
        mask == index_mask(indices@),
{
    let mut mask: u32 = 0;
    let mut i: usize = 0;
    while i < indices.len()
        invariant
            i <= indices@.len(),
            indices_fit(indices@),
            mask == index_mask(indices@.take(i as int)),
        decreases indices@.len() - i,
    {
        let index = indices[i];
        assert(indices@.take(i + 1).drop_last() =~= indices@.take(i as int));
        assert(index < 32);
        mask = mask | (1u32 << (index as u32));
        i = i + 1;
    }
    assert(indices@.take(i as int) =~= indices@);
    mask
}

/// Tests whether index `i` is set in `mask`.
pub fn mask_contains(mask: u32, i: usize) -> (r: bool)
    ensures
        r == mask_has(mask, i as int),
{
    if i < 32 {
        mask & (1u32 << (i as u32)) != 0
    } else {
        false
    }
}

/// An index listed in `indices` has its bit set in their mask.
pub proof fn lemma_index_mask_has(indices: Seq<KmsObjectIndex>, k: int)
    requires
        indices_fit(indices),
        0 <= k < indices.len(),
    ensures
        mask_has(index_mask(indices), indices[k] as int),
    decreases indices.len(),
{
    let last = indices.last();
    let rest = index_mask(indices.drop_last());
    assert(last < 32);
    if k == indices.len() - 1 {
        assert(((rest | (1u32 << (last as u32))) & (1u32 << (last as u32))) != 0u32) by (bit_vector)
            requires
                last < 32,
        ;
    } else {
        lemma_index_mask_has(indices.drop_last(), k);
        let idx = indices[k];
        assert(idx < 32);
        assert((rest & (1u32 << (idx as u32))) != 0u32 ==> ((rest | (1u32 << (last as u32))) & (1u32
            << (idx as u32))) != 0u32) by (bit_vector);
    }
}

} // verus!

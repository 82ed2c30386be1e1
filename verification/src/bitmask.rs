//! Sets of vCPUs.
use vstd::prelude::*;

use crate::bits::{
    bit_iter_next, bit_vec_all, bit_vec_clone, bit_vec_eq, bit_vec_from_elem, bit_vec_get,
    bit_vec_iter, bit_vec_len, bit_vec_none, bit_vec_set,
};

verus! {

/// The number of bits that are one.
pub open spec fn count_ones(bits: Seq<bool>) -> nat {
    bits.filter(|bit: bool| bit).len()
}

/// Whether `i` is an entry of `list`.
pub open spec fn lists_index(list: Seq<usize>, i: int) -> bool {
    exists|k: int| 0 <= k < list.len() && #[trigger] list[k] == i
}

/// Whether `list` names exactly the positions at which `bits` holds `want`, in ascending
/// order.
pub open spec fn is_index_list(list: Seq<usize>, bits: Seq<bool>, want: bool) -> bool {
    &&& forall|k: int|
        0 <= k < list.len() ==> #[trigger] list[k] < bits.len() && bits[list[k] as int] == want
    &&& forall|k: int, l: int| 0 <= k < l < list.len() ==> list[k] < list[l]
    &&& forall|i: int|
        0 <= i < bits.len() && #[trigger] bits[i] == want ==> lists_index(list, i)
}

/// Whether `best` is a position of a one in `bits` whose length no other such position
/// undercuts, and the first of those.
pub open spec fn is_best_by_length(best: int, bits: Seq<bool>, lengths: Seq<usize>) -> bool {
    &&& 0 <= best < bits.len()
    &&& bits[best]
    &&& forall|i: int| 0 <= i < bits.len() && #[trigger] bits[i] ==> lengths[best] <= lengths[i]
    &&& forall|i: int| 0 <= i < best && #[trigger] bits[i] ==> lengths[best] < lengths[i]
}

/// A set of vCPUs, one bit for each.
#[derive(Debug)]
pub struct BitMask {
    bits: bit_vec::BitVec<u32>,
}

impl View for BitMask {
    type V = Seq<bool>;

    /// For each vCPU, whether it is in the set.
    closed spec fn view(&self) -> Seq<bool> {
        crate::bits::bits_of(self.bits)
    }
}

impl Clone for BitMask {
    fn clone(&self) -> (copy: Self)
        ensures
            copy@ == self@,
    {
        BitMask { bits: bit_vec_clone(&self.bits) }
    }
}

impl PartialEq for BitMask {
    fn eq(&self, other: &Self) -> (same: bool) {
        bit_vec_eq(&self.bits, &other.bits)
    }
}

impl vstd::std_specs::cmp::PartialEqSpecImpl for BitMask {
    open spec fn obeys_eq_spec() -> bool {
        true
    }

    open spec fn eq_spec(&self, other: &Self) -> bool {
        self@ == other@
    }
}

impl BitMask {
    /// A full set of `num_vcpus` vCPUs.
    pub fn new_full(num_vcpus: usize) -> (mask: Self)
        ensures
            mask@ == Seq::new(num_vcpus as nat, |i: int| true),
    {
        BitMask { bits: bit_vec_from_elem(num_vcpus, true) }
    }

    /// An empty set of `num_vcpus` vCPUs.
    pub fn new_empty(num_vcpus: usize) -> (mask: Self)
        ensures
            mask@ == Seq::new(num_vcpus as nat, |i: int| false),
    {
        BitMask { bits: bit_vec_from_elem(num_vcpus, false) }
    }

    /// The number of vCPUs that the mask has a bit for, in the set or not.
    pub fn len(&self) -> (len: usize)
        ensures
            len == self@.len(),
    {
        bit_vec_len(&self.bits)
    }

    /// Whether every vCPU is in the set.
    pub fn is_full(&self) -> (full: bool)
        ensures
            full == crate::bits::all_bits(self@, true),
    {
        bit_vec_all(&self.bits)
    }

    /// Whether no vCPU is in the set.
    pub fn is_empty(&self) -> (empty: bool)
        ensures
            empty == crate::bits::all_bits(self@, false),
    {
        bit_vec_none(&self.bits)
    }

    /// The number of vCPUs in the set.
    pub fn count(&self) -> (count: usize)
        ensures
            count == count_ones(self@),
    {
        let len: usize = self.len();
        let mut iter = bit_vec_iter(&self.bits);
        let mut count: usize = 0;
        let mut idx: usize = 0;
        assert(self@.skip(0) =~= self@);
        assert(self@.take(0).filter(|bit: bool| bit).len() == 0) by {
            reveal(Seq::filter);
        }
        while idx < len
            invariant
                idx <= len,
                len == self@.len(),
                crate::bits::bits_left(iter) == self@.skip(idx as int),
                count == count_ones(self@.take(idx as int)),
                count <= idx,
            decreases len - idx,
        {
            proof {
                reveal(Seq::filter);
                assert(self@.take(idx + 1).drop_last() =~= self@.take(idx as int));
                assert(self@.skip(idx as int).drop_first() =~= self@.skip(idx + 1));
            }
            if let Some(bit) = bit_iter_next(&mut iter) {
                if bit {
                    count = count + 1;
                }
            }
            idx = idx + 1;
        }
        assert(self@.take(len as int) =~= self@);
        count
    }

    /// Sets whether the `i`-th vCPU is in the set.
    pub fn set(&mut self, i: usize, b: bool)
        requires
            i < old(self)@.len(),
        ensures
            final(self)@ == old(self)@.update(i as int, b),
    {
        bit_vec_set(&mut self.bits, i, b);
    }

    /// Whether the `i`-th vCPU is in the set.
    pub fn get(&self, i: usize) -> (b: bool)
        requires
            i < self@.len(),
        ensures
            b == self@[i as int],
    {
        bit_vec_get(&self.bits, i).unwrap()
    }

    /// The bits, one for each vCPU.
    pub fn iter(&self) -> (bits: Vec<bool>)
        ensures
            bits@ == self@,
    {
        let mut iter = bit_vec_iter(&self.bits);
        let mut bits: Vec<bool> = Vec::new();
        loop
            invariant
                bits@ + crate::bits::bits_left(iter) == self@,
            ensures
                crate::bits::bits_left(iter).len() == 0,
            decreases crate::bits::bits_left(iter).len(),
        {
            match bit_iter_next(&mut iter) {
                Some(bit) => {
                    bits.push(bit);
                },
                None => {
                    break ;
                },
            }
        }
        bits
    }

    /// The indices of the bits that are `want`, in ascending order.
    fn indices_of(&self, want: bool) -> (list: Vec<usize>)
        ensures
            is_index_list(list@, self@, want),
    {
        let len: usize = self.len();
        let mut iter = bit_vec_iter(&self.bits);
        let mut list: Vec<usize> = Vec::new();
        let mut idx: usize = 0;
        assert(self@.skip(0) =~= self@);
        while idx < len
            invariant
                idx <= len,
                len == self@.len(),
                crate::bits::bits_left(iter) == self@.skip(idx as int),
                is_index_list(list@, self@.take(idx as int), want),
            decreases len - idx,
        {
            let ghost before = list@;
            if let Some(bit) = bit_iter_next(&mut iter) {
                if bit == want {
                    list.push(idx);
                }
            }
            proof {
                assert(self@.skip(idx as int).drop_first() =~= self@.skip(idx + 1));
                let seen = self@.take(idx + 1);
                assert forall|i: int| 0 <= i < seen.len() && #[trigger] seen[i] == want implies
                    lists_index(list@, i) by {
                    if i == idx {
                        assert(list@[list@.len() - 1] == idx);
                    } else {
                        assert(self@.take(idx as int)[i] == want);
                        let k = choose|k: int| 0 <= k < before.len() && #[trigger] before[k] == i;
                        assert(list@[k] == i);
                    }
                }
            }
            idx = idx + 1;
        }
        assert(self@.take(len as int) =~= self@);
        list
    }

    /// The indices of all bits that are one, in ascending order.
    pub fn iter_ones(&self) -> (list: Vec<usize>)
        ensures
            is_index_list(list@, self@, true),
    {
        self.indices_of(true)
    }

    /// The indices of all bits that are zero, in ascending order.
    pub fn iter_zeroes(&self) -> (list: Vec<usize>)
        ensures
            is_index_list(list@, self@, false),
    {
        self.indices_of(false)
    }

    /// The vCPU of the set whose run queue is the shortest, and the first of those where
    /// several are; `lengths` holds the length of each vCPU's run queue.
    pub fn get_best_thread_by_length(&self, lengths: &Vec<usize>) -> (best: usize)
        requires
            exists|i: int| 0 <= i < self@.len() && #[trigger] self@[i],
            forall|i: int| 0 <= i < self@.len() && #[trigger] self@[i] ==> i < lengths@.len(),
        ensures
            is_best_by_length(best as int, self@, lengths@),
    {
        let ones = self.iter_ones();
        proof {
            let i = choose|i: int| 0 <= i < self@.len() && #[trigger] self@[i];
            assert(lists_index(ones@, i));
        }
        let mut best: usize = ones[0];
        let mut k: usize = 1;
        while k < ones.len()
            invariant
                1 <= k <= ones@.len(),
                is_index_list(ones@, self@, true),
                forall|i: int| 0 <= i < self@.len() && #[trigger] self@[i] ==> i < lengths@.len(),
                exists|j: int| 0 <= j < k && #[trigger] ones@[j] == best,
                forall|j: int|
                    0 <= j < k ==> lengths@[best as int] <= lengths@[#[trigger] ones@[j] as int],
                forall|j: int|
                    0 <= j < k && #[trigger] ones@[j] < best ==> lengths@[best as int]
                        < lengths@[ones@[j] as int],
            decreases ones@.len() - k,
        {
            assert(self@[ones@[k as int] as int]);
            assert(self@[best as int]);
            if lengths[ones[k]] < lengths[best] {
                best = ones[k];
            }
            k = k + 1;
        }
        proof {
            assert forall|i: int| 0 <= i < self@.len() && #[trigger] self@[i] implies
                lengths@[best as int] <= lengths@[i] && (i < best ==> lengths@[best as int]
                < lengths@[i]) by {
                assert(lists_index(ones@, i));
            }
        }
        best
    }
}

/// `BitMask::count` is the number of indices that `BitMask::iter_ones` yields, and what
/// `BitMask::iter_zeroes` yields makes up the rest of the mask.
pub proof fn lemma_index_list_len(list: Seq<usize>, bits: Seq<bool>, want: bool)
    requires
        is_index_list(list, bits, want),
    ensures
        want ==> list.len() == count_ones(bits),
        !want ==> list.len() + count_ones(bits) == bits.len(),
    decreases bits.len(),
{
    reveal(Seq::filter);
    if bits.len() == 0 {
        if list.len() > 0 {
            assert(list[0] < bits.len());
        }
    } else {
        let rest = bits.drop_last();
        let n = rest.len() as int;
        if bits[n] == want {
            assert(lists_index(list, n));
            let k = choose|k: int| 0 <= k < list.len() && #[trigger] list[k] == n;
            if k < list.len() - 1 {
                assert(list[k] < list[list.len() - 1]);
            }
            let front = list.drop_last();
            assert forall|l: int| 0 <= l < front.len() implies #[trigger] front[l] < rest.len()
                && rest[front[l] as int] == want by {
                assert(list[l] < list[k]);
            }
            assert forall|i: int| 0 <= i < rest.len() && #[trigger] rest[i] == want implies
                lists_index(front, i) by {
                assert(bits[i] == want);
                assert(lists_index(list, i));
                let l = choose|l: int| 0 <= l < list.len() && #[trigger] list[l] == i;
                assert(front[l] == i);
            }
            lemma_index_list_len(front, rest, want);
        } else {
            assert forall|l: int| 0 <= l < list.len() implies #[trigger] list[l] < rest.len()
                && rest[list[l] as int] == want by {
                assert(bits[list[l] as int] == want);
            }
            assert forall|i: int| 0 <= i < rest.len() && #[trigger] rest[i] == want implies
                lists_index(list, i) by {
                assert(bits[i] == want);
            }
            lemma_index_list_len(list, rest, want);
        }
    }
}

/// Two ascending lists of the same positions are the same list: `BitMask::iter_ones` and
/// `BitMask::iter_zeroes` are determined by the bits.
pub proof fn lemma_index_list_unique(a: Seq<usize>, b: Seq<usize>, bits: Seq<bool>, want: bool)
    requires
        is_index_list(a, bits, want),
        is_index_list(b, bits, want),
    ensures
        a == b,
{
    lemma_index_list_len(a, bits, want);
    lemma_index_list_len(b, bits, want);
    assert forall|k: int| 0 <= k < a.len() implies a[k] == b[k] by {
        lemma_index_list_entry_unique(a, b, bits, want, k);
    }
    assert(a =~= b);
}

proof fn lemma_index_list_entry_unique(
    a: Seq<usize>,
    b: Seq<usize>,
    bits: Seq<bool>,
    want: bool,
    k: int,
)
    requires
        is_index_list(a, bits, want),
        is_index_list(b, bits, want),
        a.len() == b.len(),
        0 <= k < a.len(),
    ensures
        a[k] == b[k],
    decreases k,
{
    assert forall|j: int| 0 <= j < k implies a[j] == b[j] by {
        lemma_index_list_entry_unique(a, b, bits, want, j);
    }
    assert(bits[a[k] as int] == want && bits[b[k] as int] == want);
    assert(lists_index(b, a[k] as int));
    assert(lists_index(a, b[k] as int));
    let l = choose|l: int| 0 <= l < b.len() && #[trigger] b[l] == a[k];
    let m = choose|m: int| 0 <= m < a.len() && #[trigger] a[m] == b[k];
    if l < k {
        assert(a[l] < a[k]);
    }
    if m < k {
        assert(b[m] < b[k]);
    }
}

/// A set is empty exactly where it counts no vCPU, and full exactly where it counts all.
pub proof fn lemma_count_bounds(bits: Seq<bool>)
    ensures
        count_ones(bits) <= bits.len(),
        count_ones(bits) == 0 <==> crate::bits::all_bits(bits, false),
        count_ones(bits) == bits.len() <==> crate::bits::all_bits(bits, true),
    decreases bits.len(),
{
    reveal(Seq::filter);
    if bits.len() > 0 {
        let rest = bits.drop_last();
        let n = rest.len() as int;
        lemma_count_bounds(rest);
        assert forall|want: bool| crate::bits::all_bits(bits, want) implies bits[n] == want
            && crate::bits::all_bits(rest, want) by {
            assert forall|i: int| 0 <= i < rest.len() implies #[trigger] rest[i] == want by {
                assert(bits[i] == want);
            }
        }
        assert forall|want: bool|
            bits[n] == want && crate::bits::all_bits(rest, want) implies #[trigger]
            crate::bits::all_bits(bits, want) by {
            assert forall|i: int| 0 <= i < bits.len() implies #[trigger] bits[i] == want by {
                if i < n {
                    assert(rest[i] == want);
                }
            }
        }
        assert(bits[n] ==> !crate::bits::all_bits(bits, false));
        assert(!bits[n] ==> !crate::bits::all_bits(bits, true));
    }
}

/// Setting a bit changes the count by one where it changes the bit, and not at all where it
/// does not.
pub proof fn lemma_set_count(bits: Seq<bool>, i: int, b: bool)
    requires
        0 <= i < bits.len(),
    ensures
        count_ones(bits.update(i, b)) == count_ones(bits) + (if b { 1int } else { 0 }) - (
        if bits[i] { 1int } else { 0 }),
    decreases bits.len(),
{
    reveal(Seq::filter);
    let new = bits.update(i, b);
    if i == bits.len() - 1 {
        assert(new.drop_last() =~= bits.drop_last());
    } else {
        assert(new.drop_last() =~= bits.drop_last().update(i, b));
        lemma_set_count(bits.drop_last(), i, b);
    }
}

/// A full set of vCPUs holds each of them, and an empty set none; both have a bit for each.
pub proof fn lemma_new_masks_are_full_or_empty(
    num_vcpus: usize,
    full: &BitMask,
    empty: &BitMask,
    full_len: usize,
    empty_len: usize,
    i: usize,
    in_full: bool,
    in_empty: bool,
)
    requires
        call_ensures(BitMask::new_full, (num_vcpus,), *full),
        call_ensures(BitMask::new_empty, (num_vcpus,), *empty),
        call_ensures(BitMask::len, (full,), full_len),
        call_ensures(BitMask::len, (empty,), empty_len),
        call_ensures(BitMask::get, (full, i), in_full),
        call_ensures(BitMask::get, (empty, i), in_empty),
    ensures
        full_len == num_vcpus,
        empty_len == num_vcpus,
        i < num_vcpus ==> in_full && !in_empty,
{
}

/// What is set of a vCPU is what is found of it later. Of any other vCPU, what was found
/// before is still found, and a mask has a bit for the same number of vCPUs.
pub proof fn lemma_set_bit_is_found(
    mask: &mut BitMask,
    i: usize,
    b: bool,
    after: &BitMask,
    j: usize,
    before_j: bool,
    after_j: bool,
    len: usize,
    len_after: usize,
)
    requires
        i < old(mask)@.len(),
        j < old(mask)@.len(),
        call_ensures(BitMask::get, (&*old(mask), j), before_j),
        call_ensures(BitMask::len, (&*old(mask),), len),
        call_ensures(BitMask::set, (mask, i, b), ()),
        *after == *final(mask),
        call_ensures(BitMask::get, (after, j), after_j),
        call_ensures(BitMask::len, (after,), len_after),
    ensures
        j == i ==> after_j == b,
        j != i ==> after_j == before_j,
        len_after == len,
{
}

/// The bits of a mask are what is found of each vCPU, in order.
pub proof fn lemma_bits_are_what_is_found(mask: &BitMask, bits: Vec<bool>, i: usize, b: bool)
    requires
        call_ensures(BitMask::iter, (mask,), bits),
        call_ensures(BitMask::get, (mask, i), b),
    ensures
        bits@.len() == mask@.len(),
        i < mask@.len() ==> bits@[i as int] == b,
{
}

/// A vCPU is listed among the ones exactly where it is in the set, and among the zeroes exactly
/// where it is not.
pub proof fn lemma_vcpus_are_listed_by_their_bits(
    mask: &BitMask,
    ones: Vec<usize>,
    zeroes: Vec<usize>,
    i: usize,
)
    requires
        call_ensures(BitMask::iter_ones, (mask,), ones),
        call_ensures(BitMask::iter_zeroes, (mask,), zeroes),
    ensures
        ones@.contains(i) <==> i < mask@.len() && mask@[i as int],
        zeroes@.contains(i) <==> i < mask@.len() && !mask@[i as int],
{
    if i < mask@.len() {
        if mask@[i as int] {
            assert(lists_index(ones@, i as int));
            let k = choose|k: int| 0 <= k < ones@.len() && #[trigger] ones@[k] == i;
            assert(ones@[k] == i);
        } else {
            assert(lists_index(zeroes@, i as int));
            let k = choose|k: int| 0 <= k < zeroes@.len() && #[trigger] zeroes@[k] == i;
            assert(zeroes@[k] == i);
        }
    }
}

/// Ones and zeroes are listed in ascending order, so none is listed twice. There are as many
/// ones as the set counts vCPUs, and together with the zeroes they make up the mask.
pub proof fn lemma_lists_are_ascending_and_complete(
    mask: &BitMask,
    ones: Vec<usize>,
    zeroes: Vec<usize>,
    count: usize,
    len: usize,
)
    requires
        call_ensures(BitMask::iter_ones, (mask,), ones),
        call_ensures(BitMask::iter_zeroes, (mask,), zeroes),
        call_ensures(BitMask::count, (mask,), count),
        call_ensures(BitMask::len, (mask,), len),
    ensures
        forall|k: int, l: int| 0 <= k < l < ones@.len() ==> ones@[k] < ones@[l],
        forall|k: int, l: int| 0 <= k < l < zeroes@.len() ==> zeroes@[k] < zeroes@[l],
        ones@.len() == count,
        ones@.len() + zeroes@.len() == len,
{
    lemma_index_list_len(ones@, mask@, true);
    lemma_index_list_len(zeroes@, mask@, false);
}

/// A set counts one vCPU more where one is added that was not in it, one less where one is
/// removed that was, and else as many as before.
pub proof fn lemma_count_follows_what_is_set(
    mask: &mut BitMask,
    i: usize,
    b: bool,
    was: bool,
    count: usize,
    after: &BitMask,
    count_after: usize,
)
    requires
        i < old(mask)@.len(),
        call_ensures(BitMask::get, (&*old(mask), i), was),
        call_ensures(BitMask::count, (&*old(mask),), count),
        call_ensures(BitMask::set, (mask, i, b), ()),
        *after == *final(mask),
        call_ensures(BitMask::count, (after,), count_after),
    ensures
        b && !was ==> count_after == count + 1,
        !b && was ==> count_after == count - 1,
        b == was ==> count_after == count,
{
    lemma_set_count(old(mask)@, i as int, b);
}

/// A set is full exactly where it counts as many vCPUs as it has bits, and empty exactly where
/// it counts none: that is where each vCPU, or none, is in it.
pub proof fn lemma_full_and_empty_sets_are_told_by_their_count(
    mask: &BitMask,
    full: bool,
    empty: bool,
    count: usize,
    len: usize,
    i: usize,
    b: bool,
)
    requires
        call_ensures(BitMask::is_full, (mask,), full),
        call_ensures(BitMask::is_empty, (mask,), empty),
        call_ensures(BitMask::count, (mask,), count),
        call_ensures(BitMask::len, (mask,), len),
        call_ensures(BitMask::get, (mask, i), b),
    ensures
        full <==> count == len,
        empty <==> count == 0,
        i < len && full ==> b,
        i < len && empty ==> !b,
{
    lemma_count_bounds(mask@);
}

/// A set that counts no vCPU and has no bit is both empty and full.
pub proof fn lemma_mask_without_bits_is_empty_and_full(mask: &BitMask, full: bool, empty: bool)
    requires
        mask@.len() == 0,
        call_ensures(BitMask::is_full, (mask,), full),
        call_ensures(BitMask::is_empty, (mask,), empty),
    ensures
        full,
        empty,
{
}

/// The best vCPU is in the set. No vCPU of the set has a shorter run queue, and none that comes
/// before it has one that is as short.
pub proof fn lemma_best_vcpu_has_the_shortest_queue(
    mask: &BitMask,
    lengths: &Vec<usize>,
    best: usize,
    other: int,
)
    requires
        call_ensures(BitMask::get_best_thread_by_length, (mask, lengths), best),
        0 <= other < mask@.len(),
        mask@[other],
    ensures
        best < mask@.len(),
        mask@[best as int],
        lengths@[best as int] <= lengths@[other],
        other < best ==> lengths@[best as int] < lengths@[other],
{
}

/// A copy of a mask is equal to it, and equal masks have the same bits.
pub proof fn lemma_equal_masks_have_the_same_bits(a: &BitMask, b: &BitMask, copy: BitMask)
    requires
        call_ensures(BitMask::clone, (a,), copy),
    ensures
        copy@.len() == a@.len(),
        forall|i: int| 0 <= i < a@.len() ==> copy@[i] == #[trigger] a@[i],
        vstd::std_specs::cmp::PartialEqSpec::eq_spec(a, b) <==> a@.len() == b@.len() && (forall|
            i: int,
        |
            0 <= i < a@.len() ==> #[trigger] a@[i] == b@[i]),
{
    if a@.len() == b@.len() && forall|i: int| 0 <= i < a@.len() ==> #[trigger] a@[i] == b@[i] {
        assert(a@ =~= b@);
    }
}

} // verus!

//! Scattering received bytes over several buffers.
use vstd::prelude::*;

verus! {

/// The bytes that each of several buffers holds.
pub open spec fn contents(bufs: Seq<&mut [u8]>) -> Seq<Seq<u8>> {
    Seq::new(bufs.len(), |i: int| bufs[i]@)
}

/// The bytes of several buffers, one after the other.
pub open spec fn concat(bufs: Seq<Seq<u8>>) -> Seq<u8>
    decreases bufs.len(),
{
    if bufs.len() == 0 {
        Seq::empty()
    } else {
        concat(bufs.drop_last()) + bufs.last()
    }
}

/// The number of bytes that several buffers have room for.
pub open spec fn room(bufs: Seq<&mut [u8]>) -> nat {
    concat(contents(bufs)).len()
}

/// Whether buffers that held `before` hold `after` once the first `n` bytes of `source`
/// have been scattered over them: each buffer keeps its length, the bytes fill one buffer
/// after the other, and what lies behind them is as it was.
pub open spec fn is_scattered(
    before: Seq<Seq<u8>>,
    after: Seq<Seq<u8>>,
    source: Seq<u8>,
    n: int,
) -> bool {
    &&& after.len() == before.len()
    &&& forall|i: int| 0 <= i < before.len() ==> (#[trigger] after[i]).len() == before[i].len()
    &&& concat(after) == source.take(n) + concat(before).skip(n)
}

/// The smaller of two numbers.
pub open spec fn min(a: int, b: int) -> int {
    if a <= b {
        a
    } else {
        b
    }
}

/// Copies `n` bytes of `source`, from `from` on, to the start of a buffer.
pub(crate) fn copy_to(buf: &mut [u8], source: &[u8], from: usize, n: usize)
    requires
        n <= old(buf)@.len(),
        from + n <= source@.len(),
    ensures
        final(buf)@ == source@.subrange(from as int, from + n) + old(buf)@.skip(n as int),
{
    let ghost before = buf@;
    let mut i: usize = 0;
    assert(buf@ =~= source@.subrange(from as int, from + 0) + before.skip(0));
    assert(source.len() == source@.len());
    while i < n
        invariant
            i <= n <= before.len(),
            from + n <= source@.len() <= usize::MAX,
            buf@ == source@.subrange(from as int, from + i) + before.skip(i as int),
        decreases n - i,
    {
        buf[i] = source[from + i];
        i = i + 1;
        assert(buf@ =~= source@.subrange(from as int, from + i) + before.skip(i as int));
    }
}

/// The number of bytes that several buffers hold together.
pub fn total_len(bufs: &[&mut [u8]]) -> (total: usize)
    requires
        room(bufs@) <= usize::MAX,
    ensures
        total == room(bufs@),
{
    let mut total: usize = 0;
    let mut i: usize = 0;
    let ghost held = contents(bufs@);
    while i < bufs.len()
        invariant
            i <= held.len(),
            held == contents(bufs@),
            concat(held).len() <= usize::MAX,
            total == concat(held.take(i as int)).len(),
        decreases held.len() - i,
    {
        proof {
            lemma_concat_take(held, i as int);
            lemma_concat_split(held, i + 1);
        }
        total = total + bufs[i].len();
        i = i + 1;
    }
    assert(held.take(i as int) =~= held);
    total
}

proof fn lemma_concat_take(bufs: Seq<Seq<u8>>, i: int)
    requires
        0 <= i < bufs.len(),
    ensures
        concat(bufs.take(i + 1)) == concat(bufs.take(i)) + bufs[i],
{
    assert(bufs.take(i + 1).drop_last() =~= bufs.take(i));
}

proof fn lemma_concat_split(bufs: Seq<Seq<u8>>, i: int)
    requires
        0 <= i <= bufs.len(),
    ensures
        concat(bufs) == concat(bufs.take(i)) + concat(bufs.skip(i)),
    decreases bufs.len() - i,
{
    if i == bufs.len() {
        assert(bufs.take(i) =~= bufs);
        assert(concat(bufs.skip(i)) =~= Seq::empty());
    } else {
        let rest = bufs.drop_last();
        lemma_concat_split(rest, i);
        assert(rest.take(i) =~= bufs.take(i));
        assert(bufs.skip(i).drop_last() =~= rest.skip(i));
        assert(concat(bufs) =~= concat(bufs.take(i)) + concat(bufs.skip(i)));
    }
}

/// Scatters the first `len` bytes of `source` over the buffers, as far as they go. The
/// result is the number of bytes that were copied.
pub fn scatter(bufs: &mut [&mut [u8]], source: &[u8], len: usize) -> (copied: usize)
    requires
        old(bufs)@.len() > 0 ==> len <= source@.len(),
    ensures
        copied == min(len as int, room(old(bufs)@) as int),
        is_scattered(contents(old(bufs)@), contents(final(bufs)@), source@, copied as int),
        forall|i: int|
            0 <= i < old(bufs)@.len() ==> final(#[trigger] final(bufs)@[i])@
                == final(old(bufs)@[i])@,
{
    let ghost before = contents(bufs@);
    let mut copied: usize = 0;
    let mut i: usize = 0;
    assert(concat(before.take(0)) =~= source@.take(0));
    while i < bufs.len()
        invariant
            i <= bufs@.len() == before.len(),
            before == contents(old(bufs)@),
            before.len() > 0 ==> len <= source@.len(),
            copied <= len,
            copied == concat(before.take(i as int)).len(),
            concat(contents(bufs@).take(i as int)) == source@.take(copied as int),
            forall|j: int| 0 <= j < i ==> (#[trigger] contents(bufs@)[j]).len()
                == before[j].len(),
            forall|j: int| i <= j < before.len() ==> #[trigger] contents(bufs@)[j] == before[j],
            forall|j: int|
                0 <= j < before.len() ==> final(#[trigger] bufs@[j])@ == final(old(bufs)@[j])@,
        decreases before.len() - i,
    {
        let ghost held = contents(bufs@);
        assert(held[i as int] == before[i as int]);
        let left: usize = len - copied;
        let room: usize = bufs[i].len();
        let n: usize = if room <= left {
            room
        } else {
            left
        };
        copy_to(bufs[i], source, copied, n);
        let ghost now = contents(bufs@);
        proof {
            assert(now.take(i as int) =~= held.take(i as int));
            assert forall|j: int| 0 <= j <= i implies (#[trigger] now[j]).len()
                == before[j].len() by {
                assert(held[j].len() == before[j].len());
            }
            lemma_concat_take(now, i as int);
            lemma_concat_take(before, i as int);
            lemma_concat_split(before, i + 1);
            lemma_concat_split(now, i + 1);
            assert forall|j: int| i < j < before.len() implies now[j] == before[j] by {
                assert(held[j] == before[j]);
            }
            assert(now.skip(i + 1) =~= before.skip(i + 1));
            assert(source@.take(copied + n) =~= source@.take(copied as int) + source@.subrange(
                copied as int,
                copied + n,
            ));
        }
        copied = copied + n;
        if left < room {
            assert(concat(now) =~= source@.take(copied as int) + concat(before).skip(
                copied as int,
            ));
            return copied;
        }
        i = i + 1;
        assert(concat(now.take(i as int)) =~= source@.take(copied as int));
    }
    proof {
        assert(contents(bufs@).take(i as int) =~= contents(bufs@));
        assert(before.take(i as int) =~= before);
        assert(concat(contents(bufs@)) =~= source@.take(copied as int) + concat(before).skip(
            copied as int,
        ));
    }
    copied
}

/// Buffers of given lengths are determined by their bytes, one after the other.
proof fn lemma_concat_injective(a: Seq<Seq<u8>>, b: Seq<Seq<u8>>)
    requires
        a.len() == b.len(),
        forall|i: int| 0 <= i < a.len() ==> (#[trigger] a[i]).len() == b[i].len(),
        concat(a) == concat(b),
    ensures
        a == b,
    decreases a.len(),
{
    if a.len() > 0 {
        let n = a.len() - 1;
        let front_a = a.drop_last();
        let front_b = b.drop_last();
        assert(a[n].len() == b[n].len());
        assert(concat(a).len() == concat(front_a).len() + a[n].len());
        assert(concat(b).len() == concat(front_b).len() + b[n].len());
        let k = concat(front_a).len() as int;
        assert(concat(front_a) =~= concat(a).take(k));
        assert(concat(front_b) =~= concat(b).take(k));
        assert(a[n] =~= concat(a).skip(k));
        assert(b[n] =~= concat(b).skip(k));
        assert forall|i: int| 0 <= i < front_a.len() implies (#[trigger] front_a[i]).len()
            == front_b[i].len() by {
            assert(a[i].len() == b[i].len());
        }
        lemma_concat_injective(front_a, front_b);
        assert(a =~= front_a.push(a[n]));
        assert(b =~= front_b.push(b[n]));
    } else {
        assert(a =~= b);
    }
}

/// What is received is determined by what was there to be received: scattering the same
/// bytes over the same buffers leaves the same bytes in each of them.
pub proof fn lemma_scattering_is_determined(
    before: Seq<Seq<u8>>,
    a: Seq<Seq<u8>>,
    b: Seq<Seq<u8>>,
    source: Seq<u8>,
    n: int,
)
    requires
        is_scattered(before, a, source, n),
        is_scattered(before, b, source, n),
    ensures
        a == b,
{
    assert forall|i: int| 0 <= i < a.len() implies (#[trigger] a[i]).len() == b[i].len() by {
        assert(b[i].len() == before[i].len());
    }
    lemma_concat_injective(a, b);
}

/// Several buffers together have room for what each of them has; `starts` says where each
/// starts among the bytes of all.
pub(crate) proof fn lemma_concat_len(bufs: Seq<Seq<u8>>, starts: Seq<int>)
    requires
        starts.len() == bufs.len() + 1,
        starts[0] == 0,
        forall|i: int|
            0 <= i < bufs.len() ==> starts[i + 1] == starts[i] + (#[trigger] bufs[i]).len(),
    ensures
        concat(bufs).len() == starts[bufs.len() as int],
    decreases bufs.len(),
{
    if bufs.len() > 0 {
        let front = bufs.drop_last();
        let n = front.len() as int;
        assert forall|i: int| 0 <= i < n implies starts.drop_last()[i + 1] == starts.drop_last()[i]
            + (#[trigger] front[i]).len() by {
            assert(bufs[i] == front[i]);
        }
        lemma_concat_len(front, starts.drop_last());
        assert(starts[n + 1] == starts[n] + bufs[n].len());
    }
}

/// Where each buffer starts among the bytes of several buffers tells which byte is which.
proof fn lemma_concat_index(bufs: Seq<Seq<u8>>, starts: Seq<int>, i: int, j: int)
    requires
        starts.len() == bufs.len() + 1,
        starts[0] == 0,
        forall|k: int|
            0 <= k < bufs.len() ==> starts[k + 1] == starts[k] + (#[trigger] bufs[k]).len(),
        0 <= i < bufs.len(),
        0 <= j < bufs[i].len(),
    ensures
        0 <= starts[i] + j < concat(bufs).len(),
        concat(bufs)[starts[i] + j] == bufs[i][j],
    decreases bufs.len(),
{
    let front = bufs.drop_last();
    let n = front.len() as int;
    assert forall|k: int| 0 <= k < n implies starts.drop_last()[k + 1] == starts.drop_last()[k] + (
    #[trigger] front[k]).len() by {
        assert(bufs[k] == front[k]);
    }
    lemma_concat_len(front, starts.drop_last());
    if i < n {
        lemma_concat_index(front, starts.drop_last(), i, j);
    }
}

/// What the bytes are after some of `source` have been scattered, one by one.
pub(crate) proof fn lemma_scattered_bytes(
    before: Seq<Seq<u8>>,
    after: Seq<Seq<u8>>,
    source: Seq<u8>,
    n: int,
    starts: Seq<int>,
)
    requires
        is_scattered(before, after, source, n),
        starts.len() == before.len() + 1,
        starts[0] == 0,
        forall|i: int|
            0 <= i < before.len() ==> starts[i + 1] == starts[i] + (#[trigger] before[i]).len(),
        0 <= n <= source.len(),
        n <= starts[before.len() as int],
    ensures
        after.len() == before.len(),
        forall|i: int| 0 <= i < before.len() ==> (#[trigger] after[i]).len() == before[i].len(),
        forall|i: int, j: int|
            0 <= i < before.len() && 0 <= j < before[i].len() ==> #[trigger] after[i][j] == (if
            starts[i] + j < n {
                source[starts[i] + j]
            } else {
                before[i][j]
            }),
{
    assert forall|i: int| 0 <= i < after.len() implies starts[i + 1] == starts[i] + (
    #[trigger] after[i]).len() by {
        assert(after[i].len() == before[i].len());
        assert(starts[i + 1] == starts[i] + before[i].len());
    }
    lemma_concat_len(before, starts);
    assert forall|i: int, j: int| 0 <= i < before.len() && 0 <= j < before[i].len() implies
        #[trigger] after[i][j] == (if starts[i] + j < n {
        source[starts[i] + j]
    } else {
        before[i][j]
    }) by {
        assert(after[i].len() == before[i].len());
        lemma_concat_index(before, starts, i, j);
        lemma_concat_index(after, starts, i, j);
    }
}

/// The number of bytes that several buffers hold together is the sum of what each of them
/// holds; `starts` says where each buffer starts among the bytes of all.
pub proof fn lemma_total_len_is_the_sum(bufs: &[&mut [u8]], starts: Seq<int>, total: usize)
    requires
        starts.len() == bufs@.len() + 1,
        starts[0] == 0,
        forall|i: int|
            0 <= i < bufs@.len() ==> starts[i + 1] == #[trigger] starts[i] + bufs@[i]@.len(),
        call_ensures(total_len, (bufs,), total),
    ensures
        total == starts[bufs@.len() as int],
{
    let held = contents(bufs@);
    assert forall|i: int| 0 <= i < held.len() implies starts[i + 1] == starts[i] + (
    #[trigger] held[i]).len() by {
        assert(held[i] == bufs@[i]@);
    }
    lemma_concat_len(held, starts);
}

/// Bytes are scattered in order, each into its place: the buffers together receive the first
/// bytes of `source`, as many as are asked for and as there is room for. Each buffer keeps
/// its length, and the bytes that are not received over are as they were; `starts` says where
/// each buffer starts among the bytes of all.
pub proof fn lemma_scattered_bytes_fill_the_buffers_in_order(
    bufs: &mut [&mut [u8]],
    source: &[u8],
    len: usize,
    starts: Seq<int>,
    copied: usize,
)
    requires
        old(bufs)@.len() > 0 ==> len <= source@.len(),
        starts.len() == old(bufs)@.len() + 1,
        starts[0] == 0,
        forall|i: int|
            0 <= i < old(bufs)@.len() ==> starts[i + 1] == #[trigger] starts[i]
                + old(bufs)@[i]@.len(),
        call_ensures(scatter, (bufs, source, len), copied),
    ensures
        copied <= len,
        copied <= starts[old(bufs)@.len() as int],
        copied == len || copied == starts[old(bufs)@.len() as int],
        final(bufs)@.len() == old(bufs)@.len(),
        forall|i: int|
            0 <= i < old(bufs)@.len() ==> #[trigger] final(bufs)@[i]@.len()
                == old(bufs)@[i]@.len(),
        forall|i: int, j: int|
            0 <= i < old(bufs)@.len() && 0 <= j < old(bufs)@[i]@.len()
                ==> #[trigger] final(bufs)@[i]@[j] == (if starts[i] + j < copied {
                source@[starts[i] + j]
            } else {
                old(bufs)@[i]@[j]
            }),
{
    let before = contents(old(bufs)@);
    let after = contents(final(bufs)@);
    assert forall|i: int| 0 <= i < before.len() implies starts[i + 1] == starts[i] + (
    #[trigger] before[i]).len() by {
        assert(before[i] == old(bufs)@[i]@);
    }
    lemma_concat_len(before, starts);
    lemma_scattered_bytes(before, after, source@, copied as int, starts);
    assert forall|i: int| 0 <= i < before.len() implies #[trigger] final(bufs)@[i]@.len()
        == old(bufs)@[i]@.len() by {
        assert(after[i].len() == before[i].len());
    }
    assert forall|i: int, j: int|
        0 <= i < before.len() && 0 <= j < old(bufs)@[i]@.len() implies
        #[trigger] final(bufs)@[i]@[j] == (if starts[i] + j < copied {
        source@[starts[i] + j]
    } else {
        old(bufs)@[i]@[j]
    }) by {
        assert(after[i][j] == final(bufs)@[i]@[j]);
        assert(before[i][j] == old(bufs)@[i]@[j]);
    }
}

} // verus!

//! Requests travel through the engine as lists of byte buffers that are
//! logically one contiguous byte string. This module gives that flattened
//! view a name and provides the verified buffer-copying helpers the write
//! pipeline is built from.

use vstd::prelude::*;

verus! {

/// The number of bytes a list of buffers holds in total.
pub open spec fn total_len(bufs: Seq<Seq<u8>>) -> int
    decreases bufs.len(),
{
    if bufs.len() == 0 {
        0
    } else {
        bufs.first().len() + total_len(bufs.drop_first())
    }
}

/// The flattened byte string of a list of buffers is as long as the buffers
/// together.
pub proof fn lemma_flatten_len(bufs: Seq<Seq<u8>>)
    ensures
        bufs.flatten().len() == total_len(bufs),
    decreases bufs.len(),
{
    if bufs.len() > 0 {
        lemma_flatten_len(bufs.drop_first());
    }
}

/// Flattening distributes over taking one more buffer.
pub proof fn lemma_flatten_take_succ(bufs: Seq<Seq<u8>>, i: int)
    requires
        0 <= i < bufs.len(),
    ensures
        bufs.take(i + 1).flatten() == bufs.take(i).flatten() + bufs[i],
{
    assert(bufs.take(i + 1) =~= bufs.take(i).push(bufs[i]));
    bufs.take(i).lemma_flatten_push(bufs[i]);
}

/// Append the bytes of `src` to `dst`.
pub fn append_bytes(dst: &mut Vec<u8>, src: &Vec<u8>)
    ensures
        final(dst)@ == old(dst)@ + src@,
{
    let mut i: usize = 0;
    while i < src.len()
        invariant
            i <= src@.len(),
            dst@ == old(dst)@ + src@.take(i as int),
        decreases src@.len() - i,
    {
        dst.push(src[i]);
        proof {
            assert(dst@ =~= old(dst)@ + src@.take(i + 1));
        }
        i = i + 1;
    }
    proof {
        assert(dst@ =~= old(dst)@ + src@);
    }
}

/// Append the bytes of every buffer of `bufs`, in order, to `dst`.
pub fn append_all(dst: &mut Vec<u8>, bufs: &Vec<Vec<u8>>)
    ensures
        final(dst)@ == old(dst)@ + bufs.deep_view().flatten(),
{
    let ghost bs = bufs.deep_view();
    let mut i: usize = 0;
    proof {
        assert(bs.take(0).flatten() =~= Seq::<u8>::empty());
    }
    while i < bufs.len()
        invariant
            i <= bs.len(),
            bs == bufs.deep_view(),
            bs.len() == bufs@.len(),
            forall|j: int| 0 <= j < bs.len() ==> bs[j] == bufs@[j]@,
            dst@ == old(dst)@ + bs.take(i as int).flatten(),
        decreases bs.len() - i,
    {
        append_bytes(dst, &bufs[i]);
        proof {
            lemma_flatten_take_succ(bs, i as int);
            assert(dst@ =~= old(dst)@ + bs.take(i + 1).flatten());
        }
        i = i + 1;
    }
    proof {
        assert(bs.take(bs.len() as int) =~= bs);
    }
}

/// The number of bytes the buffers of `bufs` hold in total, saturating at the
/// machine's limit.
pub fn buffers_total_len(bufs: &Vec<Vec<u8>>) -> (r: usize)
    ensures
        total_len(bufs.deep_view()) <= usize::MAX ==> r == total_len(bufs.deep_view()),
        r <= total_len(bufs.deep_view()),
{
    let ghost bs = bufs.deep_view();
    let mut sum: usize = 0;
    let mut i: usize = 0;
    while i < bufs.len()
        invariant
            i <= bs.len(),
            bs == bufs.deep_view(),
            bs.len() == bufs@.len(),
            forall|j: int| 0 <= j < bs.len() ==> bs[j] == bufs@[j]@,
            total_len(bs.take(i as int)) <= usize::MAX ==> sum == total_len(bs.take(i as int)),
            sum <= total_len(bs.take(i as int)),
        decreases bs.len() - i,
    {
        proof {
            lemma_total_len_take_succ(bs, i as int);
        }
        let l = bufs[i].len();
        if usize::MAX - sum >= l {
            sum = sum + l;
        } else {
            sum = usize::MAX;
        }
        i = i + 1;
    }
    proof {
        assert(bs.take(bs.len() as int) =~= bs);
    }
    sum
}

/// Taking one more buffer adds that buffer's length to the total.
pub proof fn lemma_total_len_take_succ(bufs: Seq<Seq<u8>>, i: int)
    requires
        0 <= i < bufs.len(),
    ensures
        total_len(bufs.take(i + 1)) == total_len(bufs.take(i)) + bufs[i].len(),
{
    lemma_flatten_len(bufs.take(i + 1));
    lemma_flatten_len(bufs.take(i));
    lemma_flatten_take_succ(bufs, i);
}

/// A list of one buffer holds that buffer's bytes.
pub proof fn lemma_total_len_single(b: Seq<u8>)
    ensures
        total_len(seq![b]) == b.len(),
{
    assert(seq![b].drop_first() =~= Seq::<Seq<u8>>::empty());
    assert(total_len(Seq::<Seq<u8>>::empty()) == 0);
    assert(total_len(seq![b]) == seq![b].first().len() + total_len(seq![b].drop_first()));
}

/// The deep view of a buffer list is the element-wise view of its buffers.
pub proof fn lemma_deep_view_elems(v: Vec<Vec<u8>>)
    ensures
        v.deep_view().len() == v@.len(),
        forall|i: int| 0 <= i < v@.len() ==> v.deep_view()[i] == v@[i]@,
{
}

/// Every total is non-negative.
pub proof fn lemma_total_len_nonneg(bufs: Seq<Seq<u8>>)
    ensures
        total_len(bufs) >= 0,
    decreases bufs.len(),
{
    if bufs.len() > 0 {
        lemma_total_len_nonneg(bufs.drop_first());
    }
}

} // verus!

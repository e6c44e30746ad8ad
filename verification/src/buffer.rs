//! Block buffers: resizing and copying ranges of samples.

use vstd::prelude::*;

verus! {

/// What `Vec::resize(len, fill)` leaves in a buffer that held `old`:
/// the first `len` samples of `old`, followed by copies of `fill` up to `len`.
pub open spec fn resized<T>(old: Seq<T>, len: nat, fill: T) -> Seq<T> {
    if len <= old.len() {
        old.take(len as int)
    } else {
        old + Seq::new((len - old.len()) as nat, |_i: int| fill)
    }
}

/// Resizes `buf` to `len` samples: truncates it, or pads it with `fill`.
pub fn resize_buffer<T: Copy>(buf: &mut Vec<T>, len: usize, fill: T)
    ensures
        final(buf)@ == resized(old(buf)@, len as nat, fill),
        final(buf)@.len() == len,
        forall|i: int| 0 <= i < len && i < old(buf)@.len() ==> #[trigger] final(buf)@[i] == old(buf)@[i],
        forall|i: int| old(buf)@.len() <= i < len ==> #[trigger] final(buf)@[i] == fill,
{
    let ghost start = buf@;
    if len <= buf.len() {
        buf.truncate(len);
        return;
    }
    let ghost old_len = buf@.len();
    while buf.len() < len
        invariant
            old_len == start.len(),
            old_len < len,
            old_len <= buf@.len() <= len,
            buf@.take(old_len as int) == start,
            forall|i: int| old_len <= i < buf@.len() ==> buf@[i] == fill,
        decreases len - buf.len(),
    {
        buf.push(fill);
    }
    assert(buf@ =~= resized(start, len as nat, fill));
}

/// Resizing keeps every sample the buffer already had, up to the new
/// length, and fills every position past the old length with `fill`; the
/// result is exactly `len` samples long.
pub proof fn lemma_resize_keeps_samples<T>(old: Seq<T>, len: nat, fill: T)
    ensures
        resized(old, len, fill).len() == len,
        forall|i: int| 0 <= i < len && i < old.len() ==> #[trigger] resized(old, len, fill)[i] == old[i],
        forall|i: int| old.len() <= i < len ==> #[trigger] resized(old, len, fill)[i] == fill,
{
}

/// A new buffer holding the samples `src[start..end]`.
pub fn copy_range<T: Copy>(src: &[T], start: usize, end: usize) -> (out: Vec<T>)
    requires
        start <= end <= src@.len(),
    ensures
        out@ == src@.subrange(start as int, end as int),
{
    let mut out: Vec<T> = Vec::new();
    let mut i: usize = start;
    while i < end
        invariant
            start <= i <= end <= src@.len(),
            out@ == src@.subrange(start as int, i as int),
        decreases end - i,
    {
        out.push(src[i]);
        i = i + 1;
        assert(out@ =~= src@.subrange(start as int, i as int));
    }
    out
}

/// Appends the samples `src[0..end]` to `dst`.
pub fn append_prefix<T: Copy>(dst: &mut Vec<T>, src: &[T], end: usize)
    requires
        end <= src@.len(),
    ensures
        final(dst)@ == old(dst)@ + src@.take(end as int),
{
    let ghost start = dst@;
    let mut i: usize = 0;
    while i < end
        invariant
            i <= end <= src@.len(),
            dst@ == start + src@.take(i as int),
        decreases end - i,
    {
        dst.push(src[i]);
        i = i + 1;
        assert(dst@ =~= start + src@.take(i as int));
    }
}

} // verus!

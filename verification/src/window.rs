//! The window of analytic samples over which the beamformer estimates its
//! covariance matrix. Each estimate window straddles a block boundary: the
//! samples carried over from one block, then the first third of the next.
//! The caller decides when the estimate is renewed; this module applies that
//! decision to the windows and counts the samples received in between.

use vstd::prelude::*;

use crate::buffer::{append_prefix, copy_range};

verus! {

/// Number of microphones, and so of channels in every block.
pub const CHANNELS: usize = 3;

/// Where a block of `buf_len` samples is cut: the samples before the cut
/// complete the current window, the samples from the cut on start the next
/// one. With a renewal on every block, each estimate window thus holds the
/// last two thirds of one block followed by the first third of the next;
/// no sample falls into two estimate windows.
pub open spec fn cut_point(buf_len: nat) -> int {
    buf_len as int / 3
}

/// The samples of one channel over which the covariance is estimated when
/// a block arrives: the window carried over, then the block up to the cut.
pub open spec fn covariance_span<T>(window: Seq<T>, block: Seq<T>, buf_len: nat) -> Seq<T> {
    window + block.take(cut_point(buf_len))
}

/// The samples of one channel carried over to the next window: the block
/// from the cut up to `buf_len`.
pub open spec fn carried_span<T>(block: Seq<T>, buf_len: nat) -> Seq<T> {
    block.subrange(cut_point(buf_len), buf_len as int)
}

/// A block of `buf_len` samples fits `blocks` when there is one buffer per
/// channel and each holds at least `buf_len` samples.
pub open spec fn blocks_fit<T>(blocks: Seq<Vec<T>>, buf_len: nat) -> bool {
    &&& blocks.len() == CHANNELS
    &&& forall|c: int| 0 <= c < CHANNELS ==> buf_len <= #[trigger] blocks[c]@.len()
}

/// What a [`CovarianceWindow`] holds, as mathematical values.
pub struct WindowView<T> {
    /// Samples received since the covariance was last renewed.
    pub samples_since_last_update: nat,
    /// Real part of the carried window, one sequence per channel.
    pub real: Seq<Seq<T>>,
    /// Imaginary part of the carried window, one sequence per channel.
    pub imag: Seq<Seq<T>>,
}

impl<T> WindowView<T> {
    /// One window per channel for each part, all of the same length.
    pub open spec fn wf(self) -> bool {
        &&& self.real.len() == CHANNELS
        &&& self.imag.len() == CHANNELS
        &&& forall|c: int|
            0 <= c < CHANNELS ==> {
                &&& #[trigger] self.real[c].len() == self.real[0].len()
                &&& self.imag[c].len() == self.real[0].len()
            }
    }
}

/// The windows handed out when the covariance is renewed: for each channel,
/// the real and imaginary samples to estimate it over.
pub struct WindowUpdate<T> {
    pub real: Vec<Vec<T>>,
    pub imag: Vec<Vec<T>>,
}

impl<T> WindowUpdate<T> {
    /// One window per channel for each part, all of the same length, so that
    /// the estimate can walk all six in lockstep.
    pub open spec fn wf(&self) -> bool {
        &&& self.real@.len() == CHANNELS
        &&& self.imag@.len() == CHANNELS
        &&& forall|c: int|
            0 <= c < CHANNELS ==> {
                &&& #[trigger] self.real@[c]@.len() == self.real@[0]@.len()
                &&& self.imag@[c]@.len() == self.real@[0]@.len()
            }
    }
}

/// The carried window of analytic samples, per channel, and the number of
/// samples received since the covariance estimate was last renewed.
pub struct CovarianceWindow<T> {
    samples_since_last_update: usize,
    window_real: Vec<Vec<T>>,
    window_imag: Vec<Vec<T>>,
}

impl<T> View for CovarianceWindow<T> {
    type V = WindowView<T>;

    closed spec fn view(&self) -> WindowView<T> {
        WindowView {
            samples_since_last_update: self.samples_since_last_update as nat,
            real: self.window_real@.map_values(|v: Vec<T>| v@),
            imag: self.window_imag@.map_values(|v: Vec<T>| v@),
        }
    }
}

impl<T: Copy> CovarianceWindow<T> {
    /// A window with nothing carried over, whose counter stands at its
    /// maximum, so that the first block is as overdue as a block can be.
    pub fn new() -> (w: Self)
        ensures
            w@.wf(),
            w@.samples_since_last_update == usize::MAX,
            forall|c: int| 0 <= c < CHANNELS ==> (#[trigger] w@.real[c]).len() == 0,
            forall|c: int| 0 <= c < CHANNELS ==> (#[trigger] w@.imag[c]).len() == 0,
    {
        let mut window_real: Vec<Vec<T>> = Vec::new();
        let mut window_imag: Vec<Vec<T>> = Vec::new();
        let mut c: usize = 0;
        while c < CHANNELS
            invariant
                c <= CHANNELS,
                window_real@.len() == c,
                window_imag@.len() == c,
                forall|k: int| 0 <= k < c ==> (#[trigger] window_real@[k])@.len() == 0,
                forall|k: int| 0 <= k < c ==> (#[trigger] window_imag@[k])@.len() == 0,
            decreases CHANNELS - c,
        {
            window_real.push(Vec::new());
            window_imag.push(Vec::new());
            c = c + 1;
        }
        CovarianceWindow { samples_since_last_update: usize::MAX, window_real, window_imag }
    }

    /// Samples received since the covariance was last renewed.
    pub fn samples_since_last_update(&self) -> (n: usize)
        ensures
            n == self@.samples_since_last_update,
    {
        self.samples_since_last_update
    }

    /// Takes in one block of analytic samples, `buf_len` per channel;
    /// `block_re` and `block_im` hold its real and imaginary parts, one
    /// buffer per channel.
    ///
    /// When the estimate is `due`, the block is cut at a third: each channel's
    /// carried window, followed by the block up to the cut, is handed out to
    /// estimate the covariance over, the block from the cut on becomes the
    /// new carried window, and the counter restarts at zero. Otherwise the
    /// block only adds `buf_len` to the counter and the windows stay as they
    /// are.
    pub fn push_block(&mut self, due: bool, block_re: &[Vec<T>], block_im: &[Vec<T>], buf_len: usize) -> (update: Option<WindowUpdate<T>>)
        requires
            old(self)@.wf(),
            blocks_fit(block_re@, buf_len as nat),
            blocks_fit(block_im@, buf_len as nat),
            !due ==> old(self)@.samples_since_last_update + buf_len <= usize::MAX,
        ensures
            final(self)@.wf(),
            due ==> (update matches Some(u) && {
                &&& u.wf()
                &&& forall|c: int| 0 <= c < CHANNELS ==> #[trigger] u.real@[c]@
                    == covariance_span(old(self)@.real[c], block_re@[c]@, buf_len as nat)
                &&& forall|c: int| 0 <= c < CHANNELS ==> #[trigger] u.imag@[c]@
                    == covariance_span(old(self)@.imag[c], block_im@[c]@, buf_len as nat)
            }),
            due ==> (update matches Some(u) && {
                &&& forall|c: int| 0 <= c < CHANNELS ==> #[trigger] u.real@[c]@
                    == old(self)@.real[c] + block_re@[c]@.subrange(0, buf_len as int / 3)
                &&& forall|c: int| 0 <= c < CHANNELS ==> #[trigger] u.imag@[c]@
                    == old(self)@.imag[c] + block_im@[c]@.subrange(0, buf_len as int / 3)
            }),
            due ==> forall|c: int| 0 <= c < CHANNELS ==> #[trigger] final(self)@.real[c]
                == block_re@[c]@.subrange(buf_len as int / 3, buf_len as int),
            due ==> forall|c: int| 0 <= c < CHANNELS ==> #[trigger] final(self)@.imag[c]
                == block_im@[c]@.subrange(buf_len as int / 3, buf_len as int),
            due ==> final(self)@.samples_since_last_update == 0,
            due ==> forall|c: int| 0 <= c < CHANNELS ==> #[trigger] final(self)@.real[c]
                == carried_span(block_re@[c]@, buf_len as nat),
            due ==> forall|c: int| 0 <= c < CHANNELS ==> #[trigger] final(self)@.imag[c]
                == carried_span(block_im@[c]@, buf_len as nat),
            !due ==> {
                &&& update is None
                &&& final(self)@.samples_since_last_update == old(self)@.samples_since_last_update + buf_len
                &&& final(self)@.real == old(self)@.real
                &&& final(self)@.imag == old(self)@.imag
            },
    {
        if !due {
            self.samples_since_last_update = self.samples_since_last_update + buf_len;
            return None;
        }
        let cut = buf_len / 3;
        let ghost old_view = self@;
        let mut cov_real: Vec<Vec<T>> = Vec::new();
        let mut cov_imag: Vec<Vec<T>> = Vec::new();
        std::mem::swap(&mut cov_real, &mut self.window_real);
        std::mem::swap(&mut cov_imag, &mut self.window_imag);
        let mut next_real: Vec<Vec<T>> = Vec::new();
        let mut next_imag: Vec<Vec<T>> = Vec::new();
        let mut c: usize = 0;
        while c < CHANNELS
            invariant
                c <= CHANNELS,
                cut == cut_point(buf_len as nat),
                cut <= buf_len,
                old_view.wf(),
                blocks_fit(block_re@, buf_len as nat),
                blocks_fit(block_im@, buf_len as nat),
                cov_real@.len() == CHANNELS,
                cov_imag@.len() == CHANNELS,
                next_real@.len() == c,
                next_imag@.len() == c,
                forall|k: int| 0 <= k < c ==> #[trigger] cov_real@[k]@
                    == covariance_span(old_view.real[k], block_re@[k]@, buf_len as nat),
                forall|k: int| 0 <= k < c ==> #[trigger] cov_imag@[k]@
                    == covariance_span(old_view.imag[k], block_im@[k]@, buf_len as nat),
                forall|k: int| 0 <= k < c ==> #[trigger] next_real@[k]@
                    == carried_span(block_re@[k]@, buf_len as nat),
                forall|k: int| 0 <= k < c ==> #[trigger] next_imag@[k]@
                    == carried_span(block_im@[k]@, buf_len as nat),
                forall|k: int| c <= k < CHANNELS ==> #[trigger] cov_real@[k]@ == old_view.real[k],
                forall|k: int| c <= k < CHANNELS ==> #[trigger] cov_imag@[k]@ == old_view.imag[k],
            decreases CHANNELS - c,
        {
            let ghost before_re = cov_real@;
            let ghost before_im = cov_imag@;
            append_prefix(&mut cov_real[c], block_re[c].as_slice(), cut);
            append_prefix(&mut cov_imag[c], block_im[c].as_slice(), cut);
            assert(forall|k: int| 0 <= k < CHANNELS && k != c ==> #[trigger] cov_real@[k] == before_re[k]);
            assert(forall|k: int| 0 <= k < CHANNELS && k != c ==> #[trigger] cov_imag@[k] == before_im[k]);
            next_real.push(copy_range(block_re[c].as_slice(), cut, buf_len));
            next_imag.push(copy_range(block_im[c].as_slice(), cut, buf_len));
            c = c + 1;
        }
        self.window_real = next_real;
        self.window_imag = next_imag;
        self.samples_since_last_update = 0;
        let u = WindowUpdate { real: cov_real, imag: cov_imag };
        Some(u)
    }
}

/// No sample of a block is lost or taken twice when the covariance is
/// renewed: the window handed out, followed by the window carried over, is
/// the old carried window followed by the whole block.
pub proof fn lemma_update_partitions_block<T>(window: Seq<T>, block: Seq<T>, buf_len: nat)
    requires
        buf_len <= block.len(),
    ensures
        covariance_span(window, block, buf_len) + carried_span(block, buf_len)
            == window + block.take(buf_len as int),
{
    assert(covariance_span(window, block, buf_len) + carried_span(block, buf_len)
        =~= window + block.take(buf_len as int));
}

/// The cut falls at the floor of a third of the block, and the two spans
/// split the block there: the estimate gets the old window and then the
/// block's first `buf_len / 3` samples, the carried window gets the block's
/// remaining `buf_len - buf_len / 3` samples, sample by sample in order.
pub proof fn lemma_cut_at_a_third<T>(window: Seq<T>, block: Seq<T>, buf_len: nat)
    requires
        buf_len <= block.len(),
    ensures
        3 * cut_point(buf_len) <= buf_len < 3 * cut_point(buf_len) + 3,
        covariance_span(window, block, buf_len).len() == window.len() + buf_len / 3,
        carried_span(block, buf_len).len() == buf_len - buf_len / 3,
        forall|i: int| 0 <= i < window.len() ==> #[trigger] covariance_span(window, block, buf_len)[i] == window[i],
        forall|i: int| 0 <= i < buf_len / 3 ==>
            #[trigger] covariance_span(window, block, buf_len)[window.len() + i] == block[i],
        forall|i: int| 0 <= i < buf_len - buf_len / 3 ==>
            #[trigger] carried_span(block, buf_len)[i] == block[buf_len / 3 + i],
{
}

/// When the covariance is renewed on two blocks in a row, the second
/// estimate runs over the last two thirds of the first block followed by the
/// first third of the second; with blocks of one length it spans exactly
/// that many samples.
pub proof fn lemma_consecutive_updates<T>(first: Seq<T>, second: Seq<T>, buf_len: nat)
    requires
        buf_len <= first.len(),
        buf_len <= second.len(),
    ensures
        covariance_span(carried_span(first, buf_len), second, buf_len)
            == first.subrange(cut_point(buf_len), buf_len as int) + second.take(cut_point(buf_len)),
        covariance_span(carried_span(first, buf_len), second, buf_len).len() == buf_len,
{
}

/// The first renewal after construction runs over the first third of the
/// block alone, since nothing has been carried over yet.
pub proof fn lemma_first_update<T>(block: Seq<T>, buf_len: nat)
    requires
        buf_len <= block.len(),
    ensures
        covariance_span(Seq::<T>::empty(), block, buf_len) == block.take(cut_point(buf_len)),
{
    assert(covariance_span(Seq::<T>::empty(), block, buf_len) =~= block.take(cut_point(buf_len)));
}

} // verus!

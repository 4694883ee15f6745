use vstd::prelude::*;

use crate::pow2::is_pow2;

verus! {

/// One step of reassembly: `held` followed by `chunk`; when that reaches `w`
/// samples, its first `w` form a window and the rest is held back.
pub open spec fn step<T>(w: nat, held: Seq<T>, chunk: Seq<T>) -> (Option<Seq<T>>, Seq<T>) {
    let all = held + chunk;
    if all.len() >= w {
        (Some(all.subrange(0, w as int)), all.subrange(w as int, all.len() as int))
    } else {
        (None, all)
    }
}

/// The windows handed out, in order, and the samples held back after taking
/// in every chunk of `chunks` one after the other, starting from `held`.
pub open spec fn feed<T>(w: nat, held: Seq<T>, chunks: Seq<Seq<T>>) -> (Seq<Seq<T>>, Seq<T>)
    decreases chunks.len(),
{
    if chunks.len() == 0 {
        (Seq::empty(), held)
    } else {
        let (windows, h) = feed(w, held, chunks.drop_last());
        let (out, rest) = step(w, h, chunks.last());
        match out {
            Some(window) => (windows.push(window), rest),
            None => (windows, rest),
        }
    }
}

/// The sequences of `parts` joined end to end.
pub open spec fn concat<T>(parts: Seq<Seq<T>>) -> Seq<T>
    decreases parts.len(),
{
    if parts.len() == 0 {
        Seq::empty()
    } else {
        concat(parts.drop_last()) + parts.last()
    }
}

proof fn lemma_feed_keeps_order<T>(w: nat, chunks: Seq<Seq<T>>)
    requires
        w > 0,
        forall|i: int| 0 <= i < chunks.len() ==> (#[trigger] chunks[i]).len() <= w,
    ensures
        concat(feed(w, Seq::empty(), chunks).0) + feed(w, Seq::empty(), chunks).1 == concat(
            chunks,
        ),
        feed(w, Seq::empty(), chunks).1.len() < w,
        forall|i: int|
            0 <= i < feed(w, Seq::empty(), chunks).0.len() ==> (#[trigger] feed(
                w,
                Seq::empty(),
                chunks,
            ).0[i]).len() == w,
    decreases chunks.len(),
{
    if chunks.len() > 0 {
        let prev = chunks.drop_last();
        assert forall|i: int| 0 <= i < prev.len() implies (#[trigger] prev[i]).len() <= w by {
            assert(prev[i] == chunks[i]);
        }
        lemma_feed_keeps_order(w, prev);
        let (windows, h) = feed(w, Seq::empty(), prev);
        let c = chunks.last();
        assert(c == chunks[chunks.len() - 1]);
        let all = h + c;
        match step(w, h, c).0 {
            Some(window) => {
                assert(windows.push(window).drop_last() == windows);
                assert(all.subrange(0, w as int) + all.subrange(w as int, all.len() as int) == all);
                assert(concat(windows) + all == concat(prev) + c);
            },
            None => {
                assert(concat(windows) + all == concat(prev) + c);
            },
        }
    }
}

/// Reassembly loses and repeats nothing: fed chunks of at most `w` samples
/// each, starting empty, the accumulator hands out exactly `k` windows of `w`
/// samples where the chunks hold `k * w + r` samples with `r < w`; joined
/// in order they are the first `k * w` samples, and the last `r` are held back.
pub proof fn lemma_window_reassembly<T>(w: nat, chunks: Seq<Seq<T>>)
    requires
        is_pow2(w),
        forall|i: int| 0 <= i < chunks.len() ==> (#[trigger] chunks[i]).len() <= w,
    ensures
        ({
            let (windows, held) = feed(w, Seq::empty(), chunks);
            let total = concat(chunks);
            let k: int = total.len() as int / (w as int);
            &&& windows.len() == k
            &&& forall|i: int| 0 <= i < windows.len() ==> (#[trigger] windows[i]).len() == w
            &&& concat(windows) == total.subrange(0, k * (w as int))
            &&& held == total.subrange(k * (w as int), total.len() as int)
            &&& held.len() == total.len() as int % (w as int)
        }),
{
    lemma_feed_keeps_order(w, chunks);
    let (windows, held) = feed(w, Seq::empty(), chunks);
    let total = concat(chunks);
    lemma_concat_len_uniform(windows, w);
    assert(total.len() == windows.len() * w + held.len());
    vstd::arithmetic::div_mod::lemma_fundamental_div_mod_converse(
        total.len() as int,
        w as int,
        windows.len() as int,
        held.len() as int,
    );
    assert(concat(windows) == total.subrange(0, concat(windows).len() as int));
    assert(held == total.subrange(concat(windows).len() as int, total.len() as int));
}

proof fn lemma_concat_len_uniform<T>(parts: Seq<Seq<T>>, w: nat)
    requires
        forall|i: int| 0 <= i < parts.len() ==> (#[trigger] parts[i]).len() == w,
    ensures
        concat(parts).len() == parts.len() * w,
    decreases parts.len(),
{
    if parts.len() > 0 {
        let prev = parts.drop_last();
        assert forall|i: int| 0 <= i < prev.len() implies (#[trigger] prev[i]).len() == w by {
            assert(prev[i] == parts[i]);
        }
        lemma_concat_len_uniform(prev, w);
        assert(parts.last() == parts[parts.len() - 1]);
        assert(concat(parts).len() == prev.len() * w + w);
        assert(parts.len() * w == (prev.len() + 1) * w);
        assert((prev.len() + 1) * w == prev.len() * w + w) by (nonlinear_arith);
    }
}

/// Appends `src[lo..hi]` to `dst`.
fn append_range<T: Copy>(dst: &mut Vec<T>, src: &[T], lo: usize, hi: usize)
    requires
        lo <= hi <= src@.len(),
    ensures
        final(dst)@ == old(dst)@ + src@.subrange(lo as int, hi as int),
{
    let mut i: usize = lo;
    while i < hi
        invariant
            lo <= i <= hi <= src@.len(),
            dst@ == old(dst)@ + src@.subrange(lo as int, i as int),
        decreases hi - i,
    {
        dst.push(src[i]);
        assert(src@.subrange(lo as int, i + 1) == src@.subrange(lo as int, i as int).push(src@[i as int]));
        i = i + 1;
    }
}

/// Fixed-size buffer that turns a stream of sample chunks of any length into
/// consecutive, non-overlapping analysis windows of exactly `window_size` samples.
pub struct SampleAccumulator<T> {
    window_size: usize,
    buffer: Vec<T>,
}

impl<T: Copy> View for SampleAccumulator<T> {
    type V = Seq<T>;

    /// The samples received but not yet handed out in a window, oldest first.
    closed spec fn view(&self) -> Seq<T> {
        self.buffer@
    }
}

impl<T: Copy> SampleAccumulator<T> {
    pub closed spec fn spec_window_size(&self) -> nat {
        self.window_size as nat
    }

    pub closed spec fn wf(&self) -> bool {
        is_pow2(self.window_size as nat)
    }

    /// An empty accumulator for windows of `window_size` samples.
    pub fn new(window_size: usize) -> (r: Self)
        requires
            is_pow2(window_size as nat),
        ensures
            r.wf(),
            r.spec_window_size() == window_size,
            r@ == Seq::<T>::empty(),
    {
        SampleAccumulator { window_size, buffer: Vec::new() }
    }

    pub fn window_size(&self) -> (r: usize)
        ensures
            r == self.spec_window_size(),
    {
        self.window_size
    }

    /// Number of samples held back for the next window.
    pub fn buffered_len(&self) -> (r: usize)
        ensures
            r == self@.len(),
    {
        self.buffer.len()
    }

    /// Takes in one chunk. When the held samples followed by `chunk` make up a
    /// full window, the first `window_size` of them are handed out and the rest
    /// are kept, in order; otherwise everything is kept and nothing is returned.
    pub fn push(&mut self, chunk: &[T]) -> (r: Option<Vec<T>>)
        requires
            old(self).wf(),
            old(self)@.len() + chunk@.len() <= usize::MAX,
        ensures
            final(self).wf(),
            final(self).spec_window_size() == old(self).spec_window_size(),
            ({
                let (out, rest) = step(old(self).spec_window_size(), old(self)@, chunk@);
                &&& final(self)@ == rest
                &&& match r {
                    Some(window) => out == Some(window@),
                    None => out is None,
                }
            }),
    {
        let w = self.window_size;
        let held = self.buffer.len();
        let ghost all = self@ + chunk@;
        if held >= w {
            // Already a full window in hand: the chunk goes wholly to the remainder.
            let mut remainder = self.buffer.split_off(w);
            append_range(&mut remainder, chunk, 0, chunk.len());
            let mut window = remainder;
            core::mem::swap(&mut self.buffer, &mut window);
            assert(window@ =~= all.subrange(0, w as int));
            assert(self@ =~= all.subrange(w as int, all.len() as int));
            Some(window)
        } else if held + chunk.len() >= w {
            let split = w - held;
            let mut remainder: Vec<T> = Vec::new();
            append_range(&mut remainder, chunk, split, chunk.len());
            append_range(&mut self.buffer, chunk, 0, split);
            let mut window = remainder;
            core::mem::swap(&mut self.buffer, &mut window);
            assert(window@ =~= all.subrange(0, w as int));
            assert(self@ =~= all.subrange(w as int, all.len() as int));
            Some(window)
        } else {
            append_range(&mut self.buffer, chunk, 0, chunk.len());
            assert(self@ =~= all);
            None
        }
    }
}

} // verus!

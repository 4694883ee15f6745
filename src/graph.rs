use vstd::prelude::*;

verus! {

/// Number of leading spectrum bins drawn when the display reaches up to
/// `max_frequency` Hz and `total_bins` bins span `sample_rate` Hz:
/// `max_frequency * total_bins / sample_rate`, rounded down.
pub open spec fn bins_displayed(max_frequency: nat, total_bins: nat, sample_rate: nat) -> nat
    recommends
        sample_rate > 0,
{
    (max_frequency * total_bins) / sample_rate
}

/// Width in pixels of one bar when `bins` bars share `width` pixels: the
/// quotient rounded toward zero and held to the range of an `i32`. With no
/// bars it is the widest `i32`, or zero when there are no pixels either.
pub open spec fn bar_width_of(width: nat, bins: nat) -> int {
    if bins == 0 {
        if width == 0 {
            0
        } else {
            i32::MAX as int
        }
    } else if width / bins > i32::MAX {
        i32::MAX as int
    } else {
        (width / bins) as int
    }
}

/// The bin under horizontal position `cursor` when `bins` bars of `bar_width`
/// pixels are drawn from position zero; none off the bars, to the left or at
/// and beyond the right end of the last one.
pub open spec fn bin_under(cursor: int, bar_width: int, bins: nat) -> Option<usize> {
    if bins == 0 || bar_width <= 0 || cursor < 0 || cursor >= bar_width * bins {
        None
    } else {
        Some(((cursor / bar_width) % (bins as int)) as usize)
    }
}

/// A position at or beyond the right end of the last drawn bar selects nothing.
pub proof fn lemma_beyond_last_bar_selects_nothing(cursor: int, bar_width: int, bins: nat)
    requires
        cursor >= bar_width * bins,
    ensures
        bin_under(cursor, bar_width, bins) is None,
{
}

/// Position zero selects the first bin whenever any bar is drawn.
pub proof fn lemma_origin_selects_first_bin(bar_width: int, bins: nat)
    requires
        bar_width > 0,
        bins > 0,
    ensures
        bin_under(0, bar_width, bins) == Some(0usize),
{
    assert(bar_width * bins >= bar_width) by (nonlinear_arith)
        requires
            bar_width > 0,
            bins > 0,
    ;
    assert(0int / bar_width == 0);
    assert(0int % (bins as int) == 0);
}

/// Maps a horizontal position to the spectrum bin drawn there.
pub fn select_bin(cursor: i32, bar_width: i32, max_bins_displayed: usize) -> (r: Option<usize>)
    ensures
        r == bin_under(cursor as int, bar_width as int, max_bins_displayed as nat),
        r matches Some(b) ==> b < max_bins_displayed,
{
    if max_bins_displayed == 0 || bar_width <= 0 || cursor < 0 {
        return None;
    }
    proof {
        let (a, b) = (bar_width as int, max_bins_displayed as int);
        assert(a * b <= u64::MAX as int * u64::MAX as int) by (nonlinear_arith)
            requires
                0 <= a <= u64::MAX,
                0 <= b <= u64::MAX,
        ;
    }
    let span: u128 = bar_width as u128 * max_bins_displayed as u128;
    if cursor as u128 >= span {
        return None;
    }
    let bin: usize = (cursor / bar_width) as usize % max_bins_displayed;
    Some(bin)
}

/// Width in pixels of each of `bins` bars laid out over `width` pixels.
pub fn bar_width(width: u32, bins: usize) -> (r: i32)
    ensures
        r == bar_width_of(width as nat, bins as nat),
{
    if bins == 0 {
        if width == 0 {
            0
        } else {
            i32::MAX
        }
    } else {
        let q: usize = width as usize / bins;
        if q > i32::MAX as usize {
            i32::MAX
        } else {
            q as i32
        }
    }
}

/// Consumer side of the spectrum display: the drawing area, the window size
/// that a complete spectrum has, the highest frequency shown, and the working
/// copy of the spectrum that the display reads.
pub struct Graph<S> {
    width: u32,
    height: u32,
    buffer_size: usize,
    max_displayed_frequency: usize,
    data_buffer: Vec<S>,
}

impl<S: Copy> View for Graph<S> {
    type V = Seq<S>;

    /// The working copy of the spectrum.
    closed spec fn view(&self) -> Seq<S> {
        self.data_buffer@
    }
}

impl<S: Copy> Graph<S> {
    pub closed spec fn spec_width(&self) -> u32 {
        self.width
    }

    pub closed spec fn spec_height(&self) -> u32 {
        self.height
    }

    pub closed spec fn spec_buffer_size(&self) -> nat {
        self.buffer_size as nat
    }

    pub closed spec fn spec_max_displayed_frequency(&self) -> nat {
        self.max_displayed_frequency as nat
    }

    /// A graph with no spectrum yet.
    pub fn new(width: u32, height: u32, buffer_size: usize, max_displayed_frequency: usize) -> (r:
        Self)
        ensures
            r.spec_width() == width,
            r.spec_height() == height,
            r.spec_buffer_size() == buffer_size,
            r.spec_max_displayed_frequency() == max_displayed_frequency,
            r@ == Seq::<S>::empty(),
    {
        Graph { width, height, buffer_size, max_displayed_frequency, data_buffer: Vec::new() }
    }

    pub fn width(&self) -> (r: u32)
        ensures
            r == self.spec_width(),
    {
        self.width
    }

    pub fn height(&self) -> (r: u32)
        ensures
            r == self.spec_height(),
    {
        self.height
    }

    /// Follows a resize of the drawing area.
    pub fn set_size(&mut self, width: u32, height: u32)
        ensures
            final(self).spec_width() == width,
            final(self).spec_height() == height,
            final(self)@ == old(self)@,
            final(self).spec_buffer_size() == old(self).spec_buffer_size(),
            final(self).spec_max_displayed_frequency() == old(self).spec_max_displayed_frequency(),
    {
        self.width = width;
        self.height = height;
    }

    pub fn buffer_size(&self) -> (r: usize)
        ensures
            r == self.spec_buffer_size(),
    {
        self.buffer_size
    }

    pub fn max_displayed_frequency(&self) -> (r: usize)
        ensures
            r == self.spec_max_displayed_frequency(),
    {
        self.max_displayed_frequency
    }

    /// Length of the working copy of the spectrum.
    pub fn get_buffer_len(&self) -> (r: usize)
        ensures
            r == self@.len(),
    {
        self.data_buffer.len()
    }

    /// The working copy of the spectrum.
    pub fn data(&self) -> (r: &Vec<S>)
        ensures
            r@ == self@,
    {
        &self.data_buffer
    }

    /// Takes a fresh copy of the latest spectrum, unless the display is paused,
    /// in which case the previous copy stays.
    pub fn refresh(&mut self, latest: &[S], paused: bool)
        ensures
            final(self)@ == if paused {
                old(self)@
            } else {
                latest@
            },
            final(self).spec_width() == old(self).spec_width(),
            final(self).spec_height() == old(self).spec_height(),
            final(self).spec_buffer_size() == old(self).spec_buffer_size(),
            final(self).spec_max_displayed_frequency() == old(self).spec_max_displayed_frequency(),
    {
        if !paused {
            let mut copy: Vec<S> = Vec::new();
            let mut i: usize = 0;
            while i < latest.len()
                invariant
                    i <= latest@.len(),
                    copy@ == latest@.subrange(0, i as int),
                decreases latest@.len() - i,
            {
                copy.push(latest[i]);
                assert(latest@.subrange(0, i + 1) == latest@.subrange(0, i as int).push(
                    latest@[i as int],
                ));
                i = i + 1;
            }
            assert(copy@ == latest@);
            self.data_buffer = copy;
        }
    }

    /// Whether the working copy holds a whole spectrum; before the first window
    /// has been transformed it does not.
    pub fn is_complete(&self) -> (r: bool)
        ensures
            r == (self@.len() >= self.spec_buffer_size()),
    {
        self.data_buffer.len() >= self.buffer_size
    }

    /// How many leading bins of the working copy are drawn.
    pub fn max_bins_displayed(&self, sample_rate: u32) -> (r: usize)
        requires
            sample_rate > 0,
            self.spec_max_displayed_frequency() <= sample_rate,
        ensures
            r == bins_displayed(self.spec_max_displayed_frequency(), self@.len(), sample_rate as nat),
            r <= self@.len(),
    {
        let f = self.max_displayed_frequency as u128;
        let n = self.data_buffer.len() as u128;
        let sr = sample_rate as u128;
        proof {
            let fi = f as int;
            let ni = n as int;
            let si = sr as int;
            vstd::arithmetic::mul::lemma_mul_inequality(fi, si, ni);
            vstd::arithmetic::div_mod::lemma_div_is_ordered(fi * ni, si * ni, si);
            vstd::arithmetic::div_mod::lemma_div_multiples_vanish(ni, si);
            assert(fi * ni <= u64::MAX as int * u64::MAX as int) by (nonlinear_arith)
                requires
                    0 <= fi <= u64::MAX,
                    0 <= ni <= u64::MAX,
            ;
        }
        ((f * n) / sr) as usize
    }

    /// Width in pixels of each drawn bar.
    pub fn frequency_bar_width(&self, sample_rate: u32) -> (r: i32)
        requires
            sample_rate > 0,
            self.spec_max_displayed_frequency() <= sample_rate,
        ensures
            r == bar_width_of(
                self.spec_width() as nat,
                bins_displayed(self.spec_max_displayed_frequency(), self@.len(), sample_rate as nat),
            ),
    {
        let bins = self.max_bins_displayed(sample_rate);
        bar_width(self.width, bins)
    }

    /// The bin under horizontal position `cursor`: none while the working copy
    /// is not yet a whole spectrum, and none off the drawn bars.
    pub fn selected_bin(&self, cursor: i32, sample_rate: u32) -> (r: Option<usize>)
        requires
            sample_rate > 0,
            self.spec_max_displayed_frequency() <= sample_rate,
        ensures
            ({
                let bins = bins_displayed(
                    self.spec_max_displayed_frequency(),
                    self@.len(),
                    sample_rate as nat,
                );
                if self@.len() < self.spec_buffer_size() {
                    r is None
                } else {
                    r == bin_under(
                        cursor as int,
                        bar_width_of(self.spec_width() as nat, bins),
                        bins,
                    )
                }
            }),
            r matches Some(b) ==> b < self@.len(),
    {
        if !self.is_complete() {
            return None;
        }
        let bins = self.max_bins_displayed(sample_rate);
        let w = bar_width(self.width, bins);
        select_bin(cursor, w, bins)
    }
}

} // verus!

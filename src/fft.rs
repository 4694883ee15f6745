use vstd::prelude::*;

use crate::pow2::is_pow2;

verus! {

/// The samples at even positions.
pub open spec fn evens<T>(s: Seq<T>) -> Seq<T> {
    Seq::new(((s.len() + 1) / 2) as nat, |i: int| s[2 * i])
}

/// The samples at odd positions.
pub open spec fn odds<T>(s: Seq<T>) -> Seq<T> {
    Seq::new((s.len() / 2) as nat, |i: int| s[2 * i + 1])
}

/// One combining step of the radix-2 transform of length `n`: for each
/// `k < n/2`, `butterfly(e[k], o[k], k, n)` gives `(output[k], output[k + n/2])`.
pub open spec fn combines<T, F: Fn(T, T, usize, usize) -> (T, T)>(
    butterfly: F,
    e: Seq<T>,
    o: Seq<T>,
    output: Seq<T>,
) -> bool {
    let n = output.len();
    let h = n / 2;
    &&& e.len() == h
    &&& o.len() == h
    &&& forall|k: int|
        0 <= k < h ==> #[trigger] butterfly.ensures(
            (e[k], o[k], k as usize, n as usize),
            (output[k], output[k + h]),
        )
}

/// `output` is the radix-2 decimation-in-time transform of `input` when every
/// combining step is done by `butterfly`: a single sample is its own
/// transform; a longer input combines the transforms of its even- and
/// odd-indexed halves.
pub open spec fn is_radix2_transform<T, F: Fn(T, T, usize, usize) -> (T, T)>(
    butterfly: F,
    input: Seq<T>,
    output: Seq<T>,
) -> bool
    decreases input.len(),
{
    if input.len() <= 1 {
        output == input
    } else {
        &&& output.len() == input.len()
        &&& exists|e: Seq<T>, o: Seq<T>|
            {
                &&& #[trigger] combines(butterfly, e, o, output)
                &&& is_radix2_transform(butterfly, evens(input), e)
                &&& is_radix2_transform(butterfly, odds(input), o)
            }
    }
}

/// A silent window has a silent spectrum: when the butterfly takes two
/// `zero`s to two `zero`s, the transform of an all-`zero` input is all `zero`.
pub proof fn lemma_zero_signal_zero_spectrum<T, F: Fn(T, T, usize, usize) -> (T, T)>(
    butterfly: F,
    zero: T,
    input: Seq<T>,
    output: Seq<T>,
)
    requires
        is_radix2_transform(butterfly, input, output),
        forall|i: int| 0 <= i < input.len() ==> #[trigger] input[i] == zero,
        forall|k: usize, n: usize, r: (T, T)|
            #[trigger] butterfly.ensures((zero, zero, k, n), r) ==> r == (zero, zero),
    ensures
        forall|i: int| 0 <= i < output.len() ==> #[trigger] output[i] == zero,
    decreases input.len(),
{
    if input.len() > 1 {
        let (e, o) = choose|e: Seq<T>, o: Seq<T>|
            {
                &&& #[trigger] combines(butterfly, e, o, output)
                &&& is_radix2_transform(butterfly, evens(input), e)
                &&& is_radix2_transform(butterfly, odds(input), o)
            };
        lemma_zero_signal_zero_spectrum(butterfly, zero, evens(input), e);
        lemma_zero_signal_zero_spectrum(butterfly, zero, odds(input), o);
        let h = output.len() / 2;
        assert forall|i: int| 0 <= i < output.len() implies #[trigger] output[i] == zero by {
            let k = if i < h {
                i
            } else {
                i - h
            };
            assert(butterfly.ensures(
                (e[k], o[k], k as usize, output.len() as usize),
                (output[k], output[k + h]),
            ));
        }
    }
}

/// Splits a signal into its even-indexed and its odd-indexed samples.
pub fn split_even_odd<T: Copy>(signal: &[T]) -> (r: (Vec<T>, Vec<T>))
    ensures
        r.0@ == evens(signal@),
        r.1@ == odds(signal@),
{
    let n = signal.len();
    let mut even: Vec<T> = Vec::new();
    let mut odd: Vec<T> = Vec::new();
    let mut i: usize = 0;
    while i < n
        invariant
            i <= n == signal@.len(),
            i % 2 == 0 ==> even@.len() == i / 2 && odd@.len() == i / 2,
            i % 2 == 1 ==> even@.len() == i / 2 + 1 && odd@.len() == i / 2,
            forall|j: int| 0 <= j < even@.len() ==> #[trigger] even@[j] == signal@[2 * j],
            forall|j: int| 0 <= j < odd@.len() ==> #[trigger] odd@[j] == signal@[2 * j + 1],
        decreases n - i,
    {
        if i % 2 == 0 {
            even.push(signal[i]);
        } else {
            odd.push(signal[i]);
        }
        i = i + 1;
    }
    assert(even@ =~= evens(signal@));
    assert(odd@ =~= odds(signal@));
    (even, odd)
}

proof fn lemma_halves_of_pow2(n: nat)
    requires
        is_pow2(n),
        n > 1,
    ensures
        n % 2 == 0,
        is_pow2(n / 2),
        (n + 1) / 2 == n / 2,
{
}

/// Recursive radix-2 Cooley-Tukey transform of a power-of-two-long signal.
/// The arithmetic of each combining step is `butterfly(even_k, odd_k, k, n)`,
/// which returns the outputs at `k` and at `k + n/2` (for the discrete Fourier
/// transform: `even_k ± exp(-2πi·k/n)·odd_k`).
pub fn fft<T: Copy, F: Fn(T, T, usize, usize) -> (T, T)>(signal: &[T], butterfly: &F) -> (r: Vec<T>)
    requires
        is_pow2(signal@.len()),
        forall|e: T, o: T, k: usize, n: usize| #[trigger] butterfly.requires((e, o, k, n)),
    ensures
        r@.len() == signal@.len(),
        is_radix2_transform(*butterfly, signal@, r@),
    decreases signal@.len(),
{
    let n = signal.len();
    if n == 1 {
        let mut out: Vec<T> = Vec::new();
        out.push(signal[0]);
        assert(out@ =~= signal@);
        return out;
    }
    proof {
        lemma_halves_of_pow2(n as nat);
    }
    let (even_in, odd_in) = split_even_odd(signal);
    let even = fft(even_in.as_slice(), butterfly);
    let odd = fft(odd_in.as_slice(), butterfly);
    let h = n / 2;
    let mut low: Vec<T> = Vec::new();
    let mut high: Vec<T> = Vec::new();
    let mut k: usize = 0;
    while k < h
        invariant
            h == n / 2,
            even@.len() == h,
            odd@.len() == h,
            k <= h,
            low@.len() == k,
            high@.len() == k,
            forall|e: T, o: T, k: usize, n: usize| #[trigger] butterfly.requires((e, o, k, n)),
            forall|j: int|
                0 <= j < k ==> #[trigger] butterfly.ensures(
                    (even@[j], odd@[j], j as usize, n),
                    (low@[j], high@[j]),
                ),
        decreases h - k,
    {
        let (a, b) = butterfly(even[k], odd[k], k, n);
        low.push(a);
        high.push(b);
        k = k + 1;
    }
    let ghost low_s = low@;
    let ghost high_s = high@;
    low.append(&mut high);
    proof {
        let out = low@;
        assert forall|j: int| 0 <= j < h implies #[trigger] butterfly.ensures(
            (even@[j], odd@[j], j as usize, n),
            (out[j], out[j + h]),
        ) by {
            assert(out[j] == low_s[j]);
            assert(out[j + h] == high_s[j]);
        }
        assert(combines(*butterfly, even@, odd@, out));
    }
    low
}

} // verus!

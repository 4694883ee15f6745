use frequency_analyzer::accumulator::SampleAccumulator;
use frequency_analyzer::fft::{fft, split_even_odd};
use frequency_analyzer::graph::{bar_width, select_bin, Graph};
use frequency_analyzer::notes::{
    get_octave_by_key_number, key_to_note_number, note_number_to_name,
    note_number_to_pitch_class,
};
use frequency_analyzer::pow2::is_power_of_two;
use num_complex::Complex;

fn dft_butterfly(
    even: Complex<f32>,
    odd: Complex<f32>,
    k: usize,
    n: usize,
) -> (Complex<f32>, Complex<f32>) {
    let t = Complex::new(0.0, -2.0 * std::f32::consts::PI * k as f32 / (n as f32)).exp() * odd;
    (even + t, even - t)
}

fn magnitudes(samples: &[f32]) -> Vec<f32> {
    let signal: Vec<Complex<f32>> = samples.iter().map(|x| Complex::new(*x, 0.0)).collect();
    fft(&signal, &dft_butterfly).iter().map(|c| c.norm()).collect()
}

fn sine(frequency: f32, sample_rate: u32, from: usize, len: usize) -> Vec<f32> {
    (from..from + len)
        .map(|i| (2.0 * std::f32::consts::PI * frequency * i as f32 / sample_rate as f32).sin())
        .collect()
}

fn peak_bin(spectrum: &[f32]) -> usize {
    let half = &spectrum[..spectrum.len() / 2];
    (0..half.len())
        .max_by(|a, b| half[*a].partial_cmp(&half[*b]).unwrap())
        .unwrap()
}

fn name_of_key(key: i64) -> String {
    note_number_to_name(note_number_to_pitch_class(key_to_note_number(key)))
}

#[test]
fn power_of_two_accepts_powers() {
    for n in [1usize, 2, 4, 8, 1024, 4096, 1 << 63] {
        assert!(is_power_of_two(n), "{n}");
    }
}

#[test]
fn power_of_two_rejects_others() {
    for n in [0usize, 3, 6, 100, 4095, 4097, usize::MAX] {
        assert!(!is_power_of_two(n), "{n}");
    }
}

#[test]
fn chunks_reassemble_into_windows() {
    let mut acc = SampleAccumulator::<i32>::new(4);
    let mut windows = vec![];
    for chunk in [vec![1, 2, 3], vec![4, 5], vec![6, 7, 8], vec![9]] {
        if let Some(w) = acc.push(&chunk) {
            windows.push(w);
        }
    }
    assert_eq!(windows, vec![vec![1, 2, 3, 4], vec![5, 6, 7, 8]]);
    assert_eq!(acc.buffered_len(), 1);
    assert_eq!(acc.push(&[10, 11, 12]), Some(vec![9, 10, 11, 12]));
    assert_eq!(acc.buffered_len(), 0);
}

#[test]
fn chunk_that_fills_exactly_leaves_nothing() {
    let mut acc = SampleAccumulator::<u8>::new(2);
    assert_eq!(acc.push(&[]), None);
    assert_eq!(acc.push(&[7, 8]), Some(vec![7, 8]));
    assert_eq!(acc.buffered_len(), 0);
    assert_eq!(acc.push(&[9]), None);
    assert_eq!(acc.buffered_len(), 1);
}

#[test]
fn oversized_chunk_is_handed_out_over_later_pushes() {
    let mut acc = SampleAccumulator::<u16>::new(2);
    assert_eq!(acc.push(&[1, 2, 3, 4, 5]), Some(vec![1, 2]));
    assert_eq!(acc.buffered_len(), 3);
    // A full window is already held: the new chunk goes wholly to the remainder.
    assert_eq!(acc.push(&[6]), Some(vec![3, 4]));
    assert_eq!(acc.push(&[]), Some(vec![5, 6]));
    assert_eq!(acc.push(&[]), None);
    assert_eq!(acc.window_size(), 2);
}

#[test]
fn many_ragged_chunks_keep_every_sample_once() {
    let window = 16usize;
    let mut acc = SampleAccumulator::<u32>::new(window);
    let mut next = 0u32;
    let mut out = vec![];
    for len in [1usize, 16, 5, 0, 15, 3, 9, 16, 2, 7] {
        let chunk: Vec<u32> = (next..next + len as u32).collect();
        next += len as u32;
        if let Some(w) = acc.push(&chunk) {
            assert_eq!(w.len(), window);
            out.extend(w);
        }
    }
    let total = next as usize;
    assert_eq!(out.len(), total / window * window);
    assert_eq!(out, (0..out.len() as u32).collect::<Vec<_>>());
    assert_eq!(acc.buffered_len(), total % window);
}

#[test]
fn even_odd_split() {
    let (even, odd) = split_even_odd(&[0, 1, 2, 3, 4, 5, 6, 7]);
    assert_eq!(even, vec![0, 2, 4, 6]);
    assert_eq!(odd, vec![1, 3, 5, 7]);
    let (even, odd) = split_even_odd(&['a', 'b', 'c']);
    assert_eq!(even, vec!['a', 'c']);
    assert_eq!(odd, vec!['b']);
    let (even, odd) = split_even_odd::<u8>(&[]);
    assert!(even.is_empty() && odd.is_empty());
}

#[test]
fn transform_places_butterfly_outputs() {
    // With `(e + o, e - o)` as the butterfly the transform is a Walsh-Hadamard one.
    let out = fft(&[1i64, 2, 3, 4], &|e: i64, o: i64, _k: usize, _n: usize| (e + o, e - o));
    assert_eq!(out, vec![10, -4, -2, 0]);
    let out = fft(&[5i64], &|e: i64, o: i64, _k: usize, _n: usize| (e + o, e - o));
    assert_eq!(out, vec![5]);
    // The butterfly sees the index within the half and the current length.
    let out = fft(&[0u64; 4], &|_e: u64, _o: u64, k: usize, n: usize| {
        (k as u64, 100 + n as u64)
    });
    assert_eq!(out, vec![0, 1, 104, 104]);
}

#[test]
fn transform_of_impulse_and_constant() {
    let spectrum = magnitudes(&[1.0, 0.0, 0.0, 0.0]);
    assert_eq!(spectrum, vec![1.0; 4]);
    let spectrum = magnitudes(&[1.0; 8]);
    assert_eq!(spectrum[0], 8.0);
    for m in &spectrum[1..] {
        assert!(m.abs() < 1e-5, "{m}");
    }
}

#[test]
fn silent_window_has_silent_spectrum() {
    for n in [1usize, 2, 64, 4096] {
        let spectrum = magnitudes(&vec![0.0; n]);
        assert_eq!(spectrum.len(), n);
        assert!(spectrum.iter().all(|m| *m == 0.0));
    }
}

#[test]
fn sinusoid_peaks_at_its_bin() {
    let (sample_rate, window) = (44100u32, 4096usize);
    for frequency in [440.0f32, 1000.0, 3000.0] {
        let spectrum = magnitudes(&sine(frequency, sample_rate, 0, window));
        let expected = (frequency * window as f32 / sample_rate as f32).round() as i64;
        let found = peak_bin(&spectrum) as i64;
        assert!((found - expected).abs() <= 1, "{frequency}: {found} vs {expected}");
    }
}

#[test]
fn note_names_in_order() {
    let expected = [
        "C ", "C#", "D ", "D#", "E ", "F ", "F#", "G ", "G#", "A ", "A#", "B ",
    ];
    for (i, name) in expected.iter().enumerate() {
        assert_eq!(note_number_to_name(i as u8 + 1), *name);
    }
}

#[test]
fn key_49_is_a() {
    assert_eq!(key_to_note_number(49), -2);
    assert_eq!(note_number_to_pitch_class(-2), 10);
    assert_eq!(name_of_key(49), "A ");
}

#[test]
fn note_numbers_of_keys() {
    assert_eq!(key_to_note_number(40), 1);
    assert_eq!(name_of_key(40), "C ");
    assert_eq!(key_to_note_number(51), 0);
    assert_eq!(name_of_key(51), "B ");
    assert_eq!(key_to_note_number(52), 1);
    assert_eq!(key_to_note_number(48), 9);
    assert_eq!(name_of_key(48), "G#");
    assert_eq!(key_to_note_number(1), -2);
    assert_eq!(key_to_note_number(0), 9);
    assert_eq!(key_to_note_number(-11), -2);
    assert_eq!(name_of_key(-11), "A ");
    assert_eq!(key_to_note_number(i64::MIN), (i64::MIN as i128 - 1).rem_euclid(12) as i64 - 2);
}

#[test]
fn pitch_class_wraps_every_twelve() {
    assert_eq!(note_number_to_pitch_class(1), 1);
    assert_eq!(note_number_to_pitch_class(12), 12);
    assert_eq!(note_number_to_pitch_class(13), 1);
    assert_eq!(note_number_to_pitch_class(0), 12);
    assert_eq!(note_number_to_pitch_class(-1), 11);
    assert_eq!(note_number_to_pitch_class(-12), 12);
}

#[test]
fn octave_of_keys() {
    assert_eq!(get_octave_by_key_number(0), 1);
    assert_eq!(get_octave_by_key_number(11), 1);
    assert_eq!(get_octave_by_key_number(12), 2);
    assert_eq!(get_octave_by_key_number(40), 4);
    assert_eq!(get_octave_by_key_number(49), 5);
    assert_eq!(get_octave_by_key_number(-1), 0);
    assert_eq!(get_octave_by_key_number(-13), 0);
    assert_eq!(get_octave_by_key_number(3047), 254);
    assert_eq!(get_octave_by_key_number(3060), 255);
    assert_eq!(get_octave_by_key_number(i64::MAX), 255);
}

#[test]
fn cursor_at_origin_selects_first_bin() {
    assert_eq!(select_bin(0, 5, 10), Some(0));
    assert_eq!(select_bin(4, 5, 10), Some(0));
    assert_eq!(select_bin(5, 5, 10), Some(1));
    assert_eq!(select_bin(49, 5, 10), Some(9));
}

#[test]
fn cursor_beyond_last_bar_selects_nothing() {
    assert_eq!(select_bin(50, 5, 10), None);
    assert_eq!(select_bin(52, 5, 10), None);
    assert_eq!(select_bin(i32::MAX, 5, 10), None);
    assert_eq!(select_bin(-1, 5, 10), None);
    assert_eq!(select_bin(3, 5, 0), None);
    assert_eq!(select_bin(3, 0, 10), None);
}

#[test]
fn bar_widths() {
    assert_eq!(bar_width(1500, 278), 5);
    assert_eq!(bar_width(1500, 1500), 1);
    assert_eq!(bar_width(100, 278), 0);
    assert_eq!(bar_width(10, 0), i32::MAX);
    assert_eq!(bar_width(0, 0), 0);
    assert_eq!(bar_width(u32::MAX, 1), i32::MAX);
}

#[test]
fn graph_selects_nothing_before_first_window() {
    let mut g = Graph::<u32>::new(1500, 600, 4096, 3000);
    assert_eq!(g.get_buffer_len(), 0);
    assert!(!g.is_complete());
    assert_eq!(g.selected_bin(0, 44100), None);
    g.refresh(&[1, 2, 3], false);
    assert_eq!(g.get_buffer_len(), 3);
    assert_eq!(g.selected_bin(0, 44100), None);
}

#[test]
fn graph_layout_and_selection() {
    let mut g = Graph::<u32>::new(1500, 600, 4096, 3000);
    let spectrum: Vec<u32> = (0..4096).collect();
    g.refresh(&spectrum, false);
    assert!(g.is_complete());
    assert_eq!(g.max_bins_displayed(44100), 278);
    assert_eq!(g.frequency_bar_width(44100), 5);
    assert_eq!(g.selected_bin(0, 44100), Some(0));
    assert_eq!(g.selected_bin(1389, 44100), Some(277));
    assert_eq!(g.selected_bin(1390, 44100), None);
    g.set_size(278, 100);
    assert_eq!((g.width(), g.height()), (278, 100));
    assert_eq!(g.selected_bin(277, 44100), Some(277));
}

#[test]
fn paused_graph_keeps_its_copy() {
    let mut g = Graph::<u8>::new(10, 10, 2, 1);
    g.refresh(&[1, 2], false);
    g.refresh(&[3, 4, 5], true);
    assert_eq!(g.data(), &vec![1, 2]);
    g.refresh(&[3, 4, 5], false);
    assert_eq!(g.data(), &vec![3, 4, 5]);
    assert_eq!(g.buffer_size(), 2);
    assert_eq!(g.max_displayed_frequency(), 1);
}

#[test]
fn sine_440_selects_a() {
    let sample_rate = 44100u32;
    let window = 4096usize;
    let mut acc = SampleAccumulator::<f32>::new(window);
    let mut produced = vec![];
    let mut t = 0usize;
    for len in [1000usize, 37, 2048, 511, 999, 4096] {
        let chunk = sine(440.0, sample_rate, t, len);
        t += len;
        if let Some(w) = acc.push(&chunk) {
            produced.push(w);
        }
    }
    assert_eq!(produced.len(), 2);
    assert_eq!(produced[0], sine(440.0, sample_rate, 0, window));

    let spectrum = magnitudes(&produced[0]);
    let mut g = Graph::<f32>::new(1500, 600, window, 3000);
    g.refresh(&spectrum, false);
    let bin = peak_bin(g.data());
    assert_eq!(bin, 41);
    let cursor = bin as i32 * g.frequency_bar_width(sample_rate);
    assert_eq!(g.selected_bin(cursor, sample_rate), Some(41));

    let frequency = 41.0 * sample_rate as f32 / window as f32;
    let key = 12.0 * (frequency / 440.0).log2() + 49.0;
    let key = key.round() as i64;
    assert_eq!(key, 49);
    assert_eq!(name_of_key(key), "A ");
    assert_eq!(get_octave_by_key_number(key), 5);
}

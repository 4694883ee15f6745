use vstd::prelude::*;

verus! {

/// Pitch-class position of a whole piano key (key 49 is A4 at 440 Hz): the
/// key's place within its octave counted from C, shifted down by two, so that
/// it lies in `[-2, 10)`. The remainder is taken the Euclidean way, so keys
/// below the first C follow the same cycle.
pub open spec fn note_number_of_key(key: int) -> int {
    (key - 1) % 12 - 2
}

/// The position in `1..=12` (1 being C) of the pitch class that a note
/// number stands for; note numbers twelve apart name the same pitch class.
pub open spec fn pitch_class_of(note_number: int) -> int {
    (note_number - 1) % 12 + 1
}

/// Octave of a whole key: a twelfth of it, rounded down, plus one, held to
/// the range of a byte.
pub open spec fn octave_of_key(key: int) -> int {
    let o = key / 12 + 1;
    if o < 0 {
        0
    } else if o > 255 {
        255
    } else {
        o
    }
}

/// Display names of the twelve pitch classes, C first, each two characters wide.
pub open spec fn note_names() -> Seq<Seq<char>> {
    seq![
        seq!['C', ' '],
        seq!['C', '#'],
        seq!['D', ' '],
        seq!['D', '#'],
        seq!['E', ' '],
        seq!['F', ' '],
        seq!['F', '#'],
        seq!['G', ' '],
        seq!['G', '#'],
        seq!['A', ' '],
        seq!['A', '#'],
        seq!['B', ' '],
    ]
}

/// The note number of a whole piano key.
pub fn key_to_note_number(key: i64) -> (r: i64)
    ensures
        r == note_number_of_key(key as int),
        -2 <= r < 10,
{
    let m: i64 = key % 12;
    // `%` on a signed integer keeps the sign of the dividend: lift it into `0..12`.
    let m: i64 = if m < 0 {
        m + 12
    } else {
        m
    };
    assert(m == (key as int) % 12);
    let shifted: i64 = if m == 0 {
        11
    } else {
        m - 1
    };
    assert(shifted == (key as int - 1) % 12);
    shifted - 2
}

/// The pitch class, in `1..=12`, of any note number.
pub fn note_number_to_pitch_class(note_number: i64) -> (r: u8)
    ensures
        r as int == pitch_class_of(note_number as int),
        1 <= r <= 12,
{
    let m: i64 = note_number % 12;
    let m: i64 = if m < 0 {
        m + 12
    } else {
        m
    };
    assert(m == (note_number as int) % 12);
    let shifted: i64 = if m == 0 {
        11
    } else {
        m - 1
    };
    assert(shifted == (note_number as int - 1) % 12);
    (shifted + 1) as u8
}

/// The display name of pitch class `pitch_class` (1 is C, 12 is B).
pub fn note_number_to_name(pitch_class: u8) -> (r: String)
    requires
        1 <= pitch_class <= 12,
    ensures
        r@ == note_names()[pitch_class - 1],
{
    let name: &str = match pitch_class {
        1 => "C ",
        2 => "C#",
        3 => "D ",
        4 => "D#",
        5 => "E ",
        6 => "F ",
        7 => "F#",
        8 => "G ",
        9 => "G#",
        10 => "A ",
        11 => "A#",
        _ => "B ",
    };
    proof {
        reveal_strlit("C ");
        reveal_strlit("C#");
        reveal_strlit("D ");
        reveal_strlit("D#");
        reveal_strlit("E ");
        reveal_strlit("F ");
        reveal_strlit("F#");
        reveal_strlit("G ");
        reveal_strlit("G#");
        reveal_strlit("A ");
        reveal_strlit("A#");
        reveal_strlit("B ");
    }
    name.to_owned()
}

/// The octave that a whole piano key belongs to.
pub fn get_octave_by_key_number(key: i64) -> (r: u8)
    ensures
        r as int == octave_of_key(key as int),
{
    let q: i64 = key / 12;
    // `/` on a signed integer rounds toward zero: step down for an inexact negative quotient.
    let q: i64 = if key % 12 < 0 {
        q - 1
    } else {
        q
    };
    assert(q == (key as int) / 12);
    let o: i64 = q + 1;
    if o < 0 {
        0
    } else if o > 255 {
        255
    } else {
        o as u8
    }
}

} // verus!

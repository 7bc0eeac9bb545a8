//! Notes of the twelve-tone equal-tempered scale, counted in semitones from C0.
use vstd::prelude::*;

verus! {

/// Number of semitones in one octave.
pub const SEMITONES_PER_OCTAVE: i64 = 12;

/// The label of a semitone within its octave, counted from C.
pub open spec fn note_name(semitone: int) -> Seq<char> {
    if semitone == 0 {
        seq!['C']
    } else if semitone == 1 {
        seq!['C', '#']
    } else if semitone == 2 {
        seq!['D']
    } else if semitone == 3 {
        seq!['D', '#']
    } else if semitone == 4 {
        seq!['E']
    } else if semitone == 5 {
        seq!['F']
    } else if semitone == 6 {
        seq!['F', '#']
    } else if semitone == 7 {
        seq!['G']
    } else if semitone == 8 {
        seq!['G', '#']
    } else if semitone == 9 {
        seq!['A']
    } else if semitone == 10 {
        seq!['A', '#']
    } else {
        seq!['B']
    }
}

/// Octave of the semitone index `h` (counted from C0): rounded towards minus infinity.
pub open spec fn octave_of(h: int) -> int {
    h / 12
}

/// Position of the semitone index `h` within its octave, always in `0..12`.
pub open spec fn semitone_of(h: int) -> int {
    h % 12
}

/// Semitone index, counted from C0, of a note given by octave and semitone.
pub open spec fn index_of(octave: int, semitone: int) -> int {
    12 * octave + semitone
}

/// The decimal digit character for `d` in `0..10`.
pub open spec fn digit_char(d: int) -> char {
    if d == 0 {
        '0'
    } else if d == 1 {
        '1'
    } else if d == 2 {
        '2'
    } else if d == 3 {
        '3'
    } else if d == 4 {
        '4'
    } else if d == 5 {
        '5'
    } else if d == 6 {
        '6'
    } else if d == 7 {
        '7'
    } else if d == 8 {
        '8'
    } else {
        '9'
    }
}

/// Decimal digits of a natural number, most significant first, without leading zeros.
pub open spec fn decimal_digits(n: nat) -> Seq<char>
    decreases n,
{
    if n < 10 {
        seq![digit_char(n as int)]
    } else {
        decimal_digits(n / 10) + seq![digit_char(n as int % 10)]
    }
}

/// Decimal form of an integer, with a leading `-` when it is negative.
pub open spec fn decimal(i: int) -> Seq<char> {
    if i < 0 {
        seq!['-'] + decimal_digits((-i) as nat)
    } else {
        decimal_digits(i as nat)
    }
}

/// Text that names a note: its label, a `-`, and its octave in decimal (`A-4`, `B--1`).
pub open spec fn note_label(semitone: int, octave: int) -> Seq<char> {
    note_name(semitone) + seq!['-'] + decimal(octave)
}

/// One decimal digit as text.
fn digit_str(d: u64) -> (r: &'static str)
    requires
        d < 10,
    ensures
        r@ == seq![digit_char(d as int)],
{
    if d == 0 {
        proof { reveal_strlit("0"); }
        "0"
    } else if d == 1 {
        proof { reveal_strlit("1"); }
        "1"
    } else if d == 2 {
        proof { reveal_strlit("2"); }
        "2"
    } else if d == 3 {
        proof { reveal_strlit("3"); }
        "3"
    } else if d == 4 {
        proof { reveal_strlit("4"); }
        "4"
    } else if d == 5 {
        proof { reveal_strlit("5"); }
        "5"
    } else if d == 6 {
        proof { reveal_strlit("6"); }
        "6"
    } else if d == 7 {
        proof { reveal_strlit("7"); }
        "7"
    } else if d == 8 {
        proof { reveal_strlit("8"); }
        "8"
    } else {
        proof { reveal_strlit("9"); }
        "9"
    }
}

/// Appends the decimal digits of `n` to `s`.
fn push_decimal_digits(s: &mut String, n: u64)
    ensures
        final(s)@ == old(s)@ + decimal_digits(n as nat),
    decreases n,
{
    if n >= 10 {
        push_decimal_digits(s, n / 10);
    }
    s.append(digit_str(n % 10));
}

/// Splitting a semitone index into octave and semitone loses nothing: the
/// semitone lies in `0..12` for every index, negative ones included, and the
/// note's own index is the index it was made from.
pub proof fn lemma_index_round_trip(h: int)
    ensures
        0 <= semitone_of(h) < 12,
        index_of(octave_of(h), semitone_of(h)) == h,
{
}

/// A note's index splits back into the same octave and semitone.
pub proof fn lemma_note_round_trip(octave: int, semitone: int)
    requires
        0 <= semitone < 12,
    ensures
        octave_of(index_of(octave, semitone)) == octave,
        semitone_of(index_of(octave, semitone)) == semitone,
{
    vstd::arithmetic::div_mod::lemma_fundamental_div_mod_converse(
        index_of(octave, semitone),
        12,
        octave,
        semitone,
    );
}

/// A note of the equal-tempered scale: a semitone within an octave.
#[derive(Clone, Copy, Debug, PartialEq, Eq)]
pub struct Note {
    semitone: u8,
    octave: i64,
}

impl Note {
    #[verifier::type_invariant]
    spec fn inv(&self) -> bool {
        self.semitone < 12
    }

    /// Position within the octave, counted from C.
    pub closed spec fn semitone_spec(&self) -> int {
        self.semitone as int
    }

    /// The octave, where octave 0 starts at C0.
    pub closed spec fn octave_spec(&self) -> int {
        self.octave as int
    }

    /// The note that lies `h` semitones above C0 (below it where `h` is negative).
    pub fn from_semitone_index(h: i64) -> (n: Note)
        ensures
            n.semitone_spec() == semitone_of(h as int),
            n.octave_spec() == octave_of(h as int),
            0 <= n.semitone_spec() < 12,
    {
        let semitone = h.checked_rem_euclid(SEMITONES_PER_OCTAVE).unwrap();
        let octave = h.checked_div_euclid(SEMITONES_PER_OCTAVE).unwrap();
        Note { semitone: semitone as u8, octave }
    }

    /// The note at a given semitone (`0` is C, `11` is B) of a given octave.
    pub fn new(semitone: u8, octave: i64) -> (n: Note)
        requires
            semitone < 12,
        ensures
            n.semitone_spec() == semitone as int,
            n.octave_spec() == octave as int,
    {
        Note { semitone, octave }
    }

    /// Position within the octave, counted from C.
    pub fn semitone(&self) -> (r: u8)
        ensures
            r as int == self.semitone_spec(),
            r < 12,
    {
        proof {
            use_type_invariant(self);
        }
        self.semitone
    }

    /// The octave, where octave 0 starts at C0.
    pub fn octave(&self) -> (r: i64)
        ensures
            r as int == self.octave_spec(),
    {
        self.octave
    }

    /// Semitone index of this note, counted from C0.
    pub fn semitone_index(&self) -> (r: i128)
        ensures
            r as int == index_of(self.octave_spec(), self.semitone_spec()),
    {
        12 * (self.octave as i128) + (self.semitone as i128)
    }

    /// The label of this note within its octave (`C`, `C#`, ..., `B`).
    pub fn name(&self) -> (r: &'static str)
        ensures
            r@ == note_name(self.semitone_spec()),
    {
        proof {
            use_type_invariant(self);
        }
        match self.semitone {
            0 => {
                proof { reveal_strlit("C"); }
                "C"
            },
            1 => {
                proof { reveal_strlit("C#"); }
                "C#"
            },
            2 => {
                proof { reveal_strlit("D"); }
                "D"
            },
            3 => {
                proof { reveal_strlit("D#"); }
                "D#"
            },
            4 => {
                proof { reveal_strlit("E"); }
                "E"
            },
            5 => {
                proof { reveal_strlit("F"); }
                "F"
            },
            6 => {
                proof { reveal_strlit("F#"); }
                "F#"
            },
            7 => {
                proof { reveal_strlit("G"); }
                "G"
            },
            8 => {
                proof { reveal_strlit("G#"); }
                "G#"
            },
            9 => {
                proof { reveal_strlit("A"); }
                "A"
            },
            10 => {
                proof { reveal_strlit("A#"); }
                "A#"
            },
            _ => {
                proof { reveal_strlit("B"); }
                "B"
            },
        }
    }

    /// The note's label, a `-` and its octave (`A-4`; `B--1` one octave below C0).
    pub fn label(&self) -> (r: String)
        ensures
            r@ == note_label(self.semitone_spec(), self.octave_spec()),
    {
        let mut s = String::from_str(self.name());
        proof { reveal_strlit("-"); }
        s.append("-");
        if self.octave < 0 {
            s.append("-");
            let magnitude: u64 = (0i128 - self.octave as i128) as u64;
            push_decimal_digits(&mut s, magnitude);
        } else {
            push_decimal_digits(&mut s, self.octave as u64);
        }
        proof {
            assert(s@ =~= note_label(self.semitone_spec(), self.octave_spec()));
        }
        s
    }
}

} // verus!

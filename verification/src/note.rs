//! The table of playable notes: thirty semitones from C3 to F5, each with its
//! frequency, its name and the key that plays it.

use vstd::arithmetic::power2::{lemma2_to64, pow2};
use vstd::prelude::*;
use vstd::string::StrSliceExecFns;

verus! {

/// The number of notes in the table.
pub const NOTE_COUNT: usize = 30;

/// The position of A4, the note that the tuning starts from.
pub const A4_INDEX: usize = 21;

/// The frequency of A4 in hundredths of a hertz.
pub const A4_FREQ: u32 = 44000;

/// A playable note, in rising order of pitch. Neighbours are one semitone
/// apart.
#[derive(Debug, Clone, Copy, PartialEq, Eq, Structural, PartialOrd, Ord, Hash)]
pub enum Note {
    C3,
    CSharp3,
    D3,
    DSharp3,
    E3,
    F3,
    FSharp3,
    G3,
    GSharp3,
    A3,
    ASharp3,
    B3,
    C4,
    CSharp4,
    D4,
    DSharp4,
    E4,
    F4,
    FSharp4,
    G4,
    GSharp4,
    A4,
    ASharp4,
    B4,
    C5,
    CSharp5,
    D5,
    DSharp5,
    E5,
    F5,
}

/// A key of the keyboard, as far as the table reads it: the text of a key
/// that produces characters, or any other key.
#[derive(Debug, Clone, PartialEq, Eq)]
pub enum Key {
    Character(String),
    Other,
}

/// Whether `pattern` stands somewhere in `text`, character for character.
pub open spec fn contains_text(text: Seq<char>, pattern: Seq<char>) -> bool {
    exists|start: int|
        0 <= start && start + pattern.len() <= text.len() && #[trigger] text.subrange(
            start,
            start + pattern.len(),
        ) == pattern
}

/// A pattern that stands at a given place of a text stands somewhere in it.
pub proof fn lemma_contains_at(text: Seq<char>, pattern: Seq<char>, start: int)
    requires
        0 <= start,
        start + pattern.len() <= text.len(),
        forall|i: int| 0 <= i < pattern.len() ==> text[start + i] == pattern[i],
    ensures
        contains_text(text, pattern),
{
    assert(text.subrange(start, start + pattern.len()) =~= pattern);
}

/// Filtering the first elements of a sequence, one more at a time: of none
/// nothing is kept; of one more, what was kept before and the new element
/// if it passes; and the first elements up to the length are the sequence.
pub proof fn lemma_filter_one_more<A>(s: Seq<A>, pred: spec_fn(A) -> bool, count: int)
    ensures
        s.take(0).filter(pred) == Seq::<A>::empty(),
        s.take(s.len() as int) == s,
        0 <= count < s.len() ==> s.take(count + 1).filter(pred) == if pred(s[count]) {
            s.take(count).filter(pred).push(s[count])
        } else {
            s.take(count).filter(pred)
        },
{
    reveal(Seq::filter);
    assert(s.take(0).filter(pred) =~= Seq::<A>::empty());
    assert(s.take(s.len() as int) =~= s);
    if 0 <= count < s.len() {
        assert(s.take(count + 1).drop_last() =~= s.take(count));
    }
}

/// The twelfth power of a number.
pub open spec fn twelfth_power(x: int) -> int {
    let square = x * x;
    let sixth = square * square * square;
    sixth * sixth
}

/// Notes in strictly rising order of their place in the table.
pub open spec fn strictly_rising(notes: Seq<Note>) -> bool {
    forall|i: int, j: int|
        0 <= i < j < notes.len() ==> notes[i].index_spec() < notes[j].index_spec()
}

/// Notes in strictly rising order are no more than the table holds.
pub proof fn lemma_rising_fits_table(notes: Seq<Note>)
    requires
        strictly_rising(notes),
    ensures
        notes.len() <= NOTE_COUNT,
    decreases notes.len(),
{
    lemma_rising_from(notes, notes.len() - 1);
}

proof fn lemma_rising_from(notes: Seq<Note>, i: int)
    requires
        strictly_rising(notes),
        -1 <= i < notes.len(),
    ensures
        i >= 0 ==> notes[i].index_spec() >= i,
        i >= 0 ==> notes[i].index_spec() < NOTE_COUNT,
    decreases i + 1,
{
    if i > 0 {
        lemma_rising_from(notes, i - 1);
    }
}

impl Note {
    /// The note's position in the table, counted from zero.
    pub open spec fn index_spec(self) -> nat {
        match self {
            Note::C3 => 0,
            Note::CSharp3 => 1,
            Note::D3 => 2,
            Note::DSharp3 => 3,
            Note::E3 => 4,
            Note::F3 => 5,
            Note::FSharp3 => 6,
            Note::G3 => 7,
            Note::GSharp3 => 8,
            Note::A3 => 9,
            Note::ASharp3 => 10,
            Note::B3 => 11,
            Note::C4 => 12,
            Note::CSharp4 => 13,
            Note::D4 => 14,
            Note::DSharp4 => 15,
            Note::E4 => 16,
            Note::F4 => 17,
            Note::FSharp4 => 18,
            Note::G4 => 19,
            Note::GSharp4 => 20,
            Note::A4 => 21,
            Note::ASharp4 => 22,
            Note::B4 => 23,
            Note::C5 => 24,
            Note::CSharp5 => 25,
            Note::D5 => 26,
            Note::DSharp5 => 27,
            Note::E5 => 28,
            Note::F5 => 29,
        }
    }

    /// The note at a position of the table. Positions past the end give the
    /// last note.
    pub open spec fn at(index: int) -> Note {
        if index == 0 {
            Note::C3
        } else if index == 1 {
            Note::CSharp3
        } else if index == 2 {
            Note::D3
        } else if index == 3 {
            Note::DSharp3
        } else if index == 4 {
            Note::E3
        } else if index == 5 {
            Note::F3
        } else if index == 6 {
            Note::FSharp3
        } else if index == 7 {
            Note::G3
        } else if index == 8 {
            Note::GSharp3
        } else if index == 9 {
            Note::A3
        } else if index == 10 {
            Note::ASharp3
        } else if index == 11 {
            Note::B3
        } else if index == 12 {
            Note::C4
        } else if index == 13 {
            Note::CSharp4
        } else if index == 14 {
            Note::D4
        } else if index == 15 {
            Note::DSharp4
        } else if index == 16 {
            Note::E4
        } else if index == 17 {
            Note::F4
        } else if index == 18 {
            Note::FSharp4
        } else if index == 19 {
            Note::G4
        } else if index == 20 {
            Note::GSharp4
        } else if index == 21 {
            Note::A4
        } else if index == 22 {
            Note::ASharp4
        } else if index == 23 {
            Note::B4
        } else if index == 24 {
            Note::C5
        } else if index == 25 {
            Note::CSharp5
        } else if index == 26 {
            Note::D5
        } else if index == 27 {
            Note::DSharp5
        } else if index == 28 {
            Note::E5
        } else {
            Note::F5
        }
    }

    /// The note's frequency in hundredths of a hertz.
    pub open spec fn freq_spec(self) -> nat {
        match self {
            Note::C3 => 13081,
            Note::CSharp3 => 13859,
            Note::D3 => 14683,
            Note::DSharp3 => 15556,
            Note::E3 => 16481,
            Note::F3 => 17461,
            Note::FSharp3 => 18500,
            Note::G3 => 19600,
            Note::GSharp3 => 20765,
            Note::A3 => 22000,
            Note::ASharp3 => 23308,
            Note::B3 => 24694,
            Note::C4 => 26163,
            Note::CSharp4 => 27718,
            Note::D4 => 29366,
            Note::DSharp4 => 31113,
            Note::E4 => 32963,
            Note::F4 => 34923,
            Note::FSharp4 => 36999,
            Note::G4 => 39200,
            Note::GSharp4 => 41530,
            Note::A4 => 44000,
            Note::ASharp4 => 46616,
            Note::B4 => 49388,
            Note::C5 => 52325,
            Note::CSharp5 => 55437,
            Note::D5 => 58733,
            Note::DSharp5 => 62225,
            Note::E5 => 65926,
            Note::F5 => 69846,
        }
    }

    /// The note's name: its letter, `Sharp` where it is raised by a
    /// semitone, and its octave.
    pub open spec fn name_spec(self) -> Seq<char> {
        match self {
            Note::C3 => "C3"@,
            Note::CSharp3 => "CSharp3"@,
            Note::D3 => "D3"@,
            Note::DSharp3 => "DSharp3"@,
            Note::E3 => "E3"@,
            Note::F3 => "F3"@,
            Note::FSharp3 => "FSharp3"@,
            Note::G3 => "G3"@,
            Note::GSharp3 => "GSharp3"@,
            Note::A3 => "A3"@,
            Note::ASharp3 => "ASharp3"@,
            Note::B3 => "B3"@,
            Note::C4 => "C4"@,
            Note::CSharp4 => "CSharp4"@,
            Note::D4 => "D4"@,
            Note::DSharp4 => "DSharp4"@,
            Note::E4 => "E4"@,
            Note::F4 => "F4"@,
            Note::FSharp4 => "FSharp4"@,
            Note::G4 => "G4"@,
            Note::GSharp4 => "GSharp4"@,
            Note::A4 => "A4"@,
            Note::ASharp4 => "ASharp4"@,
            Note::B4 => "B4"@,
            Note::C5 => "C5"@,
            Note::CSharp5 => "CSharp5"@,
            Note::D5 => "D5"@,
            Note::DSharp5 => "DSharp5"@,
            Note::E5 => "E5"@,
            Note::F5 => "F5"@,
        }
    }

    /// The note that a character plays, if it plays one.
    pub open spec fn of_char(c: char) -> Option<Note> {
        if c == 'z' {
            Some(Note::C3)
        } else if c == 's' {
            Some(Note::CSharp3)
        } else if c == 'x' {
            Some(Note::D3)
        } else if c == 'd' {
            Some(Note::DSharp3)
        } else if c == 'c' {
            Some(Note::E3)
        } else if c == 'v' {
            Some(Note::F3)
        } else if c == 'g' {
            Some(Note::FSharp3)
        } else if c == 'b' {
            Some(Note::G3)
        } else if c == 'h' {
            Some(Note::GSharp3)
        } else if c == 'n' {
            Some(Note::A3)
        } else if c == 'j' {
            Some(Note::ASharp3)
        } else if c == 'm' {
            Some(Note::B3)
        } else if c == 'q' {
            Some(Note::C4)
        } else if c == '2' {
            Some(Note::CSharp4)
        } else if c == 'w' {
            Some(Note::D4)
        } else if c == '3' {
            Some(Note::DSharp4)
        } else if c == 'e' {
            Some(Note::E4)
        } else if c == 'r' {
            Some(Note::F4)
        } else if c == '5' {
            Some(Note::FSharp4)
        } else if c == 't' {
            Some(Note::G4)
        } else if c == '6' {
            Some(Note::GSharp4)
        } else if c == 'y' {
            Some(Note::A4)
        } else if c == '7' {
            Some(Note::ASharp4)
        } else if c == 'u' {
            Some(Note::B4)
        } else if c == 'i' {
            Some(Note::C5)
        } else if c == '9' {
            Some(Note::CSharp5)
        } else if c == 'o' {
            Some(Note::D5)
        } else if c == '0' {
            Some(Note::DSharp5)
        } else if c == 'p' {
            Some(Note::E5)
        } else if c == '[' {
            Some(Note::F5)
        } else {
            None
        }
    }

    /// The note that a key's text plays: the text must be one character, and
    /// that character must play a note.
    pub open spec fn of_text(text: Seq<char>) -> Option<Note> {
        if text.len() == 1 {
            Self::of_char(text[0])
        } else {
            None
        }
    }

    /// The note that a key plays, if it plays one.
    pub open spec fn of_key(key: Key) -> Option<Note> {
        match key {
            Key::Character(text) => Self::of_text(text@),
            Key::Other => None,
        }
    }

    /// Every note of the table, lowest first.
    pub open spec fn all_spec() -> Seq<Note> {
        Seq::new(NOTE_COUNT as nat, |i: int| Self::at(i))
    }

    /// Whether the note is one of the scale of C major: its name does not
    /// say `Sharp`.
    pub open spec fn is_major_spec(self) -> bool {
        !contains_text(self.name_spec(), "Sharp"@)
    }

    /// The notes of the scale of C major, lowest first.
    pub open spec fn major_notes_spec() -> Seq<Note> {
        Self::all_spec().filter(|note: Note| note.is_major_spec())
    }

    pub fn index(&self) -> (index: usize)
        ensures
            index == self.index_spec(),
            index < NOTE_COUNT,
            Self::at(index as int) == *self,
    {
        match self {
            Note::C3 => 0,
            Note::CSharp3 => 1,
            Note::D3 => 2,
            Note::DSharp3 => 3,
            Note::E3 => 4,
            Note::F3 => 5,
            Note::FSharp3 => 6,
            Note::G3 => 7,
            Note::GSharp3 => 8,
            Note::A3 => 9,
            Note::ASharp3 => 10,
            Note::B3 => 11,
            Note::C4 => 12,
            Note::CSharp4 => 13,
            Note::D4 => 14,
            Note::DSharp4 => 15,
            Note::E4 => 16,
            Note::F4 => 17,
            Note::FSharp4 => 18,
            Note::G4 => 19,
            Note::GSharp4 => 20,
            Note::A4 => 21,
            Note::ASharp4 => 22,
            Note::B4 => 23,
            Note::C5 => 24,
            Note::CSharp5 => 25,
            Note::D5 => 26,
            Note::DSharp5 => 27,
            Note::E5 => 28,
            Note::F5 => 29,
        }
    }

    /// The note at a position of the table, if the table is that long.
    pub fn from_index(index: usize) -> (note: Option<Note>)
        ensures
            note.is_some() <==> index < NOTE_COUNT,
            note.is_some() ==> note.unwrap() == Self::at(index as int)
                && note.unwrap().index_spec() == index,
    {
        match index {
            0 => Some(Note::C3),
            1 => Some(Note::CSharp3),
            2 => Some(Note::D3),
            3 => Some(Note::DSharp3),
            4 => Some(Note::E3),
            5 => Some(Note::F3),
            6 => Some(Note::FSharp3),
            7 => Some(Note::G3),
            8 => Some(Note::GSharp3),
            9 => Some(Note::A3),
            10 => Some(Note::ASharp3),
            11 => Some(Note::B3),
            12 => Some(Note::C4),
            13 => Some(Note::CSharp4),
            14 => Some(Note::D4),
            15 => Some(Note::DSharp4),
            16 => Some(Note::E4),
            17 => Some(Note::F4),
            18 => Some(Note::FSharp4),
            19 => Some(Note::G4),
            20 => Some(Note::GSharp4),
            21 => Some(Note::A4),
            22 => Some(Note::ASharp4),
            23 => Some(Note::B4),
            24 => Some(Note::C5),
            25 => Some(Note::CSharp5),
            26 => Some(Note::D5),
            27 => Some(Note::DSharp5),
            28 => Some(Note::E5),
            29 => Some(Note::F5),
            _ => None,
        }
    }

    /// The note's frequency in hundredths of a hertz.
    pub fn freq(&self) -> (freq: u32)
        ensures
            freq == self.freq_spec(),
            freq > 0,
    {
        match self {
            Note::C3 => 13081,
            Note::CSharp3 => 13859,
            Note::D3 => 14683,
            Note::DSharp3 => 15556,
            Note::E3 => 16481,
            Note::F3 => 17461,
            Note::FSharp3 => 18500,
            Note::G3 => 19600,
            Note::GSharp3 => 20765,
            Note::A3 => 22000,
            Note::ASharp3 => 23308,
            Note::B3 => 24694,
            Note::C4 => 26163,
            Note::CSharp4 => 27718,
            Note::D4 => 29366,
            Note::DSharp4 => 31113,
            Note::E4 => 32963,
            Note::F4 => 34923,
            Note::FSharp4 => 36999,
            Note::G4 => 39200,
            Note::GSharp4 => 41530,
            Note::A4 => 44000,
            Note::ASharp4 => 46616,
            Note::B4 => 49388,
            Note::C5 => 52325,
            Note::CSharp5 => 55437,
            Note::D5 => 58733,
            Note::DSharp5 => 62225,
            Note::E5 => 65926,
            Note::F5 => 69846,
        }
    }

    /// The note's name.
    pub fn name(&self) -> (name: &'static str)
        ensures
            name@ == self.name_spec(),
    {
        match self {
            Note::C3 => "C3",
            Note::CSharp3 => "CSharp3",
            Note::D3 => "D3",
            Note::DSharp3 => "DSharp3",
            Note::E3 => "E3",
            Note::F3 => "F3",
            Note::FSharp3 => "FSharp3",
            Note::G3 => "G3",
            Note::GSharp3 => "GSharp3",
            Note::A3 => "A3",
            Note::ASharp3 => "ASharp3",
            Note::B3 => "B3",
            Note::C4 => "C4",
            Note::CSharp4 => "CSharp4",
            Note::D4 => "D4",
            Note::DSharp4 => "DSharp4",
            Note::E4 => "E4",
            Note::F4 => "F4",
            Note::FSharp4 => "FSharp4",
            Note::G4 => "G4",
            Note::GSharp4 => "GSharp4",
            Note::A4 => "A4",
            Note::ASharp4 => "ASharp4",
            Note::B4 => "B4",
            Note::C5 => "C5",
            Note::CSharp5 => "CSharp5",
            Note::D5 => "D5",
            Note::DSharp5 => "DSharp5",
            Note::E5 => "E5",
            Note::F5 => "F5",
        }
    }

    /// The note that a character plays, if it plays one.
    pub fn from_char(c: char) -> (note: Option<Note>)
        ensures
            note == Self::of_char(c),
    {
        match c {
            'z' => Some(Note::C3),
            's' => Some(Note::CSharp3),
            'x' => Some(Note::D3),
            'd' => Some(Note::DSharp3),
            'c' => Some(Note::E3),
            'v' => Some(Note::F3),
            'g' => Some(Note::FSharp3),
            'b' => Some(Note::G3),
            'h' => Some(Note::GSharp3),
            'n' => Some(Note::A3),
            'j' => Some(Note::ASharp3),
            'm' => Some(Note::B3),
            'q' => Some(Note::C4),
            '2' => Some(Note::CSharp4),
            'w' => Some(Note::D4),
            '3' => Some(Note::DSharp4),
            'e' => Some(Note::E4),
            'r' => Some(Note::F4),
            '5' => Some(Note::FSharp4),
            't' => Some(Note::G4),
            '6' => Some(Note::GSharp4),
            'y' => Some(Note::A4),
            '7' => Some(Note::ASharp4),
            'u' => Some(Note::B4),
            'i' => Some(Note::C5),
            '9' => Some(Note::CSharp5),
            'o' => Some(Note::D5),
            '0' => Some(Note::DSharp5),
            'p' => Some(Note::E5),
            '[' => Some(Note::F5),
            _ => None,
        }
    }

    /// The note that a key's text plays, if it plays one.
    pub fn from_text(text: &str) -> (note: Option<Note>)
        ensures
            note == Self::of_text(text@),
    {
        if text.unicode_len() == 1 {
            Self::from_char(text.get_char(0))
        } else {
            None
        }
    }

    /// The note that a key plays. A key that plays none is refused.
    pub fn try_from(key: Key) -> (note: Result<Note, ()>)
        ensures
            note.is_ok() <==> Self::of_key(key).is_some(),
            note.is_ok() ==> Self::of_key(key) == Some(note.unwrap()),
    {
        match key {
            Key::Character(text) => match Self::from_text(text.as_str()) {
                Some(note) => Ok(note),
                None => Err(()),
            },
            Key::Other => Err(()),
        }
    }

    /// The table is tuned in equal temperament from A4 at 440 Hz: each
    /// frequency is 440 Hz times the twelfth root of two, taken as often as
    /// the note is semitones above A4, rounded to the nearest hundredth of
    /// a hertz.
    ///
    /// With `f` the frequency in hundredths and `i` the note's place, the
    /// exact value lies between `f - 1/2` and `f + 1/2`. Both bounds are
    /// doubled and raised to the twelfth power here, so that only whole
    /// numbers are compared.
    pub proof fn lemma_equal_tempered(self)
        ensures
            twelfth_power(2 * self.freq_spec() - 1) * pow2(A4_INDEX as nat) <= twelfth_power(
                2 * A4_FREQ as int,
            ) * pow2(self.index_spec()),
            twelfth_power(2 * A4_FREQ as int) * pow2(self.index_spec()) <= twelfth_power(
                (2 * self.freq_spec() + 1) as int,
            ) * pow2(A4_INDEX as nat),
    {
        lemma2_to64();
        match self {
            Note::C3 => {
                assert(twelfth_power(26161) * 2097152 <= twelfth_power(88000) * 1
                    && twelfth_power(88000) * 1 <= twelfth_power(26163) * 2097152)
                    by (nonlinear_arith);
            },
            Note::CSharp3 => {
                assert(twelfth_power(27717) * 2097152 <= twelfth_power(88000) * 2
                    && twelfth_power(88000) * 2 <= twelfth_power(27719) * 2097152)
                    by (nonlinear_arith);
            },
            Note::D3 => {
                assert(twelfth_power(29365) * 2097152 <= twelfth_power(88000) * 4
                    && twelfth_power(88000) * 4 <= twelfth_power(29367) * 2097152)
                    by (nonlinear_arith);
            },
            Note::DSharp3 => {
                assert(twelfth_power(31111) * 2097152 <= twelfth_power(88000) * 8
                    && twelfth_power(88000) * 8 <= twelfth_power(31113) * 2097152)
                    by (nonlinear_arith);
            },
            Note::E3 => {
                assert(twelfth_power(32961) * 2097152 <= twelfth_power(88000) * 16
                    && twelfth_power(88000) * 16 <= twelfth_power(32963) * 2097152)
                    by (nonlinear_arith);
            },
            Note::F3 => {
                assert(twelfth_power(34921) * 2097152 <= twelfth_power(88000) * 32
                    && twelfth_power(88000) * 32 <= twelfth_power(34923) * 2097152)
                    by (nonlinear_arith);
            },
            Note::FSharp3 => {
                assert(twelfth_power(36999) * 2097152 <= twelfth_power(88000) * 64
                    && twelfth_power(88000) * 64 <= twelfth_power(37001) * 2097152)
                    by (nonlinear_arith);
            },
            Note::G3 => {
                assert(twelfth_power(39199) * 2097152 <= twelfth_power(88000) * 128
                    && twelfth_power(88000) * 128 <= twelfth_power(39201) * 2097152)
                    by (nonlinear_arith);
            },
            Note::GSharp3 => {
                assert(twelfth_power(41529) * 2097152 <= twelfth_power(88000) * 256
                    && twelfth_power(88000) * 256 <= twelfth_power(41531) * 2097152)
                    by (nonlinear_arith);
            },
            Note::A3 => {
                assert(twelfth_power(43999) * 2097152 <= twelfth_power(88000) * 512
                    && twelfth_power(88000) * 512 <= twelfth_power(44001) * 2097152)
                    by (nonlinear_arith);
            },
            Note::ASharp3 => {
                assert(twelfth_power(46615) * 2097152 <= twelfth_power(88000) * 1024
                    && twelfth_power(88000) * 1024 <= twelfth_power(46617) * 2097152)
                    by (nonlinear_arith);
            },
            Note::B3 => {
                assert(twelfth_power(49387) * 2097152 <= twelfth_power(88000) * 2048
                    && twelfth_power(88000) * 2048 <= twelfth_power(49389) * 2097152)
                    by (nonlinear_arith);
            },
            Note::C4 => {
                assert(twelfth_power(52325) * 2097152 <= twelfth_power(88000) * 4096
                    && twelfth_power(88000) * 4096 <= twelfth_power(52327) * 2097152)
                    by (nonlinear_arith);
            },
            Note::CSharp4 => {
                assert(twelfth_power(55435) * 2097152 <= twelfth_power(88000) * 8192
                    && twelfth_power(88000) * 8192 <= twelfth_power(55437) * 2097152)
                    by (nonlinear_arith);
            },
            Note::D4 => {
                assert(twelfth_power(58731) * 2097152 <= twelfth_power(88000) * 16384
                    && twelfth_power(88000) * 16384 <= twelfth_power(58733) * 2097152)
                    by (nonlinear_arith);
            },
            Note::DSharp4 => {
                assert(twelfth_power(62225) * 2097152 <= twelfth_power(88000) * 32768
                    && twelfth_power(88000) * 32768 <= twelfth_power(62227) * 2097152)
                    by (nonlinear_arith);
            },
            Note::E4 => {
                assert(twelfth_power(65925) * 2097152 <= twelfth_power(88000) * 65536
                    && twelfth_power(88000) * 65536 <= twelfth_power(65927) * 2097152)
                    by (nonlinear_arith);
            },
            Note::F4 => {
                assert(twelfth_power(69845) * 2097152 <= twelfth_power(88000) * 131072
                    && twelfth_power(88000) * 131072 <= twelfth_power(69847) * 2097152)
                    by (nonlinear_arith);
            },
            Note::FSharp4 => {
                assert(twelfth_power(73997) * 2097152 <= twelfth_power(88000) * 262144
                    && twelfth_power(88000) * 262144 <= twelfth_power(73999) * 2097152)
                    by (nonlinear_arith);
            },
            Note::G4 => {
                assert(twelfth_power(78399) * 2097152 <= twelfth_power(88000) * 524288
                    && twelfth_power(88000) * 524288 <= twelfth_power(78401) * 2097152)
                    by (nonlinear_arith);
            },
            Note::GSharp4 => {
                assert(twelfth_power(83059) * 2097152 <= twelfth_power(88000) * 1048576
                    && twelfth_power(88000) * 1048576 <= twelfth_power(83061) * 2097152)
                    by (nonlinear_arith);
            },
            Note::A4 => {
                assert(twelfth_power(87999) * 2097152 <= twelfth_power(88000) * 2097152
                    && twelfth_power(88000) * 2097152 <= twelfth_power(88001) * 2097152)
                    by (nonlinear_arith);
            },
            Note::ASharp4 => {
                assert(twelfth_power(93231) * 2097152 <= twelfth_power(88000) * 4194304
                    && twelfth_power(88000) * 4194304 <= twelfth_power(93233) * 2097152)
                    by (nonlinear_arith);
            },
            Note::B4 => {
                assert(twelfth_power(98775) * 2097152 <= twelfth_power(88000) * 8388608
                    && twelfth_power(88000) * 8388608 <= twelfth_power(98777) * 2097152)
                    by (nonlinear_arith);
            },
            Note::C5 => {
                assert(twelfth_power(104649) * 2097152 <= twelfth_power(88000) * 16777216
                    && twelfth_power(88000) * 16777216 <= twelfth_power(104651) * 2097152)
                    by (nonlinear_arith);
            },
            Note::CSharp5 => {
                assert(twelfth_power(110873) * 2097152 <= twelfth_power(88000) * 33554432
                    && twelfth_power(88000) * 33554432 <= twelfth_power(110875) * 2097152)
                    by (nonlinear_arith);
            },
            Note::D5 => {
                assert(twelfth_power(117465) * 2097152 <= twelfth_power(88000) * 67108864
                    && twelfth_power(88000) * 67108864 <= twelfth_power(117467) * 2097152)
                    by (nonlinear_arith);
            },
            Note::DSharp5 => {
                assert(twelfth_power(124449) * 2097152 <= twelfth_power(88000) * 134217728
                    && twelfth_power(88000) * 134217728 <= twelfth_power(124451) * 2097152)
                    by (nonlinear_arith);
            },
            Note::E5 => {
                assert(twelfth_power(131851) * 2097152 <= twelfth_power(88000) * 268435456
                    && twelfth_power(88000) * 268435456 <= twelfth_power(131853) * 2097152)
                    by (nonlinear_arith);
            },
            Note::F5 => {
                assert(twelfth_power(139691) * 2097152 <= twelfth_power(88000) * 536870912
                    && twelfth_power(88000) * 536870912 <= twelfth_power(139693) * 2097152)
                    by (nonlinear_arith);
            },
        }
    }

    /// Every frequency is positive, and a note further up the table has the
    /// higher frequency.
    pub proof fn lemma_freq_rises(self, other: Note)
        ensures
            self.freq_spec() > 0,
            self.index_spec() < other.index_spec() <==> self.freq_spec() < other.freq_spec(),
    {
    }

    /// The place of a note is within the table, and the note stands there.
    pub proof fn lemma_at_of_index(self)
        ensures
            self.index_spec() < NOTE_COUNT,
            Self::at(self.index_spec() as int) == self,
    {
    }

    /// The name says `Sharp` exactly for the raised notes of an octave: the
    /// second, fourth, seventh, ninth and eleventh semitone from C.
    pub proof fn lemma_sharps_by_name(self)
        ensures
            self.is_major_spec() <==> !(self.index_spec() % 12 == 1 || self.index_spec() % 12 == 3
                || self.index_spec() % 12 == 6 || self.index_spec() % 12 == 8
                || self.index_spec() % 12 == 10),
    {
        reveal_strlit("Sharp");
        match self {
            Note::C3 => {
                reveal_strlit("C3");
            },
            Note::CSharp3 => {
                reveal_strlit("CSharp3");
                lemma_contains_at("CSharp3"@, "Sharp"@, 1);
            },
            Note::D3 => {
                reveal_strlit("D3");
            },
            Note::DSharp3 => {
                reveal_strlit("DSharp3");
                lemma_contains_at("DSharp3"@, "Sharp"@, 1);
            },
            Note::E3 => {
                reveal_strlit("E3");
            },
            Note::F3 => {
                reveal_strlit("F3");
            },
            Note::FSharp3 => {
                reveal_strlit("FSharp3");
                lemma_contains_at("FSharp3"@, "Sharp"@, 1);
            },
            Note::G3 => {
                reveal_strlit("G3");
            },
            Note::GSharp3 => {
                reveal_strlit("GSharp3");
                lemma_contains_at("GSharp3"@, "Sharp"@, 1);
            },
            Note::A3 => {
                reveal_strlit("A3");
            },
            Note::ASharp3 => {
                reveal_strlit("ASharp3");
                lemma_contains_at("ASharp3"@, "Sharp"@, 1);
            },
            Note::B3 => {
                reveal_strlit("B3");
            },
            Note::C4 => {
                reveal_strlit("C4");
            },
            Note::CSharp4 => {
                reveal_strlit("CSharp4");
                lemma_contains_at("CSharp4"@, "Sharp"@, 1);
            },
            Note::D4 => {
                reveal_strlit("D4");
            },
            Note::DSharp4 => {
                reveal_strlit("DSharp4");
                lemma_contains_at("DSharp4"@, "Sharp"@, 1);
            },
            Note::E4 => {
                reveal_strlit("E4");
            },
            Note::F4 => {
                reveal_strlit("F4");
            },
            Note::FSharp4 => {
                reveal_strlit("FSharp4");
                lemma_contains_at("FSharp4"@, "Sharp"@, 1);
            },
            Note::G4 => {
                reveal_strlit("G4");
            },
            Note::GSharp4 => {
                reveal_strlit("GSharp4");
                lemma_contains_at("GSharp4"@, "Sharp"@, 1);
            },
            Note::A4 => {
                reveal_strlit("A4");
            },
            Note::ASharp4 => {
                reveal_strlit("ASharp4");
                lemma_contains_at("ASharp4"@, "Sharp"@, 1);
            },
            Note::B4 => {
                reveal_strlit("B4");
            },
            Note::C5 => {
                reveal_strlit("C5");
            },
            Note::CSharp5 => {
                reveal_strlit("CSharp5");
                lemma_contains_at("CSharp5"@, "Sharp"@, 1);
            },
            Note::D5 => {
                reveal_strlit("D5");
            },
            Note::DSharp5 => {
                reveal_strlit("DSharp5");
                lemma_contains_at("DSharp5"@, "Sharp"@, 1);
            },
            Note::E5 => {
                reveal_strlit("E5");
            },
            Note::F5 => {
                reveal_strlit("F5");
            },
        }
    }

    /// Whether the note is one of the scale of C major.
    pub fn is_major(&self) -> (major: bool)
        ensures
            major == self.is_major_spec(),
    {
        proof {
            self.lemma_sharps_by_name();
        }
        match self {
            Note::CSharp3
            | Note::DSharp3
            | Note::FSharp3
            | Note::GSharp3
            | Note::ASharp3
            | Note::CSharp4
            | Note::DSharp4
            | Note::FSharp4
            | Note::GSharp4
            | Note::ASharp4
            | Note::CSharp5
            | Note::DSharp5 => false,
            _ => true,
        }
    }

    /// The notes of the scale of C major, lowest first.
    pub fn major_notes() -> (notes: Vec<Note>)
        ensures
            notes@ == Self::major_notes_spec(),
    {
        let ghost keep = |note: Note| note.is_major_spec();
        let mut notes: Vec<Note> = Vec::new();
        let mut index: usize = 0;
        proof {
            lemma_filter_one_more(Self::all_spec(), keep, 0);
        }
        while index < NOTE_COUNT
            invariant
                index <= NOTE_COUNT,
                keep == |note: Note| note.is_major_spec(),
                notes@ == Self::all_spec().take(index as int).filter(keep),
            decreases NOTE_COUNT - index,
        {
            proof {
                lemma_filter_one_more(Self::all_spec(), keep, index as int);
            }
            match Self::from_index(index) {
                Some(note) => {
                    if note.is_major() {
                        notes.push(note);
                    }
                },
                None => {},
            }
            index = index + 1;
        }
        notes
    }

    /// Every note of the table, lowest first.
    pub fn all() -> (notes: Vec<Note>)
        ensures
            notes@ == Self::all_spec(),
    {
        let mut notes: Vec<Note> = Vec::new();
        let mut index: usize = 0;
        while index < NOTE_COUNT
            invariant
                index <= NOTE_COUNT,
                notes@.len() == index,
                forall|i: int| 0 <= i < index ==> notes@[i] == Self::at(i),
            decreases NOTE_COUNT - index,
        {
            match Self::from_index(index) {
                Some(note) => notes.push(note),
                None => {},
            }
            index = index + 1;
        }
        assert(notes@ =~= Self::all_spec());
        notes
    }
}

} // verus!

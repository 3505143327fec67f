use stardust::note::{Key, Note, NOTE_COUNT};

fn table() -> Vec<(Note, &'static str, u32, &'static str)> {
    vec![
        (Note::C3, "z", 13081, "C3"),
        (Note::CSharp3, "s", 13859, "CSharp3"),
        (Note::D3, "x", 14683, "D3"),
        (Note::DSharp3, "d", 15556, "DSharp3"),
        (Note::E3, "c", 16481, "E3"),
        (Note::F3, "v", 17461, "F3"),
        (Note::FSharp3, "g", 18500, "FSharp3"),
        (Note::G3, "b", 19600, "G3"),
        (Note::GSharp3, "h", 20765, "GSharp3"),
        (Note::A3, "n", 22000, "A3"),
        (Note::ASharp3, "j", 23308, "ASharp3"),
        (Note::B3, "m", 24694, "B3"),
        (Note::C4, "q", 26163, "C4"),
        (Note::CSharp4, "2", 27718, "CSharp4"),
        (Note::D4, "w", 29366, "D4"),
        (Note::DSharp4, "3", 31113, "DSharp4"),
        (Note::E4, "e", 32963, "E4"),
        (Note::F4, "r", 34923, "F4"),
        (Note::FSharp4, "5", 36999, "FSharp4"),
        (Note::G4, "t", 39200, "G4"),
        (Note::GSharp4, "6", 41530, "GSharp4"),
        (Note::A4, "y", 44000, "A4"),
        (Note::ASharp4, "7", 46616, "ASharp4"),
        (Note::B4, "u", 49388, "B4"),
        (Note::C5, "i", 52325, "C5"),
        (Note::CSharp5, "9", 55437, "CSharp5"),
        (Note::D5, "o", 58733, "D5"),
        (Note::DSharp5, "0", 62225, "DSharp5"),
        (Note::E5, "p", 65926, "E5"),
        (Note::F5, "[", 69846, "F5"),
    ]
}

fn character(text: &str) -> Key {
    Key::Character(String::from(text))
}

#[test]
fn every_key_of_the_table_plays_its_note() {
    let rows = table();
    assert_eq!(rows.len(), NOTE_COUNT);
    for (note, key, _, _) in rows {
        assert_eq!(Note::try_from(character(key)), Ok(note));
        assert_eq!(Note::from_text(key), Some(note));
        assert_eq!(Note::from_char(key.chars().next().unwrap()), Some(note));
    }
}

#[test]
fn every_note_has_its_frequency() {
    for (note, _, freq, _) in table() {
        assert_eq!(note.freq(), freq);
    }
}

#[test]
fn every_note_has_its_name() {
    for (note, _, _, name) in table() {
        assert_eq!(note.name(), name);
    }
}

#[test]
fn q_plays_middle_c() {
    let note = Note::try_from(character("q")).unwrap();
    assert_eq!(note, Note::C4);
    assert_eq!(note.freq(), 26163);
}

#[test]
fn keys_that_play_nothing_are_refused() {
    for text in ["a", "f", "k", "l", "1", "4", "8", "]", " ", "", "Q", "Z", "é"] {
        assert_eq!(Note::try_from(character(text)), Err(()));
        assert_eq!(Note::from_text(text), None);
    }
    assert_eq!(Note::from_char('a'), None);
    assert_eq!(Note::from_char('Q'), None);
}

#[test]
fn text_of_more_than_one_character_is_refused() {
    for text in ["qq", "qw", "zsx", "q ", " q"] {
        assert_eq!(Note::try_from(character(text)), Err(()));
        assert_eq!(Note::from_text(text), None);
    }
}

#[test]
fn keys_without_text_are_refused() {
    assert_eq!(Note::try_from(Key::Other), Err(()));
}

#[test]
fn index_and_from_index_are_inverse() {
    for index in 0..NOTE_COUNT {
        let note = Note::from_index(index).unwrap();
        assert_eq!(note.index(), index);
    }
    for (position, (note, _, _, _)) in table().into_iter().enumerate() {
        assert_eq!(note.index(), position);
        assert_eq!(Note::from_index(position), Some(note));
    }
}

#[test]
fn from_index_ends_with_the_table() {
    assert_eq!(Note::from_index(NOTE_COUNT - 1), Some(Note::F5));
    assert_eq!(Note::from_index(NOTE_COUNT), None);
    assert_eq!(Note::from_index(usize::MAX), None);
}

#[test]
fn all_lists_the_table_in_order() {
    let expected: Vec<Note> = table().into_iter().map(|row| row.0).collect();
    assert_eq!(Note::all(), expected);
}

#[test]
fn frequencies_rise_with_the_table() {
    let notes = Note::all();
    for pair in notes.windows(2) {
        assert!(pair[0].freq() < pair[1].freq());
        assert!(pair[0] < pair[1]);
    }
}

#[test]
fn frequencies_follow_equal_temperament() {
    for note in Note::all() {
        let semitones = note.index() as f64 - 21.0;
        let exact = 44000.0 * (semitones / 12.0).exp2();
        assert!((note.freq() as f64 - exact).abs() <= 0.5);
    }
}

#[test]
fn an_octave_doubles_the_frequency() {
    assert_eq!(Note::A3.freq() * 2, Note::A4.freq());
    for index in 0..NOTE_COUNT - 12 {
        let low = Note::from_index(index).unwrap().freq() as i64;
        let high = Note::from_index(index + 12).unwrap().freq() as i64;
        assert!((high - 2 * low).abs() <= 1);
    }
}

#[test]
fn major_notes_are_those_without_sharp() {
    let expected = vec![
        Note::C3,
        Note::D3,
        Note::E3,
        Note::F3,
        Note::G3,
        Note::A3,
        Note::B3,
        Note::C4,
        Note::D4,
        Note::E4,
        Note::F4,
        Note::G4,
        Note::A4,
        Note::B4,
        Note::C5,
        Note::D5,
        Note::E5,
        Note::F5,
    ];
    assert_eq!(Note::major_notes(), expected);
    assert_eq!(Note::major_notes().len(), 18);
}

#[test]
fn is_major_goes_by_the_name() {
    for note in Note::all() {
        assert_eq!(note.is_major(), !note.name().contains("Sharp"));
    }
    assert!(Note::C4.is_major());
    assert!(!Note::CSharp4.is_major());
}

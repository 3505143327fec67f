use stardust::note::{Key, Note};
use stardust::state::{Message, State};
use stardust::wave::WaveShape;

fn pressed(text: &str) -> Message {
    Message::KeyPressed(Key::Character(String::from(text)))
}

fn released(text: &str) -> Message {
    Message::KeyReleased(Key::Character(String::from(text)))
}

#[test]
fn a_new_state_holds_nothing_and_selects_the_sine() {
    let state = State::new();
    assert_eq!(state.active_notes(), Vec::<Note>::new());
    assert_eq!(state.wave_shape(), WaveShape::Sine);
    for note in Note::all() {
        assert!(!state.contains(&note));
    }
    let state = State::default();
    assert_eq!(state.active_notes(), Vec::<Note>::new());
    assert_eq!(state.wave_shape(), WaveShape::Sine);
}

#[test]
fn a_pressed_key_holds_its_note() {
    let mut state = State::new();
    state.update(pressed("q"));
    assert_eq!(state.active_notes(), vec![Note::C4]);
    assert!(state.contains(&Note::C4));
    assert!(!state.contains(&Note::D4));
    state.update(pressed("w"));
    assert_eq!(state.active_notes(), vec![Note::C4, Note::D4]);
}

#[test]
fn a_released_key_lets_go_of_its_note() {
    let mut state = State::new();
    state.update(pressed("q"));
    state.update(pressed("w"));
    state.update(released("q"));
    assert_eq!(state.active_notes(), vec![Note::D4]);
    state.update(released("w"));
    assert_eq!(state.active_notes(), Vec::<Note>::new());
}

#[test]
fn a_key_pressed_twice_holds_its_note_once() {
    let mut once = State::new();
    once.update(pressed("q"));
    let mut twice = State::new();
    twice.update(pressed("q"));
    twice.update(pressed("q"));
    assert_eq!(twice.active_notes(), vec![Note::C4]);
    assert_eq!(twice.active_notes(), once.active_notes());
    twice.update(released("q"));
    assert_eq!(twice.active_notes(), Vec::<Note>::new());
}

#[test]
fn releasing_a_key_never_pressed_changes_nothing() {
    let mut state = State::new();
    state.update(released("q"));
    assert_eq!(state.active_notes(), Vec::<Note>::new());
    assert_eq!(state.wave_shape(), WaveShape::Sine);
    state.update(pressed("w"));
    state.update(Message::SquareSelected);
    state.update(released("q"));
    assert_eq!(state.active_notes(), vec![Note::D4]);
    assert_eq!(state.wave_shape(), WaveShape::Square);
}

#[test]
fn keys_that_play_nothing_are_ignored() {
    let mut state = State::new();
    state.update(pressed("e"));
    for message in [
        pressed("a"),
        pressed("qq"),
        pressed(""),
        released("a"),
        released("ee"),
        Message::KeyPressed(Key::Other),
        Message::KeyReleased(Key::Other),
        Message::Ignored,
    ] {
        state.update(message);
        assert_eq!(state.active_notes(), vec![Note::E4]);
        assert_eq!(state.wave_shape(), WaveShape::Sine);
    }
}

#[test]
fn a_selection_sets_the_shape_and_keeps_the_notes() {
    let mut state = State::new();
    state.update(pressed("y"));
    state.update(Message::SawSelected);
    assert_eq!(state.wave_shape(), WaveShape::Saw);
    state.update(Message::TriangleSelected);
    assert_eq!(state.wave_shape(), WaveShape::Triangle);
    state.update(Message::SquareSelected);
    assert_eq!(state.wave_shape(), WaveShape::Square);
    state.update(Message::SineSelected);
    assert_eq!(state.wave_shape(), WaveShape::Sine);
    assert_eq!(state.active_notes(), vec![Note::A4]);
    state.set_wave_shape(WaveShape::Saw);
    assert_eq!(state.wave_shape(), WaveShape::Saw);
    assert_eq!(state.active_notes(), vec![Note::A4]);
}

#[test]
fn insert_and_remove_say_what_changed() {
    let mut state = State::new();
    assert!(state.insert(Note::G3));
    assert!(!state.insert(Note::G3));
    assert!(state.contains(&Note::G3));
    assert!(state.remove(&Note::G3));
    assert!(!state.remove(&Note::G3));
    assert!(!state.contains(&Note::G3));
    assert!(!state.remove(&Note::F5));
}

#[test]
fn held_notes_are_listed_lowest_first() {
    let mut state = State::new();
    for text in ["[", "q", "z", "7", "s"] {
        state.update(pressed(text));
    }
    assert_eq!(
        state.active_notes(),
        vec![Note::C3, Note::CSharp3, Note::C4, Note::ASharp4, Note::F5]
    );
}

#[test]
fn every_note_can_be_held_at_once() {
    let mut state = State::new();
    for note in Note::all() {
        state.insert(note);
    }
    assert_eq!(state.active_notes(), Note::all());
    for note in Note::all() {
        state.remove(&note);
    }
    assert_eq!(state.active_notes(), Vec::<Note>::new());
}

#[test]
fn a_snapshot_copies_notes_and_shape() {
    let mut state = State::new();
    state.update(pressed("w"));
    state.update(pressed("q"));
    state.update(Message::TriangleSelected);
    let snapshot = state.snapshot();
    state.update(released("q"));
    state.update(Message::SawSelected);
    assert_eq!(snapshot.notes(), &vec![Note::C4, Note::D4]);
    assert_eq!(snapshot.shape(), WaveShape::Triangle);
    assert_eq!(state.snapshot().notes(), &vec![Note::D4]);
    assert_eq!(state.snapshot().shape(), WaveShape::Saw);
}

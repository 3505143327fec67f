//! The state that the control side and the render side share: which notes
//! are held and which waveform shape is selected.

use crate::note::{
    lemma_filter_one_more, lemma_rising_fits_table, strictly_rising, Key, Note, NOTE_COUNT,
};
use crate::render::{lemma_mix_within_gain, mix_spec, Mixed, Snapshot, GAIN_DENOM, GAIN_NUMER};
use crate::wave::{Amplitude, WaveShape};
use std::collections::HashSet;
use vstd::prelude::*;
use vstd::std_specs::hash::group_hash_axioms;

verus! {

/// What the control surface reports.
#[derive(Debug, Clone, PartialEq, Eq)]
pub enum Message {
    KeyPressed(Key),
    KeyReleased(Key),
    SineSelected,
    SawSelected,
    TriangleSelected,
    SquareSelected,
    /// Any event that is neither a key nor a selection.
    Ignored,
}

/// The shared state as contracts see it.
pub struct StateView {
    pub active_notes: Set<Note>,
    pub wave_shape: WaveShape,
}

/// The notes that are held, each at most once, and the selected shape. A
/// held note is kept by its place in the table.
#[derive(Debug)]
pub struct State {
    held: HashSet<usize>,
    wave_shape: WaveShape,
}

impl View for State {
    type V = StateView;

    closed spec fn view(&self) -> StateView {
        StateView {
            active_notes: Set::new(
                |note: Note| self.held@.contains(note.index_spec() as usize),
            ),
            wave_shape: self.wave_shape,
        }
    }
}

/// The notes of a set, lowest first.
pub open spec fn ascending(notes: Set<Note>) -> Seq<Note> {
    Note::all_spec().filter(|note: Note| notes.contains(note))
}

impl StateView {
    /// The state after a message.
    ///
    /// A pressed key that plays a note adds the note, a released one removes
    /// it, and a key that plays none changes nothing. A selection sets the
    /// shape.
    pub open spec fn after(self, message: Message) -> StateView {
        match message {
            Message::KeyPressed(key) => match Note::of_key(key) {
                Some(note) => StateView { active_notes: self.active_notes.insert(note), ..self },
                None => self,
            },
            Message::KeyReleased(key) => match Note::of_key(key) {
                Some(note) => StateView { active_notes: self.active_notes.remove(note), ..self },
                None => self,
            },
            Message::SineSelected => StateView { wave_shape: WaveShape::Sine, ..self },
            Message::SawSelected => StateView { wave_shape: WaveShape::Saw, ..self },
            Message::TriangleSelected => StateView { wave_shape: WaveShape::Triangle, ..self },
            Message::SquareSelected => StateView { wave_shape: WaveShape::Square, ..self },
            Message::Ignored => self,
        }
    }
}

/// The notes among the first `count` of the table that a set holds, lowest
/// first.
pub open spec fn ascending_below(notes: Set<Note>, count: int) -> Seq<Note> {
    Note::all_spec().take(count).filter(|note: Note| notes.contains(note))
}

/// The sequence of a set's notes among the first `count` of the table holds
/// just those notes, each once and in rising order.
pub proof fn lemma_ascending_below(notes: Set<Note>, count: int)
    requires
        0 <= count <= NOTE_COUNT,
    ensures
        strictly_rising(ascending_below(notes, count)),
        forall|note: Note|
            ascending_below(notes, count).contains(note) <==> notes.contains(note)
                && note.index_spec() < count,
    decreases count,
{
    let keep = |note: Note| notes.contains(note);
    let table = Note::all_spec();
    lemma_filter_one_more(table, keep, count - 1);
    if count > 0 {
        lemma_ascending_below(notes, count - 1);
        let before = ascending_below(notes, count - 1);
        let last = Note::at(count - 1);
        assert forall|i: int| 0 <= i < before.len() implies before[i].index_spec() < count
            - 1 by {
            assert(before.contains(before[i]));
        }
        let now = ascending_below(notes, count);
        assert forall|note: Note|
            now.contains(note) <==> notes.contains(note) && note.index_spec() < count by {
            if notes.contains(last) {
                assert(now == before.push(last));
                assert(now[before.len() as int] == last);
                if now.contains(note) {
                    let i = choose|i: int| 0 <= i < now.len() && now[i] == note;
                    if i < before.len() {
                        assert(before[i] == note);
                        assert(before.contains(note));
                    }
                }
                if before.contains(note) {
                    let i = choose|i: int| 0 <= i < before.len() && before[i] == note;
                    assert(now[i] == note);
                }
            }
        }
    }
}

/// The sequence of a set's notes holds just the notes of the set, each once
/// and in rising order, so it is no longer than the table.
pub proof fn lemma_ascending_lists_the_set(notes: Set<Note>)
    ensures
        strictly_rising(ascending(notes)),
        forall|note: Note| ascending(notes).contains(note) <==> notes.contains(note),
        ascending(notes).len() <= NOTE_COUNT,
        ascending(notes).len() == 0 <==> notes == Set::<Note>::empty(),
{
    assert(Note::all_spec().take(NOTE_COUNT as int) =~= Note::all_spec());
    assert(ascending(notes) == ascending_below(notes, NOTE_COUNT as int));
    lemma_ascending_below(notes, NOTE_COUNT as int);
    lemma_rising_fits_table(ascending(notes));
    if ascending(notes).len() == 0 {
        assert forall|note: Note| !notes.contains(note) by {
            if notes.contains(note) {
                assert(ascending(notes).contains(note));
            }
        }
        assert(notes =~= Set::<Note>::empty());
    } else {
        assert(ascending(notes).contains(ascending(notes)[0]));
    }
}

impl StateView {
    /// What an output slot holds when the state's notes sound with its
    /// shape at a clock position.
    pub open spec fn mixed(self, position: nat, sample_rate: nat) -> Mixed {
        mix_spec(ascending(self.active_notes), self.wave_shape, position, sample_rate)
    }
}

/// A key pressed again while it is held changes nothing: the state is the
/// one after the first press, and so is every output slot.
pub proof fn lemma_repeated_press_is_idle(
    state: StateView,
    key: Key,
    position: nat,
    sample_rate: nat,
)
    ensures
        state.after(Message::KeyPressed(key)).after(Message::KeyPressed(key)) == state.after(
            Message::KeyPressed(key),
        ),
        state.after(Message::KeyPressed(key)).after(Message::KeyPressed(key)).mixed(
            position,
            sample_rate,
        ) == state.after(Message::KeyPressed(key)).mixed(position, sample_rate),
{
    let once = state.after(Message::KeyPressed(key));
    let twice = once.after(Message::KeyPressed(key));
    assert(twice.active_notes =~= once.active_notes);
}

/// A note held again while it is held changes nothing.
pub proof fn lemma_insert_twice(notes: Set<Note>, note: Note)
    ensures
        notes.insert(note).insert(note) == notes.insert(note),
        ascending(notes.insert(note).insert(note)) == ascending(notes.insert(note)),
{
    assert(notes.insert(note).insert(note) =~= notes.insert(note));
}

/// The release of a key whose note is not held changes nothing.
pub proof fn lemma_release_of_unheld_is_idle(state: StateView, key: Key)
    requires
        Note::of_key(key) matches Some(note) ==> !state.active_notes.contains(note),
    ensures
        state.after(Message::KeyReleased(key)) == state,
{
    let after = state.after(Message::KeyReleased(key));
    assert(after.active_notes =~= state.active_notes);
}

/// A release undoes a press of a key whose note was not held.
pub proof fn lemma_release_undoes_press(state: StateView, key: Key)
    requires
        Note::of_key(key) matches Some(note) ==> !state.active_notes.contains(note),
    ensures
        state.after(Message::KeyPressed(key)).after(Message::KeyReleased(key)) == state,
{
    let after = state.after(Message::KeyPressed(key)).after(Message::KeyReleased(key));
    assert(after.active_notes =~= state.active_notes);
}

/// With no note held every output slot is silent, whatever the shape.
pub proof fn lemma_silence_without_notes(state: StateView, position: nat, sample_rate: nat)
    requires
        state.active_notes == Set::<Note>::empty(),
    ensures
        state.mixed(position, sample_rate) == Mixed::Exact(Amplitude { numer: 0, denom: 1 }),
{
    lemma_ascending_lists_the_set(state.active_notes);
}

/// With any notes held every output slot lies within the gain of zero
/// wherever its value is a fraction, and with a linear shape it always is
/// one. Where it is not, the shape is the sine and the slot holds one phase
/// for each held note, each within its period.
pub proof fn lemma_mixed_within_gain(state: StateView, position: nat, sample_rate: nat)
    requires
        state.active_notes != Set::<Note>::empty(),
        position <= u32::MAX,
        0 < sample_rate <= u32::MAX,
    ensures
        state.mixed(position, sample_rate) matches Mixed::Exact(amplitude) ==> {
            &&& amplitude.denom > 0
            &&& -(GAIN_NUMER * amplitude.denom) <= GAIN_DENOM * amplitude.numer <= GAIN_NUMER
                * amplitude.denom
        },
        state.mixed(position, sample_rate) matches Mixed::Sines(phases) ==> {
            &&& state.wave_shape == WaveShape::Sine
            &&& phases.len() == ascending(state.active_notes).len()
            &&& forall|i: int| 0 <= i < phases.len() ==> (#[trigger] phases[i]).is_valid()
        },
        state.wave_shape != WaveShape::Sine ==> state.mixed(position, sample_rate) is Exact,
        state.mixed(position, sample_rate).within_gain(),
{
    lemma_ascending_lists_the_set(state.active_notes);
    lemma_mix_within_gain(
        ascending(state.active_notes),
        state.wave_shape,
        position,
        sample_rate,
    );
}

impl State {
    /// A state with no note held and the sine selected.
    pub fn new() -> (state: State)
        ensures
            state@.active_notes == Set::<Note>::empty(),
            state@.wave_shape == WaveShape::Sine,
    {
        let state = State { held: HashSet::new(), wave_shape: WaveShape::Sine };
        assert(state@.active_notes =~= Set::<Note>::empty());
        state
    }

    /// Whether a note is held.
    pub fn contains(&self, note: &Note) -> (held: bool)
        ensures
            held == self@.active_notes.contains(*note),
    {
        broadcast use group_hash_axioms;

        let index = note.index();
        self.held.contains(&index)
    }

    /// The selected shape.
    pub fn wave_shape(&self) -> (shape: WaveShape)
        ensures
            shape == self@.wave_shape,
    {
        self.wave_shape
    }

    /// The held notes, lowest first.
    pub fn active_notes(&self) -> (notes: Vec<Note>)
        ensures
            notes@ == ascending(self@.active_notes),
            strictly_rising(notes@),
    {
        broadcast use group_hash_axioms;

        let ghost keep = |note: Note| self@.active_notes.contains(note);
        let mut notes: Vec<Note> = Vec::new();
        let mut index: usize = 0;
        proof {
            lemma_filter_one_more(Note::all_spec(), keep, 0);
        }
        while index < NOTE_COUNT
            invariant
                index <= NOTE_COUNT,
                keep == |note: Note| self@.active_notes.contains(note),
                notes@ == ascending_below(self@.active_notes, index as int),
            decreases NOTE_COUNT - index,
        {
            proof {
                lemma_filter_one_more(Note::all_spec(), keep, index as int);
            }
            if self.held.contains(&index) {
                match Note::from_index(index) {
                    Some(note) => notes.push(note),
                    None => {},
                }
            }
            index = index + 1;
        }
        proof {
            lemma_ascending_lists_the_set(self@.active_notes);
        }
        notes
    }

    /// A copy of the held notes and of the selected shape, for the render
    /// side to work on.
    pub fn snapshot(&self) -> (snapshot: Snapshot)
        ensures
            snapshot.notes_spec() == ascending(self@.active_notes),
            snapshot.shape_spec() == self@.wave_shape,
    {
        Snapshot::of_rising(self.active_notes(), self.wave_shape)
    }

    /// Holds a note. Says whether the note was not held before.
    pub fn insert(&mut self, note: Note) -> (added: bool)
        ensures
            final(self)@.active_notes == old(self)@.active_notes.insert(note),
            final(self)@.wave_shape == old(self)@.wave_shape,
            added == !old(self)@.active_notes.contains(note),
    {
        broadcast use group_hash_axioms;

        let added = self.held.insert(note.index());
        proof {
            assert forall|other: Note|
                final(self)@.active_notes.contains(other) == old(self)@.active_notes.insert(
                    note,
                ).contains(other) by {
                Self::lemma_index_injective(other, note);
            }
            assert(final(self)@.active_notes =~= old(self)@.active_notes.insert(note));
        }
        added
    }

    /// Lets go of a note. Says whether the note was held before.
    pub fn remove(&mut self, note: &Note) -> (removed: bool)
        ensures
            final(self)@.active_notes == old(self)@.active_notes.remove(*note),
            final(self)@.wave_shape == old(self)@.wave_shape,
            removed == old(self)@.active_notes.contains(*note),
    {
        broadcast use group_hash_axioms;

        let index = note.index();
        let removed = self.held.remove(&index);
        proof {
            assert forall|other: Note|
                final(self)@.active_notes.contains(other) == old(self)@.active_notes.remove(
                    *note,
                ).contains(other) by {
                Self::lemma_index_injective(other, *note);
            }
            assert(final(self)@.active_notes =~= old(self)@.active_notes.remove(*note));
        }
        removed
    }

    /// Selects a shape.
    pub fn set_wave_shape(&mut self, shape: WaveShape)
        ensures
            final(self)@.active_notes == old(self)@.active_notes,
            final(self)@.wave_shape == shape,
    {
        self.wave_shape = shape;
    }

    /// Takes a message from the control surface.
    pub fn update(&mut self, message: Message)
        ensures
            final(self)@ == old(self)@.after(message),
    {
        match message {
            Message::KeyPressed(key) => {
                if let Ok(note) = Note::try_from(key) {
                    self.insert(note);
                }
            },
            Message::KeyReleased(key) => {
                if let Ok(note) = Note::try_from(key) {
                    self.remove(&note);
                }
            },
            Message::SineSelected => self.set_wave_shape(WaveShape::Sine),
            Message::SawSelected => self.set_wave_shape(WaveShape::Saw),
            Message::TriangleSelected => self.set_wave_shape(WaveShape::Triangle),
            Message::SquareSelected => self.set_wave_shape(WaveShape::Square),
            Message::Ignored => {},
        }
    }

    proof fn lemma_index_injective(a: Note, b: Note)
        ensures
            a.index_spec() == b.index_spec() <==> a == b,
            a.index_spec() < NOTE_COUNT,
    {
        a.lemma_at_of_index();
        b.lemma_at_of_index();
    }
}

impl Default for State {
    fn default() -> (state: State)
        ensures
            state@.active_notes == Set::<Note>::empty(),
            state@.wave_shape == WaveShape::Sine,
    {
        State::new()
    }
}

} // verus!

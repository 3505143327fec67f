//! The synthesis core of a small polyphonic synthesizer.
//!
//! Keys of the keyboard play the notes of a table. The notes that are held
//! sound together, each as a wave of the one shape that is selected, and the
//! mixer fills an output buffer with their mean times a fixed gain while a
//! sample clock counts the samples of a rolling second.
//!
//! Everything here is computed in integers, without rounding. Frequencies
//! are whole hundredths of a hertz, phases and amplitudes are fractions, and
//! a sine that is no fraction is handed out as the phase whose sine it is.
//! Turning fractions and sines into the numbers that an audio device takes
//! is left to the program around this library, as are the lock that guards
//! the shared state, the window and the audio stream.
//!
//! - [`note`]: the table of notes, their frequencies, names and keys.
//! - [`wave`]: the waveform generator.
//! - [`state`]: the held notes and the selected shape, and the messages that
//!   change them.
//! - [`clock`]: the sample clock.
//! - [`render`]: the mixer and the filling of a buffer.

pub mod clock;
pub mod note;
pub mod render;
pub mod state;
pub mod wave;

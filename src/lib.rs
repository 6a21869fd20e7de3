//! Control core of a monophonic acid-bass synthesizer: the command-stream
//! decoder, the step sequencer, the delay line's ring cursor and the voice's
//! per-sample control decisions, each with its contract proved.

pub mod delay;
pub mod sequencer;
pub mod vm;
pub mod voice;

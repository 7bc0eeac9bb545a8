//! Integer core of a monophonic pitch tracker: mapping a semitone index onto
//! the twelve-tone equal-tempered scale, and cutting a stream of samples into
//! fixed-size analysis windows.
pub mod note;
pub mod window;

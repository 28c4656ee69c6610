//! Fixed-capacity inline sequence buffers, and a hybrid container that
//! migrates between inline and heap storage.
//!
//! [`array::Array`] is a capacity-`N` buffer of slots with a live prefix:
//! slots `[0, len)` hold values, slots `[len, N)` are vacant. Every operation
//! is specified against the sequence of live values and verified to keep the
//! live/vacant discipline.
//!
//! [`switch::SwitchVec`] wraps either an inline [`array::Array`] or a heap
//! `Vec`, exposing one sequence interface over whichever representation is
//! active and migrating between the two without losing or duplicating a
//! value.

pub mod array;
pub mod switch;

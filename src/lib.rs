//! Randomised fixtures for test suites: scalar values, byte buffers,
//! alphanumeric strings and fresh names, plus unbiased selection and
//! in-place shuffling of slices.

pub mod io;
pub mod rand;
pub mod slice_ext;

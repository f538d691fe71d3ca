//! Freivald's algorithm: a probabilistic check that a claimed product matrix
//! `C` equals `A * B` for matrices over the BLS12-381 base field, without
//! performing the full cubic-time matrix multiplication.
//!
//! The check projects the matrix equality onto a vector equality with a
//! random probe vector of consecutive powers `(1, r, r^2, ...)`: it accepts a
//! correct product on every run, and a wrong product slips through a single
//! round with probability at most `(n - 1) / |field|`.

pub mod field;
pub mod matrix;
pub mod checker;

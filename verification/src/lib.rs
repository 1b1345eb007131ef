//! A codec that writes text on one line and reads it back, with a few small
//! helpers beside it.
//!
//! [`encoder::encode`] writes line feed, carriage return and backslash as
//! two-character escapes; [`decoder::decode`] reads such text back, or says
//! what is wrong with it. [`laws`] and [`grammar`] hold what is proved of the
//! two together: above all that decoding an encoded text gives the text back.
//!
//! The helpers double numbers and texts ([`doubling`]), pick the longer of
//! two texts ([`longest`]), and write dates out ([`dates`], [`decimal`]).

pub mod dates;
pub mod decimal;
pub mod decoder;
pub mod doubling;
pub mod encoder;
pub mod english;
pub mod error;
pub mod grammar;
pub mod laws;
pub mod longest;
pub mod string_specs;
pub mod symbols;
pub mod utf8;

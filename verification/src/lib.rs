//! A streaming lexical scanner for JSON text.
//!
//! The scanner is fed one character at a time and classifies each one with an
//! [`Opcode`]: where literals, objects and arrays begin and end, and when the
//! single top-level value is complete. It builds no values and keeps no text.
//!
//! The executable code is in [`scanner`] and [`transitions`], over the
//! vocabulary of [`opcode`]. Its contracts are stated over the model in
//! [`model`]: the scanner as plain values, and the effect of one character.
//!
//! What holds of every input is proved in [`wellformed`], [`trace`],
//! [`terminal`], [`whitespace`], [`signals`] and [`nesting`]. [`grammar`]
//! writes JSON down as syntax trees; [`literals`], [`values`] and
//! [`document`] prove what the scanner reports for a well-formed document,
//! and [`partial`] and [`accepts`] that it accepts nothing else.
#![allow(non_snake_case)]

pub mod accepts;
pub mod document;
pub mod grammar;
pub mod literals;
pub mod model;
pub mod nesting;
pub mod opcode;
pub mod partial;
pub mod scanner;
pub mod signals;
pub mod terminal;
pub mod trace;
pub mod transitions;
pub mod values;
pub mod wellformed;
pub mod whitespace;

pub use opcode::{Opcode, ParseState, State};
pub use scanner::Scanner;

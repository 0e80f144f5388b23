//! Classifies each line of a microcontroller assembly source file into an
//! addressing-mode sequence, an instruction byte length and a machine-cycle
//! cost, without generating code.
//!
//! The engine is a pure function of compiled-in configuration: an operand
//! classifier (syntax category per operand tag), an instruction variant table
//! (ordered operand shapes per mnemonic), a priority-ordered cycle-cost rule
//! chain, and a set of skip patterns for non-instruction lines.

pub mod classify;
pub mod instruction;
pub mod matching;
pub mod parser;
pub mod resolver;
pub mod table;
pub mod text;

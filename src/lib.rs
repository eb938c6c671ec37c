//! A minimal stack language: a line of text is split into words, the words are
//! decoded into instructions, and a step machine runs them against a stack of
//! numbers, collecting what `print` emits.
//!
//! Numbers are IEEE-754 double-precision values held as their bit patterns.
//! The library makes every decision of the language itself (decoding, stack
//! discipline, underflow defaults, the division-by-zero policy, conditional
//! jumps and the conversion of a number to a jump target); the host that runs
//! the machine supplies the two floating-point services that need a floating
//! point unit: reading a numeric literal and computing a sum, difference,
//! product or quotient.
pub mod ast;
pub mod words;
pub mod machine;
pub mod laws;

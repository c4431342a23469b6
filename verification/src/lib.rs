//! An embedding layer that lets a dynamically typed host language drive a
//! WebAssembly execution engine. This crate holds the verified core of that
//! layer: the type-tag system, the value marshaller between the engine's
//! statically typed values and the host's dynamic values, the host-function
//! call bridge, and the bounds-checked typed views over linear memory.
//!
//! Floating-point payloads are carried as their IEEE-754 bit patterns
//! (`u32` for 32-bit floats, `u64` for 64-bit floats), and the numeric
//! coercions the marshaller needs are implemented and verified as integer
//! bit manipulation.

pub mod error;
pub mod float_bits;
pub mod function;
pub mod memory;
pub mod types;
pub mod values;

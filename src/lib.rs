//! Inline function detouring for x86-64.
//!
//! The library holds the machine-code logic of a detour: the encoders of the
//! branch thunks, a position-independent code emitter, the prolog relocator
//! that builds a trampoline, the inline patcher, the proximity allocator's
//! bookkeeping and the detour's enable/disable state. Reading and writing
//! process memory, querying regions and disassembling are done by the caller,
//! which hands the results over as plain values.

pub mod detour;
pub mod error;
pub mod memory;
pub mod patcher;
pub mod pic;
pub mod thunk;
pub mod trampoline;

pub use error::Error;


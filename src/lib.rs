//! Loader for precompiled Lua 5.3 chunks and decoder of their instruction words.
//!
//! `un_dump` validates a chunk's header and rebuilds its tree of function
//! prototypes; `Instruction` splits a raw 32-bit word into its opcode and
//! operand fields by the layouts of the opcode table in `opcodes`. What each
//! function returns is stated against the byte-level model in `format`.
pub mod chunk;
pub mod format;
pub mod instruction;
pub mod laws;
pub mod opcodes;
pub mod reader;
pub mod truncation;

pub use chunk::{ChunkError, Constant, HeaderField, LocVar, Prototype, Upvalue};
pub use instruction::{rk_operand, Instruction};
pub use opcodes::{opcode_info, ArgKind, OpCode, OpMode};
pub use reader::{un_dump, Reader};

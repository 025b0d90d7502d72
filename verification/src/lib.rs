//! A verified reader and disassembler for compiled-class binary containers.
//!
//! The library decodes a byte sequence laid out as a class container (magic
//! prefix, version fields, constant pool, access flags, method table,
//! attribute tables), resolves every attribute's raw payload into a
//! structured form using the constant pool, and renders the result as
//! line-oriented text.  Every decoder and the renderer carry contracts that
//! pin their results down to spec-level decode functions over the input
//! bytes.

use vstd::prelude::*;

pub mod access_flags;
pub mod attribute;
pub mod class;
pub mod code;
pub mod constant_pool;
pub mod error;
pub mod method_info;
pub mod reader;
pub mod render;
pub mod text;

verus! {

} // verus!

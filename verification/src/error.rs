//! Typed failures of the decode pipeline and of the disassembler.

use vstd::prelude::*;

verus! {

/// A failure while decoding or resolving a container.
///
/// Truncated input surfaces as `UnexpectedEof`; every other variant is a
/// structural-invariant violation: the input is either corrupt or uses a
/// part of the format that this library does not support.
#[derive(Clone, Copy, Debug, PartialEq, Eq, Structural)]
pub enum DecodeError {
    /// Fewer bytes remained than a read required.
    UnexpectedEof,
    /// The fixed magic-number prefix did not match.
    BadMagic,
    /// The stored constant-pool count was zero; the format stores the
    /// declared length plus one, so zero cannot occur in a valid container.
    BadConstantPoolCount,
    /// A constant-pool entry carried a tag outside the supported table.
    UnknownTag(u8),
    /// An opcode outside the supported table; decoding cannot continue
    /// because the operand width of an unknown opcode is unknown.
    UnknownOpcode(u8),
    /// A text record's payload was not valid UTF-8 encoded text.
    InvalidText,
    /// The container declared interfaces, which are unsupported.
    InterfacesUnsupported,
    /// The container declared fields, which are unsupported.
    FieldsUnsupported,
    /// A code body declared a nonempty exception table, which is
    /// unsupported.
    ExceptionTableUnsupported,
    /// An instruction ran over the declared code length, or the declared
    /// length was not met exactly.
    CodeLengthMismatch,
    /// A constant-pool reference fell outside the pool (including the
    /// never-valid index zero).
    BadIndex,
    /// A constant-pool reference pointed at a record of the wrong kind.
    WrongKind,
}

/// A failure while rendering a resolved class as text.
///
/// Rendering is best-effort only for instruction operands whose index falls
/// outside the pool; every failure below aborts the whole rendering.
#[derive(Clone, Copy, Debug, PartialEq, Eq, Structural)]
pub enum RenderError {
    /// A constant-pool reference fell outside the pool in a context where
    /// rendering cannot degrade gracefully.
    BadIndex,
    /// A constant-pool reference pointed at a record of the wrong kind.
    WrongKind,
    /// A resolved-attribute variant the renderer does not know how to
    /// print, or a nonempty exception table.
    Unsupported,
}

} // verus!

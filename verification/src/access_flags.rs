//! Access flags: a bit-set over a fixed enumeration, rendered as a
//! space-joined list of active flag names in a fixed declaration order.

use vstd::prelude::*;

verus! {

use vstd::string::StringExecFns;

pub const ACC_PUBLIC: u16 = 0x0001;

pub const ACC_PRIVATE: u16 = 0x0002;

pub const ACC_PROTECTED: u16 = 0x0004;

pub const ACC_STATIC: u16 = 0x0008;

pub const ACC_FINAL: u16 = 0x0010;

pub const ACC_SYNCHRONIZED: u16 = 0x0020;

pub const ACC_BRIDGE: u16 = 0x0040;

pub const ACC_VARARGS: u16 = 0x0080;

pub const ACC_NATIVE: u16 = 0x0100;

pub const ACC_ABSTRACT: u16 = 0x0400;

pub const ACC_STRICT: u16 = 0x0800;

pub const ACC_SYNTHETIC: u16 = 0x1000;

/// A bit-set of access flags; the order of the bits carries no meaning.
#[derive(Clone, Copy, Debug, PartialEq, Eq, Structural)]
pub struct AccessFlags {
    pub bits: u16,
}

/// The rendering of one flag: its name and a space when the bit is
/// active, nothing otherwise.
pub open spec fn flag_part(bits: u16, mask: u16, name: Seq<char>) -> Seq<char> {
    if bits & mask != 0 {
        name
    } else {
        Seq::empty()
    }
}

/// The names of the active flags, each followed by a space, in the fixed
/// declaration order.
pub open spec fn spec_flag_names(bits: u16) -> Seq<char> {
    flag_part(bits, ACC_PUBLIC, "public "@) + flag_part(bits, ACC_PRIVATE, "private "@)
        + flag_part(bits, ACC_PROTECTED, "protected "@) + flag_part(bits, ACC_STATIC, "static "@)
        + flag_part(bits, ACC_FINAL, "final "@) + flag_part(
        bits,
        ACC_SYNCHRONIZED,
        "synchronized "@,
    ) + flag_part(bits, ACC_BRIDGE, "bridge "@) + flag_part(bits, ACC_VARARGS, "varargs "@)
        + flag_part(bits, ACC_NATIVE, "native "@) + flag_part(bits, ACC_ABSTRACT, "abstract "@)
        + flag_part(bits, ACC_STRICT, "strict "@) + flag_part(bits, ACC_SYNTHETIC, "synthetic "@)
}

impl AccessFlags {
    /// Wraps a raw flag word.
    pub fn from(bits: u16) -> (r: AccessFlags)
        ensures
            r.bits == bits,
    {
        AccessFlags { bits }
    }

    /// Whether any bit of `mask` is active.
    pub fn intersects(&self, mask: u16) -> (r: bool)
        ensures
            r == (self.bits & mask != 0),
    {
        self.bits & mask != 0
    }

    /// The active flag names, each followed by a space, in the fixed
    /// declaration order.
    pub fn names(&self) -> (r: String)
        ensures
            r@ == spec_flag_names(self.bits),
    {
        let mut out = String::new();
        if self.intersects(ACC_PUBLIC) {
            out.append("public ");
        }
        if self.intersects(ACC_PRIVATE) {
            out.append("private ");
        }
        if self.intersects(ACC_PROTECTED) {
            out.append("protected ");
        }
        if self.intersects(ACC_STATIC) {
            out.append("static ");
        }
        if self.intersects(ACC_FINAL) {
            out.append("final ");
        }
        if self.intersects(ACC_SYNCHRONIZED) {
            out.append("synchronized ");
        }
        if self.intersects(ACC_BRIDGE) {
            out.append("bridge ");
        }
        if self.intersects(ACC_VARARGS) {
            out.append("varargs ");
        }
        if self.intersects(ACC_NATIVE) {
            out.append("native ");
        }
        if self.intersects(ACC_ABSTRACT) {
            out.append("abstract ");
        }
        if self.intersects(ACC_STRICT) {
            out.append("strict ");
        }
        if self.intersects(ACC_SYNTHETIC) {
            out.append("synthetic ");
        }
        assert(out@ =~= spec_flag_names(self.bits));
        out
    }
}

} // verus!

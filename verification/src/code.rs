//! The instruction decoder: a flat opcode stream decoded greedily into
//! typed instruction values until the declared code length is met exactly.

use vstd::prelude::*;

verus! {

use crate::error::DecodeError;
use crate::reader::{Reader, cons_items};

/// One decoded instruction: no operand, a single one-byte operand, or a
/// single two-byte big-endian operand that is a constant-pool index.
#[derive(Clone, Copy, Debug, PartialEq, Eq, Structural)]
pub enum Instruction {
    ALoad0,
    ALoad1,
    ALoad2,
    ALoad3,
    BiPush(u8),
    GetStatic(u16),
    IAdd,
    ILoad0,
    ILoad1,
    ILoad2,
    ILoad3,
    IStore0,
    IStore1,
    IStore2,
    IStore3,
    InvokeSpecial(u16),
    InvokeVirtual(u16),
    Ldc(u8),
    Nop,
    Return,
}

/// How many bytes of the stream an instruction occupies, opcode included.
pub open spec fn instr_width(i: Instruction) -> int {
    match i {
        Instruction::BiPush(_) => 2,
        Instruction::Ldc(_) => 2,
        Instruction::GetStatic(_) => 3,
        Instruction::InvokeSpecial(_) => 3,
        Instruction::InvokeVirtual(_) => 3,
        _ => 1,
    }
}

/// The sum of the byte-widths of a decoded instruction sequence.
pub open spec fn width_sum(s: Seq<Instruction>) -> int
    decreases s.len(),
{
    if s.len() == 0 {
        0
    } else {
        instr_width(s[0]) + width_sum(s.drop_first())
    }
}

/// The instruction decoded from `b` at `p`: an opcode byte, then as many
/// operand bytes as that opcode declares.  An unknown opcode is fatal,
/// since its operand width cannot be known.
pub open spec fn spec_decode_instr(b: Seq<u8>, p: int) -> Result<(Instruction, int), DecodeError> {
    if b.len() - p < 1 {
        Err(DecodeError::UnexpectedEof)
    } else {
        let op = b[p];
        if op == 0x00 {
            Ok((Instruction::Nop, p + 1))
        } else if op == 0xb1 {
            Ok((Instruction::Return, p + 1))
        } else if op == 0x2a {
            Ok((Instruction::ALoad0, p + 1))
        } else if op == 0x2b {
            Ok((Instruction::ALoad1, p + 1))
        } else if op == 0x2c {
            Ok((Instruction::ALoad2, p + 1))
        } else if op == 0x2d {
            Ok((Instruction::ALoad3, p + 1))
        } else if op == 0x3b {
            Ok((Instruction::IStore0, p + 1))
        } else if op == 0x3c {
            Ok((Instruction::IStore1, p + 1))
        } else if op == 0x3d {
            Ok((Instruction::IStore2, p + 1))
        } else if op == 0x3e {
            Ok((Instruction::IStore3, p + 1))
        } else if op == 0x1a {
            Ok((Instruction::ILoad0, p + 1))
        } else if op == 0x1b {
            Ok((Instruction::ILoad1, p + 1))
        } else if op == 0x1c {
            Ok((Instruction::ILoad2, p + 1))
        } else if op == 0x1d {
            Ok((Instruction::ILoad3, p + 1))
        } else if op == 0x60 {
            Ok((Instruction::IAdd, p + 1))
        } else if op == 0x10 {
            if b.len() - (p + 1) < 1 {
                Err(DecodeError::UnexpectedEof)
            } else {
                Ok((Instruction::BiPush(b[p + 1]), p + 2))
            }
        } else if op == 0x12 {
            if b.len() - (p + 1) < 1 {
                Err(DecodeError::UnexpectedEof)
            } else {
                Ok((Instruction::Ldc(b[p + 1]), p + 2))
            }
        } else if op == 0xb2 {
            if b.len() - (p + 1) < 2 {
                Err(DecodeError::UnexpectedEof)
            } else {
                Ok((Instruction::GetStatic((b[p + 1] * 256 + b[p + 2]) as u16), p + 3))
            }
        } else if op == 0xb6 {
            if b.len() - (p + 1) < 2 {
                Err(DecodeError::UnexpectedEof)
            } else {
                Ok((Instruction::InvokeVirtual((b[p + 1] * 256 + b[p + 2]) as u16), p + 3))
            }
        } else if op == 0xb7 {
            if b.len() - (p + 1) < 2 {
                Err(DecodeError::UnexpectedEof)
            } else {
                Ok((Instruction::InvokeSpecial((b[p + 1] * 256 + b[p + 2]) as u16), p + 3))
            }
        } else {
            Err(DecodeError::UnknownOpcode(op))
        }
    }
}

impl Instruction {
    /// Decodes one instruction at the cursor.
    pub fn from(r: &mut Reader) -> (res: Result<Instruction, DecodeError>)
        requires
            old(r).wf(),
        ensures
            final(r).wf(),
            final(r).bytes() == old(r).bytes(),
            match res {
                Ok(i) => spec_decode_instr(old(r).bytes(), old(r).pos()) == Ok::<
                    (Instruction, int),
                    DecodeError,
                >((i, final(r).pos())),
                Err(e) => spec_decode_instr(old(r).bytes(), old(r).pos()) == Err::<
                    (Instruction, int),
                    DecodeError,
                >(e),
            },
    {
        let opcode = r.read_u1()?;
        match opcode {
            0x00 => Ok(Instruction::Nop),
            0xb1 => Ok(Instruction::Return),
            0x2a => Ok(Instruction::ALoad0),
            0x2b => Ok(Instruction::ALoad1),
            0x2c => Ok(Instruction::ALoad2),
            0x2d => Ok(Instruction::ALoad3),
            0x3b => Ok(Instruction::IStore0),
            0x3c => Ok(Instruction::IStore1),
            0x3d => Ok(Instruction::IStore2),
            0x3e => Ok(Instruction::IStore3),
            0x1a => Ok(Instruction::ILoad0),
            0x1b => Ok(Instruction::ILoad1),
            0x1c => Ok(Instruction::ILoad2),
            0x1d => Ok(Instruction::ILoad3),
            0x60 => Ok(Instruction::IAdd),
            0x10 => {
                let operand = r.read_u1()?;
                Ok(Instruction::BiPush(operand))
            },
            0x12 => {
                let operand = r.read_u1()?;
                Ok(Instruction::Ldc(operand))
            },
            0xb2 => {
                let hi = r.read_u1()?;
                let lo = r.read_u1()?;
                Ok(Instruction::GetStatic((hi as u16) * 256 + (lo as u16)))
            },
            0xb6 => {
                let hi = r.read_u1()?;
                let lo = r.read_u1()?;
                Ok(Instruction::InvokeVirtual((hi as u16) * 256 + (lo as u16)))
            },
            0xb7 => {
                let hi = r.read_u1()?;
                let lo = r.read_u1()?;
                Ok(Instruction::InvokeSpecial((hi as u16) * 256 + (lo as u16)))
            },
            _ => Err(DecodeError::UnknownOpcode(opcode)),
        }
    }
}

/// The instruction sequence decoded from the whole of `b` starting at `p`:
/// decoding repeats until the end of `b` is reached exactly.  Running out
/// of bytes mid-instruction is a boundary violation, never a silently
/// short instruction list.
pub open spec fn spec_decode_code(b: Seq<u8>, p: int) -> Result<Seq<Instruction>, DecodeError>
    recommends
        0 <= p <= b.len(),
    decreases b.len() - p,
{
    if p >= b.len() {
        Ok(Seq::empty())
    } else {
        match spec_decode_instr(b, p) {
            Err(DecodeError::UnexpectedEof) => Err(DecodeError::CodeLengthMismatch),
            Err(e) => Err(e),
            Ok((i, q)) => match spec_decode_code(b, q) {
                Err(e) => Err(e),
                Ok(s) => Ok(seq![i] + s),
            },
        }
    }
}

/// Decodes the instruction stream of a whole code body.  On success the
/// widths of the decoded instructions sum to exactly the declared length.
pub fn decode_code(code_bytes: Vec<u8>) -> (res: Result<Vec<Instruction>, DecodeError>)
    ensures
        match res {
            Ok(code) => spec_decode_code(code_bytes@, 0) == Ok::<Seq<Instruction>, DecodeError>(
                code@,
            ) && width_sum(code@) == code_bytes@.len(),
            Err(e) => spec_decode_code(code_bytes@, 0) == Err::<Seq<Instruction>, DecodeError>(e),
        },
{
    let ghost b0 = code_bytes@;
    let mut r = Reader::new(code_bytes);
    let mut code: Vec<Instruction> = Vec::new();
    while r.len_left() > 0
        invariant
            r.wf(),
            r.bytes() == b0,
            b0 == code_bytes@,
            cons_items(code@, spec_decode_code(b0, r.pos())) == spec_decode_code(b0, 0),
        decreases r.remaining(),
    {
        let ghost code0 = code@;
        let ghost p1 = r.pos();
        match Instruction::from(&mut r) {
            Ok(i) => {
                code.push(i);
                proof {
                    let rest = spec_decode_code(b0, r.pos());
                    assert(spec_decode_code(b0, p1) == cons_items(seq![i], rest));
                    match rest {
                        Ok(t) => {
                            assert((code0 + seq![i]) + t =~= code0 + (seq![i] + t));
                            assert(code@ =~= code0 + seq![i]);
                        },
                        Err(_) => {},
                    }
                }
            },
            Err(e) => {
                let mapped = if let DecodeError::UnexpectedEof = e {
                    DecodeError::CodeLengthMismatch
                } else {
                    e
                };
                proof {
                    assert(spec_decode_code(b0, p1) == Err::<Seq<Instruction>, DecodeError>(
                        mapped,
                    ));
                }
                return Err(mapped);
            },
        }
    }
    proof {
        assert(code@ + Seq::<Instruction>::empty() =~= code@);
        lemma_code_widths(b0, 0, code@);
    }
    Ok(code)
}

/// The declared boundary is met exactly: the widths of the decoded
/// instructions sum to precisely the length of the decoded stream.
pub proof fn lemma_code_widths(b: Seq<u8>, p: int, s: Seq<Instruction>)
    requires
        0 <= p <= b.len(),
        spec_decode_code(b, p) == Ok::<Seq<Instruction>, DecodeError>(s),
    ensures
        width_sum(s) == b.len() - p,
    decreases b.len() - p,
{
    if p >= b.len() {
    } else {
        match spec_decode_instr(b, p) {
            Ok((i, q)) => {
                match spec_decode_code(b, q) {
                    Ok(t) => {
                        assert(q - p == instr_width(i));
                        lemma_code_widths(b, q, t);
                        assert((seq![i] + t).drop_first() =~= t);
                    },
                    Err(_) => {},
                }
            },
            Err(_) => {},
        }
    }
}

} // verus!

//! The disassembler: a read-only pass that renders a fully resolved class
//! as line-oriented text, resolving every constant-pool reference into
//! symbolic form.
//!
//! Rendering is best-effort in exactly one place: an instruction operand
//! whose index falls outside the pool is annotated as unresolvable rather
//! than aborting.  Every other bad reference, and every resolved-attribute
//! variant the renderer does not know how to print, is a fatal error —
//! except line-number tables, which are deliberately ignored.

use vstd::prelude::*;

verus! {

use vstd::string::StringExecFns;
use crate::attribute::{Attribute, AttributeModel, AttrInfoModel, attrs_model,
    lemma_attrs_model_props};
use crate::class::{Class, ClassModel};
use crate::code::Instruction;
use crate::constant_pool::{ConstantPoolInfo, CpEntry, cp_at, cp_in_range, pool_view};
use crate::error::RenderError;
use crate::method_info::{MethodInfo, MethodModel, methods_model, lemma_methods_model_props};
use crate::text::{append_dec, append_hex, dec_chars, hex_chars};

/// Prepends rendered text to the outcome of rendering the rest.
pub open spec fn cons_text(s: Seq<char>, rest: Result<Seq<char>, RenderError>) -> Result<
    Seq<char>,
    RenderError,
> {
    match rest {
        Ok(t) => Ok(s + t),
        Err(e) => Err(e),
    }
}

pub proof fn lemma_cons_text_assoc(s1: Seq<char>, s2: Seq<char>, rest: Result<Seq<char>, RenderError>)
    ensures
        cons_text(s1 + s2, rest) == cons_text(s1, cons_text(s2, rest)),
{
    match rest {
        Ok(t) => {
            assert((s1 + s2) + t =~= s1 + (s2 + t));
        },
        Err(_) => {},
    }
}

/// A reference that the renderer must resolve to a text record.
pub open spec fn spec_text_at(pool: Seq<CpEntry>, idx: u16) -> Result<Seq<char>, RenderError> {
    if !cp_in_range(pool, idx) {
        Err(RenderError::BadIndex)
    } else {
        match cp_at(pool, idx) {
            CpEntry::Utf8 { text } => Ok(text),
            _ => Err(RenderError::WrongKind),
        }
    }
}

/// A reference that the renderer must resolve to a class record, followed
/// to that record's name.
pub open spec fn spec_class_name_at(pool: Seq<CpEntry>, idx: u16) -> Result<
    Seq<char>,
    RenderError,
> {
    if !cp_in_range(pool, idx) {
        Err(RenderError::BadIndex)
    } else {
        match cp_at(pool, idx) {
            CpEntry::Class { name_index } => spec_text_at(pool, name_index),
            _ => Err(RenderError::WrongKind),
        }
    }
}

/// A reference that the renderer must resolve to a name-and-type record,
/// followed to its name and descriptor texts.
pub open spec fn spec_name_and_type_at(pool: Seq<CpEntry>, idx: u16) -> Result<
    (Seq<char>, Seq<char>),
    RenderError,
> {
    if !cp_in_range(pool, idx) {
        Err(RenderError::BadIndex)
    } else {
        match cp_at(pool, idx) {
            CpEntry::NameAndType { name_index, descriptor_index } => {
                match spec_text_at(pool, name_index) {
                    Err(e) => Err(e),
                    Ok(n) => match spec_text_at(pool, descriptor_index) {
                        Err(e) => Err(e),
                        Ok(d) => Ok((n, d)),
                    },
                }
            },
            _ => Err(RenderError::WrongKind),
        }
    }
}

/// The rendering of one constant-pool record, every reference resolved
/// into symbolic form; one line, newline included.
pub open spec fn spec_dump_constant(pool: Seq<CpEntry>, e: CpEntry) -> Result<
    Seq<char>,
    RenderError,
> {
    match e {
        CpEntry::FieldRef { class_index, name_and_type_index } => {
            match spec_class_name_at(pool, class_index) {
                Err(er) => Err(er),
                Ok(cn) => match spec_name_and_type_at(pool, name_and_type_index) {
                    Err(er) => Err(er),
                    Ok((fname, d)) => Ok(
                        "fieldref class="@ + cn + " field="@ + fname + " descriptor=\""@ + d
                            + "\"\n"@,
                    ),
                },
            }
        },
        CpEntry::MethodRef { class_index, name_and_type_index } => {
            match spec_class_name_at(pool, class_index) {
                Err(er) => Err(er),
                Ok(cn) => match spec_name_and_type_at(pool, name_and_type_index) {
                    Err(er) => Err(er),
                    Ok((mname, d)) => Ok(
                        "methodref class="@ + cn + " method="@ + mname + " descriptor=\""@ + d
                            + "\"\n"@,
                    ),
                },
            }
        },
        CpEntry::NameAndType { name_index, descriptor_index } => {
            match spec_text_at(pool, name_index) {
                Err(er) => Err(er),
                Ok(n) => match spec_text_at(pool, descriptor_index) {
                    Err(er) => Err(er),
                    Ok(d) => Ok("name="@ + n + " type=\""@ + d + "\"\n"@),
                },
            }
        },
        CpEntry::Class { name_index } => match spec_text_at(pool, name_index) {
            Err(er) => Err(er),
            Ok(n) => Ok("class "@ + n + "\n"@),
        },
        CpEntry::String { string_index } => match spec_text_at(pool, string_index) {
            Err(er) => Err(er),
            Ok(s) => Ok("string \""@ + s + "\"\n"@),
        },
        CpEntry::Utf8 { text } => Ok("\""@ + text + "\"\n"@),
    }
}

/// The annotation after an instruction's constant-pool operand: the
/// resolved record, or — the renderer's one graceful degradation — a note
/// that the index could not be resolved.
pub open spec fn spec_operand_note(pool: Seq<CpEntry>, idx: u16) -> Result<
    Seq<char>,
    RenderError,
> {
    if cp_in_range(pool, idx) {
        match spec_dump_constant(pool, cp_at(pool, idx)) {
            Err(e) => Err(e),
            Ok(d) => Ok(" // "@ + d),
        }
    } else {
        Ok(" // couldn't resolve constant\n"@)
    }
}

/// The rendering of one instruction; one line, newline included.
pub open spec fn spec_render_instr(pool: Seq<CpEntry>, ins: Instruction) -> Result<
    Seq<char>,
    RenderError,
> {
    match ins {
        Instruction::Nop => Ok("    nop\n"@),
        Instruction::Return => Ok("    return\n"@),
        Instruction::IStore0 => Ok("    istore_0\n"@),
        Instruction::IStore1 => Ok("    istore_1\n"@),
        Instruction::IStore2 => Ok("    istore_2\n"@),
        Instruction::IStore3 => Ok("    istore_3\n"@),
        Instruction::ALoad0 => Ok("    aload_0\n"@),
        Instruction::ALoad1 => Ok("    aload_1\n"@),
        Instruction::ALoad2 => Ok("    aload_2\n"@),
        Instruction::ALoad3 => Ok("    aload_3\n"@),
        Instruction::ILoad0 => Ok("    iload_0\n"@),
        Instruction::ILoad1 => Ok("    iload_1\n"@),
        Instruction::ILoad2 => Ok("    iload_2\n"@),
        Instruction::ILoad3 => Ok("    iload_3\n"@),
        Instruction::IAdd => Ok("    iadd\n"@),
        Instruction::BiPush(b) => Ok(
            "    bipush "@ + dec_chars(b as int) + " // "@ + hex_chars(b) + "\n"@,
        ),
        Instruction::Ldc(c) => match spec_operand_note(pool, c as u16) {
            Err(e) => Err(e),
            Ok(note) => Ok("    ldc "@ + dec_chars(c as int) + note),
        },
        Instruction::GetStatic(i) => match spec_operand_note(pool, i) {
            Err(e) => Err(e),
            Ok(note) => Ok("    getstatic "@ + dec_chars(i as int) + note),
        },
        Instruction::InvokeSpecial(i) => match spec_operand_note(pool, i) {
            Err(e) => Err(e),
            Ok(note) => Ok("    invokespecial "@ + dec_chars(i as int) + note),
        },
        Instruction::InvokeVirtual(i) => match spec_operand_note(pool, i) {
            Err(e) => Err(e),
            Ok(note) => Ok("    invokevirtual "@ + dec_chars(i as int) + note),
        },
    }
}

/// The rendering of the instructions of `s` from position `i` on.
pub open spec fn spec_render_instrs(pool: Seq<CpEntry>, s: Seq<Instruction>, i: int) -> Result<
    Seq<char>,
    RenderError,
>
    decreases s.len() - i,
{
    if i >= s.len() || i < 0 {
        Ok(Seq::empty())
    } else {
        match spec_render_instr(pool, s[i]) {
            Err(e) => Err(e),
            Ok(line) => cons_text(line, spec_render_instrs(pool, s, i + 1)),
        }
    }
}

/// Whether every attribute nested in a rendered code body is a
/// line-number table — the only nested kind the renderer accepts (and
/// deliberately ignores).
pub open spec fn spec_check_nested(ms: Seq<AttributeModel>) -> Result<(), RenderError> {
    if forall|i: int| 0 <= i < ms.len() ==> (ms[i].info is LineNumberTable) {
        Ok(())
    } else {
        Err(RenderError::Unsupported)
    }
}

/// The rendering of a resolved code body: its metadata line, then one
/// line per instruction.  A nested attribute other than a line-number
/// table, or a nonempty exception table, is fatal.
pub open spec fn spec_render_code_attr(
    pool: Seq<CpEntry>,
    max_stack: u16,
    max_locals: u16,
    code: Seq<Instruction>,
    exception_table: Seq<crate::attribute::Exception>,
    attributes: Seq<AttributeModel>,
) -> Result<Seq<char>, RenderError> {
    match spec_check_nested(attributes) {
        Err(e) => Err(e),
        Ok(_) => match spec_render_instrs(pool, code, 0) {
            Err(e) => Err(e),
            Ok(lines) => {
                if exception_table.len() > 0 {
                    Err(RenderError::Unsupported)
                } else {
                    Ok(
                        "  attribute Code max_stack="@ + dec_chars(max_stack as int)
                            + " max_locals="@ + dec_chars(max_locals as int) + "\n"@ + lines,
                    )
                }
            },
        },
    }
}

/// The rendering of one attribute of a method: a code body is rendered, a
/// line-number table is deliberately ignored, anything else is fatal.
pub open spec fn spec_render_method_attr(pool: Seq<CpEntry>, a: AttributeModel) -> Result<
    Seq<char>,
    RenderError,
> {
    match a.info {
        AttrInfoModel::Code { max_stack, max_locals, code, exception_table, attributes } => {
            spec_render_code_attr(pool, max_stack, max_locals, code, exception_table, attributes)
        },
        AttrInfoModel::LineNumberTable { lines } => Ok(Seq::empty()),
        _ => Err(RenderError::Unsupported),
    }
}

/// The rendering of the attributes of `ms` from position `i` on.
pub open spec fn spec_render_method_attrs(
    pool: Seq<CpEntry>,
    ms: Seq<AttributeModel>,
    i: int,
) -> Result<Seq<char>, RenderError>
    decreases ms.len() - i,
{
    if i >= ms.len() || i < 0 {
        Ok(Seq::empty())
    } else {
        match spec_render_method_attr(pool, ms[i]) {
            Err(e) => Err(e),
            Ok(part) => cons_text(part, spec_render_method_attrs(pool, ms, i + 1)),
        }
    }
}

/// The rendering of one method: its resolved name, then its attributes.
pub open spec fn spec_render_method(pool: Seq<CpEntry>, m: MethodModel) -> Result<
    Seq<char>,
    RenderError,
> {
    match spec_text_at(pool, m.name_index) {
        Err(e) => Err(e),
        Ok(name) => match spec_render_method_attrs(pool, m.attributes, 0) {
            Err(e) => Err(e),
            Ok(parts) => Ok("method "@ + name + "\n"@ + parts),
        },
    }
}

/// The rendering of the methods of `ms` from position `i` on.
pub open spec fn spec_render_methods(pool: Seq<CpEntry>, ms: Seq<MethodModel>, i: int) -> Result<
    Seq<char>,
    RenderError,
>
    decreases ms.len() - i,
{
    if i >= ms.len() || i < 0 {
        Ok(Seq::empty())
    } else {
        match spec_render_method(pool, ms[i]) {
            Err(e) => Err(e),
            Ok(part) => cons_text(part, spec_render_methods(pool, ms, i + 1)),
        }
    }
}

/// The constant-pool listing from entry `i + 1` on: each entry's 1-based
/// index and its rendered record.
pub open spec fn spec_render_consts(pool: Seq<CpEntry>, i: int) -> Result<Seq<char>, RenderError>
    decreases pool.len() - i,
{
    if i >= pool.len() || i < 0 {
        Ok(Seq::empty())
    } else {
        match spec_dump_constant(pool, pool[i]) {
            Err(e) => Err(e),
            Ok(line) => cons_text(
                "const "@ + dec_chars(i + 1) + " "@ + line,
                spec_render_consts(pool, i + 1),
            ),
        }
    }
}

/// The rendering of a whole resolved class: the resolved name of its
/// this-class reference, the constant-pool listing, then every method.
pub open spec fn spec_render_class(c: ClassModel) -> Result<Seq<char>, RenderError> {
    match spec_class_name_at(c.constant_pool, c.this_class) {
        Err(e) => Err(e),
        Ok(n) => match spec_render_consts(c.constant_pool, 0) {
            Err(e) => Err(e),
            Ok(consts) => match spec_render_methods(c.constant_pool, c.methods, 0) {
                Err(e) => Err(e),
                Ok(methods) => Ok("this_class "@ + n + "\n"@ + consts + methods),
            },
        },
    }
}

/// Bounds- and kind-checked lookup of a text record for rendering.
fn text_at<'a>(pool: &'a Vec<ConstantPoolInfo>, idx: u16) -> (r: Result<&'a String, RenderError>)
    ensures
        match r {
            Ok(s) => spec_text_at(pool_view(pool@), idx) == Ok::<Seq<char>, RenderError>(s@),
            Err(e) => spec_text_at(pool_view(pool@), idx) == Err::<Seq<char>, RenderError>(e),
        },
{
    if 1 <= idx && (idx as usize) <= pool.len() {
        match &pool[idx as usize - 1] {
            ConstantPoolInfo::Utf8(text) => Ok(text),
            _ => Err(RenderError::WrongKind),
        }
    } else {
        Err(RenderError::BadIndex)
    }
}

/// Bounds- and kind-checked lookup of a class record's name for
/// rendering.
fn class_name_at<'a>(pool: &'a Vec<ConstantPoolInfo>, idx: u16) -> (r: Result<
    &'a String,
    RenderError,
>)
    ensures
        match r {
            Ok(s) => spec_class_name_at(pool_view(pool@), idx) == Ok::<Seq<char>, RenderError>(s@),
            Err(e) => spec_class_name_at(pool_view(pool@), idx) == Err::<Seq<char>, RenderError>(
                e,
            ),
        },
{
    if 1 <= idx && (idx as usize) <= pool.len() {
        match &pool[idx as usize - 1] {
            ConstantPoolInfo::Class { name_index } => text_at(pool, *name_index),
            _ => Err(RenderError::WrongKind),
        }
    } else {
        Err(RenderError::BadIndex)
    }
}

/// Bounds- and kind-checked lookup of a name-and-type record's two texts
/// for rendering.
fn name_and_type_at<'a>(pool: &'a Vec<ConstantPoolInfo>, idx: u16) -> (r: Result<
    (&'a String, &'a String),
    RenderError,
>)
    ensures
        match r {
            Ok(p) => spec_name_and_type_at(pool_view(pool@), idx) == Ok::<
                (Seq<char>, Seq<char>),
                RenderError,
            >((p.0@, p.1@)),
            Err(e) => spec_name_and_type_at(pool_view(pool@), idx) == Err::<
                (Seq<char>, Seq<char>),
                RenderError,
            >(e),
        },
{
    if 1 <= idx && (idx as usize) <= pool.len() {
        match &pool[idx as usize - 1] {
            ConstantPoolInfo::NameAndType { name_index, descriptor_index } => {
                let n = text_at(pool, *name_index)?;
                let d = text_at(pool, *descriptor_index)?;
                Ok((n, d))
            },
            _ => Err(RenderError::WrongKind),
        }
    } else {
        Err(RenderError::BadIndex)
    }
}

/// Renders one constant-pool record as a line of text, resolving its
/// references; a reference out of bounds or of the wrong kind is fatal.
pub fn dump_constant(constant_pool: &Vec<ConstantPoolInfo>, constant: &ConstantPoolInfo) -> (res:
    Result<String, RenderError>)
    ensures
        match res {
            Ok(s) => spec_dump_constant(pool_view(constant_pool@), constant@) == Ok::<
                Seq<char>,
                RenderError,
            >(s@),
            Err(e) => spec_dump_constant(pool_view(constant_pool@), constant@) == Err::<
                Seq<char>,
                RenderError,
            >(e),
        },
{
    let mut out = String::new();
    match constant {
        ConstantPoolInfo::FieldRef { class_index, name_and_type_index } => {
            let cn = class_name_at(constant_pool, *class_index)?;
            let pair = name_and_type_at(constant_pool, *name_and_type_index)?;
            out.append("fieldref class=");
            out.append(cn.as_str());
            out.append(" field=");
            out.append(pair.0.as_str());
            out.append(" descriptor=\"");
            out.append(pair.1.as_str());
            out.append("\"\n");
            assert(out@ =~= "fieldref class="@ + cn@ + " field="@ + pair.0@ + " descriptor=\""@
                + pair.1@ + "\"\n"@);
            Ok(out)
        },
        ConstantPoolInfo::MethodRef { class_index, name_and_type_index } => {
            let cn = class_name_at(constant_pool, *class_index)?;
            let pair = name_and_type_at(constant_pool, *name_and_type_index)?;
            out.append("methodref class=");
            out.append(cn.as_str());
            out.append(" method=");
            out.append(pair.0.as_str());
            out.append(" descriptor=\"");
            out.append(pair.1.as_str());
            out.append("\"\n");
            assert(out@ =~= "methodref class="@ + cn@ + " method="@ + pair.0@ + " descriptor=\""@
                + pair.1@ + "\"\n"@);
            Ok(out)
        },
        ConstantPoolInfo::NameAndType { name_index, descriptor_index } => {
            let n = text_at(constant_pool, *name_index)?;
            let d = text_at(constant_pool, *descriptor_index)?;
            out.append("name=");
            out.append(n.as_str());
            out.append(" type=\"");
            out.append(d.as_str());
            out.append("\"\n");
            assert(out@ =~= "name="@ + n@ + " type=\""@ + d@ + "\"\n"@);
            Ok(out)
        },
        ConstantPoolInfo::Class { name_index } => {
            let n = text_at(constant_pool, *name_index)?;
            out.append("class ");
            out.append(n.as_str());
            out.append("\n");
            assert(out@ =~= "class "@ + n@ + "\n"@);
            Ok(out)
        },
        ConstantPoolInfo::String { string_index } => {
            let s = text_at(constant_pool, *string_index)?;
            out.append("string \"");
            out.append(s.as_str());
            out.append("\"\n");
            assert(out@ =~= "string \""@ + s@ + "\"\n"@);
            Ok(out)
        },
        ConstantPoolInfo::Utf8(text) => {
            out.append("\"");
            out.append(text.as_str());
            out.append("\"\n");
            assert(out@ =~= "\""@ + text@ + "\"\n"@);
            Ok(out)
        },
    }
}

/// Renders the annotation after a constant-pool operand; an index outside
/// the pool degrades to a note instead of failing.
fn operand_note(pool: &Vec<ConstantPoolInfo>, idx: u16) -> (res: Result<String, RenderError>)
    ensures
        match res {
            Ok(s) => spec_operand_note(pool_view(pool@), idx) == Ok::<Seq<char>, RenderError>(s@),
            Err(e) => spec_operand_note(pool_view(pool@), idx) == Err::<Seq<char>, RenderError>(e),
        },
{
    let mut out = String::new();
    if 1 <= idx && (idx as usize) <= pool.len() {
        let line = dump_constant(pool, &pool[idx as usize - 1])?;
        out.append(" // ");
        out.append(line.as_str());
        assert(out@ =~= " // "@ + line@);
        Ok(out)
    } else {
        out.append(" // couldn't resolve constant\n");
        assert(out@ =~= " // couldn't resolve constant\n"@);
        Ok(out)
    }
}

/// Renders one instruction as a line, with any constant-pool operand
/// resolved into a human-readable annotation.
fn render_instr(pool: &Vec<ConstantPoolInfo>, ins: &Instruction) -> (res: Result<
    String,
    RenderError,
>)
    ensures
        match res {
            Ok(s) => spec_render_instr(pool_view(pool@), *ins) == Ok::<Seq<char>, RenderError>(s@),
            Err(e) => spec_render_instr(pool_view(pool@), *ins) == Err::<Seq<char>, RenderError>(
                e,
            ),
        },
{
    let mut out = String::new();
    match ins {
        Instruction::Nop => {
            out.append("    nop\n");
            Ok(out)
        },
        Instruction::Return => {
            out.append("    return\n");
            Ok(out)
        },
        Instruction::IStore0 => {
            out.append("    istore_0\n");
            Ok(out)
        },
        Instruction::IStore1 => {
            out.append("    istore_1\n");
            Ok(out)
        },
        Instruction::IStore2 => {
            out.append("    istore_2\n");
            Ok(out)
        },
        Instruction::IStore3 => {
            out.append("    istore_3\n");
            Ok(out)
        },
        Instruction::ALoad0 => {
            out.append("    aload_0\n");
            Ok(out)
        },
        Instruction::ALoad1 => {
            out.append("    aload_1\n");
            Ok(out)
        },
        Instruction::ALoad2 => {
            out.append("    aload_2\n");
            Ok(out)
        },
        Instruction::ALoad3 => {
            out.append("    aload_3\n");
            Ok(out)
        },
        Instruction::ILoad0 => {
            out.append("    iload_0\n");
            Ok(out)
        },
        Instruction::ILoad1 => {
            out.append("    iload_1\n");
            Ok(out)
        },
        Instruction::ILoad2 => {
            out.append("    iload_2\n");
            Ok(out)
        },
        Instruction::ILoad3 => {
            out.append("    iload_3\n");
            Ok(out)
        },
        Instruction::IAdd => {
            out.append("    iadd\n");
            Ok(out)
        },
        Instruction::BiPush(b) => {
            out.append("    bipush ");
            append_dec(&mut out, *b as u64);
            out.append(" // ");
            append_hex(&mut out, *b);
            out.append("\n");
            assert(out@ =~= "    bipush "@ + dec_chars(*b as int) + " // "@ + hex_chars(*b)
                + "\n"@);
            Ok(out)
        },
        Instruction::Ldc(c) => {
            let note = operand_note(pool, *c as u16)?;
            out.append("    ldc ");
            append_dec(&mut out, *c as u64);
            out.append(note.as_str());
            assert(out@ =~= "    ldc "@ + dec_chars(*c as int) + note@);
            Ok(out)
        },
        Instruction::GetStatic(i) => {
            let note = operand_note(pool, *i)?;
            out.append("    getstatic ");
            append_dec(&mut out, *i as u64);
            out.append(note.as_str());
            assert(out@ =~= "    getstatic "@ + dec_chars(*i as int) + note@);
            Ok(out)
        },
        Instruction::InvokeSpecial(i) => {
            let note = operand_note(pool, *i)?;
            out.append("    invokespecial ");
            append_dec(&mut out, *i as u64);
            out.append(note.as_str());
            assert(out@ =~= "    invokespecial "@ + dec_chars(*i as int) + note@);
            Ok(out)
        },
        Instruction::InvokeVirtual(i) => {
            let note = operand_note(pool, *i)?;
            out.append("    invokevirtual ");
            append_dec(&mut out, *i as u64);
            out.append(note.as_str());
            assert(out@ =~= "    invokevirtual "@ + dec_chars(*i as int) + note@);
            Ok(out)
        },
    }
}

/// Renders every instruction of a code body, one line each.
fn render_instrs(pool: &Vec<ConstantPoolInfo>, code: &Vec<Instruction>) -> (res: Result<
    String,
    RenderError,
>)
    ensures
        match res {
            Ok(s) => spec_render_instrs(pool_view(pool@), code@, 0) == Ok::<
                Seq<char>,
                RenderError,
            >(s@),
            Err(e) => spec_render_instrs(pool_view(pool@), code@, 0) == Err::<
                Seq<char>,
                RenderError,
            >(e),
        },
{
    let ghost pool_v = pool_view(pool@);
    let mut out = String::new();
    let mut i: usize = 0;
    while i < code.len()
        invariant
            pool_v == pool_view(pool@),
            i <= code@.len(),
            cons_text(out@, spec_render_instrs(pool_v, code@, i as int)) == spec_render_instrs(
                pool_v,
                code@,
                0,
            ),
        decreases code@.len() - i,
    {
        let ghost out0 = out@;
        match render_instr(pool, &code[i]) {
            Ok(line) => {
                out.append(line.as_str());
                i = i + 1;
                proof {
                    let rest = spec_render_instrs(pool_v, code@, i as int);
                    assert(spec_render_instrs(pool_v, code@, i - 1) == cons_text(line@, rest));
                    lemma_cons_text_assoc(out0, line@, rest);
                }
            },
            Err(e) => {
                proof {
                    assert(spec_render_instrs(pool_v, code@, i as int) == Err::<
                        Seq<char>,
                        RenderError,
                    >(e));
                }
                return Err(e);
            },
        }
    }
    proof {
        assert(out@ + Seq::<char>::empty() =~= out@);
    }
    Ok(out)
}

/// Renders a resolved code body: its metadata line, then its instruction
/// listing.
fn render_code_attr(
    pool: &Vec<ConstantPoolInfo>,
    max_stack: u16,
    max_locals: u16,
    code: &Vec<Instruction>,
    exception_table: &Vec<crate::attribute::Exception>,
    nested: &Vec<Attribute>,
) -> (res: Result<String, RenderError>)
    ensures
        match res {
            Ok(s) => spec_render_code_attr(
                pool_view(pool@),
                max_stack,
                max_locals,
                code@,
                exception_table@,
                attrs_model(nested@),
            ) == Ok::<Seq<char>, RenderError>(s@),
            Err(e) => spec_render_code_attr(
                pool_view(pool@),
                max_stack,
                max_locals,
                code@,
                exception_table@,
                attrs_model(nested@),
            ) == Err::<Seq<char>, RenderError>(e),
        },
{
    proof {
        lemma_attrs_model_props(nested@);
    }
    let mut j: usize = 0;
    while j < nested.len()
        invariant
            j <= nested@.len(),
            attrs_model(nested@).len() == nested@.len(),
            forall|k: int| 0 <= k < nested@.len() ==> attrs_model(nested@)[k]
                == nested@[k].model(),
            forall|k: int| 0 <= k < j ==> (attrs_model(nested@)[k].info is LineNumberTable),
        decreases nested@.len() - j,
    {
        match &nested[j].info {
            crate::attribute::AttributeInfo::LineNumberTable(_) => {},
            _ => {
                proof {
                    assert(!(attrs_model(nested@)[j as int].info is LineNumberTable));
                }
                return Err(RenderError::Unsupported);
            },
        }
        j = j + 1;
    }
    let lines = render_instrs(pool, code)?;
    if exception_table.len() > 0 {
        return Err(RenderError::Unsupported);
    }
    let mut out = String::new();
    out.append("  attribute Code max_stack=");
    append_dec(&mut out, max_stack as u64);
    out.append(" max_locals=");
    append_dec(&mut out, max_locals as u64);
    out.append("\n");
    out.append(lines.as_str());
    assert(out@ =~= "  attribute Code max_stack="@ + dec_chars(max_stack as int)
        + " max_locals="@ + dec_chars(max_locals as int) + "\n"@ + lines@);
    Ok(out)
}

/// Renders one method: its resolved name, then its attributes.
fn render_method(pool: &Vec<ConstantPoolInfo>, m: &MethodInfo) -> (res: Result<
    String,
    RenderError,
>)
    ensures
        match res {
            Ok(s) => spec_render_method(pool_view(pool@), m.model()) == Ok::<
                Seq<char>,
                RenderError,
            >(s@),
            Err(e) => spec_render_method(pool_view(pool@), m.model()) == Err::<
                Seq<char>,
                RenderError,
            >(e),
        },
{
    let ghost pool_v = pool_view(pool@);
    let name = text_at(pool, m.name_index)?;
    let mut out = String::new();
    out.append("method ");
    out.append(name.as_str());
    out.append("\n");
    let ghost name_v = name@;
    let ghost header = "method "@ + name_v + "\n"@;
    assert(out@ =~= header);
    proof {
        lemma_attrs_model_props(m.attributes@);
    }
    let ghost ms = attrs_model(m.attributes@);
    let mut j: usize = 0;
    while j < m.attributes.len()
        invariant
            pool_v == pool_view(pool@),
            ms == attrs_model(m.attributes@),
            ms.len() == m.attributes@.len(),
            forall|k: int| 0 <= k < ms.len() ==> ms[k] == m.attributes@[k].model(),
            j <= ms.len(),
            header == "method "@ + name_v + "\n"@,
            spec_text_at(pool_v, m.name_index) == Ok::<Seq<char>, RenderError>(name_v),
            cons_text(out@, spec_render_method_attrs(pool_v, ms, j as int)) == cons_text(
                header,
                spec_render_method_attrs(pool_v, ms, 0),
            ),
        decreases ms.len() - j,
    {
        let ghost out0 = out@;
        let a = &m.attributes[j];
        let part_res = match &a.info {
            crate::attribute::AttributeInfo::Code {
                max_stack,
                max_locals,
                code,
                exception_table,
                attributes,
            } => render_code_attr(pool, *max_stack, *max_locals, code, exception_table, attributes),
            crate::attribute::AttributeInfo::LineNumberTable(_) => Ok(String::new()),
            _ => Err(RenderError::Unsupported),
        };
        match part_res {
            Ok(part) => {
                out.append(part.as_str());
                j = j + 1;
                proof {
                    assert(spec_render_method_attr(pool_v, ms[j - 1]) == Ok::<
                        Seq<char>,
                        RenderError,
                    >(part@));
                    let rest = spec_render_method_attrs(pool_v, ms, j as int);
                    assert(spec_render_method_attrs(pool_v, ms, j - 1) == cons_text(part@, rest));
                    lemma_cons_text_assoc(out0, part@, rest);
                    match rest {
                        Ok(t) => {},
                        Err(_) => {},
                    }
                }
            },
            Err(e) => {
                proof {
                    assert(spec_render_method_attr(pool_v, ms[j as int]) == Err::<
                        Seq<char>,
                        RenderError,
                    >(e));
                    assert(spec_render_method_attrs(pool_v, ms, j as int) == Err::<
                        Seq<char>,
                        RenderError,
                    >(e));
                }
                return Err(e);
            },
        }
    }
    proof {
        assert(out@ + Seq::<char>::empty() =~= out@);
        assert(header + Seq::<char>::empty() =~= header);
    }
    Ok(out)
}

/// Renders every method of the class.
fn render_methods(pool: &Vec<ConstantPoolInfo>, methods: &Vec<MethodInfo>) -> (res: Result<
    String,
    RenderError,
>)
    ensures
        match res {
            Ok(s) => spec_render_methods(pool_view(pool@), methods_model(methods@), 0) == Ok::<
                Seq<char>,
                RenderError,
            >(s@),
            Err(e) => spec_render_methods(pool_view(pool@), methods_model(methods@), 0) == Err::<
                Seq<char>,
                RenderError,
            >(e),
        },
{
    let ghost pool_v = pool_view(pool@);
    let ghost ms = methods_model(methods@);
    proof {
        lemma_methods_model_props(methods@);
    }
    let mut out = String::new();
    let mut i: usize = 0;
    while i < methods.len()
        invariant
            pool_v == pool_view(pool@),
            ms == methods_model(methods@),
            ms.len() == methods@.len(),
            forall|k: int| 0 <= k < ms.len() ==> ms[k] == methods@[k].model(),
            i <= ms.len(),
            cons_text(out@, spec_render_methods(pool_v, ms, i as int)) == spec_render_methods(
                pool_v,
                ms,
                0,
            ),
        decreases ms.len() - i,
    {
        let ghost out0 = out@;
        match render_method(pool, &methods[i]) {
            Ok(part) => {
                out.append(part.as_str());
                i = i + 1;
                proof {
                    let rest = spec_render_methods(pool_v, ms, i as int);
                    assert(spec_render_methods(pool_v, ms, i - 1) == cons_text(part@, rest));
                    lemma_cons_text_assoc(out0, part@, rest);
                }
            },
            Err(e) => {
                proof {
                    assert(spec_render_methods(pool_v, ms, i as int) == Err::<
                        Seq<char>,
                        RenderError,
                    >(e));
                }
                return Err(e);
            },
        }
    }
    proof {
        assert(out@ + Seq::<char>::empty() =~= out@);
    }
    Ok(out)
}

/// Renders the constant-pool listing, one line per entry with its 1-based
/// index.
fn render_consts(pool: &Vec<ConstantPoolInfo>) -> (res: Result<String, RenderError>)
    ensures
        match res {
            Ok(s) => spec_render_consts(pool_view(pool@), 0) == Ok::<Seq<char>, RenderError>(s@),
            Err(e) => spec_render_consts(pool_view(pool@), 0) == Err::<Seq<char>, RenderError>(e),
        },
{
    let ghost pool_v = pool_view(pool@);
    let mut out = String::new();
    let mut i: usize = 0;
    while i < pool.len()
        invariant
            pool_v == pool_view(pool@),
            pool_v.len() == pool@.len(),
            i <= pool@.len(),
            cons_text(out@, spec_render_consts(pool_v, i as int)) == spec_render_consts(
                pool_v,
                0,
            ),
        decreases pool@.len() - i,
    {
        let ghost out0 = out@;
        match dump_constant(pool, &pool[i]) {
            Ok(line) => {
                out.append("const ");
                append_dec(&mut out, (i + 1) as u64);
                out.append(" ");
                out.append(line.as_str());
                i = i + 1;
                proof {
                    let entry_text = "const "@ + dec_chars(i as int) + " "@ + line@;
                    assert(out@ =~= out0 + entry_text);
                    let rest = spec_render_consts(pool_v, i as int);
                    assert(spec_render_consts(pool_v, i - 1) == cons_text(entry_text, rest));
                    lemma_cons_text_assoc(out0, entry_text, rest);
                }
            },
            Err(e) => {
                proof {
                    assert(spec_render_consts(pool_v, i as int) == Err::<Seq<char>, RenderError>(
                        e,
                    ));
                }
                return Err(e);
            },
        }
    }
    proof {
        assert(out@ + Seq::<char>::empty() =~= out@);
    }
    Ok(out)
}

impl Class {
    /// Renders the fully resolved class as text: the class name, the
    /// constant-pool listing, and every method with its code body.
    pub fn disassemble(&self) -> (res: Result<String, RenderError>)
        ensures
            match res {
                Ok(s) => spec_render_class(self.model()) == Ok::<Seq<char>, RenderError>(s@),
                Err(e) => spec_render_class(self.model()) == Err::<Seq<char>, RenderError>(e),
            },
    {
        let name = class_name_at(&self.constant_pool, self.this_class)?;
        let mut out = String::new();
        out.append("this_class ");
        out.append(name.as_str());
        out.append("\n");
        let consts = render_consts(&self.constant_pool)?;
        out.append(consts.as_str());
        let methods = render_methods(&self.constant_pool, &self.methods)?;
        out.append(methods.as_str());
        assert(out@ =~= "this_class "@ + name@ + "\n"@ + consts@ + methods@);
        Ok(out)
    }
}

/// Rendering a method-reference whose class reference points at a record
/// of the wrong kind is a structural-invariant violation, never silently
/// rendered.
pub proof fn lemma_methodref_wrong_kind(pool: Seq<CpEntry>, ci: u16, nti: u16)
    requires
        cp_in_range(pool, ci),
        !(cp_at(pool, ci) is Class),
    ensures
        spec_dump_constant(pool, CpEntry::MethodRef { class_index: ci, name_and_type_index: nti })
            == Err::<Seq<char>, RenderError>(RenderError::WrongKind),
{
}

} // verus!

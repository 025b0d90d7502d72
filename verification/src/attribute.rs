//! Attributes: named payloads attached to the class, to a method, or —
//! recursively — to a resolved code body.
//!
//! An attribute's payload has two states.  As first decoded it is *raw*:
//! an opaque byte blob, because the attribute's meaning depends on its
//! name, and the name is a constant-pool reference that can only be
//! followed once the whole pool has been read.  A separate resolution pass
//! then reinterprets each raw payload, by name, into one of a closed set
//! of structured variants; a name outside that set leaves the payload as
//! an *unrecognized* blob, which is tolerated, not an error.

use vstd::prelude::*;

verus! {

use crate::code::{Instruction, spec_decode_code, decode_code};
use crate::constant_pool::{
    ConstantPoolInfo,
    CpEntry,
    cp_text,
    lookup_text,
    pool_view,
};
use crate::error::DecodeError;
use crate::reader::{
    Reader,
    be16,
    be32,
    cons_decoded,
    cons_items,
    lemma_cons_decoded_assoc,
    lemma_cons_items_assoc,
};
use crate::text::string_eq_lit;

/// One exception-table entry of a code body.  The decoder requires the
/// table to be empty, so no entry is ever decoded; the type states the
/// layout the format declares.
#[derive(Clone, Copy, Debug, PartialEq, Eq, Structural)]
pub struct Exception {
    pub start_pc: u16,
    pub end_pc: u16,
    pub handler_pc: u16,
    pub catch_type: u16,
}

/// One line-number-table entry: a program counter and its source line.
#[derive(Clone, Copy, Debug, PartialEq, Eq, Structural)]
pub struct LineNumber {
    pub start_pc: u16,
    pub line_number: u16,
}

/// The mathematical value of an attribute.
pub struct AttributeModel {
    pub name_index: u16,
    pub info: AttrInfoModel,
}

/// The mathematical value of an attribute's payload.
pub enum AttrInfoModel {
    Raw { data: Seq<u8> },
    Code {
        max_stack: u16,
        max_locals: u16,
        code: Seq<Instruction>,
        exception_table: Seq<Exception>,
        attributes: Seq<AttributeModel>,
    },
    LineNumberTable { lines: Seq<LineNumber> },
    SourceFile { source: Seq<char> },
    Unrecognized { data: Seq<u8> },
}

/// An attribute's payload: raw as decoded, or one of the resolved
/// variants.
#[derive(Debug, PartialEq)]
pub enum AttributeInfo {
    /// The payload as first decoded, not yet interpreted.
    Raw(Vec<u8>),
    /// A resolved code body.
    Code {
        max_stack: u16,
        max_locals: u16,
        code: Vec<Instruction>,
        exception_table: Vec<Exception>,
        attributes: Vec<Attribute>,
    },
    /// A resolved line-number table.
    LineNumberTable(Vec<LineNumber>),
    /// A resolved source-file name.
    SourceFile(String),
    /// A payload whose name is not one of the known kinds; kept verbatim.
    Unrecognized(Vec<u8>),
}

/// A named payload: a constant-pool reference to a text record naming the
/// attribute, and the payload itself.
#[derive(Debug, PartialEq)]
pub struct Attribute {
    pub name_index: u16,
    pub info: AttributeInfo,
}

impl AttributeInfo {
    /// The mathematical value of this payload.
    pub open spec fn model(self) -> AttrInfoModel
        decreases self,
    {
        match self {
            AttributeInfo::Raw(data) => AttrInfoModel::Raw { data: data@ },
            AttributeInfo::Code { max_stack, max_locals, code, exception_table, attributes } => {
                AttrInfoModel::Code {
                    max_stack,
                    max_locals,
                    code: code@,
                    exception_table: exception_table@,
                    attributes: attrs_model(attributes@),
                }
            },
            AttributeInfo::LineNumberTable(lines) => AttrInfoModel::LineNumberTable {
                lines: lines@,
            },
            AttributeInfo::SourceFile(source) => AttrInfoModel::SourceFile { source: source@ },
            AttributeInfo::Unrecognized(data) => AttrInfoModel::Unrecognized { data: data@ },
        }
    }
}

impl Attribute {
    /// The mathematical value of this attribute.
    pub open spec fn model(self) -> AttributeModel
        decreases self,
    {
        AttributeModel { name_index: self.name_index, info: self.info.model() }
    }
}

/// The mathematical value of an attribute list.
pub open spec fn attrs_model(s: Seq<Attribute>) -> Seq<AttributeModel>
    decreases s,
{
    if s.len() == 0 {
        Seq::empty()
    } else {
        seq![s[0].model()] + attrs_model(s.subrange(1, s.len() as int))
    }
}

/// `attrs_model` maps the list element by element.
pub proof fn lemma_attrs_model_props(s: Seq<Attribute>)
    ensures
        attrs_model(s).len() == s.len(),
        forall|i: int| 0 <= i < s.len() ==> attrs_model(s)[i] == s[i].model(),
    decreases s.len(),
{
    if s.len() > 0 {
        lemma_attrs_model_props(s.subrange(1, s.len() as int));
    }
}

/// The raw attribute decoded from `b` at `p`: a name reference, a
/// four-byte payload length, then the payload kept verbatim.
pub open spec fn spec_decode_raw_attr(b: Seq<u8>, p: int) -> Result<
    (AttributeModel, int),
    DecodeError,
> {
    if b.len() - p < 2 {
        Err(DecodeError::UnexpectedEof)
    } else if b.len() - (p + 2) < 4 {
        Err(DecodeError::UnexpectedEof)
    } else {
        let n = be32(b, p + 2);
        if b.len() - (p + 6) < n {
            Err(DecodeError::UnexpectedEof)
        } else {
            Ok(
                (
                    AttributeModel {
                        name_index: be16(b, p) as u16,
                        info: AttrInfoModel::Raw { data: b.subrange(p + 6, p + 6 + n) },
                    },
                    p + 6 + n,
                ),
            )
        }
    }
}

/// `n` raw attributes decoded in order from `b` starting at `p`.
pub open spec fn spec_decode_raw_attrs(b: Seq<u8>, p: int, n: int) -> Result<
    (Seq<AttributeModel>, int),
    DecodeError,
>
    decreases n,
{
    if n <= 0 {
        Ok((Seq::empty(), p))
    } else {
        match spec_decode_raw_attr(b, p) {
            Err(e) => Err(e),
            Ok((x, q)) => match spec_decode_raw_attrs(b, q, n - 1) {
                Err(e) => Err(e),
                Ok((s, r)) => Ok((seq![x] + s, r)),
            },
        }
    }
}

/// The line-number entry decoded from `b` at `p`.
pub open spec fn spec_decode_line_number(b: Seq<u8>, p: int) -> Result<
    (LineNumber, int),
    DecodeError,
> {
    if b.len() - p < 2 {
        Err(DecodeError::UnexpectedEof)
    } else if b.len() - (p + 2) < 2 {
        Err(DecodeError::UnexpectedEof)
    } else {
        Ok(
            (
                LineNumber { start_pc: be16(b, p) as u16, line_number: be16(b, p + 2) as u16 },
                p + 4,
            ),
        )
    }
}

/// `n` line-number entries decoded in order from `b` starting at `p`.
pub open spec fn spec_decode_line_numbers(b: Seq<u8>, p: int, n: int) -> Result<
    (Seq<LineNumber>, int),
    DecodeError,
>
    decreases n,
{
    if n <= 0 {
        Ok((Seq::empty(), p))
    } else {
        match spec_decode_line_number(b, p) {
            Err(e) => Err(e),
            Ok((x, q)) => match spec_decode_line_numbers(b, q, n - 1) {
                Err(e) => Err(e),
                Ok((s, r)) => Ok((seq![x] + s, r)),
            },
        }
    }
}

impl Attribute {
    /// Decodes one attribute at the cursor, capturing its payload
    /// verbatim as a raw blob.
    pub fn from(r: &mut Reader) -> (res: Result<Attribute, DecodeError>)
        requires
            old(r).wf(),
        ensures
            final(r).wf(),
            final(r).bytes() == old(r).bytes(),
            match res {
                Ok(a) => spec_decode_raw_attr(old(r).bytes(), old(r).pos()) == Ok::<
                    (AttributeModel, int),
                    DecodeError,
                >((a.model(), final(r).pos())),
                Err(e) => spec_decode_raw_attr(old(r).bytes(), old(r).pos()) == Err::<
                    (AttributeModel, int),
                    DecodeError,
                >(e),
            },
    {
        let name_index = r.read_u2()?;
        let attribute_length = r.read_u4()?;
        let info = r.read_bytes(attribute_length as usize)?;
        Ok(Attribute { name_index, info: AttributeInfo::Raw(info) })
    }
}

impl LineNumber {
    /// Decodes one line-number entry at the cursor.
    pub fn from(r: &mut Reader) -> (res: Result<LineNumber, DecodeError>)
        requires
            old(r).wf(),
        ensures
            final(r).wf(),
            final(r).bytes() == old(r).bytes(),
            match res {
                Ok(x) => spec_decode_line_number(old(r).bytes(), old(r).pos()) == Ok::<
                    (LineNumber, int),
                    DecodeError,
                >((x, final(r).pos())),
                Err(e) => spec_decode_line_number(old(r).bytes(), old(r).pos()) == Err::<
                    (LineNumber, int),
                    DecodeError,
                >(e),
            },
    {
        let start_pc = r.read_u2()?;
        let line_number = r.read_u2()?;
        Ok(LineNumber { start_pc, line_number })
    }
}

/// Decodes `n` raw attributes in order from the cursor.
pub fn decode_raw_attributes(r: &mut Reader, n: u16) -> (res: Result<Vec<Attribute>, DecodeError>)
    requires
        old(r).wf(),
    ensures
        final(r).wf(),
        final(r).bytes() == old(r).bytes(),
        match res {
            Ok(v) => spec_decode_raw_attrs(old(r).bytes(), old(r).pos(), n as int) == Ok::<
                (Seq<AttributeModel>, int),
                DecodeError,
            >((attrs_model(v@), final(r).pos())),
            Err(e) => spec_decode_raw_attrs(old(r).bytes(), old(r).pos(), n as int) == Err::<
                (Seq<AttributeModel>, int),
                DecodeError,
            >(e),
        },
{
    let ghost b0 = old(r).bytes();
    let ghost p0 = old(r).pos();
    let mut v: Vec<Attribute> = Vec::new();
    let mut i: u16 = 0;
    while i < n
        invariant
            r.wf(),
            r.bytes() == b0,
            b0 == old(r).bytes(),
            p0 == old(r).pos(),
            i <= n,
            cons_decoded(attrs_model(v@), spec_decode_raw_attrs(b0, r.pos(), (n - i) as int))
                == spec_decode_raw_attrs(b0, p0, n as int),
        decreases n - i,
    {
        let ghost v0 = v@;
        let ghost i0 = i;
        let ghost p1 = r.pos();
        match Attribute::from(r) {
            Ok(a) => {
                let ghost am = a.model();
                v.push(a);
                i = i + 1;
                proof {
                    let rest = spec_decode_raw_attrs(b0, r.pos(), (n - i0 - 1) as int);
                    assert(spec_decode_raw_attrs(b0, p1, (n - i0) as int) == cons_decoded(
                        seq![am],
                        rest,
                    ));
                    lemma_attrs_model_props(v@);
                    lemma_attrs_model_props(v0);
                    assert(attrs_model(v@) =~= attrs_model(v0) + seq![am]);
                    lemma_cons_decoded_assoc(attrs_model(v0), seq![am], rest);
                }
            },
            Err(e) => {
                proof {
                    assert(spec_decode_raw_attrs(b0, p1, (n - i0) as int) == Err::<
                        (Seq<AttributeModel>, int),
                        DecodeError,
                    >(e));
                }
                return Err(e);
            },
        }
    }
    proof {
        assert(attrs_model(v@) + Seq::<AttributeModel>::empty() =~= attrs_model(v@));
    }
    Ok(v)
}

/// The termination measure of resolving one attribute: one more than the
/// raw payload's length, or zero once the attribute is resolved.  Each
/// attribute nested in a code body's payload has a strictly smaller raw
/// payload than the payload that carries it, which bounds the recursion.
pub open spec fn attr_measure(m: AttributeModel) -> int {
    match m.info {
        AttrInfoModel::Raw { data } => data.len() as int + 1,
        _ => 0,
    }
}

/// The largest measure over a list of attributes.
pub open spec fn attrs_measure(ms: Seq<AttributeModel>) -> int
    decreases ms.len(),
{
    if ms.len() == 0 {
        0
    } else {
        let first = attr_measure(ms[0]);
        let rest = attrs_measure(ms.subrange(1, ms.len() as int));
        if first >= rest {
            first
        } else {
            rest
        }
    }
}

pub proof fn lemma_attrs_measure_nonneg(ms: Seq<AttributeModel>)
    ensures
        attrs_measure(ms) >= 0,
    decreases ms.len(),
{
    if ms.len() > 0 {
        lemma_attrs_measure_nonneg(ms.subrange(1, ms.len() as int));
    }
}

/// Every raw attribute decoded from `b` after position `p` has a payload
/// shorter than the undecoded remainder, so the list's measure is bounded
/// by that remainder.
pub proof fn lemma_raw_attrs_measure(b: Seq<u8>, p: int, n: int)
    requires
        0 <= p <= b.len(),
    ensures
        spec_decode_raw_attrs(b, p, n) matches Ok((ms, q)) ==> attrs_measure(ms) <= b.len() - p,
    decreases n,
{
    if n <= 0 {
    } else {
        match spec_decode_raw_attr(b, p) {
            Ok((x, q1)) => {
                lemma_raw_attrs_measure(b, q1, n - 1);
                match spec_decode_raw_attrs(b, q1, n - 1) {
                    Ok((s, _)) => {
                        assert((seq![x] + s).subrange(1, (seq![x] + s).len() as int) =~= s);
                    },
                    Err(_) => {},
                }
            },
            Err(_) => {},
        }
    }
}

/// Resolves one attribute: a raw payload is reinterpreted by its name,
/// looked up in the pool; an attribute already resolved is left untouched.
pub open spec fn spec_resolve_attr(pool: Seq<CpEntry>, m: AttributeModel) -> Result<
    AttributeModel,
    DecodeError,
>
    decreases attr_measure(m), 0int, 0int,
{
    match m.info {
        AttrInfoModel::Raw { data } => match cp_text(pool, m.name_index) {
            Err(e) => Err(e),
            Ok(name) => match spec_attr_info_from(pool, name, data) {
                Err(e) => Err(e),
                Ok(info) => Ok(AttributeModel { name_index: m.name_index, info }),
            },
        },
        _ => Ok(m),
    }
}

/// Reinterprets a raw payload by name: a known name yields its structured
/// variant, any other name leaves the bytes as an unrecognized blob.
pub open spec fn spec_attr_info_from(pool: Seq<CpEntry>, name: Seq<char>, data: Seq<u8>) -> Result<
    AttrInfoModel,
    DecodeError,
>
    decreases data.len(), 1int, 0int,
{
    if name == "Code"@ {
        spec_parse_code(pool, data)
    } else if name == "SourceFile"@ {
        spec_parse_source_file(pool, data)
    } else if name == "LineNumberTable"@ {
        spec_parse_line_number_table(data)
    } else {
        Ok(AttrInfoModel::Unrecognized { data })
    }
}

/// A source-file payload: a single two-byte reference to a text record.
pub open spec fn spec_parse_source_file(pool: Seq<CpEntry>, data: Seq<u8>) -> Result<
    AttrInfoModel,
    DecodeError,
> {
    if data.len() < 2 {
        Err(DecodeError::UnexpectedEof)
    } else {
        match cp_text(pool, be16(data, 0) as u16) {
            Err(e) => Err(e),
            Ok(text) => Ok(AttrInfoModel::SourceFile { source: text }),
        }
    }
}

/// A line-number-table payload: a two-byte count, then that many pairs.
pub open spec fn spec_parse_line_number_table(data: Seq<u8>) -> Result<
    AttrInfoModel,
    DecodeError,
> {
    if data.len() < 2 {
        Err(DecodeError::UnexpectedEof)
    } else {
        match spec_decode_line_numbers(data, 2, be16(data, 0)) {
            Err(e) => Err(e),
            Ok((lines, _)) => Ok(AttrInfoModel::LineNumberTable { lines }),
        }
    }
}

/// A code-body payload: stack and local metadata, the instruction stream
/// decoded over exactly the declared code length, an exception table that
/// must be empty, and a nested attribute list resolved recursively with
/// this same algorithm.
pub open spec fn spec_parse_code(pool: Seq<CpEntry>, data: Seq<u8>) -> Result<
    AttrInfoModel,
    DecodeError,
>
    decreases data.len(), 0int, 0int,
    via spec_parse_code_decreases
{
    if data.len() < 8 {
        Err(DecodeError::UnexpectedEof)
    } else {
        let code_len = be32(data, 4);
        if data.len() - 8 < code_len {
            Err(DecodeError::UnexpectedEof)
        } else {
            match spec_decode_code(data.subrange(8, 8 + code_len), 0) {
                Err(e) => Err(e),
                Ok(code) => {
                    let p = 8 + code_len;
                    if data.len() - p < 2 {
                        Err(DecodeError::UnexpectedEof)
                    } else if be16(data, p) != 0 {
                        Err(DecodeError::ExceptionTableUnsupported)
                    } else if data.len() - (p + 2) < 2 {
                        Err(DecodeError::UnexpectedEof)
                    } else {
                        match spec_decode_raw_attrs(data, p + 4, be16(data, p + 2)) {
                            Err(e) => Err(e),
                            Ok((raws, _)) => match spec_resolve_attrs(pool, raws) {
                                Err(e) => Err(e),
                                Ok(resolved) => Ok(
                                    AttrInfoModel::Code {
                                        max_stack: be16(data, 0) as u16,
                                        max_locals: be16(data, 2) as u16,
                                        code,
                                        exception_table: Seq::empty(),
                                        attributes: resolved,
                                    },
                                ),
                            },
                        }
                    }
                },
            }
        }
    }
}

#[via_fn]
proof fn spec_parse_code_decreases(pool: Seq<CpEntry>, data: Seq<u8>) {
    if data.len() >= 8 {
        let code_len = be32(data, 4);
        if data.len() - 8 >= code_len {
            let p = 8 + code_len;
            if data.len() - p >= 2 && be16(data, p) == 0 && data.len() - (p + 2) >= 2 {
                lemma_raw_attrs_measure(data, p + 4, be16(data, p + 2));
                match spec_decode_raw_attrs(data, p + 4, be16(data, p + 2)) {
                    Ok((raws, _)) => {
                        lemma_attrs_measure_nonneg(raws);
                    },
                    Err(_) => {},
                }
            }
        }
    }
}

/// Resolves a list of attributes in order; the first failure is
/// propagated and partial results are discarded.
pub open spec fn spec_resolve_attrs(pool: Seq<CpEntry>, ms: Seq<AttributeModel>) -> Result<
    Seq<AttributeModel>,
    DecodeError,
>
    decreases attrs_measure(ms), ms.len(), 1int,
    via spec_resolve_attrs_decreases
{
    if ms.len() == 0 {
        Ok(Seq::empty())
    } else {
        match spec_resolve_attr(pool, ms[0]) {
            Err(e) => Err(e),
            Ok(m) => match spec_resolve_attrs(pool, ms.subrange(1, ms.len() as int)) {
                Err(e) => Err(e),
                Ok(t) => Ok(seq![m] + t),
            },
        }
    }
}

#[via_fn]
proof fn spec_resolve_attrs_decreases(pool: Seq<CpEntry>, ms: Seq<AttributeModel>) {
    if ms.len() > 0 {
        lemma_attrs_measure_nonneg(ms.subrange(1, ms.len() as int));
    }
}

/// Decodes `n` line-number entries in order from the cursor.
pub fn decode_line_numbers(r: &mut Reader, n: u16) -> (res: Result<Vec<LineNumber>, DecodeError>)
    requires
        old(r).wf(),
    ensures
        final(r).wf(),
        final(r).bytes() == old(r).bytes(),
        match res {
            Ok(v) => spec_decode_line_numbers(old(r).bytes(), old(r).pos(), n as int) == Ok::<
                (Seq<LineNumber>, int),
                DecodeError,
            >((v@, final(r).pos())),
            Err(e) => spec_decode_line_numbers(old(r).bytes(), old(r).pos(), n as int) == Err::<
                (Seq<LineNumber>, int),
                DecodeError,
            >(e),
        },
{
    let ghost b0 = old(r).bytes();
    let ghost p0 = old(r).pos();
    let mut v: Vec<LineNumber> = Vec::new();
    let mut i: u16 = 0;
    while i < n
        invariant
            r.wf(),
            r.bytes() == b0,
            b0 == old(r).bytes(),
            p0 == old(r).pos(),
            i <= n,
            cons_decoded(v@, spec_decode_line_numbers(b0, r.pos(), (n - i) as int))
                == spec_decode_line_numbers(b0, p0, n as int),
        decreases n - i,
    {
        let ghost v0 = v@;
        let ghost i0 = i;
        let ghost p1 = r.pos();
        match LineNumber::from(r) {
            Ok(x) => {
                v.push(x);
                i = i + 1;
                proof {
                    let rest = spec_decode_line_numbers(b0, r.pos(), (n - i0 - 1) as int);
                    assert(spec_decode_line_numbers(b0, p1, (n - i0) as int) == cons_decoded(
                        seq![x],
                        rest,
                    ));
                    assert(v@ =~= v0 + seq![x]);
                    lemma_cons_decoded_assoc(v0, seq![x], rest);
                }
            },
            Err(e) => {
                proof {
                    assert(spec_decode_line_numbers(b0, p1, (n - i0) as int) == Err::<
                        (Seq<LineNumber>, int),
                        DecodeError,
                    >(e));
                }
                return Err(e);
            },
        }
    }
    proof {
        assert(v@ + Seq::<LineNumber>::empty() =~= v@);
    }
    Ok(v)
}

/// Whatever reinterpretation returns is already resolved: never raw.
pub proof fn lemma_attr_info_from_not_raw(pool: Seq<CpEntry>, name: Seq<char>, data: Seq<u8>)
    ensures
        spec_attr_info_from(pool, name, data) matches Ok(info) ==> !(info is Raw),
{
}

/// Resolution is idempotent: resolving an attribute that resolution has
/// already produced is a no-op, so resolving twice yields the same
/// structured value as resolving once.
pub proof fn lemma_resolve_idempotent(pool: Seq<CpEntry>, m: AttributeModel)
    ensures
        spec_resolve_attr(pool, m) matches Ok(r) ==> spec_resolve_attr(pool, r) == Ok::<
            AttributeModel,
            DecodeError,
        >(r),
{
    match m.info {
        AttrInfoModel::Raw { data } => {
            match cp_text(pool, m.name_index) {
                Ok(name) => {
                    lemma_attr_info_from_not_raw(pool, name, data);
                },
                Err(_) => {},
            }
        },
        _ => {},
    }
}

/// Idempotence, lifted to whole attribute lists.
pub proof fn lemma_resolve_attrs_idempotent(pool: Seq<CpEntry>, ms: Seq<AttributeModel>)
    ensures
        spec_resolve_attrs(pool, ms) matches Ok(rs) ==> spec_resolve_attrs(pool, rs) == Ok::<
            Seq<AttributeModel>,
            DecodeError,
        >(rs),
    decreases ms.len(),
{
    if ms.len() > 0 {
        match spec_resolve_attr(pool, ms[0]) {
            Ok(m) => {
                lemma_resolve_idempotent(pool, ms[0]);
                match spec_resolve_attrs(pool, ms.subrange(1, ms.len() as int)) {
                    Ok(t) => {
                        lemma_resolve_attrs_idempotent(pool, ms.subrange(1, ms.len() as int));
                        assert((seq![m] + t).subrange(1, (seq![m] + t).len() as int) =~= t);
                        assert((seq![m] + t)[0] == m);
                    },
                    Err(_) => {},
                }
            },
            Err(_) => {},
        }
    }
}

impl AttributeInfo {
    /// Reinterprets a raw payload using its resolved name.
    pub fn from(
        constant_pool: &Vec<ConstantPoolInfo>,
        name: &String,
        bytes: Vec<u8>,
    ) -> (res: Result<AttributeInfo, DecodeError>)
        ensures
            match res {
                Ok(info) => spec_attr_info_from(pool_view(constant_pool@), name@, bytes@) == Ok::<
                    AttrInfoModel,
                    DecodeError,
                >(info.model()),
                Err(e) => spec_attr_info_from(pool_view(constant_pool@), name@, bytes@) == Err::<
                    AttrInfoModel,
                    DecodeError,
                >(e),
            },
        decreases bytes@.len(), 1int, 0int,
    {
        if string_eq_lit(name, "Code") {
            parse_code(constant_pool, bytes)
        } else if string_eq_lit(name, "SourceFile") {
            let mut r = Reader::new(bytes);
            let index = r.read_u2()?;
            let text = lookup_text(constant_pool, index)?;
            Ok(AttributeInfo::SourceFile(text.clone()))
        } else if string_eq_lit(name, "LineNumberTable") {
            let mut r = Reader::new(bytes);
            let count = r.read_u2()?;
            let lines = decode_line_numbers(&mut r, count)?;
            Ok(AttributeInfo::LineNumberTable(lines))
        } else {
            Ok(AttributeInfo::Unrecognized(bytes))
        }
    }
}

/// Parses a code-body payload, resolving its nested attributes
/// recursively.
fn parse_code(constant_pool: &Vec<ConstantPoolInfo>, bytes: Vec<u8>) -> (res: Result<
    AttributeInfo,
    DecodeError,
>)
    ensures
        match res {
            Ok(info) => spec_parse_code(pool_view(constant_pool@), bytes@) == Ok::<
                AttrInfoModel,
                DecodeError,
            >(info.model()),
            Err(e) => spec_parse_code(pool_view(constant_pool@), bytes@) == Err::<
                AttrInfoModel,
                DecodeError,
            >(e),
        },
    decreases bytes@.len(), 0int, 0int,
{
    let ghost b = bytes@;
    let mut r = Reader::new(bytes);
    let max_stack = r.read_u2()?;
    let max_locals = r.read_u2()?;
    let code_length = r.read_u4()?;
    let code_bytes = r.read_bytes(code_length as usize)?;
    let code = decode_code(code_bytes)?;
    let exception_table_length = r.read_u2()?;
    if exception_table_length != 0 {
        return Err(DecodeError::ExceptionTableUnsupported);
    }
    let attributes_count = r.read_u2()?;
    let ghost p_attrs = r.pos();
    let raw = decode_raw_attributes(&mut r, attributes_count)?;
    proof {
        lemma_raw_attrs_measure(b, p_attrs, attributes_count as int);
        lemma_attrs_measure_nonneg(attrs_model(raw@));
        assert(attrs_measure(attrs_model(raw@)) < b.len());
    }
    let attributes = resolve_attributes(constant_pool, raw)?;
    Ok(
        AttributeInfo::Code {
            max_stack,
            max_locals,
            code,
            exception_table: Vec::new(),
            attributes,
        },
    )
}

/// Copies a byte vector; resolution clones a raw payload before parsing
/// it, so that the original can be kept when parsing fails.
fn clone_bytes(v: &Vec<u8>) -> (r: Vec<u8>)
    ensures
        r@ == v@,
{
    let mut r: Vec<u8> = Vec::new();
    let mut i: usize = 0;
    while i < v.len()
        invariant
            i <= v@.len(),
            r@ == v@.subrange(0, i as int),
        decreases v@.len() - i,
    {
        r.push(v[i]);
        i = i + 1;
        assert(r@ =~= v@.subrange(0, i as int));
    }
    assert(v@.subrange(0, v@.len() as int) =~= v@);
    r
}

impl Attribute {
    /// Resolves this attribute: a raw payload is reinterpreted by its
    /// name; an attribute already resolved is returned unchanged.  On
    /// failure the attribute comes back untouched beside the error.
    pub fn resolve(self, constant_pool: &Vec<ConstantPoolInfo>) -> (res: (
        Attribute,
        Option<DecodeError>,
    ))
        ensures
            match res.1 {
                None => spec_resolve_attr(pool_view(constant_pool@), self.model()) == Ok::<
                    AttributeModel,
                    DecodeError,
                >(res.0.model()),
                Some(e) => {
                    &&& spec_resolve_attr(pool_view(constant_pool@), self.model()) == Err::<
                        AttributeModel,
                        DecodeError,
                    >(e)
                    &&& res.0.model() == self.model()
                },
            },
        decreases attr_measure(self.model()), 0int, 0int,
    {
        let name_index = self.name_index;
        match self.info {
            AttributeInfo::Raw(data) => {
                match lookup_text(constant_pool, name_index) {
                    Err(e) => (Attribute { name_index, info: AttributeInfo::Raw(data) }, Some(e)),
                    Ok(name) => {
                        let payload = clone_bytes(&data);
                        match AttributeInfo::from(constant_pool, name, payload) {
                            Ok(info) => (Attribute { name_index, info }, None),
                            Err(e) => (
                                Attribute { name_index, info: AttributeInfo::Raw(data) },
                                Some(e),
                            ),
                        }
                    },
                }
            },
            info => (Attribute { name_index, info }, None),
        }
    }
}

/// Each attribute keeps its name reference; its payload is either
/// untouched or the resolution of what it was.  This is all a failed
/// resolution pass may leave behind.
pub open spec fn attrs_advanced(
    pool: Seq<CpEntry>,
    before: Seq<AttributeModel>,
    after: Seq<AttributeModel>,
) -> bool {
    &&& after.len() == before.len()
    &&& forall|j: int|
        0 <= j < before.len() ==> {
            &&& (#[trigger] after[j]).name_index == before[j].name_index
            &&& (after[j] == before[j] || spec_resolve_attr(pool, before[j]) == Ok::<
                AttributeModel,
                DecodeError,
            >(after[j]))
        }
}

/// An untouched list is trivially advanced.
pub proof fn lemma_attrs_advanced_refl(pool: Seq<CpEntry>, ms: Seq<AttributeModel>)
    ensures
        attrs_advanced(pool, ms, ms),
{
}

/// Resolution keeps every attribute's name reference.
pub proof fn lemma_resolve_keeps_name(pool: Seq<CpEntry>, m: AttributeModel)
    ensures
        spec_resolve_attr(pool, m) matches Ok(r) ==> r.name_index == m.name_index,
{
}

/// A fully resolved list is advanced from what it was.
pub proof fn lemma_resolve_attrs_advanced(pool: Seq<CpEntry>, ms: Seq<AttributeModel>)
    ensures
        spec_resolve_attrs(pool, ms) matches Ok(rs) ==> attrs_advanced(pool, ms, rs),
    decreases ms.len(),
{
    if ms.len() > 0 {
        match spec_resolve_attr(pool, ms[0]) {
            Ok(m) => {
                lemma_resolve_keeps_name(pool, ms[0]);
                match spec_resolve_attrs(pool, ms.subrange(1, ms.len() as int)) {
                    Ok(t) => {
                        lemma_resolve_attrs_advanced(pool, ms.subrange(1, ms.len() as int));
                        assert((seq![m] + t).subrange(1, (seq![m] + t).len() as int) =~= t);
                        assert forall|j: int| 0 <= j < ms.len() implies {
                            &&& (#[trigger] (seq![m] + t)[j]).name_index == ms[j].name_index
                            &&& ((seq![m] + t)[j] == ms[j] || spec_resolve_attr(pool, ms[j])
                                == Ok::<AttributeModel, DecodeError>((seq![m] + t)[j]))
                        } by {
                            if j > 0 {
                                assert((seq![m] + t)[j] == t[j - 1]);
                                assert(ms.subrange(1, ms.len() as int)[j - 1] == ms[j]);
                            }
                        };
                    },
                    Err(_) => {},
                }
            },
            Err(_) => {},
        }
    }
}

/// Resolves every attribute of a list in order.  On the first failure the
/// error comes back beside the list: the attributes before the failing
/// one resolved, the failing one and the rest untouched — nothing else.
pub(crate) fn resolve_attribute_list(
    constant_pool: &Vec<ConstantPoolInfo>,
    attributes: Vec<Attribute>,
) -> (res: (Vec<Attribute>, Option<DecodeError>))
    ensures
        match res.1 {
            None => spec_resolve_attrs(pool_view(constant_pool@), attrs_model(attributes@))
                == Ok::<Seq<AttributeModel>, DecodeError>(attrs_model(res.0@)),
            Some(e) => {
                &&& spec_resolve_attrs(pool_view(constant_pool@), attrs_model(attributes@))
                    == Err::<Seq<AttributeModel>, DecodeError>(e)
                &&& attrs_advanced(
                    pool_view(constant_pool@),
                    attrs_model(attributes@),
                    attrs_model(res.0@),
                )
            },
        },
    decreases attrs_measure(attrs_model(attributes@)), attributes@.len(), 2int,
{
    let ghost pool_v = pool_view(constant_pool@);
    let ghost ms0 = attrs_model(attributes@);
    proof {
        lemma_attrs_model_props(attributes@);
        assert(attrs_model(Seq::<Attribute>::empty()) =~= Seq::<AttributeModel>::empty());
        assert(ms0.subrange(0, ms0.len() as int) =~= ms0);
    }
    let mut rest = attributes;
    let mut out: Vec<Attribute> = Vec::new();
    while rest.len() > 0
        invariant
            pool_v == pool_view(constant_pool@),
            ms0 == attrs_model(attributes@),
            attributes@.len() == ms0.len(),
            cons_items(attrs_model(out@), spec_resolve_attrs(pool_v, attrs_model(rest@)))
                == spec_resolve_attrs(pool_v, ms0),
            attrs_measure(attrs_model(rest@)) <= attrs_measure(ms0),
            out@.len() + rest@.len() == ms0.len(),
            attrs_model(rest@) == ms0.subrange(out@.len() as int, ms0.len() as int),
            forall|j: int|
                0 <= j < out@.len() ==> spec_resolve_attr(pool_v, ms0[j]) == Ok::<
                    AttributeModel,
                    DecodeError,
                >(#[trigger] attrs_model(out@)[j]),
        decreases rest@.len(),
    {
        let ghost rest0 = rest@;
        let ghost out0 = out@;
        let ghost k = out0.len() as int;
        let a = rest.remove(0);
        proof {
            lemma_attrs_model_props(rest0);
            lemma_attrs_model_props(rest@);
            assert(attrs_model(rest@) =~= attrs_model(rest0).subrange(1, rest0.len() as int));
            assert(attrs_model(rest@) =~= ms0.subrange(k + 1, ms0.len() as int));
            assert(a.model() == attrs_model(rest0)[0]);
            assert(a.model() == ms0[k]);
            assert(attr_measure(a.model()) <= attrs_measure(attrs_model(rest0)));
            assert(attrs_measure(attrs_model(rest@)) <= attrs_measure(attrs_model(rest0)));
            assert(ms0.len() > 0);
        }
        let (ra, err) = a.resolve(constant_pool);
        match err {
            None => {
                out.push(ra);
                proof {
                    let rest_res = spec_resolve_attrs(pool_v, attrs_model(rest@));
                    assert(spec_resolve_attrs(pool_v, attrs_model(rest0)) == cons_items(
                        seq![ra.model()],
                        rest_res,
                    ));
                    lemma_attrs_model_props(out@);
                    lemma_attrs_model_props(out0);
                    assert(attrs_model(out@) =~= attrs_model(out0) + seq![ra.model()]);
                    lemma_cons_items_assoc(attrs_model(out0), seq![ra.model()], rest_res);
                }
            },
            Some(e) => {
                proof {
                    assert(spec_resolve_attrs(pool_v, attrs_model(rest0)) == Err::<
                        Seq<AttributeModel>,
                        DecodeError,
                    >(e));
                }
                out.push(ra);
                let ghost tail = rest@;
                out.append(&mut rest);
                proof {
                    lemma_attrs_model_props(out@);
                    lemma_attrs_model_props(out0);
                    lemma_attrs_model_props(tail);
                    assert(out@ =~= out0 + seq![ra] + tail);
                    assert forall|j: int| 0 <= j < ms0.len() implies {
                        &&& (#[trigger] attrs_model(out@)[j]).name_index == ms0[j].name_index
                        &&& (attrs_model(out@)[j] == ms0[j] || spec_resolve_attr(pool_v, ms0[j])
                            == Ok::<AttributeModel, DecodeError>(attrs_model(out@)[j]))
                    } by {
                        if j < k {
                            assert(attrs_model(out@)[j] == attrs_model(out0)[j]);
                            lemma_resolve_keeps_name(pool_v, ms0[j]);
                        } else if j == k {
                            assert(attrs_model(out@)[j] == ra.model());
                        } else {
                            assert(attrs_model(out@)[j] == tail[j - k - 1].model());
                            assert(attrs_model(tail)[j - k - 1] == ms0.subrange(
                                k + 1,
                                ms0.len() as int,
                            )[j - k - 1]);
                        }
                    };
                }
                return (out, Some(e));
            },
        }
    }
    proof {
        assert(attrs_model(rest@) =~= Seq::<AttributeModel>::empty());
        assert(attrs_model(out@) + Seq::<AttributeModel>::empty() =~= attrs_model(out@));
    }
    (out, None)
}

/// Resolves every attribute of a list in order; the first failure is
/// propagated and partial results are discarded.
pub fn resolve_attributes(constant_pool: &Vec<ConstantPoolInfo>, attributes: Vec<Attribute>)
    -> (res: Result<Vec<Attribute>, DecodeError>)
    ensures
        match res {
            Ok(v) => spec_resolve_attrs(pool_view(constant_pool@), attrs_model(attributes@))
                == Ok::<Seq<AttributeModel>, DecodeError>(attrs_model(v@)),
            Err(e) => spec_resolve_attrs(pool_view(constant_pool@), attrs_model(attributes@))
                == Err::<Seq<AttributeModel>, DecodeError>(e),
        },
    decreases attrs_measure(attrs_model(attributes@)), attributes@.len(), 3int,
{
    let (v, err) = resolve_attribute_list(constant_pool, attributes);
    match err {
        None => Ok(v),
        Some(e) => Err(e),
    }
}

} // verus!
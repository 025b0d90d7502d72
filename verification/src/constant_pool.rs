//! The constant pool: a 1-indexed, immutable table of tagged records that
//! every other structure references by number.
//!
//! Entry `i` is stored at offset `i - 1`; index zero is never a valid
//! reference.  A reference is valid only if it is in bounds and its target
//! has the kind the referencing site expects.
//!
//! Text records are validated rather than trusted: a payload that is not
//! valid UTF-8 encoded text is rejected as a decode error instead of
//! being reinterpreted blindly.

use vstd::prelude::*;

verus! {

use crate::error::DecodeError;
use crate::reader::{Reader, be16, cons_decoded, lemma_cons_decoded_assoc};
use crate::text::utf8_to_string;
use vstd::utf8::{decode_utf8, valid_utf8};

/// The mathematical value of one constant-pool record.
pub enum CpEntry {
    Class { name_index: u16 },
    FieldRef { class_index: u16, name_and_type_index: u16 },
    MethodRef { class_index: u16, name_and_type_index: u16 },
    NameAndType { name_index: u16, descriptor_index: u16 },
    String { string_index: u16 },
    Utf8 { text: Seq<char> },
}

/// One constant-pool record.
#[derive(Debug, PartialEq)]
pub enum ConstantPoolInfo {
    Class { name_index: u16 },
    FieldRef { class_index: u16, name_and_type_index: u16 },
    MethodRef { class_index: u16, name_and_type_index: u16 },
    NameAndType { name_index: u16, descriptor_index: u16 },
    String { string_index: u16 },
    Utf8(String),
}

impl View for ConstantPoolInfo {
    type V = CpEntry;

    open spec fn view(&self) -> CpEntry {
        match self {
            ConstantPoolInfo::Class { name_index } => CpEntry::Class { name_index: *name_index },
            ConstantPoolInfo::FieldRef { class_index, name_and_type_index } => CpEntry::FieldRef {
                class_index: *class_index,
                name_and_type_index: *name_and_type_index,
            },
            ConstantPoolInfo::MethodRef { class_index, name_and_type_index } => CpEntry::MethodRef {
                class_index: *class_index,
                name_and_type_index: *name_and_type_index,
            },
            ConstantPoolInfo::NameAndType { name_index, descriptor_index } => CpEntry::NameAndType {
                name_index: *name_index,
                descriptor_index: *descriptor_index,
            },
            ConstantPoolInfo::String { string_index } => CpEntry::String {
                string_index: *string_index,
            },
            ConstantPoolInfo::Utf8(s) => CpEntry::Utf8 { text: s@ },
        }
    }
}

/// The sequence of record values a pool vector stands for.
pub open spec fn pool_view(pool: Seq<ConstantPoolInfo>) -> Seq<CpEntry> {
    pool.map_values(|c: ConstantPoolInfo| c@)
}

/// Whether `idx` is a valid 1-based reference into `pool`.
pub open spec fn cp_in_range(pool: Seq<CpEntry>, idx: u16) -> bool {
    1 <= idx <= pool.len()
}

/// The record a valid 1-based reference points at.
pub open spec fn cp_at(pool: Seq<CpEntry>, idx: u16) -> CpEntry
    recommends
        cp_in_range(pool, idx),
{
    pool[idx - 1]
}

/// Resolving a reference that must point at a text record: out of bounds
/// is `BadIndex`, a record of another kind is `WrongKind`.
pub open spec fn cp_text(pool: Seq<CpEntry>, idx: u16) -> Result<Seq<char>, DecodeError> {
    if !cp_in_range(pool, idx) {
        Err(DecodeError::BadIndex)
    } else {
        match cp_at(pool, idx) {
            CpEntry::Utf8 { text } => Ok(text),
            _ => Err(DecodeError::WrongKind),
        }
    }
}

/// The record decoded from `b` at `p`: a tag byte, then the fields of the
/// tagged variant.  An unknown tag is fatal, since the layout of later
/// entries cannot be known without each entry's size.
pub open spec fn spec_decode_cp_entry(b: Seq<u8>, p: int) -> Result<(CpEntry, int), DecodeError> {
    if b.len() - p < 1 {
        Err(DecodeError::UnexpectedEof)
    } else {
        let tag = b[p];
        if tag == 7 {
            if b.len() - (p + 1) < 2 {
                Err(DecodeError::UnexpectedEof)
            } else {
                Ok((CpEntry::Class { name_index: be16(b, p + 1) as u16 }, p + 3))
            }
        } else if tag == 9 {
            if b.len() - (p + 1) < 4 {
                Err(DecodeError::UnexpectedEof)
            } else {
                Ok(
                    (
                        CpEntry::FieldRef {
                            class_index: be16(b, p + 1) as u16,
                            name_and_type_index: be16(b, p + 3) as u16,
                        },
                        p + 5,
                    ),
                )
            }
        } else if tag == 10 {
            if b.len() - (p + 1) < 4 {
                Err(DecodeError::UnexpectedEof)
            } else {
                Ok(
                    (
                        CpEntry::MethodRef {
                            class_index: be16(b, p + 1) as u16,
                            name_and_type_index: be16(b, p + 3) as u16,
                        },
                        p + 5,
                    ),
                )
            }
        } else if tag == 12 {
            if b.len() - (p + 1) < 4 {
                Err(DecodeError::UnexpectedEof)
            } else {
                Ok(
                    (
                        CpEntry::NameAndType {
                            name_index: be16(b, p + 1) as u16,
                            descriptor_index: be16(b, p + 3) as u16,
                        },
                        p + 5,
                    ),
                )
            }
        } else if tag == 8 {
            if b.len() - (p + 1) < 2 {
                Err(DecodeError::UnexpectedEof)
            } else {
                Ok((CpEntry::String { string_index: be16(b, p + 1) as u16 }, p + 3))
            }
        } else if tag == 1 {
            if b.len() - (p + 1) < 2 {
                Err(DecodeError::UnexpectedEof)
            } else {
                let n = be16(b, p + 1);
                if b.len() - (p + 3) < n {
                    Err(DecodeError::UnexpectedEof)
                } else {
                    let payload = b.subrange(p + 3, p + 3 + n);
                    if valid_utf8(payload) {
                        Ok((CpEntry::Utf8 { text: decode_utf8(payload) }, p + 3 + n))
                    } else {
                        Err(DecodeError::InvalidText)
                    }
                }
            }
        } else {
            Err(DecodeError::UnknownTag(tag))
        }
    }
}

/// `n` records decoded in order from `b` starting at `p`; the first
/// failure is propagated and partial results are discarded.
pub open spec fn spec_decode_cp_entries(b: Seq<u8>, p: int, n: int) -> Result<
    (Seq<CpEntry>, int),
    DecodeError,
>
    decreases n,
{
    if n <= 0 {
        Ok((Seq::empty(), p))
    } else {
        match spec_decode_cp_entry(b, p) {
            Err(e) => Err(e),
            Ok((x, q)) => match spec_decode_cp_entries(b, q, n - 1) {
                Err(e) => Err(e),
                Ok((s, r)) => Ok((seq![x] + s, r)),
            },
        }
    }
}

impl ConstantPoolInfo {
    /// Decodes one record at the cursor.
    pub fn from(r: &mut Reader) -> (res: Result<ConstantPoolInfo, DecodeError>)
        requires
            old(r).wf(),
        ensures
            final(r).wf(),
            final(r).bytes() == old(r).bytes(),
            match res {
                Ok(e) => spec_decode_cp_entry(old(r).bytes(), old(r).pos()) == Ok::<
                    (CpEntry, int),
                    DecodeError,
                >((e@, final(r).pos())),
                Err(e) => spec_decode_cp_entry(old(r).bytes(), old(r).pos()) == Err::<
                    (CpEntry, int),
                    DecodeError,
                >(e),
            },
    {
        let tag = r.read_u1()?;
        match tag {
            7 => {
                let name_index = r.read_u2()?;
                Ok(ConstantPoolInfo::Class { name_index })
            },
            9 => {
                let class_index = r.read_u2()?;
                let name_and_type_index = r.read_u2()?;
                Ok(ConstantPoolInfo::FieldRef { class_index, name_and_type_index })
            },
            10 => {
                let class_index = r.read_u2()?;
                let name_and_type_index = r.read_u2()?;
                Ok(ConstantPoolInfo::MethodRef { class_index, name_and_type_index })
            },
            12 => {
                let name_index = r.read_u2()?;
                let descriptor_index = r.read_u2()?;
                Ok(ConstantPoolInfo::NameAndType { name_index, descriptor_index })
            },
            8 => {
                let string_index = r.read_u2()?;
                Ok(ConstantPoolInfo::String { string_index })
            },
            1 => {
                let length = r.read_u2()?;
                let buf = r.read_bytes(length as usize)?;
                let text = utf8_to_string(buf)?;
                Ok(ConstantPoolInfo::Utf8(text))
            },
            _ => Err(DecodeError::UnknownTag(tag)),
        }
    }

    /// The name a class record points at: `Some` exactly when this is a
    /// class record whose name reference is in bounds and targets a text
    /// record.
    pub fn name(&self, constant_pool: &Vec<ConstantPoolInfo>) -> (r: Option<String>)
        ensures
            match r {
                Some(s) => spec_name(self@, pool_view(constant_pool@)) == Some(s@),
                None => spec_name(self@, pool_view(constant_pool@)) is None,
            },
    {
        match self {
            ConstantPoolInfo::Class { name_index } => {
                let ni = *name_index;
                if 1 <= ni && (ni as usize) <= constant_pool.len() {
                    match &constant_pool[ni as usize - 1] {
                        ConstantPoolInfo::Utf8(text) => Some(text.clone()),
                        _ => None,
                    }
                } else {
                    None
                }
            },
            _ => None,
        }
    }

    /// The owned text of a text record: `Some` exactly when this record is
    /// a text record.
    pub fn utf8(&self) -> (r: Option<String>)
        ensures
            match r {
                Some(s) => (self@ matches CpEntry::Utf8 { text } && text == s@),
                None => !(self@ is Utf8),
            },
    {
        match self {
            ConstantPoolInfo::Utf8(text) => Some(text.clone()),
            _ => None,
        }
    }
}

/// What `name` yields: the text behind a class record's name reference.
pub open spec fn spec_name(e: CpEntry, pool: Seq<CpEntry>) -> Option<Seq<char>> {
    match e {
        CpEntry::Class { name_index } => match cp_text(pool, name_index) {
            Ok(text) => Some(text),
            Err(_) => None,
        },
        _ => None,
    }
}

/// Resolves a reference that must point at a text record, with the typed
/// failure `cp_text` prescribes for an out-of-bounds or wrong-kind target.
pub fn lookup_text<'a>(pool: &'a Vec<ConstantPoolInfo>, idx: u16) -> (r: Result<
    &'a String,
    DecodeError,
>)
    ensures
        match r {
            Ok(s) => cp_text(pool_view(pool@), idx) == Ok::<Seq<char>, DecodeError>(s@),
            Err(e) => cp_text(pool_view(pool@), idx) == Err::<Seq<char>, DecodeError>(e),
        },
{
    if 1 <= idx && (idx as usize) <= pool.len() {
        match &pool[idx as usize - 1] {
            ConstantPoolInfo::Utf8(text) => Ok(text),
            _ => Err(DecodeError::WrongKind),
        }
    } else {
        Err(DecodeError::BadIndex)
    }
}

/// Decodes `n` records in order from the cursor.
pub fn decode_constant_pool(r: &mut Reader, n: u16) -> (res: Result<
    Vec<ConstantPoolInfo>,
    DecodeError,
>)
    requires
        old(r).wf(),
    ensures
        final(r).wf(),
        final(r).bytes() == old(r).bytes(),
        match res {
            Ok(pool) => spec_decode_cp_entries(old(r).bytes(), old(r).pos(), n as int) == Ok::<
                (Seq<CpEntry>, int),
                DecodeError,
            >((pool_view(pool@), final(r).pos())),
            Err(e) => spec_decode_cp_entries(old(r).bytes(), old(r).pos(), n as int) == Err::<
                (Seq<CpEntry>, int),
                DecodeError,
            >(e),
        },
{
    let ghost b0 = old(r).bytes();
    let ghost p0 = old(r).pos();
    let mut pool: Vec<ConstantPoolInfo> = Vec::new();
    let mut i: u16 = 0;
    while i < n
        invariant
            r.wf(),
            r.bytes() == b0,
            b0 == old(r).bytes(),
            p0 == old(r).pos(),
            i <= n,
            cons_decoded(pool_view(pool@), spec_decode_cp_entries(b0, r.pos(), (n - i) as int))
                == spec_decode_cp_entries(b0, p0, n as int),
        decreases n - i,
    {
        let ghost pool0 = pool@;
        let ghost i0 = i;
        let ghost p1 = r.pos();
        match ConstantPoolInfo::from(r) {
            Ok(e) => {
                let ghost ev = e@;
                pool.push(e);
                i = i + 1;
                proof {
                    let rest = spec_decode_cp_entries(b0, r.pos(), (n - i0 - 1) as int);
                    assert(spec_decode_cp_entries(b0, p1, (n - i0) as int) == cons_decoded(
                        seq![ev],
                        rest,
                    ));
                    assert(pool_view(pool@) =~= pool_view(pool0) + seq![ev]);
                    lemma_cons_decoded_assoc(pool_view(pool0), seq![ev], rest);
                }
            },
            Err(e) => {
                proof {
                    assert(spec_decode_cp_entries(b0, p1, (n - i0) as int) == Err::<
                        (Seq<CpEntry>, int),
                        DecodeError,
                    >(e));
                }
                return Err(e);
            },
        }
    }
    proof {
        assert(pool_view(pool@) + Seq::<CpEntry>::empty() =~= pool_view(pool@));
    }
    Ok(pool)
}

/// The 1-based convention holds universally: index zero is never a valid
/// reference into any pool, so no decoder can produce it as one.
pub proof fn lemma_index_zero_never_in_range(pool: Seq<CpEntry>)
    ensures
        !cp_in_range(pool, 0),
{
}

/// Round-trip identity: looking a text record up by its own index yields
/// back the identical character sequence.
pub proof fn lemma_text_round_trip(pool: Seq<CpEntry>, idx: u16)
    requires
        cp_in_range(pool, idx),
        cp_at(pool, idx) is Utf8,
    ensures
        cp_at(pool, idx) matches CpEntry::Utf8 { text } && cp_text(pool, idx) == Ok::<
            Seq<char>,
            DecodeError,
        >(text),
{
}

} // verus!

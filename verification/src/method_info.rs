//! Method records: access flags, name and descriptor references, and the
//! method's own attribute list.

use vstd::prelude::*;

verus! {

use crate::access_flags::AccessFlags;
use crate::attribute::{
    Attribute,
    AttributeModel,
    attrs_model,
    decode_raw_attributes,
    lemma_attrs_model_props,
    spec_decode_raw_attrs,
};
use crate::error::DecodeError;
use crate::reader::{Reader, be16, cons_decoded, lemma_cons_decoded_assoc};

/// The mathematical value of a method record.
pub struct MethodModel {
    pub access_flags: AccessFlags,
    pub name_index: u16,
    pub descriptor_index: u16,
    pub attributes: Seq<AttributeModel>,
}

/// One method of the class: flags, a name reference, a descriptor
/// reference, and the method's attributes.
#[derive(Debug, PartialEq)]
pub struct MethodInfo {
    pub access_flags: AccessFlags,
    pub name_index: u16,
    pub descriptor_index: u16,
    pub attributes: Vec<Attribute>,
}

impl MethodInfo {
    /// The mathematical value of this record.
    pub open spec fn model(self) -> MethodModel {
        MethodModel {
            access_flags: self.access_flags,
            name_index: self.name_index,
            descriptor_index: self.descriptor_index,
            attributes: attrs_model(self.attributes@),
        }
    }
}

/// The mathematical value of a method list.
pub open spec fn methods_model(s: Seq<MethodInfo>) -> Seq<MethodModel>
    decreases s,
{
    if s.len() == 0 {
        Seq::empty()
    } else {
        seq![s[0].model()] + methods_model(s.subrange(1, s.len() as int))
    }
}

/// `methods_model` maps the list element by element.
pub proof fn lemma_methods_model_props(s: Seq<MethodInfo>)
    ensures
        methods_model(s).len() == s.len(),
        forall|i: int| 0 <= i < s.len() ==> methods_model(s)[i] == s[i].model(),
    decreases s.len(),
{
    if s.len() > 0 {
        lemma_methods_model_props(s.subrange(1, s.len() as int));
    }
}

/// The method record decoded from `b` at `p`: flags, a name reference, a
/// descriptor reference, then the method's raw attribute list.
pub open spec fn spec_decode_method(b: Seq<u8>, p: int) -> Result<(MethodModel, int), DecodeError> {
    if b.len() - p < 2 {
        Err(DecodeError::UnexpectedEof)
    } else if b.len() - (p + 2) < 2 {
        Err(DecodeError::UnexpectedEof)
    } else if b.len() - (p + 4) < 2 {
        Err(DecodeError::UnexpectedEof)
    } else if b.len() - (p + 6) < 2 {
        Err(DecodeError::UnexpectedEof)
    } else {
        match spec_decode_raw_attrs(b, p + 8, be16(b, p + 6)) {
            Err(e) => Err(e),
            Ok((attrs, q)) => Ok(
                (
                    MethodModel {
                        access_flags: AccessFlags { bits: be16(b, p) as u16 },
                        name_index: be16(b, p + 2) as u16,
                        descriptor_index: be16(b, p + 4) as u16,
                        attributes: attrs,
                    },
                    q,
                ),
            ),
        }
    }
}

/// `n` method records decoded in order from `b` starting at `p`.
pub open spec fn spec_decode_methods(b: Seq<u8>, p: int, n: int) -> Result<
    (Seq<MethodModel>, int),
    DecodeError,
>
    decreases n,
{
    if n <= 0 {
        Ok((Seq::empty(), p))
    } else {
        match spec_decode_method(b, p) {
            Err(e) => Err(e),
            Ok((x, q)) => match spec_decode_methods(b, q, n - 1) {
                Err(e) => Err(e),
                Ok((s, r)) => Ok((seq![x] + s, r)),
            },
        }
    }
}

impl MethodInfo {
    /// Decodes one method record at the cursor; its attributes are
    /// captured raw.
    pub fn from(r: &mut Reader) -> (res: Result<MethodInfo, DecodeError>)
        requires
            old(r).wf(),
        ensures
            final(r).wf(),
            final(r).bytes() == old(r).bytes(),
            match res {
                Ok(m) => spec_decode_method(old(r).bytes(), old(r).pos()) == Ok::<
                    (MethodModel, int),
                    DecodeError,
                >((m.model(), final(r).pos())),
                Err(e) => spec_decode_method(old(r).bytes(), old(r).pos()) == Err::<
                    (MethodModel, int),
                    DecodeError,
                >(e),
            },
    {
        let access_flags = AccessFlags::from(r.read_u2()?);
        let name_index = r.read_u2()?;
        let descriptor_index = r.read_u2()?;
        let attributes_count = r.read_u2()?;
        let attributes = decode_raw_attributes(r, attributes_count)?;
        Ok(MethodInfo { access_flags, name_index, descriptor_index, attributes })
    }
}

/// Decodes `n` method records in order from the cursor.
pub fn decode_methods(r: &mut Reader, n: u16) -> (res: Result<Vec<MethodInfo>, DecodeError>)
    requires
        old(r).wf(),
    ensures
        final(r).wf(),
        final(r).bytes() == old(r).bytes(),
        match res {
            Ok(v) => spec_decode_methods(old(r).bytes(), old(r).pos(), n as int) == Ok::<
                (Seq<MethodModel>, int),
                DecodeError,
            >((methods_model(v@), final(r).pos())),
            Err(e) => spec_decode_methods(old(r).bytes(), old(r).pos(), n as int) == Err::<
                (Seq<MethodModel>, int),
                DecodeError,
            >(e),
        },
{
    let ghost b0 = old(r).bytes();
    let ghost p0 = old(r).pos();
    let mut v: Vec<MethodInfo> = Vec::new();
    let mut i: u16 = 0;
    while i < n
        invariant
            r.wf(),
            r.bytes() == b0,
            b0 == old(r).bytes(),
            p0 == old(r).pos(),
            i <= n,
            cons_decoded(methods_model(v@), spec_decode_methods(b0, r.pos(), (n - i) as int))
                == spec_decode_methods(b0, p0, n as int),
        decreases n - i,
    {
        let ghost v0 = v@;
        let ghost i0 = i;
        let ghost p1 = r.pos();
        match MethodInfo::from(r) {
            Ok(m) => {
                let ghost mm = m.model();
                v.push(m);
                i = i + 1;
                proof {
                    let rest = spec_decode_methods(b0, r.pos(), (n - i0 - 1) as int);
                    assert(spec_decode_methods(b0, p1, (n - i0) as int) == cons_decoded(
                        seq![mm],
                        rest,
                    ));
                    lemma_methods_model_props(v@);
                    lemma_methods_model_props(v0);
                    assert(methods_model(v@) =~= methods_model(v0) + seq![mm]);
                    lemma_cons_decoded_assoc(methods_model(v0), seq![mm], rest);
                }
            },
            Err(e) => {
                proof {
                    assert(spec_decode_methods(b0, p1, (n - i0) as int) == Err::<
                        (Seq<MethodModel>, int),
                        DecodeError,
                    >(e));
                }
                return Err(e);
            },
        }
    }
    proof {
        assert(methods_model(v@) + Seq::<MethodModel>::empty() =~= methods_model(v@));
    }
    Ok(v)
}

} // verus!

//! The top-level class record: versions, constant pool, access flags,
//! class references, method table and class-level attributes, decoded from
//! the container's byte sequence.
//!
//! Decoding leaves every attribute raw; resolution is a separate,
//! explicit, subsequent pass.

use vstd::prelude::*;

verus! {

use crate::access_flags::AccessFlags;
use crate::attribute::{
    Attribute,
    AttributeModel,
    attrs_advanced,
    attrs_model,
    decode_raw_attributes,
    lemma_attrs_advanced_refl,
    lemma_resolve_attrs_advanced,
    lemma_resolve_attrs_idempotent,
    resolve_attribute_list,
    spec_decode_raw_attrs,
    spec_resolve_attrs,
};
use crate::constant_pool::{
    ConstantPoolInfo,
    CpEntry,
    decode_constant_pool,
    pool_view,
    spec_decode_cp_entries,
};
use crate::error::DecodeError;
use crate::method_info::{
    MethodInfo,
    MethodModel,
    decode_methods,
    lemma_methods_model_props,
    methods_model,
    spec_decode_methods,
};
use crate::reader::{Reader, be16, be32, cons_items, lemma_cons_items_assoc};

/// The fixed magic-number prefix of every container.
pub const MAGIC: u32 = 0xcafebabe;

/// The mathematical value of a decoded class.
pub struct ClassModel {
    pub minor: u16,
    pub major: u16,
    pub constant_pool: Seq<CpEntry>,
    pub access_info: AccessFlags,
    pub this_class: u16,
    pub super_class: u16,
    pub methods: Seq<MethodModel>,
    pub attributes: Seq<AttributeModel>,
}

/// A decoded class: the root of ownership for the pool, the methods and
/// the attributes.  All cross-references are 1-based indices into the
/// constant pool.
#[derive(Debug, PartialEq)]
pub struct Class {
    pub minor: u16,
    pub major: u16,
    pub constant_pool: Vec<ConstantPoolInfo>,
    pub access_info: AccessFlags,
    pub this_class: u16,
    pub super_class: u16,
    pub methods: Vec<MethodInfo>,
    pub attributes: Vec<Attribute>,
}

impl Class {
    /// The mathematical value of this class.
    pub open spec fn model(self) -> ClassModel {
        ClassModel {
            minor: self.minor,
            major: self.major,
            constant_pool: pool_view(self.constant_pool@),
            access_info: self.access_info,
            this_class: self.this_class,
            super_class: self.super_class,
            methods: methods_model(self.methods@),
            attributes: attrs_model(self.attributes@),
        }
    }
}

/// The class decoded from a whole byte sequence: the magic prefix, the
/// version fields, the constant pool, flags and class references, the
/// interface and field counts (both required to be zero), the method
/// table, and the class-level raw attribute list.  Bytes after the last
/// attribute are ignored.
pub open spec fn spec_decode_class(b: Seq<u8>) -> Result<ClassModel, DecodeError> {
    if b.len() < 4 {
        Err(DecodeError::UnexpectedEof)
    } else if be32(b, 0) != MAGIC {
        Err(DecodeError::BadMagic)
    } else if b.len() < 10 {
        Err(DecodeError::UnexpectedEof)
    } else if be16(b, 8) == 0 {
        Err(DecodeError::BadConstantPoolCount)
    } else {
        match spec_decode_cp_entries(b, 10, be16(b, 8) - 1) {
            Err(e) => Err(e),
            Ok((pool, p)) => {
                if b.len() - p < 8 {
                    Err(DecodeError::UnexpectedEof)
                } else if be16(b, p + 6) != 0 {
                    Err(DecodeError::InterfacesUnsupported)
                } else if b.len() - (p + 8) < 2 {
                    Err(DecodeError::UnexpectedEof)
                } else if be16(b, p + 8) != 0 {
                    Err(DecodeError::FieldsUnsupported)
                } else if b.len() - (p + 10) < 2 {
                    Err(DecodeError::UnexpectedEof)
                } else {
                    match spec_decode_methods(b, p + 12, be16(b, p + 10)) {
                        Err(e) => Err(e),
                        Ok((methods, q)) => {
                            if b.len() - q < 2 {
                                Err(DecodeError::UnexpectedEof)
                            } else {
                                match spec_decode_raw_attrs(b, q + 2, be16(b, q)) {
                                    Err(e) => Err(e),
                                    Ok((attributes, _)) => Ok(
                                        ClassModel {
                                            minor: be16(b, 4) as u16,
                                            major: be16(b, 6) as u16,
                                            constant_pool: pool,
                                            access_info: AccessFlags { bits: be16(b, p) as u16 },
                                            this_class: be16(b, p + 2) as u16,
                                            super_class: be16(b, p + 4) as u16,
                                            methods,
                                            attributes,
                                        },
                                    ),
                                }
                            }
                        },
                    }
                }
            },
        }
    }
}

/// Resolves the attributes of every method, in order.
pub open spec fn spec_resolve_methods(pool: Seq<CpEntry>, ms: Seq<MethodModel>) -> Result<
    Seq<MethodModel>,
    DecodeError,
>
    decreases ms.len(),
{
    if ms.len() == 0 {
        Ok(Seq::empty())
    } else {
        match spec_resolve_attrs(pool, ms[0].attributes) {
            Err(e) => Err(e),
            Ok(attrs) => match spec_resolve_methods(pool, ms.subrange(1, ms.len() as int)) {
                Err(e) => Err(e),
                Ok(t) => Ok(seq![MethodModel { attributes: attrs, ..ms[0] }] + t),
            },
        }
    }
}

/// Resolves every attribute reachable from the class: the class-level
/// list first, then each method's list, in order.
pub open spec fn spec_resolve_class(c: ClassModel) -> Result<ClassModel, DecodeError> {
    match spec_resolve_attrs(c.constant_pool, c.attributes) {
        Err(e) => Err(e),
        Ok(attributes) => match spec_resolve_methods(c.constant_pool, c.methods) {
            Err(e) => Err(e),
            Ok(methods) => Ok(ClassModel { methods, attributes, ..c }),
        },
    }
}

/// Every method keeps its flags and its name and descriptor references;
/// only its attribute payloads may have moved from raw to resolved.  This
/// is all a failed resolution pass may leave behind.
pub open spec fn methods_advanced(
    pool: Seq<CpEntry>,
    before: Seq<MethodModel>,
    after: Seq<MethodModel>,
) -> bool {
    &&& after.len() == before.len()
    &&& forall|i: int|
        0 <= i < before.len() ==> {
            &&& (#[trigger] after[i]).access_flags == before[i].access_flags
            &&& after[i].name_index == before[i].name_index
            &&& after[i].descriptor_index == before[i].descriptor_index
            &&& attrs_advanced(pool, before[i].attributes, after[i].attributes)
        }
}

/// An untouched method list is trivially advanced.
pub proof fn lemma_methods_advanced_refl(pool: Seq<CpEntry>, ms: Seq<MethodModel>)
    ensures
        methods_advanced(pool, ms, ms),
{
    assert forall|i: int| 0 <= i < ms.len() implies attrs_advanced(
        pool,
        ms[i].attributes,
        (#[trigger] ms[i]).attributes,
    ) by {
        lemma_attrs_advanced_refl(pool, ms[i].attributes);
    };
}

impl Class {
    /// Decodes a class from a whole byte sequence; every attribute is
    /// left raw.
    pub fn from(data: Vec<u8>) -> (res: Result<Class, DecodeError>)
        ensures
            match res {
                Ok(c) => spec_decode_class(data@) == Ok::<ClassModel, DecodeError>(c.model()),
                Err(e) => spec_decode_class(data@) == Err::<ClassModel, DecodeError>(e),
            },
    {
        let mut r = Reader::new(data);
        let magic = r.read_u4()?;
        if magic != MAGIC {
            return Err(DecodeError::BadMagic);
        }
        let minor = r.read_u2()?;
        let major = r.read_u2()?;
        let constant_pool_count = r.read_u2()?;
        if constant_pool_count == 0 {
            return Err(DecodeError::BadConstantPoolCount);
        }
        let constant_pool = decode_constant_pool(&mut r, constant_pool_count - 1)?;
        let access_info = AccessFlags::from(r.read_u2()?);
        let this_class = r.read_u2()?;
        let super_class = r.read_u2()?;
        let interfaces_count = r.read_u2()?;
        if interfaces_count != 0 {
            return Err(DecodeError::InterfacesUnsupported);
        }
        let fields_count = r.read_u2()?;
        if fields_count != 0 {
            return Err(DecodeError::FieldsUnsupported);
        }
        let methods_count = r.read_u2()?;
        let methods = decode_methods(&mut r, methods_count)?;
        let attributes_count = r.read_u2()?;
        let attributes = decode_raw_attributes(&mut r, attributes_count)?;
        Ok(
            Class {
                minor,
                major,
                constant_pool,
                access_info,
                this_class,
                super_class,
                methods,
                attributes,
            },
        )
    }

    /// Resolves every attribute the class owns, class-level first, then
    /// each method's, in order.  Resolution only moves attribute payloads
    /// from raw to resolved, in place: on failure the pool, the header
    /// fields, every method's flags and references, and every attribute's
    /// name reference are kept — the attributes before the failing one
    /// resolved, the failing one and the rest untouched.
    pub fn resolve_attributes(&mut self) -> (res: Result<(), DecodeError>)
        ensures
            final(self).constant_pool == old(self).constant_pool,
            final(self).minor == old(self).minor,
            final(self).major == old(self).major,
            final(self).access_info == old(self).access_info,
            final(self).this_class == old(self).this_class,
            final(self).super_class == old(self).super_class,
            match res {
                Ok(_) => spec_resolve_class(old(self).model()) == Ok::<ClassModel, DecodeError>(
                    final(self).model(),
                ),
                Err(e) => {
                    &&& spec_resolve_class(old(self).model()) == Err::<ClassModel, DecodeError>(e)
                    &&& attrs_advanced(
                        pool_view(old(self).constant_pool@),
                        old(self).model().attributes,
                        final(self).model().attributes,
                    )
                    &&& methods_advanced(
                        pool_view(old(self).constant_pool@),
                        old(self).model().methods,
                        final(self).model().methods,
                    )
                },
            },
    {
        let ghost pool_v = pool_view(self.constant_pool@);
        let ghost c0 = self.model();
        let mut attrs: Vec<Attribute> = Vec::new();
        core::mem::swap(&mut attrs, &mut self.attributes);
        proof {
            assert(attrs_model(attrs@) == c0.attributes);
        }
        let (resolved, class_err) = resolve_attribute_list(&self.constant_pool, attrs);
        self.attributes = resolved;
        if let Some(e) = class_err {
            proof {
                lemma_methods_advanced_refl(pool_v, c0.methods);
            }
            return Err(e);
        }
        let ghost resolved_class_attrs = attrs_model(self.attributes@);
        let mut methods: Vec<MethodInfo> = Vec::new();
        core::mem::swap(&mut methods, &mut self.methods);
        let ghost m_all = methods_model(methods@);
        proof {
            lemma_methods_model_props(methods@);
            assert(m_all == c0.methods);
            assert(methods_model(Seq::<MethodInfo>::empty()) =~= Seq::<MethodModel>::empty());
        }
        let mut new_methods: Vec<MethodInfo> = Vec::new();
        let mut rest = methods;
        proof {
            match spec_resolve_methods(pool_v, m_all) {
                Ok(t) => {
                    assert(Seq::<MethodModel>::empty() + t =~= t);
                },
                Err(_) => {},
            }
            assert(methods_model(rest@) =~= m_all.subrange(0, m_all.len() as int));
        }
        while rest.len() > 0
            invariant
                pool_v == pool_view(self.constant_pool@),
                c0 == old(self).model(),
                m_all == c0.methods,
                self.constant_pool == old(self).constant_pool,
                self.minor == old(self).minor,
                self.major == old(self).major,
                self.access_info == old(self).access_info,
                self.this_class == old(self).this_class,
                self.super_class == old(self).super_class,
                self.methods@ == Seq::<MethodInfo>::empty(),
                resolved_class_attrs == attrs_model(self.attributes@),
                spec_resolve_attrs(pool_v, c0.attributes) == Ok::<
                    Seq<AttributeModel>,
                    DecodeError,
                >(resolved_class_attrs),
                new_methods@.len() + rest@.len() == m_all.len(),
                methods_model(rest@) == m_all.subrange(
                    new_methods@.len() as int,
                    m_all.len() as int,
                ),
                forall|i: int|
                    0 <= i < new_methods@.len() ==> {
                        &&& (#[trigger] methods_model(new_methods@)[i]).access_flags
                            == m_all[i].access_flags
                        &&& methods_model(new_methods@)[i].name_index == m_all[i].name_index
                        &&& methods_model(new_methods@)[i].descriptor_index
                            == m_all[i].descriptor_index
                        &&& spec_resolve_attrs(pool_v, m_all[i].attributes) == Ok::<
                            Seq<AttributeModel>,
                            DecodeError,
                        >(methods_model(new_methods@)[i].attributes)
                    },
                cons_items(
                    methods_model(new_methods@),
                    spec_resolve_methods(pool_v, methods_model(rest@)),
                ) == spec_resolve_methods(pool_v, m_all),
            decreases rest@.len(),
        {
            let ghost rest0 = rest@;
            let ghost new0 = new_methods@;
            let ghost k = new0.len() as int;
            let mut m = rest.remove(0);
            let ghost mm0 = m.model();
            proof {
                lemma_methods_model_props(rest0);
                lemma_methods_model_props(rest@);
                assert(methods_model(rest@) =~= methods_model(rest0).subrange(
                    1,
                    rest0.len() as int,
                ));
                assert(methods_model(rest@) =~= m_all.subrange(k + 1, m_all.len() as int));
                assert(mm0 == methods_model(rest0)[0]);
                assert(mm0 == m_all[k]);
            }
            let mut mattrs: Vec<Attribute> = Vec::new();
            core::mem::swap(&mut mattrs, &mut m.attributes);
            proof {
                assert(attrs_model(mattrs@) == m_all[k].attributes);
            }
            let (res_attrs, method_err) = resolve_attribute_list(&self.constant_pool, mattrs);
            m.attributes = res_attrs;
            match method_err {
                None => {
                    let ghost resolved_m = MethodModel {
                        attributes: attrs_model(m.attributes@),
                        ..m_all[k]
                    };
                    proof {
                        assert(m.model() == resolved_m);
                    }
                    new_methods.push(m);
                    proof {
                        let rest_res = spec_resolve_methods(pool_v, methods_model(rest@));
                        assert(spec_resolve_methods(pool_v, methods_model(rest0)) == cons_items(
                            seq![resolved_m],
                            rest_res,
                        ));
                        lemma_methods_model_props(new_methods@);
                        lemma_methods_model_props(new0);
                        assert(methods_model(new_methods@) =~= methods_model(new0) + seq![
                            resolved_m,
                        ]);
                        lemma_cons_items_assoc(methods_model(new0), seq![resolved_m], rest_res);
                    }
                },
                Some(e) => {
                    proof {
                        assert(spec_resolve_methods(pool_v, methods_model(rest0)) == Err::<
                            Seq<MethodModel>,
                            DecodeError,
                        >(e));
                    }
                    new_methods.push(m);
                    let ghost tail = rest@;
                    new_methods.append(&mut rest);
                    self.methods = new_methods;
                    proof {
                        lemma_resolve_attrs_advanced(pool_v, c0.attributes);
                        lemma_methods_model_props(self.methods@);
                        lemma_methods_model_props(new0);
                        lemma_methods_model_props(tail);
                        assert(self.methods@ =~= new0 + seq![m] + tail);
                        let after = methods_model(self.methods@);
                        assert forall|i: int| 0 <= i < m_all.len() implies {
                            &&& (#[trigger] after[i]).access_flags == m_all[i].access_flags
                            &&& after[i].name_index == m_all[i].name_index
                            &&& after[i].descriptor_index == m_all[i].descriptor_index
                            &&& attrs_advanced(pool_v, m_all[i].attributes, after[i].attributes)
                        } by {
                            if i < k {
                                assert(after[i] == methods_model(new0)[i]);
                                lemma_resolve_attrs_advanced(pool_v, m_all[i].attributes);
                            } else if i == k {
                                assert(after[i] == m.model());
                            } else {
                                assert(after[i] == tail[i - k - 1].model());
                                assert(methods_model(tail)[i - k - 1] == m_all.subrange(
                                    k + 1,
                                    m_all.len() as int,
                                )[i - k - 1]);
                                lemma_attrs_advanced_refl(pool_v, m_all[i].attributes);
                            }
                        };
                    }
                    return Err(e);
                },
            }
        }
        proof {
            assert(methods_model(rest@) =~= Seq::<MethodModel>::empty());
            assert(methods_model(new_methods@) + Seq::<MethodModel>::empty() =~= methods_model(
                new_methods@,
            ));
        }
        self.methods = new_methods;
        Ok(())
    }
}

/// Resolution of a whole class is idempotent: a class whose attributes
/// have already been resolved resolves again to itself.
pub proof fn lemma_resolve_class_idempotent(c: ClassModel)
    ensures
        spec_resolve_class(c) matches Ok(r) ==> spec_resolve_class(r) == Ok::<
            ClassModel,
            DecodeError,
        >(r),
{
    match spec_resolve_attrs(c.constant_pool, c.attributes) {
        Ok(attributes) => {
            lemma_resolve_attrs_idempotent(c.constant_pool, c.attributes);
            lemma_resolve_methods_idempotent(c.constant_pool, c.methods);
        },
        Err(_) => {},
    }
}

/// Idempotence of the per-method resolution pass.
pub proof fn lemma_resolve_methods_idempotent(pool: Seq<CpEntry>, ms: Seq<MethodModel>)
    ensures
        spec_resolve_methods(pool, ms) matches Ok(rs) ==> spec_resolve_methods(pool, rs) == Ok::<
            Seq<MethodModel>,
            DecodeError,
        >(rs),
    decreases ms.len(),
{
    if ms.len() > 0 {
        match spec_resolve_attrs(pool, ms[0].attributes) {
            Ok(attrs) => {
                lemma_resolve_attrs_idempotent(pool, ms[0].attributes);
                match spec_resolve_methods(pool, ms.subrange(1, ms.len() as int)) {
                    Ok(t) => {
                        lemma_resolve_methods_idempotent(pool, ms.subrange(1, ms.len() as int));
                        let m = MethodModel { attributes: attrs, ..ms[0] };
                        assert((seq![m] + t).subrange(1, (seq![m] + t).len() as int) =~= t);
                        assert((seq![m] + t)[0] == m);
                    },
                    Err(_) => {},
                }
            },
            Err(_) => {},
        }
    }
}

} // verus!

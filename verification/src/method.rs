//! Method records: raw access flags, name and descriptor indices, and a
//! nested attribute set, whose `Code` attribute holds the method body.

use vstd::prelude::*;

use crate::attribute::{
    encodable_attr_set, lemma_rt_attr_set, se_attr_set, sp_attr_set, AttributeSet, AttributeV,
};
use crate::wire::{lemma_rt_u16, se_u16, seq_assoc, sp_u16};

verus! {

pub const METHOD_PUBLIC_FLAG: u16 = 0x0001;

pub const METHOD_PRIVATE_FLAG: u16 = 0x0002;

pub const METHOD_PROTECTED_FLAG: u16 = 0x0004;

pub const METHOD_STATIC_FLAG: u16 = 0x0008;

pub const METHOD_FINAL_FLAG: u16 = 0x0010;

pub const METHOD_SYNCHRONIZED_FLAG: u16 = 0x0020;

pub const METHOD_BRIDGE_FLAG: u16 = 0x0040;

pub const METHOD_VARARGS_FLAG: u16 = 0x0080;

pub const METHOD_NATIVE_FLAG: u16 = 0x0100;

pub const METHOD_ABSTRACT_FLAG: u16 = 0x0400;

pub const METHOD_STRICT_FLAG: u16 = 0x0800;

pub const METHOD_SYNTHETIC_FLAG: u16 = 0x1000;

/// One method of the class: its raw access-flag mask, the indices of its
/// name and descriptor, and its attributes.
#[derive(Debug, PartialEq, Eq, Clone)]
pub struct Method {
    pub access_flags: u16,
    pub name_index: crate::constant_pool::ConstantPoolIndex,
    pub descriptor_index: crate::constant_pool::ConstantPoolIndex,
    pub attributes: AttributeSet,
}

/// The mathematical model of a method record.
pub struct MethodV {
    pub access_flags: u16,
    pub name_index: usize,
    pub descriptor_index: usize,
    pub attributes: Seq<AttributeV>,
}

impl View for Method {
    type V = MethodV;

    open spec fn view(&self) -> MethodV {
        MethodV {
            access_flags: self.access_flags,
            name_index: self.name_index,
            descriptor_index: self.descriptor_index,
            attributes: self.attributes@,
        }
    }
}

/// Parse one method record.
pub open spec fn sp_method(b: Seq<u8>) -> Option<(MethodV, Seq<u8>)> {
    match sp_u16(b) {
        None => None,
        Some((flags, r)) => match sp_u16(r) {
            None => None,
            Some((ni, r2)) => match sp_u16(r2) {
                None => None,
                Some((di, r3)) => match sp_attr_set(r3) {
                    None => None,
                    Some((attrs, r4)) => Some(
                        (
                            MethodV {
                                access_flags: flags,
                                name_index: ni as usize,
                                descriptor_index: di as usize,
                                attributes: attrs,
                            },
                            r4,
                        ),
                    ),
                },
            },
        },
    }
}

pub open spec fn se_method(m: MethodV) -> Seq<u8> {
    se_u16(m.access_flags) + se_u16(m.name_index as u16) + se_u16(m.descriptor_index as u16)
        + se_attr_set(m.attributes)
}

/// A method the writer can emit.
pub open spec fn encodable_method(m: MethodV) -> bool {
    &&& 1 <= m.name_index <= 0xffff
    &&& 1 <= m.descriptor_index <= 0xffff
    &&& encodable_attr_set(m.attributes)
}

/// Parse exactly `n` method records in order.
pub open spec fn sp_methods(b: Seq<u8>, n: int) -> Option<(Seq<MethodV>, Seq<u8>)>
    decreases n,
{
    if n <= 0 {
        Some((seq![], b))
    } else {
        match sp_method(b) {
            None => None,
            Some((m, r)) => match sp_methods(r, n - 1) {
                None => None,
                Some((s, r2)) => Some((seq![m] + s, r2)),
            },
        }
    }
}

pub open spec fn se_methods(s: Seq<MethodV>) -> Seq<u8>
    decreases s.len(),
{
    if s.len() == 0 {
        seq![]
    } else {
        se_method(s[0]) + se_methods(s.skip(1))
    }
}

pub proof fn lemma_rt_method(m: MethodV, rest: Seq<u8>)
    requires
        encodable_method(m),
    ensures
        sp_method(se_method(m) + rest) == Some((m, rest)),
{
    let a = se_u16(m.access_flags);
    let b = se_u16(m.name_index as u16);
    let c = se_u16(m.descriptor_index as u16);
    let d = se_attr_set(m.attributes);
    let tail = d + rest;
    assert(se_method(m) == ((a + b) + c) + d);
    seq_assoc((a + b) + c, d, rest);
    seq_assoc(a + b, c, tail);
    seq_assoc(a, b, c + tail);
    lemma_rt_u16(
        m.access_flags,
        se_u16(m.name_index as u16) + (se_u16(m.descriptor_index as u16) + tail),
    );
    lemma_rt_u16(m.name_index as u16, se_u16(m.descriptor_index as u16) + tail);
    lemma_rt_u16(m.descriptor_index as u16, tail);
    lemma_rt_attr_set(m.attributes, rest);
}

#[verifier::rlimit(80)]
pub proof fn lemma_rt_methods(s: Seq<MethodV>, rest: Seq<u8>)
    requires
        forall|i: int| 0 <= i < s.len() ==> encodable_method(#[trigger] s[i]),
    ensures
        sp_methods(se_methods(s) + rest, s.len() as int) == Some((s, rest)),
    decreases s.len(),
{
    if s.len() == 0 {
        assert(se_methods(s) + rest =~= rest);
        assert(s =~= Seq::<MethodV>::empty());
    } else {
        assert forall|i: int| 0 <= i < s.skip(1).len() implies encodable_method(
            #[trigger] s.skip(1)[i],
        ) by {
            assert(s.skip(1)[i] == s[i + 1]);
        }
        lemma_rt_methods(s.skip(1), rest);
        lemma_rt_method(s[0], se_methods(s.skip(1)) + rest);
        assert(se_methods(s) == se_method(s[0]) + se_methods(s.skip(1)));
        seq_assoc(se_method(s[0]), se_methods(s.skip(1)), rest);
        assert(seq![s[0]] + s.skip(1) =~= s);
    }
}

impl Method {
    /// The decoded Code attribute of this method, if it has one. A method
    /// without a Code attribute (such as an abstract or native method)
    /// yields `None`; a malformed Code payload is an error.
    pub fn get_code(&self, class_file: &crate::class_file::ClassFile) -> (r: Result<
        Option<crate::attribute::Code>,
        crate::error::ClassFileError,
    >)
        ensures
            crate::attribute::find_first(class_file@.pool, self@.attributes, "Code"@) is None ==> r
                == Ok::<Option<crate::attribute::Code>, crate::error::ClassFileError>(None),
            (match crate::attribute::find_first(class_file@.pool, self@.attributes, "Code"@) {
                Some(j) => match crate::attribute::sp_code(self@.attributes[j].info) {
                    Some(cv) => r matches Ok(Some(c)) && c@ == cv,
                    None => r is Err,
                },
                None => true,
            }),
            r matches Err(e) ==> e is StructuralError || e is UnknownTag,
    {
        match self.attributes.find_attribute(class_file, "Code") {
            Some(attr) => match crate::attribute::Code::from_bytes(&attr.info) {
                Ok(code) => Ok(Some(code)),
                Err(e) => Err(e),
            },
            None => Ok(None),
        }
    }
}

} // verus!

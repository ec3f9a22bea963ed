//! Field records: access flags, name and descriptor indices, and a nested
//! attribute set.

use vstd::prelude::*;

use crate::attribute::{
    encodable_attr_set, se_attr_set, sp_attr_set, AttributeSet, AttributeV, lemma_rt_attr_set,
};
use crate::field_access::{field_access_list, field_flags_of, FieldAccess};
use crate::wire::{lemma_rt_u16, se_u16, seq_assoc, sp_u16};

verus! {

/// One field of the class: decoded access flags, the indices of its name
/// and descriptor (Utf8 entries of the pool), and its attributes.
#[derive(Debug, PartialEq, Eq, Clone)]
pub struct Field {
    pub access_flags: Vec<FieldAccess>,
    pub name_index: crate::constant_pool::ConstantPoolIndex,
    pub descriptor_index: crate::constant_pool::ConstantPoolIndex,
    pub attributes: AttributeSet,
}

/// The mathematical model of a field record.
pub struct FieldV {
    pub access: Seq<FieldAccess>,
    pub name_index: usize,
    pub descriptor_index: usize,
    pub attributes: Seq<AttributeV>,
}

impl View for Field {
    type V = FieldV;

    open spec fn view(&self) -> FieldV {
        FieldV {
            access: self.access_flags@,
            name_index: self.name_index,
            descriptor_index: self.descriptor_index,
            attributes: self.attributes@,
        }
    }
}

/// Parse one field record: access flags, name index, descriptor index, and
/// the nested attribute set.
pub open spec fn sp_field(b: Seq<u8>) -> Option<(FieldV, Seq<u8>)> {
    match sp_u16(b) {
        None => None,
        Some((flags, r)) => match sp_u16(r) {
            None => None,
            Some((ni, r2)) => match sp_u16(r2) {
                None => None,
                Some((di, r3)) => match sp_attr_set(r3) {
                    None => None,
                    Some((attrs, r4)) => Some(
                        (
                            FieldV {
                                access: field_access_list(flags),
                                name_index: ni as usize,
                                descriptor_index: di as usize,
                                attributes: attrs,
                            },
                            r4,
                        ),
                    ),
                },
            },
        },
    }
}

pub open spec fn se_field(f: FieldV) -> Seq<u8> {
    se_u16(field_flags_of(f.access)) + se_u16(f.name_index as u16) + se_u16(
        f.descriptor_index as u16,
    ) + se_attr_set(f.attributes)
}

/// A field the writer can emit.
pub open spec fn encodable_field(f: FieldV) -> bool {
    &&& 1 <= f.name_index <= 0xffff
    &&& 1 <= f.descriptor_index <= 0xffff
    &&& encodable_attr_set(f.attributes)
}

/// A field in decoded shape: its flag list is the canonical list of some
/// mask, so it survives re-encoding.
pub open spec fn wf_field(f: FieldV) -> bool {
    field_access_list(field_flags_of(f.access)) == f.access
}

/// Parse exactly `n` field records in order.
pub open spec fn sp_fields(b: Seq<u8>, n: int) -> Option<(Seq<FieldV>, Seq<u8>)>
    decreases n,
{
    if n <= 0 {
        Some((seq![], b))
    } else {
        match sp_field(b) {
            None => None,
            Some((f, r)) => match sp_fields(r, n - 1) {
                None => None,
                Some((s, r2)) => Some((seq![f] + s, r2)),
            },
        }
    }
}

pub open spec fn se_fields(s: Seq<FieldV>) -> Seq<u8>
    decreases s.len(),
{
    if s.len() == 0 {
        seq![]
    } else {
        se_field(s[0]) + se_fields(s.skip(1))
    }
}

pub proof fn lemma_rt_field(f: FieldV, rest: Seq<u8>)
    requires
        encodable_field(f),
        wf_field(f),
    ensures
        sp_field(se_field(f) + rest) == Some((f, rest)),
{
    let m = field_flags_of(f.access);
    let a = se_u16(m);
    let b = se_u16(f.name_index as u16);
    let c = se_u16(f.descriptor_index as u16);
    let d = se_attr_set(f.attributes);
    let tail = d + rest;
    assert(se_field(f) == ((a + b) + c) + d);
    seq_assoc((a + b) + c, d, rest);
    seq_assoc(a + b, c, tail);
    seq_assoc(a, b, c + tail);
    lemma_rt_u16(m, se_u16(f.name_index as u16) + (se_u16(f.descriptor_index as u16) + tail));
    lemma_rt_u16(f.name_index as u16, se_u16(f.descriptor_index as u16) + tail);
    lemma_rt_u16(f.descriptor_index as u16, tail);
    lemma_rt_attr_set(f.attributes, rest);
}

#[verifier::rlimit(80)]
pub proof fn lemma_rt_fields(s: Seq<FieldV>, rest: Seq<u8>)
    requires
        forall|i: int|
            0 <= i < s.len() ==> encodable_field(#[trigger] s[i]) && wf_field(s[i]),
    ensures
        sp_fields(se_fields(s) + rest, s.len() as int) == Some((s, rest)),
    decreases s.len(),
{
    if s.len() == 0 {
        assert(se_fields(s) + rest =~= rest);
        assert(s =~= Seq::<FieldV>::empty());
    } else {
        assert forall|i: int|
            0 <= i < s.skip(1).len() implies encodable_field(#[trigger] s.skip(1)[i]) && wf_field(
            s.skip(1)[i],
        ) by {
            assert(s.skip(1)[i] == s[i + 1]);
        }
        lemma_rt_fields(s.skip(1), rest);
        lemma_rt_field(s[0], se_fields(s.skip(1)) + rest);
        assert(se_fields(s) == se_field(s[0]) + se_fields(s.skip(1)));
        seq_assoc(se_field(s[0]), se_fields(s.skip(1)), rest);
        assert(seq![s[0]] + s.skip(1) =~= s);
    }
}

} // verus!

//! The class container: versions, constant pool, access flags, this/super
//! indices, interfaces, fields, methods and top-level attributes, together
//! with the top-level round-trip theorem: re-parsing the writer's output
//! yields the same model.

use vstd::prelude::*;
use vstd::string::{StrSliceExecFns, StringExecFns};

use crate::attribute::{
    encodable_attr_set, lemma_rt_attr_set, se_attr_set, sp_attr_set, AttributeSet, AttributeV,
};
use crate::class_access::{
    class_access_list, class_flags_of, lemma_class_access_canonical, ClassAccess,
};
use crate::constant_pool::{
    encodable_pool, lemma_rt_pool, lemma_sp_cp_items_wf, pool_wf, se_pool, sp_pool,
    ConstantPoolEntry, CpEntryV,
};
use crate::field::{
    encodable_field, lemma_rt_fields, se_fields, sp_field, sp_fields, wf_field, Field, FieldV,
};
use crate::error::ClassFileError;
use crate::field_access::lemma_field_access_canonical;
use crate::method::{encodable_method, lemma_rt_methods, se_methods, sp_methods, Method, MethodV};
use crate::wire::{lemma_rt_u16, lemma_rt_u32, se_u16, se_u32, seq_assoc, sp_u16, sp_u32};

verus! {

/// The 4-byte magic value that begins every class file.
pub const EXPECTED_MAGIC: u32 = 0xCAFE_BABE;

/// A representation of a JVM class file.
#[derive(Debug, PartialEq, Eq, Clone)]
pub struct ClassFile {
    pub minor_version: u16,
    pub major_version: u16,
    pub constant_pool: Vec<ConstantPoolEntry>,
    pub access_flags: Vec<ClassAccess>,
    pub this_class: crate::constant_pool::ConstantPoolIndex,
    pub super_class: crate::constant_pool::ConstantPoolIndex,
    pub interfaces: Vec<crate::constant_pool::ConstantPoolIndex>,
    pub fields: Vec<Field>,
    pub methods: Vec<Method>,
    pub attributes: AttributeSet,
}

/// The mathematical model of a class file.
pub struct ClassV {
    pub minor_version: u16,
    pub major_version: u16,
    pub pool: Seq<CpEntryV>,
    pub access: Seq<ClassAccess>,
    pub this_class: usize,
    pub super_class: usize,
    pub interfaces: Seq<usize>,
    pub fields: Seq<FieldV>,
    pub methods: Seq<MethodV>,
    pub attributes: Seq<AttributeV>,
}

impl View for ClassFile {
    type V = ClassV;

    open spec fn view(&self) -> ClassV {
        ClassV {
            minor_version: self.minor_version,
            major_version: self.major_version,
            pool: crate::constant_pool::pool_view(self.constant_pool@),
            access: self.access_flags@,
            this_class: self.this_class,
            super_class: self.super_class,
            interfaces: self.interfaces@,
            fields: self.fields@.map_values(|f: Field| f@),
            methods: self.methods@.map_values(|m: Method| m@),
            attributes: self.attributes@,
        }
    }
}

/// Parse exactly `n` interface indices (2 bytes each).
pub open spec fn sp_ifaces(b: Seq<u8>, n: int) -> Option<(Seq<usize>, Seq<u8>)>
    decreases n,
{
    if n <= 0 {
        Some((seq![], b))
    } else {
        match sp_u16(b) {
            None => None,
            Some((x, r)) => match sp_ifaces(r, n - 1) {
                None => None,
                Some((s, r2)) => Some((seq![x as usize] + s, r2)),
            },
        }
    }
}

pub open spec fn se_ifaces(s: Seq<usize>) -> Seq<u8>
    decreases s.len(),
{
    if s.len() == 0 {
        seq![]
    } else {
        se_u16(s[0] as u16) + se_ifaces(s.skip(1))
    }
}

pub proof fn lemma_rt_ifaces(s: Seq<usize>, rest: Seq<u8>)
    requires
        forall|i: int| 0 <= i < s.len() ==> 1 <= #[trigger] s[i] <= 0xffff,
    ensures
        sp_ifaces(se_ifaces(s) + rest, s.len() as int) == Some((s, rest)),
    decreases s.len(),
{
    if s.len() == 0 {
        assert(se_ifaces(s) + rest =~= rest);
        assert(s =~= Seq::<usize>::empty());
    } else {
        assert forall|i: int| 0 <= i < s.skip(1).len() implies 1 <= #[trigger] s.skip(1)[i]
            <= 0xffff by {
            assert(s.skip(1)[i] == s[i + 1]);
        }
        lemma_rt_ifaces(s.skip(1), rest);
        assert(se_ifaces(s) == se_u16(s[0] as u16) + se_ifaces(s.skip(1)));
        seq_assoc(se_u16(s[0] as u16), se_ifaces(s.skip(1)), rest);
        lemma_rt_u16(s[0] as u16, se_ifaces(s.skip(1)) + rest);
        assert(seq![s[0]] + s.skip(1) =~= s);
    }
}

/// Parse a whole class file: magic, versions, pool, flags, this/super,
/// interfaces, fields, methods and the top-level attribute set. Trailing
/// bytes after the attribute set are returned unread.
pub open spec fn sp_class(b: Seq<u8>) -> Option<(ClassV, Seq<u8>)> {
    match sp_u32(b) {
        None => None,
        Some((magic, r0)) => if magic != EXPECTED_MAGIC {
            None
        } else {
            match sp_u16(r0) {
                None => None,
                Some((minor, r1)) => match sp_u16(r1) {
                    None => None,
                    Some((major, r2)) => match sp_pool(r2) {
                        None => None,
                        Some((pool, r3)) => match sp_u16(r3) {
                            None => None,
                            Some((flags, r4)) => match sp_u16(r4) {
                                None => None,
                                Some((this_c, r5)) => match sp_u16(r5) {
                                    None => None,
                                    Some((super_c, r6)) => match sp_u16(r6) {
                                        None => None,
                                        Some((icount, r7)) => match sp_ifaces(r7, icount as int) {
                                            None => None,
                                            Some((ifaces, r8)) => match sp_u16(r8) {
                                                None => None,
                                                Some((fcount, r9)) => match sp_fields(
                                                    r9,
                                                    fcount as int,
                                                ) {
                                                    None => None,
                                                    Some((fields, r10)) => match sp_u16(r10) {
                                                        None => None,
                                                        Some((mcount, r11)) => match sp_methods(
                                                            r11,
                                                            mcount as int,
                                                        ) {
                                                            None => None,
                                                            Some((methods, r12)) => match sp_attr_set(
                                                                r12,
                                                            ) {
                                                                None => None,
                                                                Some((attrs, r13)) => Some(
                                                                    (
                                                                        ClassV {
                                                                            minor_version: minor,
                                                                            major_version: major,
                                                                            pool,
                                                                            access:
                                                                                class_access_list(
                                                                                flags),
                                                                            this_class:
                                                                                this_c as usize,
                                                                            super_class:
                                                                                super_c as usize,
                                                                            interfaces: ifaces,
                                                                            fields,
                                                                            methods,
                                                                            attributes: attrs,
                                                                        },
                                                                        r13,
                                                                    ),
                                                                ),
                                                            },
                                                        },
                                                    },
                                                },
                                            },
                                        },
                                    },
                                },
                            },
                        },
                    },
                },
            }
        },
    }
}

/// The bytes of a whole class file.
pub open spec fn se_class(m: ClassV) -> Seq<u8> {
    se_u32(EXPECTED_MAGIC) + se_u16(m.minor_version) + se_u16(m.major_version) + se_pool(m.pool)
        + se_u16(class_flags_of(m.access)) + se_u16(m.this_class as u16) + se_u16(
        m.super_class as u16,
    ) + se_u16(m.interfaces.len() as u16) + se_ifaces(m.interfaces) + se_u16(m.fields.len() as u16)
        + se_fields(m.fields) + se_u16(m.methods.len() as u16) + se_methods(m.methods)
        + se_attr_set(m.attributes)
}

/// A model the writer can emit: every constant-pool index in `[1, 65535]`,
/// every count and length within its field.
pub open spec fn encodable_class(m: ClassV) -> bool {
    &&& encodable_pool(m.pool)
    &&& 1 <= m.this_class <= 0xffff
    &&& 1 <= m.super_class <= 0xffff
    &&& m.interfaces.len() <= 0xffff
    &&& forall|i: int| 0 <= i < m.interfaces.len() ==> 1 <= #[trigger] m.interfaces[i] <= 0xffff
    &&& m.fields.len() <= 0xffff
    &&& forall|i: int| 0 <= i < m.fields.len() ==> encodable_field(#[trigger] m.fields[i])
    &&& m.methods.len() <= 0xffff
    &&& forall|i: int| 0 <= i < m.methods.len() ==> encodable_method(#[trigger] m.methods[i])
    &&& encodable_attr_set(m.attributes)
}

/// A model in decoded shape: the pool satisfies the double-slot rule and
/// every flag list is the canonical list of its mask. Every model the
/// decoder produces has this shape.
pub open spec fn wf_class(m: ClassV) -> bool {
    &&& pool_wf(m.pool)
    &&& class_access_list(class_flags_of(m.access)) == m.access
    &&& forall|i: int| 0 <= i < m.fields.len() ==> wf_field(#[trigger] m.fields[i])
}

/// Every model the class parser yields is well-formed.
pub proof fn lemma_sp_class_wf(b: Seq<u8>)
    ensures
        sp_class(b) matches Some((m, r)) ==> wf_class(m),
{
    match sp_u32(b) {
        None => {},
        Some((magic, r0)) => {
            if magic == EXPECTED_MAGIC {
                match sp_u16(r0) {
                    None => {},
                    Some((minor, r1)) => match sp_u16(r1) {
                        None => {},
                        Some((major, r2)) => {
                            match sp_u16(r2) {
                                None => {},
                                Some((count, rr)) => {
                                    lemma_sp_cp_items_wf(rr, count - 1);
                                },
                            }
                            match sp_pool(r2) {
                                None => {},
                                Some((pool, r3)) => match sp_u16(r3) {
                                    None => {},
                                    Some((flags, r4)) => {
                                        lemma_class_access_canonical(flags);
                                        match sp_u16(r4) {
                                            None => {},
                                            Some((this_c, r5)) => match sp_u16(r5) {
                                                None => {},
                                                Some((super_c, r6)) => match sp_u16(r6) {
                                                    None => {},
                                                    Some((icount, r7)) => match sp_ifaces(
                                                        r7,
                                                        icount as int,
                                                    ) {
                                                        None => {},
                                                        Some((ifaces, r8)) => match sp_u16(r8) {
                                                            None => {},
                                                            Some((fcount, r9)) => {
                                                                lemma_sp_fields_wf(
                                                                    r9,
                                                                    fcount as int,
                                                                );
                                                            },
                                                        },
                                                    },
                                                },
                                            },
                                        }
                                    },
                                },
                            }
                        },
                    },
                }
            }
        },
    }
}

/// Every field record the field-list parser yields is well-formed.
proof fn lemma_sp_fields_wf(b: Seq<u8>, n: int)
    ensures
        sp_fields(b, n) matches Some((s, r)) ==> forall|i: int|
            0 <= i < s.len() ==> wf_field(#[trigger] s[i]),
    decreases n,
{
    if n <= 0 {
    } else {
        match sp_field(b) {
            None => {},
            Some((f, r)) => {
                match sp_u16(b) {
                    Some((flags, rr)) => {
                        lemma_field_access_canonical(flags);
                    },
                    None => {},
                }
                lemma_sp_fields_wf(r, n - 1);
                match sp_fields(r, n - 1) {
                    None => {},
                    Some((s2, r2)) => {
                        assert forall|i: int| 0 <= i < (seq![f] + s2).len() implies wf_field(
                            #[trigger] (seq![f] + s2)[i],
                        ) by {
                            if i > 0 {
                                assert((seq![f] + s2)[i] == s2[i - 1]);
                            }
                        }
                    },
                }
            },
        }
    }
}

/// The round-trip theorem: parsing the writer's byte output of any
/// well-formed, encodable model yields exactly that model, with no bytes
/// left over.
pub proof fn lemma_rt_class(m: ClassV)
    requires
        wf_class(m),
        encodable_class(m),
    ensures
        sp_class(se_class(m)) == Some((m, Seq::<u8>::empty())),
{
    let p1 = se_u32(EXPECTED_MAGIC);
    let p2 = se_u16(m.minor_version);
    let p3 = se_u16(m.major_version);
    let p4 = se_pool(m.pool);
    let p5 = se_u16(class_flags_of(m.access));
    let p6 = se_u16(m.this_class as u16);
    let p7 = se_u16(m.super_class as u16);
    let p8 = se_u16(m.interfaces.len() as u16);
    let p9 = se_ifaces(m.interfaces);
    let p10 = se_u16(m.fields.len() as u16);
    let p11 = se_fields(m.fields);
    let p12 = se_u16(m.methods.len() as u16);
    let p13 = se_methods(m.methods);
    let p14 = se_attr_set(m.attributes);
    let rest = Seq::<u8>::empty();
    let r13 = p14 + rest;
    let r12 = p13 + r13;
    let r11 = p12 + r12;
    let r10 = p11 + r11;
    let r9 = p10 + r10;
    let r8 = p9 + r9;
    let r7 = p8 + r8;
    let r6 = p7 + r7;
    let r5 = p6 + r6;
    let r4 = p5 + r5;
    let r3 = p4 + r4;
    let r2 = p3 + r3;
    let r1 = p2 + r2;
    assert(p14 + rest =~= p14);
    assert(se_class(m) == p1 + p2 + p3 + p4 + p5 + p6 + p7 + p8 + p9 + p10 + p11 + p12 + p13
        + p14);
    seq_assoc(p1 + p2 + p3 + p4 + p5 + p6 + p7 + p8 + p9 + p10 + p11 + p12, p13, p14);
    seq_assoc(p1 + p2 + p3 + p4 + p5 + p6 + p7 + p8 + p9 + p10 + p11, p12, r12);
    seq_assoc(p1 + p2 + p3 + p4 + p5 + p6 + p7 + p8 + p9 + p10, p11, r11);
    seq_assoc(p1 + p2 + p3 + p4 + p5 + p6 + p7 + p8 + p9, p10, r10);
    seq_assoc(p1 + p2 + p3 + p4 + p5 + p6 + p7 + p8, p9, r9);
    seq_assoc(p1 + p2 + p3 + p4 + p5 + p6 + p7, p8, r8);
    seq_assoc(p1 + p2 + p3 + p4 + p5 + p6, p7, r7);
    seq_assoc(p1 + p2 + p3 + p4 + p5, p6, r6);
    seq_assoc(p1 + p2 + p3 + p4, p5, r5);
    seq_assoc(p1 + p2 + p3, p4, r4);
    seq_assoc(p1 + p2, p3, r3);
    seq_assoc(p1, p2, r2);
    assert(se_class(m) == p1 + r1);
    lemma_rt_u32(EXPECTED_MAGIC, r1);
    lemma_rt_u16(m.minor_version, r2);
    lemma_rt_u16(m.major_version, r3);
    lemma_rt_pool(m.pool, r4);
    lemma_rt_u16(class_flags_of(m.access), r5);
    lemma_rt_u16(m.this_class as u16, r6);
    lemma_rt_u16(m.super_class as u16, r7);
    lemma_rt_u16(m.interfaces.len() as u16, r8);
    lemma_rt_ifaces(m.interfaces, r9);
    lemma_rt_u16(m.fields.len() as u16, r10);
    lemma_rt_fields(m.fields, r11);
    lemma_rt_u16(m.methods.len() as u16, r12);
    lemma_rt_methods(m.methods, r13);
    lemma_rt_attr_set(m.attributes, rest);
    assert(sp_class(se_class(m)) matches Some((m2, rr)) && m2 == m && rr == rest);
}

/// The entry a 1-based index resolves to, if it is in range.
pub open spec fn entry_at(pool: Seq<CpEntryV>, index: int) -> Option<CpEntryV> {
    if 1 <= index <= pool.len() {
        Some(pool[index - 1])
    } else {
        None
    }
}

/// The characters of the Utf8 entry a 1-based index resolves to; `None`
/// for an out-of-range index or an entry of another variant.
pub open spec fn utf8_at(pool: Seq<CpEntryV>, index: int) -> Option<Seq<char>> {
    match entry_at(pool, index) {
        Some(CpEntryV::Utf8 { s }) => Some(s),
        _ => None,
    }
}

/// The name of the Class entry a 1-based index resolves to.
pub open spec fn class_name_at(pool: Seq<CpEntryV>, index: int) -> Option<Seq<char>> {
    match entry_at(pool, index) {
        Some(CpEntryV::Class { name_index }) => utf8_at(pool, name_index as int),
        _ => None,
    }
}

/// The text form of the NameAndType entry a 1-based index resolves to:
/// the name in quotes, a colon, then the descriptor.
pub open spec fn name_and_type_at(pool: Seq<CpEntryV>, index: int) -> Option<Seq<char>> {
    match entry_at(pool, index) {
        Some(CpEntryV::NameAndType { name_index, descriptor_index }) => match utf8_at(
            pool,
            name_index as int,
        ) {
            Some(n) => match utf8_at(pool, descriptor_index as int) {
                Some(d) => Some("\""@ + n + "\":"@ + d),
                None => None,
            },
            None => None,
        },
        _ => None,
    }
}

impl ClassFile {
    /// Returns the specified constant from the constant pool, which is
    /// 1-indexed; an index of 0 or beyond the table is a resolution error.
    pub fn get_constant(&self, index: usize) -> (r: Result<&ConstantPoolEntry, ClassFileError>)
        ensures
            r is Ok <==> entry_at(self@.pool, index as int) is Some,
            r matches Ok(e) ==> entry_at(self@.pool, index as int) == Some(e@),
            r matches Err(e) ==> e == (ClassFileError::Resolution { index }),
    {
        if 1 <= index && index <= self.constant_pool.len() {
            let e = &self.constant_pool[index - 1];
            proof {
                assert(crate::constant_pool::pool_view(self.constant_pool@)[index - 1] == e@);
            }
            Ok(e)
        } else {
            Err(ClassFileError::Resolution { index })
        }
    }

    /// Returns the string of the specified Utf8 constant; an index that is
    /// out of range or names an entry of another variant is a resolution
    /// error.
    pub fn get_constant_utf8(&self, index: usize) -> (r: Result<String, ClassFileError>)
        ensures
            r is Ok <==> utf8_at(self@.pool, index as int) is Some,
            r matches Ok(s) ==> utf8_at(self@.pool, index as int) == Some(s@),
            r matches Err(e) ==> e == (ClassFileError::Resolution { index }),
    {
        match self.get_constant(index) {
            Ok(e) => match e {
                ConstantPoolEntry::ConstantUtf8 { string } => Ok(string.clone()),
                _ => Err(ClassFileError::Resolution { index }),
            },
            Err(e) => Err(e),
        }
    }

    /// Returns the name of the class the specified Class constant names.
    pub fn get_constant_class_str(&self, index: usize) -> (r: Result<String, ClassFileError>)
        ensures
            r is Ok <==> class_name_at(self@.pool, index as int) is Some,
            r matches Ok(s) ==> class_name_at(self@.pool, index as int) == Some(s@),
            r matches Err(e) ==> e is Resolution,
    {
        match self.get_constant(index) {
            Ok(e) => match e {
                ConstantPoolEntry::ConstantClass { name_index } => {
                    let ni = *name_index;
                    self.get_constant_utf8(ni)
                },
                _ => Err(ClassFileError::Resolution { index }),
            },
            Err(e) => Err(e),
        }
    }

    /// Returns the name of this class: the Class constant that
    /// `this_class` names, resolved to its Utf8 name.
    pub fn get_class_name(&self) -> (r: Result<String, ClassFileError>)
        ensures
            r is Ok <==> class_name_at(self@.pool, self.this_class as int) is Some,
            r matches Ok(s) ==> class_name_at(self@.pool, self.this_class as int) == Some(s@),
            r matches Err(e) ==> e is Resolution,
    {
        self.get_constant_class_str(self.this_class)
    }

    /// Returns the text form of the specified NameAndType constant: the
    /// name in quotes, a colon, then the descriptor.
    pub fn get_constant_name_and_type_str(&self, index: usize) -> (r: Result<
        String,
        ClassFileError,
    >)
        ensures
            r is Ok <==> name_and_type_at(self@.pool, index as int) is Some,
            r matches Ok(s) ==> name_and_type_at(self@.pool, index as int) == Some(s@),
            r matches Err(e) ==> e is Resolution,
    {
        match self.get_constant(index) {
            Ok(e) => match e {
                ConstantPoolEntry::ConstantNameAndType { name_index, descriptor_index } => {
                    let ni = *name_index;
                    let di = *descriptor_index;
                    let name = match self.get_constant_utf8(ni) {
                        Ok(s) => s,
                        Err(e2) => {
                            return Err(e2);
                        },
                    };
                    let descriptor = match self.get_constant_utf8(di) {
                        Ok(s) => s,
                        Err(e2) => {
                            return Err(e2);
                        },
                    };
                    let mut out = String::from_str("\"");
                    out.append(name.as_str());
                    out.append("\":");
                    out.append(descriptor.as_str());
                    proof {
                        assert(out@ =~= "\""@ + name@ + "\":"@ + descriptor@);
                    }
                    Ok(out)
                },
                _ => Err(ClassFileError::Resolution { index }),
            },
            Err(e) => Err(e),
        }
    }
}

/// Law of the full round trip: any model obtained by decoding, if the
/// writer accepts it, re-decodes from the writer's output to itself.
pub proof fn lemma_decode_encode_decode(b: Seq<u8>, m: ClassV, trailing: Seq<u8>)
    requires
        sp_class(b) == Some((m, trailing)),
        encodable_class(m),
    ensures
        sp_class(se_class(m)) == Some((m, Seq::<u8>::empty())),
{
    lemma_sp_class_wf(b);
    lemma_rt_class(m);
}

impl ClassFile {
    /// Returns the name of the source file the class was compiled from,
    /// if a SourceFile attribute is present: its 2-byte payload is a
    /// constant-pool index of a Utf8 entry. A payload of the wrong
    /// length, or one whose index does not resolve to a Utf8 entry, is an
    /// error local to this lookup.
    pub fn get_source_file_name(&self) -> (r: Result<Option<String>, ClassFileError>)
        ensures
            crate::attribute::find_first(self@.pool, self@.attributes, "SourceFile"@) is None ==> r
                == Ok::<Option<String>, ClassFileError>(None),
            (match crate::attribute::find_first(self@.pool, self@.attributes, "SourceFile"@) {
                Some(j) => match crate::attribute::attr_two_byte_index(self@.attributes[j]) {
                    Some(idx) => match utf8_at(self@.pool, idx) {
                        Some(s2) => r matches Ok(Some(out)) && out@ == s2,
                        None => r is Err,
                    },
                    None => r is Err,
                },
                None => true,
            }),
            r matches Err(e) ==> e is Resolution,
    {
        match self.attributes.find_attribute(self, "SourceFile") {
            None => Ok(None),
            Some(attr) => {
                if attr.info.len() != 2 {
                    return Err(ClassFileError::Resolution { index: attr.attribute_name_index });
                }
                let idx = (attr.info[0] as u16) * 0x100 + (attr.info[1] as u16);
                match self.get_constant_utf8(idx as usize) {
                    Ok(s) => Ok(Some(s)),
                    Err(e) => Err(e),
                }
            },
        }
    }
}

/// Law of pool slot accounting, at the resolution layer: in a well-formed
/// pool a Long or Double at 1-based index `i + 1` makes the next 1-based
/// index `i + 2` resolve to the EmptySlot sentinel, never to a Utf8 or
/// Class entry.
pub proof fn lemma_skipped_slot_resolution(pool: Seq<CpEntryV>, i: int)
    requires
        pool_wf(pool),
        0 <= i < pool.len(),
        crate::constant_pool::is_wide(pool[i]),
    ensures
        entry_at(pool, i + 2) == Some(CpEntryV::EmptySlot),
        utf8_at(pool, i + 2) is None,
        class_name_at(pool, i + 2) is None,
{
    crate::constant_pool::lemma_pool_slot_accounting(pool, i);
}

} // verus!

//! The constant pool: the tagged constant table of a class file, with the
//! rule that an 8-byte constant (Long or Double) occupies two consecutive
//! index slots, the second materialized as an `ConstantEmptySlot`.

use vstd::prelude::*;

use crate::wire::{
    lemma_rt_bytes, lemma_rt_u16, lemma_rt_u32, lemma_rt_u64, lemma_rt_u8, se_u16, se_u32, se_u64,
    se_u8, sp_bytes, sp_u16, sp_u32, sp_u64, sp_u8,
};

verus! {

/// A 1-based index into the constant pool table.
pub type ConstantPoolIndex = usize;

pub const CONSTANT_TAG_UTF8: u8 = 1;

pub const CONSTANT_TAG_INTEGER: u8 = 3;

pub const CONSTANT_TAG_FLOAT: u8 = 4;

pub const CONSTANT_TAG_LONG: u8 = 5;

pub const CONSTANT_TAG_DOUBLE: u8 = 6;

pub const CONSTANT_TAG_CLASS: u8 = 7;

pub const CONSTANT_TAG_STRING: u8 = 8;

pub const CONSTANT_TAG_FIELDREF: u8 = 9;

pub const CONSTANT_TAG_METHODREF: u8 = 10;

pub const CONSTANT_TAG_INTERFACE_METHODREF: u8 = 11;

pub const CONSTANT_TAG_NAME_AND_TYPE: u8 = 12;

pub const CONSTANT_TAG_METHOD_HANDLE: u8 = 15;

pub const CONSTANT_TAG_METHOD_TYPE: u8 = 16;

pub const CONSTANT_TAG_DYNAMIC: u8 = 17;

pub const CONSTANT_TAG_INVOKE_DYNAMIC: u8 = 18;

pub const CONSTANT_TAG_MODULE: u8 = 19;

pub const CONSTANT_TAG_PACKAGE: u8 = 20;

/// One entry of the constant pool. Every `*_index` field is a 1-based index
/// into the same pool; index 0 is never valid. A Float or Double holds the
/// raw IEEE-754 bit pattern read from the wire, so that the codec itself
/// never computes with floating point.
#[derive(Debug, PartialEq, Eq, Clone)]
pub enum ConstantPoolEntry {
    ConstantUtf8 { string: String },
    ConstantInteger { val: i32 },
    ConstantFloat { bits: u32 },
    ConstantLong { val: i64 },
    ConstantDouble { bits: u64 },
    ConstantClass { name_index: ConstantPoolIndex },
    ConstantString { string_index: ConstantPoolIndex },
    ConstantFieldref { class_index: ConstantPoolIndex, name_and_type_index: ConstantPoolIndex },
    ConstantMethodref { class_index: ConstantPoolIndex, name_and_type_index: ConstantPoolIndex },
    ConstantInterfaceMethodref { class_index: u16, name_and_type_index: u16 },
    ConstantNameAndType { name_index: ConstantPoolIndex, descriptor_index: ConstantPoolIndex },
    ConstantMethodHandle { reference_kind: u8, reference_index: u16 },
    ConstantMethodType { descriptor_index: u16 },
    ConstantDynamic { bootstrap_method_attr_index: u16, name_and_type_index: u16 },
    ConstantInvokeDynamic { bootstrap_method_attr_index: u16, name_and_type_index: u16 },
    ConstantModule { name_index: u16 },
    ConstantPackage { name_index: u16 },
    /// The unusable slot immediately after a Long or Double entry.
    ConstantEmptySlot {},
}

/// The mathematical model of a constant pool entry.
pub enum CpEntryV {
    Utf8 { s: Seq<char> },
    Integer { val: i32 },
    Float { bits: u32 },
    Long { val: i64 },
    Double { bits: u64 },
    Class { name_index: usize },
    StringRef { string_index: usize },
    Fieldref { class_index: usize, name_and_type_index: usize },
    Methodref { class_index: usize, name_and_type_index: usize },
    InterfaceMethodref { class_index: u16, name_and_type_index: u16 },
    NameAndType { name_index: usize, descriptor_index: usize },
    MethodHandle { reference_kind: u8, reference_index: u16 },
    MethodType { descriptor_index: u16 },
    Dynamic { bootstrap_method_attr_index: u16, name_and_type_index: u16 },
    InvokeDynamic { bootstrap_method_attr_index: u16, name_and_type_index: u16 },
    Module { name_index: u16 },
    Package { name_index: u16 },
    EmptySlot,
}

impl View for ConstantPoolEntry {
    type V = CpEntryV;

    open spec fn view(&self) -> CpEntryV {
        match self {
            ConstantPoolEntry::ConstantUtf8 { string } => CpEntryV::Utf8 { s: string@ },
            ConstantPoolEntry::ConstantInteger { val } => CpEntryV::Integer { val: *val },
            ConstantPoolEntry::ConstantFloat { bits } => CpEntryV::Float { bits: *bits },
            ConstantPoolEntry::ConstantLong { val } => CpEntryV::Long { val: *val },
            ConstantPoolEntry::ConstantDouble { bits } => CpEntryV::Double { bits: *bits },
            ConstantPoolEntry::ConstantClass { name_index } => CpEntryV::Class {
                name_index: *name_index,
            },
            ConstantPoolEntry::ConstantString { string_index } => CpEntryV::StringRef {
                string_index: *string_index,
            },
            ConstantPoolEntry::ConstantFieldref { class_index, name_and_type_index } => CpEntryV::Fieldref {
                class_index: *class_index,
                name_and_type_index: *name_and_type_index,
            },
            ConstantPoolEntry::ConstantMethodref { class_index, name_and_type_index } => CpEntryV::Methodref {
                class_index: *class_index,
                name_and_type_index: *name_and_type_index,
            },
            ConstantPoolEntry::ConstantInterfaceMethodref {
                class_index,
                name_and_type_index,
            } => CpEntryV::InterfaceMethodref {
                class_index: *class_index,
                name_and_type_index: *name_and_type_index,
            },
            ConstantPoolEntry::ConstantNameAndType { name_index, descriptor_index } => CpEntryV::NameAndType {
                name_index: *name_index,
                descriptor_index: *descriptor_index,
            },
            ConstantPoolEntry::ConstantMethodHandle {
                reference_kind,
                reference_index,
            } => CpEntryV::MethodHandle {
                reference_kind: *reference_kind,
                reference_index: *reference_index,
            },
            ConstantPoolEntry::ConstantMethodType { descriptor_index } => CpEntryV::MethodType {
                descriptor_index: *descriptor_index,
            },
            ConstantPoolEntry::ConstantDynamic {
                bootstrap_method_attr_index,
                name_and_type_index,
            } => CpEntryV::Dynamic {
                bootstrap_method_attr_index: *bootstrap_method_attr_index,
                name_and_type_index: *name_and_type_index,
            },
            ConstantPoolEntry::ConstantInvokeDynamic {
                bootstrap_method_attr_index,
                name_and_type_index,
            } => CpEntryV::InvokeDynamic {
                bootstrap_method_attr_index: *bootstrap_method_attr_index,
                name_and_type_index: *name_and_type_index,
            },
            ConstantPoolEntry::ConstantModule { name_index } => CpEntryV::Module {
                name_index: *name_index,
            },
            ConstantPoolEntry::ConstantPackage { name_index } => CpEntryV::Package {
                name_index: *name_index,
            },
            ConstantPoolEntry::ConstantEmptySlot {} => CpEntryV::EmptySlot,
        }
    }
}

/// The view of a whole pool.
pub open spec fn pool_view(pool: Seq<ConstantPoolEntry>) -> Seq<CpEntryV> {
    pool.map_values(|e: ConstantPoolEntry| e@)
}

/// The byte-by-byte repair pass of modified UTF-8: every two-byte sequence
/// `C0 80` (the overlong encoding of NUL used by the class file format)
/// becomes the single byte `00`.
pub open spec fn repair_nulls(b: Seq<u8>) -> Seq<u8>
    decreases b.len(),
{
    if b.len() == 0 {
        seq![]
    } else if b.len() >= 2 && b[0] == 0xc0 && b[1] == 0x80 {
        seq![0u8] + repair_nulls(b.skip(2))
    } else {
        seq![b[0]] + repair_nulls(b.skip(1))
    }
}

/// Parse the payload of a Utf8 entry (after its tag byte): a 2-byte length,
/// then that many bytes, decoded strictly; on failure the null-repair pass
/// runs once and the decode is retried.
pub open spec fn sp_utf8_payload(b: Seq<u8>) -> Option<(CpEntryV, Seq<u8>)> {
    match sp_u16(b) {
        None => None,
        Some((n, r)) => match sp_bytes(r, n as int) {
            None => None,
            Some((raw, r2)) => if vstd::utf8::valid_utf8(raw) {
                Some((CpEntryV::Utf8 { s: vstd::utf8::decode_utf8(raw) }, r2))
            } else if vstd::utf8::valid_utf8(repair_nulls(raw)) {
                Some((CpEntryV::Utf8 { s: vstd::utf8::decode_utf8(repair_nulls(raw)) }, r2))
            } else {
                None
            },
        },
    }
}

/// Parse the payload of an entry with a single 2-byte index field.
pub open spec fn sp_one_u16<T>(b: Seq<u8>, make: spec_fn(u16) -> T) -> Option<(T, Seq<u8>)> {
    match sp_u16(b) {
        None => None,
        Some((x, r)) => Some((make(x), r)),
    }
}

/// Parse the payload of an entry with two 2-byte index fields.
pub open spec fn sp_two_u16<T>(b: Seq<u8>, make: spec_fn(u16, u16) -> T) -> Option<(T, Seq<u8>)> {
    match sp_u16(b) {
        None => None,
        Some((x, r)) => match sp_u16(r) {
            None => None,
            Some((y, r2)) => Some((make(x, y), r2)),
        },
    }
}

/// Parse one constant pool entry: a 1-byte tag, then a tag-specific payload.
/// An unknown tag fails the parse. This parser never yields an `EmptySlot`;
/// empty slots exist only in the decoded table, not on the wire.
pub open spec fn sp_entry(b: Seq<u8>) -> Option<(CpEntryV, Seq<u8>)> {
    match sp_u8(b) {
        None => None,
        Some((tag, r)) => {
            if tag == CONSTANT_TAG_UTF8 {
                sp_utf8_payload(r)
            } else if tag == CONSTANT_TAG_INTEGER {
                match sp_u32(r) {
                    None => None,
                    Some((w, r2)) => Some((CpEntryV::Integer { val: w as i32 }, r2)),
                }
            } else if tag == CONSTANT_TAG_FLOAT {
                match sp_u32(r) {
                    None => None,
                    Some((w, r2)) => Some((CpEntryV::Float { bits: w }, r2)),
                }
            } else if tag == CONSTANT_TAG_LONG {
                match sp_u64(r) {
                    None => None,
                    Some((w, r2)) => Some((CpEntryV::Long { val: w as i64 }, r2)),
                }
            } else if tag == CONSTANT_TAG_DOUBLE {
                match sp_u64(r) {
                    None => None,
                    Some((w, r2)) => Some((CpEntryV::Double { bits: w }, r2)),
                }
            } else if tag == CONSTANT_TAG_CLASS {
                sp_one_u16(r, |x: u16| CpEntryV::Class { name_index: x as usize })
            } else if tag == CONSTANT_TAG_STRING {
                sp_one_u16(r, |x: u16| CpEntryV::StringRef { string_index: x as usize })
            } else if tag == CONSTANT_TAG_FIELDREF {
                sp_two_u16(
                    r,
                    |x: u16, y: u16| CpEntryV::Fieldref {
                        class_index: x as usize,
                        name_and_type_index: y as usize,
                    },
                )
            } else if tag == CONSTANT_TAG_METHODREF {
                sp_two_u16(
                    r,
                    |x: u16, y: u16| CpEntryV::Methodref {
                        class_index: x as usize,
                        name_and_type_index: y as usize,
                    },
                )
            } else if tag == CONSTANT_TAG_INTERFACE_METHODREF {
                sp_two_u16(
                    r,
                    |x: u16, y: u16| CpEntryV::InterfaceMethodref {
                        class_index: x,
                        name_and_type_index: y,
                    },
                )
            } else if tag == CONSTANT_TAG_NAME_AND_TYPE {
                sp_two_u16(
                    r,
                    |x: u16, y: u16| CpEntryV::NameAndType {
                        name_index: x as usize,
                        descriptor_index: y as usize,
                    },
                )
            } else if tag == CONSTANT_TAG_METHOD_HANDLE {
                match sp_u8(r) {
                    None => None,
                    Some((kind, r1)) => match sp_u16(r1) {
                        None => None,
                        Some((idx, r2)) => Some(
                            (
                                CpEntryV::MethodHandle {
                                    reference_kind: kind,
                                    reference_index: idx,
                                },
                                r2,
                            ),
                        ),
                    },
                }
            } else if tag == CONSTANT_TAG_METHOD_TYPE {
                sp_one_u16(r, |x: u16| CpEntryV::MethodType { descriptor_index: x })
            } else if tag == CONSTANT_TAG_DYNAMIC {
                sp_two_u16(
                    r,
                    |x: u16, y: u16| CpEntryV::Dynamic {
                        bootstrap_method_attr_index: x,
                        name_and_type_index: y,
                    },
                )
            } else if tag == CONSTANT_TAG_INVOKE_DYNAMIC {
                sp_two_u16(
                    r,
                    |x: u16, y: u16| CpEntryV::InvokeDynamic {
                        bootstrap_method_attr_index: x,
                        name_and_type_index: y,
                    },
                )
            } else if tag == CONSTANT_TAG_MODULE {
                sp_one_u16(r, |x: u16| CpEntryV::Module { name_index: x })
            } else if tag == CONSTANT_TAG_PACKAGE {
                sp_one_u16(r, |x: u16| CpEntryV::Package { name_index: x })
            } else {
                None
            }
        },
    }
}

/// The bytes of one entry: its tag byte, then the tag-specific payload. An
/// `EmptySlot` has no wire form of its own; it is implied by the Long or
/// Double entry before it.
pub open spec fn se_entry(e: CpEntryV) -> Seq<u8> {
    match e {
        CpEntryV::Utf8 { s } => {
            let eb = vstd::utf8::encode_utf8(s);
            se_u8(CONSTANT_TAG_UTF8) + se_u16(eb.len() as u16) + eb
        },
        CpEntryV::Integer { val } => se_u8(CONSTANT_TAG_INTEGER) + se_u32(val as u32),
        CpEntryV::Float { bits } => se_u8(CONSTANT_TAG_FLOAT) + se_u32(bits),
        CpEntryV::Long { val } => se_u8(CONSTANT_TAG_LONG) + se_u64(val as u64),
        CpEntryV::Double { bits } => se_u8(CONSTANT_TAG_DOUBLE) + se_u64(bits),
        CpEntryV::Class { name_index } => se_u8(CONSTANT_TAG_CLASS) + se_u16(name_index as u16),
        CpEntryV::StringRef { string_index } => se_u8(CONSTANT_TAG_STRING) + se_u16(
            string_index as u16,
        ),
        CpEntryV::Fieldref { class_index, name_and_type_index } => se_u8(CONSTANT_TAG_FIELDREF)
            + se_u16(class_index as u16) + se_u16(name_and_type_index as u16),
        CpEntryV::Methodref { class_index, name_and_type_index } => se_u8(CONSTANT_TAG_METHODREF)
            + se_u16(class_index as u16) + se_u16(name_and_type_index as u16),
        CpEntryV::InterfaceMethodref { class_index, name_and_type_index } => se_u8(
            CONSTANT_TAG_INTERFACE_METHODREF,
        ) + se_u16(class_index) + se_u16(name_and_type_index),
        CpEntryV::NameAndType { name_index, descriptor_index } => se_u8(
            CONSTANT_TAG_NAME_AND_TYPE,
        ) + se_u16(name_index as u16) + se_u16(descriptor_index as u16),
        CpEntryV::MethodHandle { reference_kind, reference_index } => se_u8(
            CONSTANT_TAG_METHOD_HANDLE,
        ) + se_u8(reference_kind) + se_u16(reference_index),
        CpEntryV::MethodType { descriptor_index } => se_u8(CONSTANT_TAG_METHOD_TYPE) + se_u16(
            descriptor_index,
        ),
        CpEntryV::Dynamic { bootstrap_method_attr_index, name_and_type_index } => se_u8(
            CONSTANT_TAG_DYNAMIC,
        ) + se_u16(bootstrap_method_attr_index) + se_u16(name_and_type_index),
        CpEntryV::InvokeDynamic { bootstrap_method_attr_index, name_and_type_index } => se_u8(
            CONSTANT_TAG_INVOKE_DYNAMIC,
        ) + se_u16(bootstrap_method_attr_index) + se_u16(name_and_type_index),
        CpEntryV::Module { name_index } => se_u8(CONSTANT_TAG_MODULE) + se_u16(name_index),
        CpEntryV::Package { name_index } => se_u8(CONSTANT_TAG_PACKAGE) + se_u16(name_index),
        CpEntryV::EmptySlot => seq![],
    }
}

/// Whether an entry is an 8-byte constant, which occupies two index slots.
pub open spec fn is_wide(e: CpEntryV) -> bool {
    e is Long || e is Double
}

/// An entry the writer can emit: every constant-pool index field lies in
/// `[1, 65535]`, and a Utf8 string's byte encoding fits its 2-byte length
/// field. (The bootstrap method index of Dynamic and InvokeDynamic is an
/// index into an attribute, not into the pool, and is unconstrained.)
pub open spec fn encodable_entry(e: CpEntryV) -> bool {
    match e {
        CpEntryV::Utf8 { s } => vstd::utf8::encode_utf8(s).len() <= 0xffff,
        CpEntryV::Class { name_index } => 1 <= name_index <= 0xffff,
        CpEntryV::StringRef { string_index } => 1 <= string_index <= 0xffff,
        CpEntryV::Fieldref { class_index, name_and_type_index } => 1 <= class_index <= 0xffff && 1
            <= name_and_type_index <= 0xffff,
        CpEntryV::Methodref { class_index, name_and_type_index } => 1 <= class_index <= 0xffff && 1
            <= name_and_type_index <= 0xffff,
        CpEntryV::InterfaceMethodref { class_index, name_and_type_index } => 1 <= class_index && 1
            <= name_and_type_index,
        CpEntryV::NameAndType { name_index, descriptor_index } => 1 <= name_index <= 0xffff && 1
            <= descriptor_index <= 0xffff,
        CpEntryV::MethodHandle { reference_kind, reference_index } => 1 <= reference_index,
        CpEntryV::MethodType { descriptor_index } => 1 <= descriptor_index,
        CpEntryV::Dynamic { bootstrap_method_attr_index, name_and_type_index } => 1
            <= name_and_type_index,
        CpEntryV::InvokeDynamic { bootstrap_method_attr_index, name_and_type_index } => 1
            <= name_and_type_index,
        CpEntryV::Module { name_index } => 1 <= name_index,
        CpEntryV::Package { name_index } => 1 <= name_index,
        _ => true,
    }
}

/// A well-formed pool shape: every Long or Double is immediately followed by
/// an EmptySlot, and every EmptySlot immediately follows a Long or Double.
/// The decoder produces exactly such tables.
pub open spec fn pool_wf(s: Seq<CpEntryV>) -> bool {
    &&& forall|i: int|
        0 <= i < s.len() && is_wide(#[trigger] s[i]) ==> i + 1 < s.len() && s[i + 1] is EmptySlot
    &&& forall|i: int|
        0 <= i < s.len() && #[trigger] s[i] is EmptySlot ==> 0 < i && is_wide(s[i - 1])
}

/// Parse constant pool entries until `n` index slots are filled: a Long or
/// Double fills two (the second as an EmptySlot appended to the table), any
/// other entry fills one. As in the format, a Long or Double appearing when
/// only one slot remains still fills two.
pub open spec fn sp_cp_items(b: Seq<u8>, n: int) -> Option<(Seq<CpEntryV>, Seq<u8>)>
    decreases n,
{
    if n <= 0 {
        Some((seq![], b))
    } else {
        match sp_entry(b) {
            None => None,
            Some((e, r)) => {
                let slots: int = if is_wide(e) {
                    2
                } else {
                    1
                };
                let group: Seq<CpEntryV> = if is_wide(e) {
                    seq![e, CpEntryV::EmptySlot]
                } else {
                    seq![e]
                };
                // a Long or Double in the last remaining slot still fills two;
                // the remaining count is clamped only to keep the measure non-negative
                let n2: int = if n - slots >= 0 {
                    n - slots
                } else {
                    0
                };
                match sp_cp_items(r, n2) {
                    None => None,
                    Some((s, r2)) => Some((group + s, r2)),
                }
            },
        }
    }
}

/// The bytes of a sequence of pool entries, in order.
pub open spec fn se_cp_entries(s: Seq<CpEntryV>) -> Seq<u8>
    decreases s.len(),
{
    if s.len() == 0 {
        seq![]
    } else {
        se_entry(s[0]) + se_cp_entries(s.skip(1))
    }
}

/// The whole pool on the wire: the declared count, which is one more than
/// the number of index slots, followed by the entries.
pub open spec fn sp_pool(b: Seq<u8>) -> Option<(Seq<CpEntryV>, Seq<u8>)> {
    match sp_u16(b) {
        None => None,
        Some((count, r)) => if count < 1 {
            None
        } else {
            sp_cp_items(r, count - 1)
        },
    }
}

pub open spec fn se_pool(s: Seq<CpEntryV>) -> Seq<u8> {
    se_u16((s.len() + 1) as u16) + se_cp_entries(s)
}

/// A pool the writer can emit: every entry encodable, and the declared
/// count (slots + 1) within its 2-byte field.
pub open spec fn encodable_pool(s: Seq<CpEntryV>) -> bool {
    &&& s.len() + 1 <= 0xffff
    &&& forall|i: int| 0 <= i < s.len() ==> encodable_entry(#[trigger] s[i])
}

/// Parsing the encoding of one (non-empty-slot) entry yields the entry back.
pub proof fn lemma_rt_entry(e: CpEntryV, rest: Seq<u8>)
    requires
        encodable_entry(e),
        !(e is EmptySlot),
    ensures
        sp_entry(se_entry(e) + rest) == Some((e, rest)),
{
    match e {
        CpEntryV::Utf8 { s } => {
            let eb = vstd::utf8::encode_utf8(s);
            vstd::utf8::encode_utf8_valid_utf8(s);
            vstd::utf8::encode_utf8_decode_utf8(s);
            assert(se_entry(e) + rest =~= se_u8(CONSTANT_TAG_UTF8) + (se_u16(eb.len() as u16) + (eb
                + rest)));
            lemma_rt_u8(CONSTANT_TAG_UTF8, se_u16(eb.len() as u16) + (eb + rest));
            lemma_rt_u16(eb.len() as u16, eb + rest);
            lemma_rt_bytes(eb, rest);
        },
        CpEntryV::Integer { val } => {
            assert(se_entry(e) + rest =~= se_u8(CONSTANT_TAG_INTEGER) + (se_u32(val as u32)
                + rest));
            lemma_rt_u8(CONSTANT_TAG_INTEGER, se_u32(val as u32) + rest);
            lemma_rt_u32(val as u32, rest);
            assert((val as u32) as i32 == val) by (bit_vector);
        },
        CpEntryV::Float { bits } => {
            assert(se_entry(e) + rest =~= se_u8(CONSTANT_TAG_FLOAT) + (se_u32(bits) + rest));
            lemma_rt_u8(CONSTANT_TAG_FLOAT, se_u32(bits) + rest);
            lemma_rt_u32(bits, rest);
        },
        CpEntryV::Long { val } => {
            assert(se_entry(e) + rest =~= se_u8(CONSTANT_TAG_LONG) + (se_u64(val as u64) + rest));
            lemma_rt_u8(CONSTANT_TAG_LONG, se_u64(val as u64) + rest);
            lemma_rt_u64(val as u64, rest);
            assert((val as u64) as i64 == val) by (bit_vector);
        },
        CpEntryV::Double { bits } => {
            assert(se_entry(e) + rest =~= se_u8(CONSTANT_TAG_DOUBLE) + (se_u64(bits) + rest));
            lemma_rt_u8(CONSTANT_TAG_DOUBLE, se_u64(bits) + rest);
            lemma_rt_u64(bits, rest);
        },
        CpEntryV::Class { name_index } => {
            lemma_rt_one_u16(CONSTANT_TAG_CLASS, name_index as u16, se_entry(e), rest);
        },
        CpEntryV::StringRef { string_index } => {
            lemma_rt_one_u16(CONSTANT_TAG_STRING, string_index as u16, se_entry(e), rest);
        },
        CpEntryV::Fieldref { class_index, name_and_type_index } => {
            lemma_rt_two_u16(
                CONSTANT_TAG_FIELDREF,
                class_index as u16,
                name_and_type_index as u16,
                se_entry(e),
                rest,
            );
        },
        CpEntryV::Methodref { class_index, name_and_type_index } => {
            lemma_rt_two_u16(
                CONSTANT_TAG_METHODREF,
                class_index as u16,
                name_and_type_index as u16,
                se_entry(e),
                rest,
            );
        },
        CpEntryV::InterfaceMethodref { class_index, name_and_type_index } => {
            lemma_rt_two_u16(
                CONSTANT_TAG_INTERFACE_METHODREF,
                class_index,
                name_and_type_index,
                se_entry(e),
                rest,
            );
        },
        CpEntryV::NameAndType { name_index, descriptor_index } => {
            lemma_rt_two_u16(
                CONSTANT_TAG_NAME_AND_TYPE,
                name_index as u16,
                descriptor_index as u16,
                se_entry(e),
                rest,
            );
        },
        CpEntryV::MethodHandle { reference_kind, reference_index } => {
            assert(se_entry(e) + rest =~= se_u8(CONSTANT_TAG_METHOD_HANDLE) + (se_u8(reference_kind)
                + (se_u16(reference_index) + rest)));
            lemma_rt_u8(
                CONSTANT_TAG_METHOD_HANDLE,
                se_u8(reference_kind) + (se_u16(reference_index) + rest),
            );
            lemma_rt_u8(reference_kind, se_u16(reference_index) + rest);
            lemma_rt_u16(reference_index, rest);
        },
        CpEntryV::MethodType { descriptor_index } => {
            lemma_rt_one_u16(CONSTANT_TAG_METHOD_TYPE, descriptor_index, se_entry(e), rest);
        },
        CpEntryV::Dynamic { bootstrap_method_attr_index, name_and_type_index } => {
            lemma_rt_two_u16(
                CONSTANT_TAG_DYNAMIC,
                bootstrap_method_attr_index,
                name_and_type_index,
                se_entry(e),
                rest,
            );
        },
        CpEntryV::InvokeDynamic { bootstrap_method_attr_index, name_and_type_index } => {
            lemma_rt_two_u16(
                CONSTANT_TAG_INVOKE_DYNAMIC,
                bootstrap_method_attr_index,
                name_and_type_index,
                se_entry(e),
                rest,
            );
        },
        CpEntryV::Module { name_index } => {
            lemma_rt_one_u16(CONSTANT_TAG_MODULE, name_index, se_entry(e), rest);
        },
        CpEntryV::Package { name_index } => {
            lemma_rt_one_u16(CONSTANT_TAG_PACKAGE, name_index, se_entry(e), rest);
        },
        CpEntryV::EmptySlot => {
            assert(false);
        },
    }
}

/// Helper: a tag byte followed by one 16-bit field parses back.
proof fn lemma_rt_one_u16(tag: u8, x: u16, enc: Seq<u8>, rest: Seq<u8>)
    requires
        enc == se_u8(tag) + se_u16(x),
    ensures
        sp_u8(enc + rest) == Some((tag, se_u16(x) + rest)),
        sp_u16(se_u16(x) + rest) == Some((x, rest)),
{
    assert(enc + rest =~= se_u8(tag) + (se_u16(x) + rest));
    lemma_rt_u8(tag, se_u16(x) + rest);
    lemma_rt_u16(x, rest);
}

/// Helper: a tag byte followed by two 16-bit fields parses back.
proof fn lemma_rt_two_u16(tag: u8, x: u16, y: u16, enc: Seq<u8>, rest: Seq<u8>)
    requires
        enc == se_u8(tag) + se_u16(x) + se_u16(y),
    ensures
        sp_u8(enc + rest) == Some((tag, se_u16(x) + (se_u16(y) + rest))),
        sp_u16(se_u16(x) + (se_u16(y) + rest)) == Some((x, se_u16(y) + rest)),
        sp_u16(se_u16(y) + rest) == Some((y, rest)),
{
    assert(enc + rest =~= se_u8(tag) + (se_u16(x) + (se_u16(y) + rest)));
    lemma_rt_u8(tag, se_u16(x) + (se_u16(y) + rest));
    lemma_rt_u16(x, se_u16(y) + rest);
    lemma_rt_u16(y, rest);
}

/// A suffix of a well-formed pool, cut after a whole slot group, is again
/// well-formed.
proof fn lemma_pool_wf_skip(s: Seq<CpEntryV>, k: int)
    requires
        pool_wf(s),
        k == 1 || k == 2,
        k <= s.len(),
        k == 1 ==> !is_wide(s[0]),
        k == 2 ==> is_wide(s[0]),
    ensures
        pool_wf(s.skip(k)),
{
    let t = s.skip(k);
    assert forall|i: int|
        0 <= i < t.len() && is_wide(#[trigger] t[i]) implies i + 1 < t.len() && t[i
        + 1] is EmptySlot by {
        assert(t[i] == s[i + k]);
        assert(t[i + 1] == s[i + k + 1]);
    }
    assert forall|i: int| 0 <= i < t.len() && #[trigger] t[i] is EmptySlot implies 0 < i && is_wide(
        t[i - 1],
    ) by {
        assert(t[i] == s[i + k]);
        if i == 0 {
            assert(is_wide(s[k - 1]));
            if k == 2 {
                assert(s[1] is EmptySlot);
            }
            assert(false);
        } else {
            assert(t[i - 1] == s[i + k - 1]);
        }
    }
}

/// Parsing the encoding of a well-formed, encodable entry sequence with its
/// own slot count yields the sequence back.
#[verifier::rlimit(80)]
pub proof fn lemma_rt_cp_entries(s: Seq<CpEntryV>, rest: Seq<u8>)
    requires
        pool_wf(s),
        forall|i: int| 0 <= i < s.len() ==> encodable_entry(#[trigger] s[i]),
    ensures
        sp_cp_items(se_cp_entries(s) + rest, s.len() as int) == Some((s, rest)),
    decreases s.len(),
{
    if s.len() == 0 {
        assert(se_cp_entries(s) + rest =~= rest);
        assert(s =~= Seq::<CpEntryV>::empty());
    } else {
        let e = s[0];
        assert(!(e is EmptySlot));
        if is_wide(e) {
            assert(s[1] is EmptySlot);
            assert(s.skip(1)[0] == s[1]);
            assert(s.skip(1).len() >= 1);
            assert(se_cp_entries(s.skip(1)) == se_entry(s.skip(1)[0]) + se_cp_entries(
                s.skip(1).skip(1),
            ));
            assert(s.skip(1).skip(1) =~= s.skip(2));
            assert(se_cp_entries(s.skip(1)) =~= se_cp_entries(s.skip(2)));
            lemma_pool_wf_skip(s, 2);
            assert forall|i: int| 0 <= i < s.skip(2).len() implies encodable_entry(
                #[trigger] s.skip(2)[i],
            ) by {
                assert(s.skip(2)[i] == s[i + 2]);
            }
            lemma_rt_cp_entries(s.skip(2), rest);
            lemma_rt_entry(e, se_cp_entries(s.skip(2)) + rest);
            assert(se_cp_entries(s) == se_entry(e) + se_cp_entries(s.skip(2)));
            crate::wire::seq_assoc(se_entry(e), se_cp_entries(s.skip(2)), rest);
            assert(seq![e, CpEntryV::EmptySlot] + s.skip(2) =~= s);
        } else {
            lemma_pool_wf_skip(s, 1);
            assert forall|i: int| 0 <= i < s.skip(1).len() implies encodable_entry(
                #[trigger] s.skip(1)[i],
            ) by {
                assert(s.skip(1)[i] == s[i + 1]);
            }
            lemma_rt_cp_entries(s.skip(1), rest);
            lemma_rt_entry(e, se_cp_entries(s.skip(1)) + rest);
            assert(se_cp_entries(s) == se_entry(e) + se_cp_entries(s.skip(1)));
            crate::wire::seq_assoc(se_entry(e), se_cp_entries(s.skip(1)), rest);
            assert(seq![e] + s.skip(1) =~= s);
        }
    }
}

/// Parsing the encoding of a well-formed, encodable pool (declared count
/// included) yields the pool back.
pub proof fn lemma_rt_pool(s: Seq<CpEntryV>, rest: Seq<u8>)
    requires
        pool_wf(s),
        encodable_pool(s),
    ensures
        sp_pool(se_pool(s) + rest) == Some((s, rest)),
{
    let count = (s.len() + 1) as u16;
    assert(se_pool(s) == se_u16(count) + se_cp_entries(s));
    crate::wire::seq_assoc(se_u16(count), se_cp_entries(s), rest);
    lemma_rt_u16(count, se_cp_entries(s) + rest);
    lemma_rt_cp_entries(s, rest);
}

/// The parser never yields an `EmptySlot` as a standalone entry.
proof fn lemma_sp_entry_not_empty(b: Seq<u8>)
    ensures
        sp_entry(b) matches Some((e, r)) ==> !(e is EmptySlot),
{
}

/// Every table the pool parser yields is well-formed: an EmptySlot appears
/// exactly after each Long or Double.
pub proof fn lemma_sp_cp_items_wf(b: Seq<u8>, n: int)
    ensures
        sp_cp_items(b, n) matches Some((s, r)) ==> pool_wf(s),
    decreases n,
{
    if n <= 0 {
    } else {
        match sp_entry(b) {
            None => {},
            Some((e, r)) => {
                lemma_sp_entry_not_empty(b);
                let slots: int = if is_wide(e) {
                    2
                } else {
                    1
                };
                let group: Seq<CpEntryV> = if is_wide(e) {
                    seq![e, CpEntryV::EmptySlot]
                } else {
                    seq![e]
                };
                let n2: int = if n - slots >= 0 {
                    n - slots
                } else {
                    0
                };
                lemma_sp_cp_items_wf(r, n2);
                match sp_cp_items(r, n2) {
                    None => {},
                    Some((s2, r2)) => {
                        let t = group + s2;
                        assert forall|i: int|
                            0 <= i < t.len() && is_wide(#[trigger] t[i]) implies i + 1 < t.len()
                            && t[i + 1] is EmptySlot by {
                            if i < group.len() {
                                assert(is_wide(e) ==> group.len() == 2 && t[0] == e && t[1]
                                    == CpEntryV::EmptySlot);
                            } else {
                                assert(t[i] == s2[i - group.len()]);
                                assert(s2[i - group.len() + 1] is EmptySlot);
                                assert(t[i + 1] == s2[i - group.len() + 1]);
                            }
                        }
                        assert forall|i: int|
                            0 <= i < t.len() && #[trigger] t[i] is EmptySlot implies 0 < i
                            && is_wide(t[i - 1]) by {
                            if i < group.len() {
                                assert(is_wide(e) ==> group.len() == 2 && t[0] == e && t[1]
                                    == CpEntryV::EmptySlot);
                            } else if i == group.len() {
                                assert(t[i] == s2[0]);
                                assert(false);
                            } else {
                                assert(t[i] == s2[i - group.len()]);
                                assert(is_wide(s2[i - group.len() - 1]));
                                assert(t[i - 1] == s2[i - group.len() - 1]);
                            }
                        }
                    },
                }
            },
        }
    }
}

/// Law of pool slot accounting: in a well-formed pool a Long or Double at
/// slot position `i` is immediately followed by an EmptySlot, so the next
/// addressable 1-based index after `i + 1` is `i + 3`.
pub proof fn lemma_pool_slot_accounting(s: Seq<CpEntryV>, i: int)
    requires
        pool_wf(s),
        0 <= i < s.len(),
        is_wide(s[i]),
    ensures
        i + 1 < s.len(),
        s[i + 1] is EmptySlot,
{
}

} // verus!

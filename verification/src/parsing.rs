//! The executable decoder: reads the wire format out of a byte buffer held
//! in memory, with a cursor position. Every reader is proved against the
//! specification-level parser of the same structure.

use vstd::prelude::*;

use crate::constant_pool::{
    pool_view, repair_nulls, sp_cp_items, sp_entry, sp_pool, sp_utf8_payload, ConstantPoolEntry,
    CpEntryV, CONSTANT_TAG_CLASS, CONSTANT_TAG_DOUBLE, CONSTANT_TAG_DYNAMIC, CONSTANT_TAG_FIELDREF,
    CONSTANT_TAG_FLOAT, CONSTANT_TAG_INTEGER, CONSTANT_TAG_INTERFACE_METHODREF,
    CONSTANT_TAG_INVOKE_DYNAMIC, CONSTANT_TAG_LONG, CONSTANT_TAG_METHODREF,
    CONSTANT_TAG_METHOD_HANDLE, CONSTANT_TAG_METHOD_TYPE, CONSTANT_TAG_MODULE,
    CONSTANT_TAG_NAME_AND_TYPE, CONSTANT_TAG_PACKAGE, CONSTANT_TAG_STRING, CONSTANT_TAG_UTF8,
};
use crate::attribute::{sp_attr, sp_attr_set, sp_attrs, Attribute, AttributeSet, AttributeV};
use crate::class_file::{sp_class, sp_ifaces, ClassFile};
use crate::error::ClassFileError;
use crate::field::{sp_field, sp_fields, Field};
use crate::method::{sp_method, sp_methods, Method};
use crate::wire::{sp_bytes, sp_u16, sp_u32, sp_u64, sp_u8};

verus! {

/// The error for a read of `needed` bytes at `pos` in a buffer of `len`
/// bytes that has too few left.
pub open spec fn truncation_error(pos: usize, needed: u64, len: int) -> ClassFileError {
    ClassFileError::StructuralError {
        offset: pos,
        expected: needed,
        actual: if pos <= len {
            (len - pos) as u64
        } else {
            0
        },
    }
}

/// The number of bytes available at `pos`, as a diagnostic value.
fn bytes_left(bytes: &Vec<u8>, pos: usize) -> (r: u64)
    ensures
        r == (if pos <= bytes@.len() {
            (bytes@.len() - pos) as u64
        } else {
            0
        }),
{
    if pos <= bytes.len() {
        (bytes.len() - pos) as u64
    } else {
        0
    }
}

/// Read one byte at `pos`.
pub fn read_u8(bytes: &Vec<u8>, pos: usize) -> (r: Result<(u8, usize), ClassFileError>)
    ensures
        r is Ok <==> pos + 1 <= bytes@.len(),
        r matches Ok((v, p2)) ==> p2 == pos + 1 && sp_u8(bytes@.skip(pos as int)) == Some(
            (v, bytes@.skip(p2 as int)),
        ),
        r matches Err(e) ==> e == truncation_error(pos, 1, bytes@.len() as int),
{
    if pos < bytes.len() {
        let v = bytes[pos];
        proof {
            assert(bytes@.skip(pos as int)[0] == bytes@[pos as int]);
            assert(bytes@.skip(pos as int).skip(1) =~= bytes@.skip(pos as int + 1));
        }
        Ok((v, pos + 1))
    } else {
        Err(ClassFileError::StructuralError {
            offset: pos,
            expected: 1,
            actual: bytes_left(bytes, pos),
        })
    }
}

/// Read a big-endian 16-bit integer at `pos`.
pub fn read_u16(bytes: &Vec<u8>, pos: usize) -> (r: Result<(u16, usize), ClassFileError>)
    ensures
        r is Ok <==> pos + 2 <= bytes@.len(),
        r matches Ok((v, p2)) ==> p2 == pos + 2 && sp_u16(bytes@.skip(pos as int)) == Some(
            (v, bytes@.skip(p2 as int)),
        ),
        r matches Err(e) ==> e == truncation_error(pos, 2, bytes@.len() as int),
{
    if pos < bytes.len() && bytes.len() - pos >= 2 {
        let hi = bytes[pos];
        let lo = bytes[pos + 1];
        let v = (hi as u16) * 0x100 + (lo as u16);
        proof {
            assert(bytes@.skip(pos as int)[0] == bytes@[pos as int]);
            assert(bytes@.skip(pos as int)[1] == bytes@[pos as int + 1]);
            assert(bytes@.skip(pos as int).skip(2) =~= bytes@.skip(pos as int + 2));
        }
        Ok((v, pos + 2))
    } else {
        Err(ClassFileError::StructuralError {
            offset: pos,
            expected: 2,
            actual: bytes_left(bytes, pos),
        })
    }
}

/// Read a big-endian 32-bit integer at `pos`.
pub fn read_u32(bytes: &Vec<u8>, pos: usize) -> (r: Result<(u32, usize), ClassFileError>)
    ensures
        r is Ok <==> pos + 4 <= bytes@.len(),
        r matches Ok((v, p2)) ==> p2 == pos + 4 && sp_u32(bytes@.skip(pos as int)) == Some(
            (v, bytes@.skip(p2 as int)),
        ),
        r matches Err(e) ==> e == truncation_error(pos, 4, bytes@.len() as int),
{
    if pos < bytes.len() && bytes.len() - pos >= 4 {
        let b0 = bytes[pos];
        let b1 = bytes[pos + 1];
        let b2 = bytes[pos + 2];
        let b3 = bytes[pos + 3];
        let v = (b0 as u32) * 0x100_0000 + (b1 as u32) * 0x1_0000 + (b2 as u32) * 0x100 + (
        b3 as u32);
        proof {
            assert(bytes@.skip(pos as int)[0] == bytes@[pos as int]);
            assert(bytes@.skip(pos as int)[1] == bytes@[pos as int + 1]);
            assert(bytes@.skip(pos as int)[2] == bytes@[pos as int + 2]);
            assert(bytes@.skip(pos as int)[3] == bytes@[pos as int + 3]);
            assert(bytes@.skip(pos as int).skip(4) =~= bytes@.skip(pos as int + 4));
        }
        Ok((v, pos + 4))
    } else {
        Err(ClassFileError::StructuralError {
            offset: pos,
            expected: 4,
            actual: bytes_left(bytes, pos),
        })
    }
}

/// Read a big-endian 64-bit integer at `pos`, as two 32-bit halves.
pub fn read_u64(bytes: &Vec<u8>, pos: usize) -> (r: Result<(u64, usize), ClassFileError>)
    ensures
        r is Ok <==> pos + 8 <= bytes@.len(),
        r matches Ok((v, p2)) ==> p2 == pos + 8 && sp_u64(bytes@.skip(pos as int)) == Some(
            (v, bytes@.skip(p2 as int)),
        ),
        r matches Err(e) ==> e is StructuralError,
{
    let (hi, p1) = match read_u32(bytes, pos) {
        Ok(x) => x,
        Err(e) => {
            return Err(e);
        },
    };
    let (lo, p2) = match read_u32(bytes, p1) {
        Ok(x) => x,
        Err(e) => {
            return Err(e);
        },
    };
    let v = (hi as u64) * 0x1_0000_0000 + (lo as u64);
    Ok((v, p2))
}

/// Read a run of exactly `n` raw bytes at `pos`.
pub fn read_n_bytes(bytes: &Vec<u8>, pos: usize, n: usize) -> (r: Result<
    (Vec<u8>, usize),
    ClassFileError,
>)
    ensures
        r is Ok <==> pos + n <= bytes@.len(),
        r matches Ok((v, p2)) ==> p2 == pos + n && sp_bytes(bytes@.skip(pos as int), n as int)
            == Some((v@, bytes@.skip(p2 as int))),
        r matches Err(e) ==> e == truncation_error(pos, n as u64, bytes@.len() as int),
{
    if pos <= bytes.len() && bytes.len() - pos >= n {
        let mut out: Vec<u8> = Vec::new();
        let mut i: usize = 0;
        proof {
            assert(out@ =~= bytes@.subrange(pos as int, pos as int));
        }
        while i < n
            invariant
                i <= n,
                pos + n <= bytes@.len(),
                bytes@.len() <= usize::MAX,
                out@ == bytes@.subrange(pos as int, pos as int + i as int),
            decreases n - i,
        {
            out.push(bytes[pos + i]);
            proof {
                assert(bytes@.subrange(pos as int, pos as int + i as int + 1) =~= bytes@.subrange(
                    pos as int,
                    pos as int + i as int,
                ).push(bytes@[pos as int + i as int]));
            }
            i += 1;
        }
        proof {
            assert(bytes@.skip(pos as int).take(n as int) =~= bytes@.subrange(
                pos as int,
                pos as int + n as int,
            ));
            assert(bytes@.skip(pos as int).skip(n as int) =~= bytes@.skip(pos as int + n as int));
        }
        Ok((out, pos + n))
    } else {
        Err(ClassFileError::StructuralError {
            offset: pos,
            expected: n as u64,
            actual: bytes_left(bytes, pos),
        })
    }
}

/// Relies on `str::from_utf8`: it accepts exactly the byte sequences that
/// are valid UTF-8 and yields the character sequence they encode.
#[verifier::external_body]
fn utf8_to_string(bytes: &Vec<u8>) -> (r: Option<String>)
    ensures
        r is Some <==> vstd::utf8::valid_utf8(bytes@),
        r matches Some(s) ==> s@ == vstd::utf8::decode_utf8(bytes@),
{
    match core::str::from_utf8(bytes.as_slice()) {
        Ok(s) => Some(s.to_owned()),
        Err(_) => None,
    }
}

/// The modified-UTF-8 repair pass: replace every `C0 80` pair by `00`.
fn repair_null_bytes(b: &Vec<u8>) -> (r: Vec<u8>)
    ensures
        r@ == repair_nulls(b@),
{
    let mut out: Vec<u8> = Vec::new();
    let mut i: usize = 0;
    proof {
        assert(b@.skip(0) =~= b@);
        assert(out@ + repair_nulls(b@) =~= repair_nulls(b@));
    }
    while i < b.len()
        invariant
            i <= b@.len(),
            repair_nulls(b@) == out@ + repair_nulls(b@.skip(i as int)),
        decreases b@.len() - i,
    {
        let ghost pre = out@;
        let ghost tail = b@.skip(i as int);
        proof {
            assert(tail[0] == b@[i as int]);
            if tail.len() >= 2 {
                assert(tail[1] == b@[i as int + 1]);
            }
        }
        if b[i] == 0xc0 && i + 1 < b.len() && b[i + 1] == 0x80 {
            out.push(0u8);
            proof {
                assert(tail.skip(2) =~= b@.skip(i as int + 2));
                assert(repair_nulls(tail) == seq![0u8] + repair_nulls(b@.skip(i as int + 2)));
                assert(pre + (seq![0u8] + repair_nulls(b@.skip(i as int + 2))) =~= out@
                    + repair_nulls(b@.skip(i as int + 2)));
            }
            i += 2;
        } else {
            out.push(b[i]);
            proof {
                assert(tail.skip(1) =~= b@.skip(i as int + 1));
                assert(repair_nulls(tail) == seq![b@[i as int]] + repair_nulls(
                    b@.skip(i as int + 1),
                ));
                assert(pre + (seq![b@[i as int]] + repair_nulls(b@.skip(i as int + 1))) =~= out@
                    + repair_nulls(b@.skip(i as int + 1)));
            }
            i += 1;
        }
    }
    proof {
        assert(b@.skip(b@.len() as int) =~= Seq::<u8>::empty());
        assert(out@ + repair_nulls(Seq::<u8>::empty()) =~= out@);
    }
    out
}

/// Read the payload of a Utf8 constant (after the tag byte): a 2-byte
/// length, that many bytes, a strict decode, and on failure one repair pass
/// followed by a retry; a second failure is an encoding error.
pub fn read_constant_utf8(bytes: &Vec<u8>, pos: usize) -> (r: Result<
    (ConstantPoolEntry, usize),
    ClassFileError,
>)
    ensures
        r is Ok <==> sp_utf8_payload(bytes@.skip(pos as int)) is Some && pos <= bytes@.len(),
        r matches Ok((e, p2)) ==> p2 <= bytes@.len() && sp_utf8_payload(bytes@.skip(pos as int))
            == Some((e@, bytes@.skip(p2 as int))),
        r matches Err(e) ==> e is StructuralError || e is Encoding,
{
    proof {
        if pos > bytes@.len() {
            assert(pos + 2 > bytes@.len());
        }
    }
    let (n, p1) = match read_u16(bytes, pos) {
        Ok(x) => x,
        Err(e) => {
            return Err(e);
        },
    };
    let (raw, p2) = match read_n_bytes(bytes, p1, n as usize) {
        Ok(x) => x,
        Err(e) => {
            return Err(e);
        },
    };
    match utf8_to_string(&raw) {
        Some(s) => Ok((ConstantPoolEntry::ConstantUtf8 { string: s }, p2)),
        None => {
            let repaired = repair_null_bytes(&raw);
            match utf8_to_string(&repaired) {
                Some(s) => Ok((ConstantPoolEntry::ConstantUtf8 { string: s }, p2)),
                None => Err(ClassFileError::Encoding { offset: pos }),
            }
        },
    }
}

/// Read one constant pool entry: a 1-byte tag, then the tag-specific
/// payload. An unknown tag is a fatal error carrying the tag and its offset.
pub fn read_constant_pool_entry(bytes: &Vec<u8>, pos: usize) -> (r: Result<
    (ConstantPoolEntry, usize),
    ClassFileError,
>)
    ensures
        r is Ok <==> sp_entry(bytes@.skip(pos as int)) is Some && pos <= bytes@.len(),
        r matches Ok((e, p2)) ==> p2 <= bytes@.len() && sp_entry(bytes@.skip(pos as int)) == Some(
            (e@, bytes@.skip(p2 as int)),
        ),
        r matches Err(e) ==> e is StructuralError || e is Encoding || e is UnknownTag,
        r matches Err(e) ==> (e matches ClassFileError::UnknownTag { offset, tag } ==> offset == pos && pos < bytes@.len() && bytes@[pos as int] == tag),
{
    proof {
        if pos > bytes@.len() {
            assert(pos + 1 > bytes@.len());
        }
    }
    let (tag, p1) = match read_u8(bytes, pos) {
        Ok(x) => x,
        Err(e) => {
            return Err(e);
        },
    };
    if tag == CONSTANT_TAG_UTF8 {
        read_constant_utf8(bytes, p1)
    } else if tag == CONSTANT_TAG_INTEGER {
        match read_u32(bytes, p1) {
            Ok((w, p2)) => {
                let v: i32 = #[verifier::truncate] (w as i32);
                Ok((ConstantPoolEntry::ConstantInteger { val: v }, p2))
            },
            Err(e) => Err(e),
        }
    } else if tag == CONSTANT_TAG_FLOAT {
        match read_u32(bytes, p1) {
            Ok((w, p2)) => Ok((ConstantPoolEntry::ConstantFloat { bits: w }, p2)),
            Err(e) => Err(e),
        }
    } else if tag == CONSTANT_TAG_LONG {
        match read_u64(bytes, p1) {
            Ok((w, p2)) => {
                let v: i64 = #[verifier::truncate] (w as i64);
                Ok((ConstantPoolEntry::ConstantLong { val: v }, p2))
            },
            Err(e) => Err(e),
        }
    } else if tag == CONSTANT_TAG_DOUBLE {
        match read_u64(bytes, p1) {
            Ok((w, p2)) => Ok((ConstantPoolEntry::ConstantDouble { bits: w }, p2)),
            Err(e) => Err(e),
        }
    } else if tag == CONSTANT_TAG_CLASS {
        match read_u16(bytes, p1) {
            Ok((x, p2)) => Ok((ConstantPoolEntry::ConstantClass { name_index: x as usize }, p2)),
            Err(e) => Err(e),
        }
    } else if tag == CONSTANT_TAG_STRING {
        match read_u16(bytes, p1) {
            Ok((x, p2)) => Ok((ConstantPoolEntry::ConstantString { string_index: x as usize }, p2)),
            Err(e) => Err(e),
        }
    } else if tag == CONSTANT_TAG_FIELDREF {
        match read_two_u16(bytes, p1) {
            Ok((x, y, p2)) => Ok(
                (
                    ConstantPoolEntry::ConstantFieldref {
                        class_index: x as usize,
                        name_and_type_index: y as usize,
                    },
                    p2,
                ),
            ),
            Err(e) => Err(e),
        }
    } else if tag == CONSTANT_TAG_METHODREF {
        match read_two_u16(bytes, p1) {
            Ok((x, y, p2)) => Ok(
                (
                    ConstantPoolEntry::ConstantMethodref {
                        class_index: x as usize,
                        name_and_type_index: y as usize,
                    },
                    p2,
                ),
            ),
            Err(e) => Err(e),
        }
    } else if tag == CONSTANT_TAG_INTERFACE_METHODREF {
        match read_two_u16(bytes, p1) {
            Ok((x, y, p2)) => Ok(
                (
                    ConstantPoolEntry::ConstantInterfaceMethodref {
                        class_index: x,
                        name_and_type_index: y,
                    },
                    p2,
                ),
            ),
            Err(e) => Err(e),
        }
    } else if tag == CONSTANT_TAG_NAME_AND_TYPE {
        match read_two_u16(bytes, p1) {
            Ok((x, y, p2)) => Ok(
                (
                    ConstantPoolEntry::ConstantNameAndType {
                        name_index: x as usize,
                        descriptor_index: y as usize,
                    },
                    p2,
                ),
            ),
            Err(e) => Err(e),
        }
    } else if tag == CONSTANT_TAG_METHOD_HANDLE {
        match read_u8(bytes, p1) {
            Ok((kind, pk)) => match read_u16(bytes, pk) {
                Ok((idx, p2)) => Ok(
                    (
                        ConstantPoolEntry::ConstantMethodHandle {
                            reference_kind: kind,
                            reference_index: idx,
                        },
                        p2,
                    ),
                ),
                Err(e) => Err(e),
            },
            Err(e) => Err(e),
        }
    } else if tag == CONSTANT_TAG_METHOD_TYPE {
        match read_u16(bytes, p1) {
            Ok((x, p2)) => Ok((ConstantPoolEntry::ConstantMethodType { descriptor_index: x }, p2)),
            Err(e) => Err(e),
        }
    } else if tag == CONSTANT_TAG_DYNAMIC {
        match read_two_u16(bytes, p1) {
            Ok((x, y, p2)) => Ok(
                (
                    ConstantPoolEntry::ConstantDynamic {
                        bootstrap_method_attr_index: x,
                        name_and_type_index: y,
                    },
                    p2,
                ),
            ),
            Err(e) => Err(e),
        }
    } else if tag == CONSTANT_TAG_INVOKE_DYNAMIC {
        match read_two_u16(bytes, p1) {
            Ok((x, y, p2)) => Ok(
                (
                    ConstantPoolEntry::ConstantInvokeDynamic {
                        bootstrap_method_attr_index: x,
                        name_and_type_index: y,
                    },
                    p2,
                ),
            ),
            Err(e) => Err(e),
        }
    } else if tag == CONSTANT_TAG_MODULE {
        match read_u16(bytes, p1) {
            Ok((x, p2)) => Ok((ConstantPoolEntry::ConstantModule { name_index: x }, p2)),
            Err(e) => Err(e),
        }
    } else if tag == CONSTANT_TAG_PACKAGE {
        match read_u16(bytes, p1) {
            Ok((x, p2)) => Ok((ConstantPoolEntry::ConstantPackage { name_index: x }, p2)),
            Err(e) => Err(e),
        }
    } else {
        Err(ClassFileError::UnknownTag { offset: pos, tag })
    }
}

/// Read two consecutive big-endian 16-bit integers.
fn read_two_u16(bytes: &Vec<u8>, pos: usize) -> (r: Result<(u16, u16, usize), ClassFileError>)
    ensures
        r is Ok <==> pos + 4 <= bytes@.len(),
        r matches Ok((x, y, p2)) ==> p2 == pos + 4 && (match sp_u16(bytes@.skip(pos as int)) {
            Some((x1, rr)) => x1 == x && sp_u16(rr) == Some((y, bytes@.skip(p2 as int))),
            None => false,
        }),
        r matches Err(e) ==> e is StructuralError,
{
    let (x, p1) = match read_u16(bytes, pos) {
        Ok(v) => v,
        Err(e) => {
            return Err(e);
        },
    };
    let (y, p2) = match read_u16(bytes, p1) {
        Ok(v) => v,
        Err(e) => {
            return Err(e);
        },
    };
    Ok((x, y, p2))
}

/// Read the whole constant pool: the declared count, then entries until
/// count - 1 index slots are filled, a Long or Double filling two (the
/// second as an EmptySlot appended to the table).
pub fn read_constant_pool(bytes: &Vec<u8>, pos: usize) -> (r: Result<
    (Vec<ConstantPoolEntry>, usize),
    ClassFileError,
>)
    ensures
        r is Ok <==> sp_pool(bytes@.skip(pos as int)) is Some && pos <= bytes@.len(),
        r matches Ok((pool, p2)) ==> p2 <= bytes@.len() && sp_pool(bytes@.skip(pos as int)) == Some(
            (pool_view(pool@), bytes@.skip(p2 as int)),
        ),
        r matches Err(e) ==> e is StructuralError || e is Encoding || e is UnknownTag,
{
    proof {
        if pos > bytes@.len() {
            assert(pos + 2 > bytes@.len());
        }
    }
    let (count, p1) = match read_u16(bytes, pos) {
        Ok(x) => x,
        Err(e) => {
            return Err(e);
        },
    };
    if count < 1 {
        return Err(ClassFileError::StructuralError {
            offset: pos,
            expected: 1,
            actual: count as u64,
        });
    }
    let slots: usize = (count - 1) as usize;
    let mut pool: Vec<ConstantPoolEntry> = Vec::new();
    let mut idx: usize = 0;
    let mut cur: usize = p1;
    proof {
        assert(pool_view(pool@) =~= Seq::<CpEntryV>::empty());
        assert(sp_pool(bytes@.skip(pos as int)) == sp_cp_items(
            bytes@.skip(p1 as int),
            slots as int,
        ));
    }
    while idx < slots
        invariant
            idx <= slots + 1,
            slots <= 0xfffe,
            pos + 2 <= bytes@.len(),
            cur <= bytes@.len(),
            sp_pool(bytes@.skip(pos as int)) == sp_cp_items(bytes@.skip(p1 as int), slots as int),
            sp_cp_items(bytes@.skip(p1 as int), slots as int) is Some <==> sp_cp_items(
                bytes@.skip(cur as int),
                slots - idx,
            ) is Some,
            sp_cp_items(bytes@.skip(cur as int), slots - idx) matches Some((s, rr)) ==> sp_cp_items(
                bytes@.skip(p1 as int),
                slots as int,
            ) == Some((pool_view(pool@) + s, rr)),
        decreases slots + 2 - idx,
    {
        let ghost n_old: int = slots - idx;
        let entry = match read_constant_pool_entry(bytes, cur) {
            Ok(x) => x,
            Err(e) => {
                proof {
                    assert(sp_entry(bytes@.skip(cur as int)) is None);
                    assert(sp_cp_items(bytes@.skip(cur as int), n_old) is None);
                    assert(sp_cp_items(bytes@.skip(p1 as int), slots as int) is None);
                }
                return Err(e);
            },
        };
        let (e, p2) = entry;
        let ghost pv_old = pool_view(pool@);
        let ghost ev = e@;
        let wide = match &e {
            ConstantPoolEntry::ConstantLong { .. } => true,
            ConstantPoolEntry::ConstantDouble { .. } => true,
            _ => false,
        };
        proof {
            assert(wide == crate::constant_pool::is_wide(ev));
        }
        pool.push(e);
        if wide {
            pool.push(ConstantPoolEntry::ConstantEmptySlot {});
            proof {
                assert(pool_view(pool@) =~= pv_old + seq![ev, CpEntryV::EmptySlot]);
            }
            idx = idx + 2;
        } else {
            proof {
                assert(pool_view(pool@) =~= pv_old + seq![ev]);
            }
            idx = idx + 1;
        }
        proof {
            let group: Seq<CpEntryV> = if crate::constant_pool::is_wide(ev) {
                seq![ev, CpEntryV::EmptySlot]
            } else {
                seq![ev]
            };
            let n2: int = if n_old - group.len() >= 0 {
                n_old - group.len()
            } else {
                0
            };
            assert(sp_cp_items(bytes@.skip(cur as int), n_old) == (
            match sp_cp_items(bytes@.skip(p2 as int), n2) {
                None => None,
                Some((s2, r2)) => Some((group + s2, r2)),
            }));
            if slots - idx < 0 {
                assert(sp_cp_items(bytes@.skip(p2 as int), slots - idx) == sp_cp_items(
                    bytes@.skip(p2 as int),
                    n2,
                ));
            }
            match sp_cp_items(bytes@.skip(p2 as int), n2) {
                None => {},
                Some((s2, r2)) => {
                    assert(pv_old + (group + s2) =~= pool_view(pool@) + s2);
                },
            }
        }
        cur = p2;
    }
    proof {
        assert(sp_cp_items(bytes@.skip(cur as int), slots - idx) == Some(
            (Seq::<CpEntryV>::empty(), bytes@.skip(cur as int)),
        ));
        assert(pool_view(pool@) + Seq::<CpEntryV>::empty() =~= pool_view(pool@));
    }
    Ok((pool, cur))
}

/// Read a constant-pool index: a 2-byte value widened to the index type.
pub fn read_cp_index(bytes: &Vec<u8>, pos: usize) -> (r: Result<
    (crate::constant_pool::ConstantPoolIndex, usize),
    ClassFileError,
>)
    ensures
        r is Ok <==> pos + 2 <= bytes@.len(),
        r matches Ok((v, p2)) ==> p2 == pos + 2 && (match sp_u16(bytes@.skip(pos as int)) {
            Some((x, rr)) => v == x as usize && rr == bytes@.skip(p2 as int),
            None => false,
        }),
        r matches Err(e) ==> e is StructuralError,
{
    match read_u16(bytes, pos) {
        Ok((x, p2)) => Ok((x as usize, p2)),
        Err(e) => Err(e),
    }
}

/// Read one attribute: name index, 4-byte payload length, opaque payload.
pub fn read_attribute(bytes: &Vec<u8>, pos: usize) -> (r: Result<
    (Attribute, usize),
    ClassFileError,
>)
    ensures
        r is Ok <==> sp_attr(bytes@.skip(pos as int)) is Some && pos <= bytes@.len(),
        r matches Ok((a, p2)) ==> p2 <= bytes@.len() && sp_attr(bytes@.skip(pos as int)) == Some(
            (a@, bytes@.skip(p2 as int)),
        ),
        r matches Err(e) ==> e is StructuralError,
{
    proof {
        if pos > bytes@.len() {
            assert(pos + 2 > bytes@.len());
        }
    }
    let (ni, p1) = match read_u16(bytes, pos) {
        Ok(x) => x,
        Err(e) => {
            return Err(e);
        },
    };
    let (len, p2) = match read_u32(bytes, p1) {
        Ok(x) => x,
        Err(e) => {
            return Err(e);
        },
    };
    let (info, p3) = match read_n_bytes(bytes, p2, len as usize) {
        Ok(x) => x,
        Err(e) => {
            return Err(e);
        },
    };
    Ok((Attribute { attribute_name_index: ni as usize, info }, p3))
}

/// Read an attribute set: a 2-byte count, then that many attributes.
pub fn read_attributes(bytes: &Vec<u8>, pos: usize) -> (r: Result<
    (AttributeSet, usize),
    ClassFileError,
>)
    ensures
        r is Ok <==> sp_attr_set(bytes@.skip(pos as int)) is Some && pos <= bytes@.len(),
        r matches Ok((a, p2)) ==> p2 <= bytes@.len() && sp_attr_set(bytes@.skip(pos as int))
            == Some((a@, bytes@.skip(p2 as int))),
        r matches Err(e) ==> e is StructuralError,
{
    proof {
        if pos > bytes@.len() {
            assert(pos + 2 > bytes@.len());
        }
    }
    let (count, p1) = match read_u16(bytes, pos) {
        Ok(x) => x,
        Err(e) => {
            return Err(e);
        },
    };
    let mut attrs: Vec<Attribute> = Vec::new();
    let mut i: usize = 0;
    let mut cur: usize = p1;
    let ghost whole = sp_attrs(bytes@.skip(p1 as int), count as int);
    proof {
        assert(attrs@.map_values(|a: Attribute| a@) =~= Seq::<AttributeV>::empty());
    }
    while i < count as usize
        invariant
            i <= count,
            cur <= bytes@.len(),
            pos + 2 <= bytes@.len(),
            whole == sp_attrs(bytes@.skip(p1 as int), count as int),
            sp_attr_set(bytes@.skip(pos as int)) == whole,
            whole is Some <==> sp_attrs(bytes@.skip(cur as int), count - i) is Some,
            sp_attrs(bytes@.skip(cur as int), count - i) matches Some((s, rr)) ==> whole == Some(
                (attrs@.map_values(|a: Attribute| a@) + s, rr),
            ),
        decreases count - i,
    {
        let ghost n_old: int = count - i;
        let entry = match read_attribute(bytes, cur) {
            Ok(x) => x,
            Err(e) => {
                proof {
                    assert(sp_attr(bytes@.skip(cur as int)) is None);
                    assert(sp_attrs(bytes@.skip(cur as int), n_old) is None);
                }
                return Err(e);
            },
        };
        let (a, p2) = entry;
        let ghost pv_old = attrs@.map_values(|a: Attribute| a@);
        let ghost av = a@;
        attrs.push(a);
        proof {
            assert(attrs@.map_values(|a: Attribute| a@) =~= pv_old + seq![av]);
            assert(sp_attrs(bytes@.skip(cur as int), n_old) == (
            match sp_attrs(bytes@.skip(p2 as int), n_old - 1) {
                None => None,
                Some((s2, r2)) => Some((seq![av] + s2, r2)),
            }));
            match sp_attrs(bytes@.skip(p2 as int), n_old - 1) {
                None => {},
                Some((s2, r2)) => {
                    assert(pv_old + (seq![av] + s2) =~= (pv_old + seq![av]) + s2);
                },
            }
        }
        cur = p2;
        i += 1;
    }
    proof {
        assert(sp_attrs(bytes@.skip(cur as int), 0) == Some(
            (Seq::<AttributeV>::empty(), bytes@.skip(cur as int)),
        ));
        assert(attrs@.map_values(|a: Attribute| a@) + Seq::<AttributeV>::empty() =~= attrs@.map_values(
            |a: Attribute| a@,
        ));
    }
    Ok((AttributeSet { attributes: attrs }, cur))
}

/// Read the interface list: a 2-byte count, then that many indices.
pub fn read_interfaces(bytes: &Vec<u8>, pos: usize) -> (r: Result<
    (Vec<crate::constant_pool::ConstantPoolIndex>, usize),
    ClassFileError,
>)
    ensures
        r is Ok <==> (match sp_u16(bytes@.skip(pos as int)) {
            Some((count, rr)) => sp_ifaces(rr, count as int) is Some,
            None => false,
        }) && pos <= bytes@.len(),
        r matches Ok((v, p2)) ==> p2 <= bytes@.len() && (match sp_u16(bytes@.skip(pos as int)) {
            Some((count, rr)) => sp_ifaces(rr, count as int) == Some(
                (v@, bytes@.skip(p2 as int)),
            ),
            None => false,
        }),
        r matches Err(e) ==> e is StructuralError,
{
    proof {
        if pos > bytes@.len() {
            assert(pos + 2 > bytes@.len());
        }
    }
    let (count, p1) = match read_u16(bytes, pos) {
        Ok(x) => x,
        Err(e) => {
            return Err(e);
        },
    };
    let mut out: Vec<crate::constant_pool::ConstantPoolIndex> = Vec::new();
    let mut i: usize = 0;
    let mut cur: usize = p1;
    let ghost whole = sp_ifaces(bytes@.skip(p1 as int), count as int);
    proof {
        assert(out@ =~= Seq::<usize>::empty());
    }
    while i < count as usize
        invariant
            i <= count,
            cur <= bytes@.len(),
            pos + 2 <= bytes@.len(),
            sp_u16(bytes@.skip(pos as int)) == Some((count, bytes@.skip(p1 as int))),
            whole == sp_ifaces(bytes@.skip(p1 as int), count as int),
            whole is Some <==> sp_ifaces(bytes@.skip(cur as int), count - i) is Some,
            sp_ifaces(bytes@.skip(cur as int), count - i) matches Some((s, rr)) ==> whole == Some(
                (out@ + s, rr),
            ),
        decreases count - i,
    {
        let ghost n_old: int = count - i;
        let entry = match read_u16(bytes, cur) {
            Ok(x) => x,
            Err(e) => {
                proof {
                    assert(sp_u16(bytes@.skip(cur as int)) is None);
                    assert(sp_ifaces(bytes@.skip(cur as int), n_old) is None);
                }
                return Err(e);
            },
        };
        let (x, p2) = entry;
        let ghost pv_old = out@;
        out.push(x as usize);
        proof {
            assert(out@ =~= pv_old + seq![x as usize]);
            match sp_ifaces(bytes@.skip(p2 as int), n_old - 1) {
                None => {},
                Some((s2, r2)) => {
                    assert(pv_old + (seq![x as usize] + s2) =~= (pv_old + seq![x as usize]) + s2);
                },
            }
        }
        cur = p2;
        i += 1;
    }
    proof {
        assert(sp_ifaces(bytes@.skip(cur as int), 0) == Some(
            (Seq::<usize>::empty(), bytes@.skip(cur as int)),
        ));
        assert(out@ + Seq::<usize>::empty() =~= out@);
    }
    Ok((out, cur))
}

/// Read one field record.
pub fn read_field(bytes: &Vec<u8>, pos: usize) -> (r: Result<(Field, usize), ClassFileError>)
    ensures
        r is Ok <==> sp_field(bytes@.skip(pos as int)) is Some && pos <= bytes@.len(),
        r matches Ok((f, p2)) ==> p2 <= bytes@.len() && sp_field(bytes@.skip(pos as int)) == Some(
            (f@, bytes@.skip(p2 as int)),
        ),
        r matches Err(e) ==> e is StructuralError,
{
    proof {
        if pos > bytes@.len() {
            assert(pos + 2 > bytes@.len());
        }
    }
    let (flags, p1) = match read_u16(bytes, pos) {
        Ok(x) => x,
        Err(e) => {
            return Err(e);
        },
    };
    let (ni, p2) = match read_u16(bytes, p1) {
        Ok(x) => x,
        Err(e) => {
            return Err(e);
        },
    };
    let (di, p3) = match read_u16(bytes, p2) {
        Ok(x) => x,
        Err(e) => {
            return Err(e);
        },
    };
    let (attrs, p4) = match read_attributes(bytes, p3) {
        Ok(x) => x,
        Err(e) => {
            return Err(e);
        },
    };
    let access = match crate::field_access::FieldAccess::from_access_flags(flags) {
        Ok(v) => v,
        Err(_) => {
            proof {
                assert(false);
            }
            return Err(ClassFileError::Encoding { offset: pos });
        },
    };
    Ok(
        (
            Field {
                access_flags: access,
                name_index: ni as usize,
                descriptor_index: di as usize,
                attributes: attrs,
            },
            p4,
        ),
    )
}

/// Read the field list: a 2-byte count, then that many records.
pub fn read_fields(bytes: &Vec<u8>, pos: usize) -> (r: Result<(Vec<Field>, usize), ClassFileError>)
    ensures
        r is Ok <==> (match sp_u16(bytes@.skip(pos as int)) {
            Some((count, rr)) => sp_fields(rr, count as int) is Some,
            None => false,
        }) && pos <= bytes@.len(),
        r matches Ok((v, p2)) ==> p2 <= bytes@.len() && (match sp_u16(bytes@.skip(pos as int)) {
            Some((count, rr)) => sp_fields(rr, count as int) == Some(
                (v@.map_values(|f: Field| f@), bytes@.skip(p2 as int)),
            ),
            None => false,
        }),
        r matches Err(e) ==> e is StructuralError,
{
    proof {
        if pos > bytes@.len() {
            assert(pos + 2 > bytes@.len());
        }
    }
    let (count, p1) = match read_u16(bytes, pos) {
        Ok(x) => x,
        Err(e) => {
            return Err(e);
        },
    };
    let mut out: Vec<Field> = Vec::new();
    let mut i: usize = 0;
    let mut cur: usize = p1;
    let ghost whole = sp_fields(bytes@.skip(p1 as int), count as int);
    proof {
        assert(out@.map_values(|f: Field| f@) =~= Seq::<crate::field::FieldV>::empty());
    }
    while i < count as usize
        invariant
            i <= count,
            cur <= bytes@.len(),
            pos + 2 <= bytes@.len(),
            sp_u16(bytes@.skip(pos as int)) == Some((count, bytes@.skip(p1 as int))),
            whole == sp_fields(bytes@.skip(p1 as int), count as int),
            whole is Some <==> sp_fields(bytes@.skip(cur as int), count - i) is Some,
            sp_fields(bytes@.skip(cur as int), count - i) matches Some((s, rr)) ==> whole == Some(
                (out@.map_values(|f: Field| f@) + s, rr),
            ),
        decreases count - i,
    {
        let ghost n_old: int = count - i;
        let entry = match read_field(bytes, cur) {
            Ok(x) => x,
            Err(e) => {
                proof {
                    assert(sp_field(bytes@.skip(cur as int)) is None);
                    assert(sp_fields(bytes@.skip(cur as int), n_old) is None);
                }
                return Err(e);
            },
        };
        let (f, p2) = entry;
        let ghost pv_old = out@.map_values(|f: Field| f@);
        let ghost fv = f@;
        out.push(f);
        proof {
            assert(out@.map_values(|f: Field| f@) =~= pv_old + seq![fv]);
            match sp_fields(bytes@.skip(p2 as int), n_old - 1) {
                None => {},
                Some((s2, r2)) => {
                    assert(pv_old + (seq![fv] + s2) =~= (pv_old + seq![fv]) + s2);
                },
            }
        }
        cur = p2;
        i += 1;
    }
    proof {
        assert(sp_fields(bytes@.skip(cur as int), 0) == Some(
            (Seq::<crate::field::FieldV>::empty(), bytes@.skip(cur as int)),
        ));
        assert(out@.map_values(|f: Field| f@) + Seq::<crate::field::FieldV>::empty()
            =~= out@.map_values(|f: Field| f@));
    }
    Ok((out, cur))
}

/// Read one method record.
pub fn read_method(bytes: &Vec<u8>, pos: usize) -> (r: Result<(Method, usize), ClassFileError>)
    ensures
        r is Ok <==> sp_method(bytes@.skip(pos as int)) is Some && pos <= bytes@.len(),
        r matches Ok((m, p2)) ==> p2 <= bytes@.len() && sp_method(bytes@.skip(pos as int)) == Some(
            (m@, bytes@.skip(p2 as int)),
        ),
        r matches Err(e) ==> e is StructuralError,
{
    proof {
        if pos > bytes@.len() {
            assert(pos + 2 > bytes@.len());
        }
    }
    let (flags, p1) = match read_u16(bytes, pos) {
        Ok(x) => x,
        Err(e) => {
            return Err(e);
        },
    };
    let (ni, p2) = match read_u16(bytes, p1) {
        Ok(x) => x,
        Err(e) => {
            return Err(e);
        },
    };
    let (di, p3) = match read_u16(bytes, p2) {
        Ok(x) => x,
        Err(e) => {
            return Err(e);
        },
    };
    let (attrs, p4) = match read_attributes(bytes, p3) {
        Ok(x) => x,
        Err(e) => {
            return Err(e);
        },
    };
    Ok(
        (
            Method {
                access_flags: flags,
                name_index: ni as usize,
                descriptor_index: di as usize,
                attributes: attrs,
            },
            p4,
        ),
    )
}

/// Read the method list: a 2-byte count, then that many records.
pub fn read_methods(bytes: &Vec<u8>, pos: usize) -> (r: Result<
    (Vec<Method>, usize),
    ClassFileError,
>)
    ensures
        r is Ok <==> (match sp_u16(bytes@.skip(pos as int)) {
            Some((count, rr)) => sp_methods(rr, count as int) is Some,
            None => false,
        }) && pos <= bytes@.len(),
        r matches Ok((v, p2)) ==> p2 <= bytes@.len() && (match sp_u16(bytes@.skip(pos as int)) {
            Some((count, rr)) => sp_methods(rr, count as int) == Some(
                (v@.map_values(|m: Method| m@), bytes@.skip(p2 as int)),
            ),
            None => false,
        }),
        r matches Err(e) ==> e is StructuralError,
{
    proof {
        if pos > bytes@.len() {
            assert(pos + 2 > bytes@.len());
        }
    }
    let (count, p1) = match read_u16(bytes, pos) {
        Ok(x) => x,
        Err(e) => {
            return Err(e);
        },
    };
    let mut out: Vec<Method> = Vec::new();
    let mut i: usize = 0;
    let mut cur: usize = p1;
    let ghost whole = sp_methods(bytes@.skip(p1 as int), count as int);
    proof {
        assert(out@.map_values(|m: Method| m@) =~= Seq::<crate::method::MethodV>::empty());
    }
    while i < count as usize
        invariant
            i <= count,
            cur <= bytes@.len(),
            pos + 2 <= bytes@.len(),
            sp_u16(bytes@.skip(pos as int)) == Some((count, bytes@.skip(p1 as int))),
            whole == sp_methods(bytes@.skip(p1 as int), count as int),
            whole is Some <==> sp_methods(bytes@.skip(cur as int), count - i) is Some,
            sp_methods(bytes@.skip(cur as int), count - i) matches Some((s, rr)) ==> whole == Some(
                (out@.map_values(|m: Method| m@) + s, rr),
            ),
        decreases count - i,
    {
        let ghost n_old: int = count - i;
        let entry = match read_method(bytes, cur) {
            Ok(x) => x,
            Err(e) => {
                proof {
                    assert(sp_method(bytes@.skip(cur as int)) is None);
                    assert(sp_methods(bytes@.skip(cur as int), n_old) is None);
                }
                return Err(e);
            },
        };
        let (m, p2) = entry;
        let ghost pv_old = out@.map_values(|m: Method| m@);
        let ghost mv = m@;
        out.push(m);
        proof {
            assert(out@.map_values(|m: Method| m@) =~= pv_old + seq![mv]);
            match sp_methods(bytes@.skip(p2 as int), n_old - 1) {
                None => {},
                Some((s2, r2)) => {
                    assert(pv_old + (seq![mv] + s2) =~= (pv_old + seq![mv]) + s2);
                },
            }
        }
        cur = p2;
        i += 1;
    }
    proof {
        assert(sp_methods(bytes@.skip(cur as int), 0) == Some(
            (Seq::<crate::method::MethodV>::empty(), bytes@.skip(cur as int)),
        ));
        assert(out@.map_values(|m: Method| m@) + Seq::<crate::method::MethodV>::empty()
            =~= out@.map_values(|m: Method| m@));
    }
    Ok((out, cur))
}

/// Decode a whole class file from a byte buffer. A 4-byte prefix other
/// than the magic value fails with a structural error carrying the actual
/// value seen, before anything further is read. Trailing bytes after the
/// top-level attribute set are ignored, as the format leaves them to the
/// enclosing container.
pub fn read_class_file(bytes: &Vec<u8>) -> (r: Result<ClassFile, ClassFileError>)
    ensures
        r is Ok <==> sp_class(bytes@) is Some,
        r matches Ok(cf) ==> (sp_class(bytes@) matches Some((m, trailing)) && m == cf@)
            && crate::class_file::wf_class(cf@),
        r matches Err(e) ==> e is StructuralError || e is Encoding || e is UnknownTag,
        sp_u32(bytes@) is Some && sp_u32(bytes@).unwrap().0 != crate::class_file::EXPECTED_MAGIC
            ==> r == Err::<ClassFile, ClassFileError>(
            ClassFileError::StructuralError {
                offset: 0,
                expected: crate::class_file::EXPECTED_MAGIC as u64,
                actual: sp_u32(bytes@).unwrap().0 as u64,
            },
        ),
{
    proof {
        assert(bytes@.skip(0) =~= bytes@);
    }
    let (magic, p0) = match read_u32(bytes, 0) {
        Ok(x) => x,
        Err(e) => {
            return Err(e);
        },
    };
    if magic != crate::class_file::EXPECTED_MAGIC {
        return Err(ClassFileError::StructuralError {
            offset: 0,
            expected: crate::class_file::EXPECTED_MAGIC as u64,
            actual: magic as u64,
        });
    }
    let (minor_version, p1) = match read_u16(bytes, p0) {
        Ok(x) => x,
        Err(e) => {
            return Err(e);
        },
    };
    let (major_version, p2) = match read_u16(bytes, p1) {
        Ok(x) => x,
        Err(e) => {
            return Err(e);
        },
    };
    let (constant_pool, p3) = match read_constant_pool(bytes, p2) {
        Ok(x) => x,
        Err(e) => {
            return Err(e);
        },
    };
    let (flags, p4) = match read_u16(bytes, p3) {
        Ok(x) => x,
        Err(e) => {
            return Err(e);
        },
    };
    let (this_class, p5) = match read_cp_index(bytes, p4) {
        Ok(x) => x,
        Err(e) => {
            return Err(e);
        },
    };
    let (super_class, p6) = match read_cp_index(bytes, p5) {
        Ok(x) => x,
        Err(e) => {
            return Err(e);
        },
    };
    let (interfaces, p7) = match read_interfaces(bytes, p6) {
        Ok(x) => x,
        Err(e) => {
            return Err(e);
        },
    };
    let (fields, p8) = match read_fields(bytes, p7) {
        Ok(x) => x,
        Err(e) => {
            return Err(e);
        },
    };
    let (methods, p9) = match read_methods(bytes, p8) {
        Ok(x) => x,
        Err(e) => {
            return Err(e);
        },
    };
    let (attributes, p10) = match read_attributes(bytes, p9) {
        Ok(x) => x,
        Err(e) => {
            return Err(e);
        },
    };
    let access_flags = match crate::class_access::ClassAccess::from_access_flags(flags) {
        Ok(v) => v,
        Err(_) => {
            proof {
                assert(false);
            }
            return Err(ClassFileError::Encoding { offset: 0 });
        },
    };
    let class_file = ClassFile {
        minor_version,
        major_version,
        constant_pool,
        access_flags,
        this_class,
        super_class,
        interfaces,
        fields,
        methods,
        attributes,
    };
    proof {
        crate::class_file::lemma_sp_class_wf(bytes@);
    }
    Ok(class_file)
}

} // verus!

//! The executable encoder: walks the in-memory model and emits the wire
//! format into a byte buffer. Every writer is proved to append exactly the
//! bytes of the specification-level encoder of the same structure, and to
//! succeed exactly on encodable models.

use vstd::prelude::*;
use vstd::string::StrSliceExecFns;

use crate::attribute::{
    encodable_attr, encodable_attr_set, se_attr, se_attr_set, se_attrs, Attribute, AttributeSet,
};
use crate::class_access::ClassAccess;
use crate::class_file::{encodable_class, se_class, se_ifaces, ClassFile};
use crate::constant_pool::{
    encodable_entry, encodable_pool, pool_view, se_cp_entries, se_entry, se_pool,
    ConstantPoolEntry, ConstantPoolIndex, CONSTANT_TAG_CLASS, CONSTANT_TAG_DOUBLE,
    CONSTANT_TAG_DYNAMIC, CONSTANT_TAG_FIELDREF, CONSTANT_TAG_FLOAT, CONSTANT_TAG_INTEGER,
    CONSTANT_TAG_INTERFACE_METHODREF, CONSTANT_TAG_INVOKE_DYNAMIC, CONSTANT_TAG_LONG,
    CONSTANT_TAG_METHODREF, CONSTANT_TAG_METHOD_HANDLE, CONSTANT_TAG_METHOD_TYPE,
    CONSTANT_TAG_MODULE, CONSTANT_TAG_NAME_AND_TYPE, CONSTANT_TAG_PACKAGE, CONSTANT_TAG_STRING,
    CONSTANT_TAG_UTF8,
};
use crate::error::ClassFileError;
use crate::field::{encodable_field, se_field, se_fields, Field};
use crate::method::{encodable_method, se_method, se_methods, Method};
use crate::wire::{se_u16, se_u32, se_u64, se_u8, seq_assoc};

verus! {

/// Append one byte.
pub fn write_u8(out: &mut Vec<u8>, value: u8)
    ensures
        final(out)@ == old(out)@ + se_u8(value),
{
    out.push(value);
    proof {
        assert(final(out)@ =~= old(out)@ + se_u8(value));
    }
}

/// Append a big-endian 16-bit integer.
pub fn write_u16(out: &mut Vec<u8>, value: u16)
    ensures
        final(out)@ == old(out)@ + se_u16(value),
{
    out.push((value / 0x100) as u8);
    out.push((value % 0x100) as u8);
    proof {
        assert(final(out)@ =~= old(out)@ + se_u16(value));
    }
}

/// Append a big-endian 32-bit integer.
pub fn write_u32(out: &mut Vec<u8>, value: u32)
    ensures
        final(out)@ == old(out)@ + se_u32(value),
{
    out.push((value / 0x100_0000) as u8);
    out.push(((value / 0x1_0000) % 0x100) as u8);
    out.push(((value / 0x100) % 0x100) as u8);
    out.push((value % 0x100) as u8);
    proof {
        assert(final(out)@ =~= old(out)@ + se_u32(value));
    }
}

/// Append a big-endian 64-bit integer.
pub fn write_u64(out: &mut Vec<u8>, value: u64)
    ensures
        final(out)@ == old(out)@ + se_u64(value),
{
    let ghost pre = out@;
    let hi = (value / 0x1_0000_0000) as u32;
    let lo = (value % 0x1_0000_0000) as u32;
    write_u32(out, hi);
    write_u32(out, lo);
    proof {
        seq_assoc(pre, se_u32(hi), se_u32(lo));
    }
}

/// Append a constant-pool index, enforcing the encode-time invariant that
/// every emitted index lies in `[1, 65535]`.
pub fn write_cp_index(out: &mut Vec<u8>, value: ConstantPoolIndex) -> (r: Result<
    (),
    ClassFileError,
>)
    ensures
        r is Ok <==> 1 <= value <= 0xffff,
        r is Ok ==> final(out)@ == old(out)@ + se_u16(value as u16),
        r is Err ==> final(out)@ == old(out)@ && r == Err::<(), ClassFileError>(
            ClassFileError::Range { value },
        ),
{
    if value == 0 || value > 0xffff {
        Err(ClassFileError::Range { value })
    } else {
        write_u16(out, value as u16);
        Ok(())
    }
}

/// Append a run of raw bytes verbatim.
pub fn write_n_bytes(out: &mut Vec<u8>, bytes: &Vec<u8>)
    ensures
        final(out)@ == old(out)@ + bytes@,
{
    let mut i: usize = 0;
    proof {
        assert(out@ =~= old(out)@ + bytes@.take(0));
    }
    while i < bytes.len()
        invariant
            i <= bytes@.len(),
            out@ == old(out)@ + bytes@.take(i as int),
        decreases bytes@.len() - i,
    {
        out.push(bytes[i]);
        proof {
            assert(bytes@.take(i as int + 1) =~= bytes@.take(i as int).push(bytes@[i as int]));
            assert(old(out)@ + bytes@.take(i as int + 1) =~= (old(out)@ + bytes@.take(
                i as int,
            )).push(bytes@[i as int]));
        }
        i += 1;
    }
    proof {
        assert(bytes@.take(bytes@.len() as int) =~= bytes@);
    }
}

/// Append a Utf8 constant: tag, 2-byte byte-length, then the string's
/// UTF-8 bytes. Fails if the encoding does not fit the length field.
pub fn write_constant_utf8(out: &mut Vec<u8>, string: &String) -> (r: Result<(), ClassFileError>)
    ensures
        r is Ok <==> vstd::utf8::encode_utf8(string@).len() <= 0xffff,
        r is Ok ==> final(out)@ == old(out)@ + se_entry(
            crate::constant_pool::CpEntryV::Utf8 { s: string@ },
        ),
        r matches Err(e) ==> e is Range,
{
    let bytes: Vec<u8> = string.as_str().as_bytes_vec();
    if bytes.len() > 0xffff {
        return Err(ClassFileError::Range { value: bytes.len() });
    }
    let ghost pre = out@;
    write_u8(out, CONSTANT_TAG_UTF8);
    write_u16(out, bytes.len() as u16);
    write_n_bytes(out, &bytes);
    proof {
        let eb = vstd::utf8::encode_utf8(string@);
        seq_assoc(pre, se_u8(CONSTANT_TAG_UTF8), se_u16(eb.len() as u16));
        seq_assoc(pre, se_u8(CONSTANT_TAG_UTF8) + se_u16(eb.len() as u16), eb);
    }
    Ok(())
}

/// Append a Class constant: tag and name index.
pub fn write_constant_class(out: &mut Vec<u8>, name_index: ConstantPoolIndex) -> (r: Result<
    (),
    ClassFileError,
>)
    ensures
        r is Ok <==> 1 <= name_index <= 0xffff,
        r is Ok ==> final(out)@ == old(out)@ + se_entry(
            crate::constant_pool::CpEntryV::Class { name_index },
        ),
        r matches Err(e) ==> e is Range,
{
    let ghost pre = out@;
    write_u8(out, CONSTANT_TAG_CLASS);
    match write_cp_index(out, name_index) {
        Ok(()) => {
            proof {
                seq_assoc(pre, se_u8(CONSTANT_TAG_CLASS), se_u16(name_index as u16));
            }
            Ok(())
        },
        Err(e) => Err(e),
    }
}

/// Append a Methodref constant: tag, class index, name-and-type index.
pub fn write_constant_methodref(
    out: &mut Vec<u8>,
    class_index: ConstantPoolIndex,
    name_and_type_index: ConstantPoolIndex,
) -> (r: Result<(), ClassFileError>)
    ensures
        r is Ok <==> 1 <= class_index <= 0xffff && 1 <= name_and_type_index <= 0xffff,
        r is Ok ==> final(out)@ == old(out)@ + se_entry(
            crate::constant_pool::CpEntryV::Methodref { class_index, name_and_type_index },
        ),
        r matches Err(e) ==> e is Range,
{
    let ghost pre = out@;
    write_u8(out, CONSTANT_TAG_METHODREF);
    match write_cp_index(out, class_index) {
        Ok(()) => {},
        Err(e) => {
            return Err(e);
        },
    }
    match write_cp_index(out, name_and_type_index) {
        Ok(()) => {},
        Err(e) => {
            return Err(e);
        },
    }
    proof {
        seq_assoc(pre, se_u8(CONSTANT_TAG_METHODREF), se_u16(class_index as u16));
        seq_assoc(
            pre,
            se_u8(CONSTANT_TAG_METHODREF) + se_u16(class_index as u16),
            se_u16(name_and_type_index as u16),
        );
    }
    Ok(())
}

/// Append a NameAndType constant: tag, name index, descriptor index.
pub fn write_constant_name_and_type(
    out: &mut Vec<u8>,
    name_index: ConstantPoolIndex,
    descriptor_index: ConstantPoolIndex,
) -> (r: Result<(), ClassFileError>)
    ensures
        r is Ok <==> 1 <= name_index <= 0xffff && 1 <= descriptor_index <= 0xffff,
        r is Ok ==> final(out)@ == old(out)@ + se_entry(
            crate::constant_pool::CpEntryV::NameAndType { name_index, descriptor_index },
        ),
        r matches Err(e) ==> e is Range,
{
    let ghost pre = out@;
    write_u8(out, CONSTANT_TAG_NAME_AND_TYPE);
    match write_cp_index(out, name_index) {
        Ok(()) => {},
        Err(e) => {
            return Err(e);
        },
    }
    match write_cp_index(out, descriptor_index) {
        Ok(()) => {},
        Err(e) => {
            return Err(e);
        },
    }
    proof {
        seq_assoc(pre, se_u8(CONSTANT_TAG_NAME_AND_TYPE), se_u16(name_index as u16));
        seq_assoc(
            pre,
            se_u8(CONSTANT_TAG_NAME_AND_TYPE) + se_u16(name_index as u16),
            se_u16(descriptor_index as u16),
        );
    }
    Ok(())
}

/// Append one constant pool entry. An EmptySlot appends nothing: it has no
/// record of its own on the wire.
pub fn write_constant_pool_entry(out: &mut Vec<u8>, entry: &ConstantPoolEntry) -> (r: Result<
    (),
    ClassFileError,
>)
    ensures
        r is Ok <==> encodable_entry(entry@),
        r is Ok ==> final(out)@ == old(out)@ + se_entry(entry@),
        r matches Err(e) ==> e is Range,
{
    let ghost pre = out@;
    match entry {
        ConstantPoolEntry::ConstantUtf8 { string } => write_constant_utf8(out, string),
        ConstantPoolEntry::ConstantInteger { val } => {
            write_u8(out, CONSTANT_TAG_INTEGER);
            let w: u32 = #[verifier::truncate] (*val as u32);
            write_u32(out, w);
            proof {
                seq_assoc(pre, se_u8(CONSTANT_TAG_INTEGER), se_u32(w));
            }
            Ok(())
        },
        ConstantPoolEntry::ConstantFloat { bits } => {
            write_u8(out, CONSTANT_TAG_FLOAT);
            write_u32(out, *bits);
            proof {
                seq_assoc(pre, se_u8(CONSTANT_TAG_FLOAT), se_u32(*bits));
            }
            Ok(())
        },
        ConstantPoolEntry::ConstantLong { val } => {
            write_u8(out, CONSTANT_TAG_LONG);
            let w: u64 = #[verifier::truncate] (*val as u64);
            write_u64(out, w);
            proof {
                seq_assoc(pre, se_u8(CONSTANT_TAG_LONG), se_u64(w));
            }
            Ok(())
        },
        ConstantPoolEntry::ConstantDouble { bits } => {
            write_u8(out, CONSTANT_TAG_DOUBLE);
            write_u64(out, *bits);
            proof {
                seq_assoc(pre, se_u8(CONSTANT_TAG_DOUBLE), se_u64(*bits));
            }
            Ok(())
        },
        ConstantPoolEntry::ConstantClass { name_index } => write_constant_class(out, *name_index),
        ConstantPoolEntry::ConstantString { string_index } => {
            write_u8(out, CONSTANT_TAG_STRING);
            match write_cp_index(out, *string_index) {
                Ok(()) => {
                    proof {
                        seq_assoc(pre, se_u8(CONSTANT_TAG_STRING), se_u16(*string_index as u16));
                    }
                    Ok(())
                },
                Err(e) => Err(e),
            }
        },
        ConstantPoolEntry::ConstantFieldref { class_index, name_and_type_index } => {
            write_u8(out, CONSTANT_TAG_FIELDREF);
            match write_cp_index(out, *class_index) {
                Ok(()) => {},
                Err(e) => {
                    return Err(e);
                },
            }
            match write_cp_index(out, *name_and_type_index) {
                Ok(()) => {},
                Err(e) => {
                    return Err(e);
                },
            }
            proof {
                seq_assoc(pre, se_u8(CONSTANT_TAG_FIELDREF), se_u16(*class_index as u16));
                seq_assoc(
                    pre,
                    se_u8(CONSTANT_TAG_FIELDREF) + se_u16(*class_index as u16),
                    se_u16(*name_and_type_index as u16),
                );
            }
            Ok(())
        },
        ConstantPoolEntry::ConstantMethodref { class_index, name_and_type_index } => {
            write_constant_methodref(out, *class_index, *name_and_type_index)
        },
        ConstantPoolEntry::ConstantInterfaceMethodref { class_index, name_and_type_index } => {
            write_u8(out, CONSTANT_TAG_INTERFACE_METHODREF);
            if *class_index == 0 {
                return Err(ClassFileError::Range { value: 0 });
            }
            if *name_and_type_index == 0 {
                return Err(ClassFileError::Range { value: 0 });
            }
            write_u16(out, *class_index);
            write_u16(out, *name_and_type_index);
            proof {
                seq_assoc(pre, se_u8(CONSTANT_TAG_INTERFACE_METHODREF), se_u16(*class_index));
                seq_assoc(
                    pre,
                    se_u8(CONSTANT_TAG_INTERFACE_METHODREF) + se_u16(*class_index),
                    se_u16(*name_and_type_index),
                );
            }
            Ok(())
        },
        ConstantPoolEntry::ConstantNameAndType { name_index, descriptor_index } => {
            write_constant_name_and_type(out, *name_index, *descriptor_index)
        },
        ConstantPoolEntry::ConstantMethodHandle { reference_kind, reference_index } => {
            write_u8(out, CONSTANT_TAG_METHOD_HANDLE);
            if *reference_index == 0 {
                return Err(ClassFileError::Range { value: 0 });
            }
            write_u8(out, *reference_kind);
            write_u16(out, *reference_index);
            proof {
                seq_assoc(pre, se_u8(CONSTANT_TAG_METHOD_HANDLE), se_u8(*reference_kind));
                seq_assoc(
                    pre,
                    se_u8(CONSTANT_TAG_METHOD_HANDLE) + se_u8(*reference_kind),
                    se_u16(*reference_index),
                );
            }
            Ok(())
        },
        ConstantPoolEntry::ConstantMethodType { descriptor_index } => {
            write_u8(out, CONSTANT_TAG_METHOD_TYPE);
            if *descriptor_index == 0 {
                return Err(ClassFileError::Range { value: 0 });
            }
            write_u16(out, *descriptor_index);
            proof {
                seq_assoc(pre, se_u8(CONSTANT_TAG_METHOD_TYPE), se_u16(*descriptor_index));
            }
            Ok(())
        },
        ConstantPoolEntry::ConstantDynamic { bootstrap_method_attr_index, name_and_type_index } => {
            write_u8(out, CONSTANT_TAG_DYNAMIC);
            if *name_and_type_index == 0 {
                return Err(ClassFileError::Range { value: 0 });
            }
            write_u16(out, *bootstrap_method_attr_index);
            write_u16(out, *name_and_type_index);
            proof {
                seq_assoc(pre, se_u8(CONSTANT_TAG_DYNAMIC), se_u16(*bootstrap_method_attr_index));
                seq_assoc(
                    pre,
                    se_u8(CONSTANT_TAG_DYNAMIC) + se_u16(*bootstrap_method_attr_index),
                    se_u16(*name_and_type_index),
                );
            }
            Ok(())
        },
        ConstantPoolEntry::ConstantInvokeDynamic {
            bootstrap_method_attr_index,
            name_and_type_index,
        } => {
            write_u8(out, CONSTANT_TAG_INVOKE_DYNAMIC);
            if *name_and_type_index == 0 {
                return Err(ClassFileError::Range { value: 0 });
            }
            write_u16(out, *bootstrap_method_attr_index);
            write_u16(out, *name_and_type_index);
            proof {
                seq_assoc(
                    pre,
                    se_u8(CONSTANT_TAG_INVOKE_DYNAMIC),
                    se_u16(*bootstrap_method_attr_index),
                );
                seq_assoc(
                    pre,
                    se_u8(CONSTANT_TAG_INVOKE_DYNAMIC) + se_u16(*bootstrap_method_attr_index),
                    se_u16(*name_and_type_index),
                );
            }
            Ok(())
        },
        ConstantPoolEntry::ConstantModule { name_index } => {
            write_u8(out, CONSTANT_TAG_MODULE);
            if *name_index == 0 {
                return Err(ClassFileError::Range { value: 0 });
            }
            write_u16(out, *name_index);
            proof {
                seq_assoc(pre, se_u8(CONSTANT_TAG_MODULE), se_u16(*name_index));
            }
            Ok(())
        },
        ConstantPoolEntry::ConstantPackage { name_index } => {
            write_u8(out, CONSTANT_TAG_PACKAGE);
            if *name_index == 0 {
                return Err(ClassFileError::Range { value: 0 });
            }
            write_u16(out, *name_index);
            proof {
                seq_assoc(pre, se_u8(CONSTANT_TAG_PACKAGE), se_u16(*name_index));
            }
            Ok(())
        },
        ConstantPoolEntry::ConstantEmptySlot {} => {
            proof {
                assert(pre + se_entry(entry@) =~= pre);
            }
            Ok(())
        },
    }
}

/// Append the whole constant pool: the declared count (slots + 1), then
/// every entry in order.
pub fn write_constant_pool(out: &mut Vec<u8>, constant_pool: &Vec<ConstantPoolEntry>) -> (r:
    Result<(), ClassFileError>)
    ensures
        r is Ok <==> encodable_pool(pool_view(constant_pool@)),
        r is Ok ==> final(out)@ == old(out)@ + se_pool(pool_view(constant_pool@)),
        r matches Err(e) ==> e is Range,
{
    let ghost view = pool_view(constant_pool@);
    if constant_pool.len() > 0xfffe {
        return Err(ClassFileError::Range { value: constant_pool.len() });
    }
    let ghost pre = out@;
    write_u16(out, (constant_pool.len() + 1) as u16);
    let mut i: usize = 0;
    proof {
        assert(view.skip(0) =~= view);
        seq_assoc(pre, se_u16((view.len() + 1) as u16), se_cp_entries(view));
    }
    while i < constant_pool.len()
        invariant
            i <= constant_pool@.len(),
            view == pool_view(constant_pool@),
            view.len() == constant_pool@.len(),
            forall|j: int| 0 <= j < i ==> encodable_entry(#[trigger] view[j]),
            out@ + se_cp_entries(view.skip(i as int)) == pre + se_pool(view),
        decreases constant_pool@.len() - i,
    {
        let ghost mid = out@;
        match write_constant_pool_entry(out, &constant_pool[i]) {
            Ok(()) => {},
            Err(e) => {
                proof {
                    assert(view[i as int] == constant_pool@[i as int]@);
                    assert(!encodable_entry(view[i as int]));
                }
                return Err(e);
            },
        }
        proof {
            assert(view[i as int] == constant_pool@[i as int]@);
            assert(view.skip(i as int)[0] == view[i as int]);
            assert(view.skip(i as int).skip(1) =~= view.skip(i as int + 1));
            assert(se_cp_entries(view.skip(i as int)) == se_entry(view[i as int]) + se_cp_entries(
                view.skip(i as int + 1),
            ));
            seq_assoc(mid, se_entry(view[i as int]), se_cp_entries(view.skip(i as int + 1)));
        }
        i += 1;
    }
    proof {
        assert(view.skip(view.len() as int) =~= Seq::<crate::constant_pool::CpEntryV>::empty());
        assert(out@ + se_cp_entries(Seq::<crate::constant_pool::CpEntryV>::empty()) =~= out@);
    }
    Ok(())
}

/// Append the interface list: a 2-byte count, then each index.
pub fn write_interfaces(out: &mut Vec<u8>, interfaces: &Vec<ConstantPoolIndex>) -> (r: Result<
    (),
    ClassFileError,
>)
    ensures
        r is Ok <==> interfaces@.len() <= 0xffff && (forall|i: int|
            0 <= i < interfaces@.len() ==> 1 <= #[trigger] interfaces@[i] <= 0xffff),
        r is Ok ==> final(out)@ == old(out)@ + se_u16(interfaces@.len() as u16) + se_ifaces(
            interfaces@,
        ),
        r matches Err(e) ==> e is Range,
{
    if interfaces.len() > 0xffff {
        return Err(ClassFileError::Range { value: interfaces.len() });
    }
    let ghost view = interfaces@;
    let ghost pre = out@;
    write_u16(out, interfaces.len() as u16);
    let mut i: usize = 0;
    proof {
        assert(view.skip(0) =~= view);
        seq_assoc(pre, se_u16(view.len() as u16), se_ifaces(view));
    }
    while i < interfaces.len()
        invariant
            i <= view.len(),
            view == interfaces@,
            forall|j: int| 0 <= j < i ==> 1 <= #[trigger] view[j] <= 0xffff,
            out@ + se_ifaces(view.skip(i as int)) == (pre + se_u16(view.len() as u16)) + se_ifaces(
                view,
            ),
        decreases view.len() - i,
    {
        let ghost mid = out@;
        match write_cp_index(out, interfaces[i]) {
            Ok(()) => {},
            Err(e) => {
                return Err(e);
            },
        }
        proof {
            assert(view.skip(i as int)[0] == view[i as int]);
            assert(view.skip(i as int).skip(1) =~= view.skip(i as int + 1));
            assert(se_ifaces(view.skip(i as int)) == se_u16(view[i as int] as u16) + se_ifaces(
                view.skip(i as int + 1),
            ));
            seq_assoc(mid, se_u16(view[i as int] as u16), se_ifaces(view.skip(i as int + 1)));
        }
        i += 1;
    }
    proof {
        assert(view.skip(view.len() as int) =~= Seq::<usize>::empty());
        assert(out@ + se_ifaces(Seq::<usize>::empty()) =~= out@);
    }
    Ok(())
}

/// Append one attribute: name index, 4-byte payload length, payload bytes
/// verbatim.
pub fn write_attribute(out: &mut Vec<u8>, attribute: &Attribute) -> (r: Result<(), ClassFileError>)
    ensures
        r is Ok <==> encodable_attr(attribute@),
        r is Ok ==> final(out)@ == old(out)@ + se_attr(attribute@),
        r matches Err(e) ==> e is Range,
{
    let ghost pre = out@;
    match write_cp_index(out, attribute.attribute_name_index) {
        Ok(()) => {},
        Err(e) => {
            return Err(e);
        },
    }
    if attribute.info.len() > 0xffff_ffff {
        return Err(ClassFileError::Range { value: attribute.info.len() });
    }
    write_u32(out, attribute.info.len() as u32);
    write_n_bytes(out, &attribute.info);
    proof {
        let a = attribute@;
        seq_assoc(pre, se_u16(a.name_index as u16), se_u32(a.info.len() as u32));
        seq_assoc(pre, se_u16(a.name_index as u16) + se_u32(a.info.len() as u32), a.info);
    }
    Ok(())
}

/// Append an attribute set: a 2-byte count, then each attribute.
pub fn write_attributes(out: &mut Vec<u8>, attributes: &AttributeSet) -> (r: Result<
    (),
    ClassFileError,
>)
    ensures
        r is Ok <==> encodable_attr_set(attributes@),
        r is Ok ==> final(out)@ == old(out)@ + se_attr_set(attributes@),
        r matches Err(e) ==> e is Range,
{
    if attributes.attributes.len() > 0xffff {
        return Err(ClassFileError::Range { value: attributes.attributes.len() });
    }
    let ghost view = attributes@;
    let ghost pre = out@;
    proof {
        assert(view.len() == attributes.attributes@.len());
    }
    write_u16(out, attributes.attributes.len() as u16);
    let mut i: usize = 0;
    proof {
        assert(view.skip(0) =~= view);
        seq_assoc(pre, se_u16(view.len() as u16), crate::attribute::se_attrs(view));
    }
    while i < attributes.attributes.len()
        invariant
            i <= view.len(),
            view == attributes@,
            view.len() == attributes.attributes@.len(),
            forall|j: int| 0 <= j < i ==> encodable_attr(#[trigger] view[j]),
            out@ + crate::attribute::se_attrs(view.skip(i as int)) == pre + se_attr_set(view),
        decreases view.len() - i,
    {
        let ghost mid = out@;
        match write_attribute(out, &attributes.attributes[i]) {
            Ok(()) => {},
            Err(e) => {
                proof {
                    assert(view[i as int] == attributes.attributes@[i as int]@);
                    assert(!encodable_attr(view[i as int]));
                }
                return Err(e);
            },
        }
        proof {
            assert(view[i as int] == attributes.attributes@[i as int]@);
            assert(view.skip(i as int)[0] == view[i as int]);
            assert(view.skip(i as int).skip(1) =~= view.skip(i as int + 1));
            assert(crate::attribute::se_attrs(view.skip(i as int)) == se_attr(view[i as int])
                + crate::attribute::se_attrs(view.skip(i as int + 1)));
            seq_assoc(mid, se_attr(view[i as int]), crate::attribute::se_attrs(
                view.skip(i as int + 1),
            ));
        }
        i += 1;
    }
    proof {
        assert(view.skip(view.len() as int) =~= Seq::<crate::attribute::AttributeV>::empty());
        assert(out@ + crate::attribute::se_attrs(Seq::<crate::attribute::AttributeV>::empty())
            =~= out@);
    }
    Ok(())
}

/// Append one field record.
pub fn write_field(out: &mut Vec<u8>, field: &Field) -> (r: Result<(), ClassFileError>)
    ensures
        r is Ok <==> encodable_field(field@),
        r is Ok ==> final(out)@ == old(out)@ + se_field(field@),
        r matches Err(e) ==> e is Range,
{
    let ghost pre = out@;
    let flags = crate::field_access::FieldAccess::to_access_flags(&field.access_flags);
    write_u16(out, flags);
    match write_cp_index(out, field.name_index) {
        Ok(()) => {},
        Err(e) => {
            return Err(e);
        },
    }
    match write_cp_index(out, field.descriptor_index) {
        Ok(()) => {},
        Err(e) => {
            return Err(e);
        },
    }
    let ghost mid = out@;
    match write_attributes(out, &field.attributes) {
        Ok(()) => {},
        Err(e) => {
            return Err(e);
        },
    }
    proof {
        let f = field@;
        seq_assoc(pre, se_u16(crate::field_access::field_flags_of(f.access)), se_u16(
            f.name_index as u16,
        ));
        seq_assoc(
            pre,
            se_u16(crate::field_access::field_flags_of(f.access)) + se_u16(f.name_index as u16),
            se_u16(f.descriptor_index as u16),
        );
        seq_assoc(
            pre,
            se_u16(crate::field_access::field_flags_of(f.access)) + se_u16(f.name_index as u16)
                + se_u16(f.descriptor_index as u16),
            se_attr_set(f.attributes),
        );
    }
    Ok(())
}

/// Append the field list: a 2-byte count, then each record.
pub fn write_fields(out: &mut Vec<u8>, fields: &Vec<Field>) -> (r: Result<(), ClassFileError>)
    ensures
        r is Ok <==> fields@.len() <= 0xffff && (forall|i: int|
            0 <= i < fields@.len() ==> encodable_field((#[trigger] fields@[i])@)),
        r is Ok ==> final(out)@ == old(out)@ + se_u16(fields@.len() as u16) + se_fields(
            fields@.map_values(|f: Field| f@),
        ),
        r matches Err(e) ==> e is Range,
{
    if fields.len() > 0xffff {
        return Err(ClassFileError::Range { value: fields.len() });
    }
    let ghost view = fields@.map_values(|f: Field| f@);
    let ghost pre = out@;
    write_u16(out, fields.len() as u16);
    let mut i: usize = 0;
    proof {
        assert(view.skip(0) =~= view);
        seq_assoc(pre, se_u16(view.len() as u16), se_fields(view));
    }
    while i < fields.len()
        invariant
            i <= view.len(),
            view == fields@.map_values(|f: Field| f@),
            view.len() == fields@.len(),
            forall|j: int| 0 <= j < i ==> encodable_field(#[trigger] view[j]),
            out@ + se_fields(view.skip(i as int)) == (pre + se_u16(view.len() as u16)) + se_fields(
                view,
            ),
        decreases view.len() - i,
    {
        let ghost mid = out@;
        match write_field(out, &fields[i]) {
            Ok(()) => {},
            Err(e) => {
                proof {
                    assert(view[i as int] == fields@[i as int]@);
                    assert(!encodable_field(view[i as int]));
                    assert(!encodable_field(fields@[i as int]@));
                }
                return Err(e);
            },
        }
        proof {
            assert(view[i as int] == fields@[i as int]@);
            assert(view.skip(i as int)[0] == view[i as int]);
            assert(view.skip(i as int).skip(1) =~= view.skip(i as int + 1));
            assert(se_fields(view.skip(i as int)) == se_field(view[i as int]) + se_fields(
                view.skip(i as int + 1),
            ));
            seq_assoc(mid, se_field(view[i as int]), se_fields(view.skip(i as int + 1)));
        }
        i += 1;
    }
    proof {
        assert(view.skip(view.len() as int) =~= Seq::<crate::field::FieldV>::empty());
        assert(out@ + se_fields(Seq::<crate::field::FieldV>::empty()) =~= out@);
        assert forall|j: int| 0 <= j < fields@.len() implies encodable_field(
            (#[trigger] fields@[j])@,
        ) by {
            assert(view[j] == fields@[j]@);
        }
    }
    Ok(())
}

/// Append one method record.
pub fn write_method(out: &mut Vec<u8>, method: &Method) -> (r: Result<(), ClassFileError>)
    ensures
        r is Ok <==> encodable_method(method@),
        r is Ok ==> final(out)@ == old(out)@ + se_method(method@),
        r matches Err(e) ==> e is Range,
{
    let ghost pre = out@;
    write_u16(out, method.access_flags);
    match write_cp_index(out, method.name_index) {
        Ok(()) => {},
        Err(e) => {
            return Err(e);
        },
    }
    match write_cp_index(out, method.descriptor_index) {
        Ok(()) => {},
        Err(e) => {
            return Err(e);
        },
    }
    match write_attributes(out, &method.attributes) {
        Ok(()) => {},
        Err(e) => {
            return Err(e);
        },
    }
    proof {
        let m = method@;
        seq_assoc(pre, se_u16(m.access_flags), se_u16(m.name_index as u16));
        seq_assoc(
            pre,
            se_u16(m.access_flags) + se_u16(m.name_index as u16),
            se_u16(m.descriptor_index as u16),
        );
        seq_assoc(
            pre,
            se_u16(m.access_flags) + se_u16(m.name_index as u16) + se_u16(
                m.descriptor_index as u16,
            ),
            se_attr_set(m.attributes),
        );
    }
    Ok(())
}

/// Append the method list: a 2-byte count, then each record.
pub fn write_methods(out: &mut Vec<u8>, methods: &Vec<Method>) -> (r: Result<(), ClassFileError>)
    ensures
        r is Ok <==> methods@.len() <= 0xffff && (forall|i: int|
            0 <= i < methods@.len() ==> encodable_method((#[trigger] methods@[i])@)),
        r is Ok ==> final(out)@ == old(out)@ + se_u16(methods@.len() as u16) + se_methods(
            methods@.map_values(|m: Method| m@),
        ),
        r matches Err(e) ==> e is Range,
{
    if methods.len() > 0xffff {
        return Err(ClassFileError::Range { value: methods.len() });
    }
    let ghost view = methods@.map_values(|m: Method| m@);
    let ghost pre = out@;
    write_u16(out, methods.len() as u16);
    let mut i: usize = 0;
    proof {
        assert(view.skip(0) =~= view);
        seq_assoc(pre, se_u16(view.len() as u16), se_methods(view));
    }
    while i < methods.len()
        invariant
            i <= view.len(),
            view == methods@.map_values(|m: Method| m@),
            view.len() == methods@.len(),
            forall|j: int| 0 <= j < i ==> encodable_method(#[trigger] view[j]),
            out@ + se_methods(view.skip(i as int)) == (pre + se_u16(view.len() as u16))
                + se_methods(view),
        decreases view.len() - i,
    {
        let ghost mid = out@;
        match write_method(out, &methods[i]) {
            Ok(()) => {},
            Err(e) => {
                proof {
                    assert(view[i as int] == methods@[i as int]@);
                    assert(!encodable_method(view[i as int]));
                    assert(!encodable_method(methods@[i as int]@));
                }
                return Err(e);
            },
        }
        proof {
            assert(view[i as int] == methods@[i as int]@);
            assert(view.skip(i as int)[0] == view[i as int]);
            assert(view.skip(i as int).skip(1) =~= view.skip(i as int + 1));
            assert(se_methods(view.skip(i as int)) == se_method(view[i as int]) + se_methods(
                view.skip(i as int + 1),
            ));
            seq_assoc(mid, se_method(view[i as int]), se_methods(view.skip(i as int + 1)));
        }
        i += 1;
    }
    proof {
        assert(view.skip(view.len() as int) =~= Seq::<crate::method::MethodV>::empty());
        assert(out@ + se_methods(Seq::<crate::method::MethodV>::empty()) =~= out@);
        assert forall|j: int| 0 <= j < methods@.len() implies encodable_method(
            (#[trigger] methods@[j])@,
        ) by {
            assert(view[j] == methods@[j]@);
        }
    }
    Ok(())
}

/// Encode a whole class file. Succeeds exactly on encodable models — every
/// constant-pool index in `[1, 65535]`, every count and length within its
/// field — and then returns exactly the specification encoding of the
/// model. On an out-of-range model (for example a `this_class` of 0, or
/// above 65535) it fails with a range error and writes nothing.
pub fn write_class_file(class_file: &ClassFile) -> (r: Result<Vec<u8>, ClassFileError>)
    ensures
        r is Ok <==> encodable_class(class_file@),
        r matches Ok(v) ==> v@ == se_class(class_file@),
        r matches Err(e) ==> e is Range,
{
    let ghost m = class_file@;
    proof {
        assert forall|j: int| 0 <= j < m.fields.len() implies (#[trigger] m.fields[j])
            == class_file.fields@[j]@ && (encodable_field(m.fields[j]) <==> encodable_field(
            class_file.fields@[j]@,
        )) by {}
        assert forall|j: int| 0 <= j < m.methods.len() implies (#[trigger] m.methods[j])
            == class_file.methods@[j]@ && (encodable_method(m.methods[j]) <==> encodable_method(
            class_file.methods@[j]@,
        )) by {}
    }
    let mut out: Vec<u8> = Vec::new();
    write_u32(&mut out, crate::class_file::EXPECTED_MAGIC);
    proof {
        assert(out@ =~= se_u32(crate::class_file::EXPECTED_MAGIC));
    }
    write_u16(&mut out, class_file.minor_version);
    write_u16(&mut out, class_file.major_version);
    match write_constant_pool(&mut out, &class_file.constant_pool) {
        Ok(()) => {},
        Err(e) => {
            return Err(e);
        },
    }
    let flags = ClassAccess::to_access_flags(&class_file.access_flags);
    write_u16(&mut out, flags);
    match write_cp_index(&mut out, class_file.this_class) {
        Ok(()) => {},
        Err(e) => {
            return Err(e);
        },
    }
    match write_cp_index(&mut out, class_file.super_class) {
        Ok(()) => {},
        Err(e) => {
            return Err(e);
        },
    }
    match write_interfaces(&mut out, &class_file.interfaces) {
        Ok(()) => {},
        Err(e) => {
            return Err(e);
        },
    }
    match write_fields(&mut out, &class_file.fields) {
        Ok(()) => {},
        Err(e) => {
            proof {
                if class_file.fields@.len() <= 0xffff {
                    assert(exists|j: int|
                        0 <= j < class_file.fields@.len() && !encodable_field(
                            (#[trigger] class_file.fields@[j])@,
                        ));
                    let j = choose|j: int|
                        0 <= j < class_file.fields@.len() && !encodable_field(
                            (#[trigger] class_file.fields@[j])@,
                        );
                    assert(m.fields[j] == class_file.fields@[j]@);
                    assert(!encodable_field(m.fields[j]));
                }
            }
            return Err(e);
        },
    }
    match write_methods(&mut out, &class_file.methods) {
        Ok(()) => {},
        Err(e) => {
            proof {
                if class_file.methods@.len() <= 0xffff {
                    assert(exists|j: int|
                        0 <= j < class_file.methods@.len() && !encodable_method(
                            (#[trigger] class_file.methods@[j])@,
                        ));
                    let j = choose|j: int|
                        0 <= j < class_file.methods@.len() && !encodable_method(
                            (#[trigger] class_file.methods@[j])@,
                        );
                    assert(m.methods[j] == class_file.methods@[j]@);
                    assert(!encodable_method(m.methods[j]));
                }
            }
            return Err(e);
        },
    }
    match write_attributes(&mut out, &class_file.attributes) {
        Ok(()) => {},
        Err(e) => {
            return Err(e);
        },
    }
    proof {
        assert(out@ == se_class(m));
    }
    Ok(out)
}

} // verus!

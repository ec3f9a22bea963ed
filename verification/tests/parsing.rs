use jvm_class_file_parser::parsing::{
    read_class_file, read_constant_pool, read_constant_pool_entry, read_constant_utf8,
};
use jvm_class_file_parser::{Bytecode, ClassFileError, ConstantPoolEntry};

#[test]
fn read_utf8_with_embedded_null() {
    let bytes = vec![
        0, 9, // length
        0xd0, 0xaa, // cyrillic letter that reads as "tvjordyj znak"
        0xc0, 0x80, // 2-byte encoded null
        0xd0, 0xab, // cyrillic letter that reads as "y"
        0xc0, 0x80, // 2-byte encoded null
        0x42,
    ];
    let (parsed, next) = read_constant_utf8(&bytes, 0).unwrap();
    assert_eq!(
        parsed,
        ConstantPoolEntry::ConstantUtf8 {
            string: "\u{42a}\0\u{42b}\0B".to_string()
        }
    );
    assert_eq!(next, bytes.len());
}

#[test]
fn utf8_invalid_after_repair_is_encoding_error() {
    // length 1, lone continuation byte: invalid, and the repair pass
    // cannot help
    let bytes = vec![0, 1, 0xff];
    match read_constant_utf8(&bytes, 0) {
        Err(ClassFileError::Encoding { offset }) => assert_eq!(offset, 0),
        other => panic!("expected an encoding error, got {:?}", other),
    }
}

#[test]
fn wrong_magic_is_structural_error_with_actual_bytes() {
    let bytes = vec![0xde, 0xad, 0xbe, 0xef, 0, 0, 0, 0];
    match read_class_file(&bytes) {
        Err(ClassFileError::StructuralError {
            offset,
            expected,
            actual,
        }) => {
            assert_eq!(offset, 0);
            assert_eq!(expected, 0xcafe_babe);
            assert_eq!(actual, 0xdead_beef);
        }
        other => panic!("expected a structural error, got {:?}", other),
    }
}

#[test]
fn truncated_stream_is_structural_error() {
    let bytes = vec![0xca, 0xfe, 0xba, 0xbe, 0, 0];
    assert!(matches!(
        read_class_file(&bytes),
        Err(ClassFileError::StructuralError { .. })
    ));
}

#[test]
fn unknown_constant_pool_tag_is_fatal() {
    let bytes = vec![99, 0, 0];
    match read_constant_pool_entry(&bytes, 0) {
        Err(ClassFileError::UnknownTag { offset, tag }) => {
            assert_eq!(offset, 0);
            assert_eq!(tag, 99);
        }
        other => panic!("expected an unknown-tag error, got {:?}", other),
    }
}

#[test]
fn unknown_opcode_fails_at_exact_offset() {
    // aload_0 decodes, then 0xff is not a supported opcode
    let code = vec![42, 0xff, 177];
    match Bytecode::from_bytes(&code) {
        Err(ClassFileError::UnknownTag { offset, tag }) => {
            assert_eq!(offset, 1);
            assert_eq!(tag, 0xff);
        }
        other => panic!("expected an unknown-tag error, got {:?}", other),
    }
}

#[test]
fn truncated_operand_is_structural_error() {
    // invokespecial needs two operand bytes; only one is left
    let code = vec![183, 0];
    assert!(matches!(
        Bytecode::from_bytes(&code),
        Err(ClassFileError::StructuralError { .. })
    ));
}

#[test]
fn decodes_exact_instruction_sequence() {
    let bytes = vec![
        42, // aload_0
        183, 0, 1, // invokespecial #1
        177, // return
    ];
    let bytecodes = vec![
        (0, Bytecode::Aload_0),
        (1, Bytecode::Invokespecial(1)),
        (4, Bytecode::Return),
    ];
    assert_eq!(bytecodes, Bytecode::from_bytes(&bytes).unwrap());
}

#[test]
fn long_entry_occupies_two_slots() {
    // declared count 4: a Long (2 slots) and a Utf8 (1 slot)
    let bytes = vec![
        0, 4, // count
        5, 0, 0, 0, 0, 0, 0, 0, 0x42, // Long 0x42
        1, 0, 1, 0x41, // Utf8 "A"
    ];
    let (pool, next) = read_constant_pool(&bytes, 0).unwrap();
    assert_eq!(next, bytes.len());
    assert_eq!(
        pool,
        vec![
            ConstantPoolEntry::ConstantLong { val: 0x42 },
            ConstantPoolEntry::ConstantEmptySlot {},
            ConstantPoolEntry::ConstantUtf8 {
                string: "A".to_string()
            },
        ]
    );
}

#[test]
fn declared_count_zero_is_structural_error() {
    let bytes = vec![
        0xca, 0xfe, 0xba, 0xbe, 0, 0, 0, 52, 0, 0, // constant pool count 0
    ];
    assert!(matches!(
        read_class_file(&bytes),
        Err(ClassFileError::StructuralError { .. })
    ));
}

#[test]
fn minimal_class_with_empty_pool_decodes() {
    let bytes = vec![
        0xca, 0xfe, 0xba, 0xbe, // magic
        0, 0, 0, 52, // versions
        0, 1, // constant pool count 1: zero slots
        0, 0, // access flags
        0, 1, // this class (unresolved, but decode does not resolve)
        0, 1, // super class
        0, 0, // interfaces
        0, 0, // fields
        0, 0, // methods
        0, 0, // attributes
    ];
    let class_file = read_class_file(&bytes).unwrap();
    assert_eq!(0, class_file.constant_pool.len());
    assert_eq!(52, class_file.major_version);
}

#[test]
fn empty_utf8_entry_decodes_to_empty_string() {
    let bytes = vec![0, 0];
    let (parsed, next) = read_constant_utf8(&bytes, 0).unwrap();
    assert_eq!(
        ConstantPoolEntry::ConstantUtf8 {
            string: String::new()
        },
        parsed
    );
    assert_eq!(2, next);
}

#[test]
fn trailing_bytes_after_attributes_are_ignored() {
    let mut bytes = vec![
        0xca, 0xfe, 0xba, 0xbe, 0, 0, 0, 52, 0, 1, 0, 0, 0, 1, 0, 1, 0, 0, 0, 0, 0, 0, 0, 0,
    ];
    bytes.extend_from_slice(&[0xaa, 0xbb, 0xcc]);
    assert!(read_class_file(&bytes).is_ok());
}

#[test]
fn every_instruction_kind_survives_a_round_trip() {
    let code = vec![
        (0, Bytecode::Aconst_null),
        (1, Bytecode::Iconst_0),
        (2, Bytecode::Iconst_1),
        (3, Bytecode::Ldc(9)),
        (5, Bytecode::Iload_1),
        (6, Bytecode::Aload_0),
        (7, Bytecode::Astore_1),
        (8, Bytecode::Dup),
        (9, Bytecode::Ifeq(3)),
        (12, Bytecode::Ifne(3)),
        (15, Bytecode::Goto(65535)),
        (18, Bytecode::Ireturn),
        (19, Bytecode::Return),
        (20, Bytecode::Getstatic(1)),
        (23, Bytecode::Putstatic(2)),
        (26, Bytecode::Getfield(3)),
        (29, Bytecode::Putfield(4)),
        (32, Bytecode::Invokevirtual(5)),
        (35, Bytecode::Invokespecial(6)),
        (38, Bytecode::New(7)),
        (41, Bytecode::Athrow),
        (42, Bytecode::Checkcast(8)),
    ];
    let bytes = jvm_class_file_parser::Bytecode::to_bytes(&code);
    assert_eq!(code, Bytecode::from_bytes(&bytes).unwrap());
}

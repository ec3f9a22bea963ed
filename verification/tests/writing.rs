use jvm_class_file_parser::attribute::{Attribute, AttributeSet, ExceptionTableEntry};
use jvm_class_file_parser::method::Method;
use jvm_class_file_parser::parsing::read_class_file;
use jvm_class_file_parser::writing::{write_class_file, write_cp_index};
use jvm_class_file_parser::{Bytecode, ClassFileError, Code, ConstantPoolEntry, ConstantPoolIndex};

fn sample_class_bytes() -> Vec<u8> {
    let mut bytes = vec![
        0xca, 0xfe, 0xba, 0xbe, // magic
        0x00, 0x00, // minor version
        0x00, 0x34, // major version
        0x00, 0x07, // constant pool count: 6 slots + 1
        0x01, 0x00, 0x05, b'D', b'u', b'm', b'm', b'y', // #1 Utf8 "Dummy"
        0x07, 0x00, 0x01, // #2 Class -> #1
        0x05, 0x00, 0x00, 0x00, 0x00, 0x00, 0x00, 0x00, 0x42, // #3 Long 0x42 (also fills #4)
        0x01, 0x00, 0x0a, // #5 Utf8 "SourceFile"
    ];
    bytes.extend_from_slice(b"SourceFile");
    bytes.extend_from_slice(&[0x01, 0x00, 0x0a]); // #6 Utf8 "Dummy.java"
    bytes.extend_from_slice(b"Dummy.java");
    bytes.extend_from_slice(&[
        0x00, 0x21, // access flags: public | super
        0x00, 0x02, // this class
        0x00, 0x02, // super class (self-referential, enough for the codec)
        0x00, 0x00, // interfaces count
        0x00, 0x00, // fields count
        0x00, 0x00, // methods count
        0x00, 0x01, // attributes count
        0x00, 0x05, // attribute name -> "SourceFile"
        0x00, 0x00, 0x00, 0x02, // attribute length
        0x00, 0x06, // payload: index of "Dummy.java"
    ]);
    bytes
}

#[test]
fn test_write_cp_index_bounds() {
    let mut buf = Vec::with_capacity(4);
    assert!(write_cp_index(&mut buf, 0).is_err(), "Expected error");
    assert!(write_cp_index(&mut buf, 1).is_ok(), "Expected Ok");
    assert!(
        write_cp_index(&mut buf, u16::MAX as ConstantPoolIndex).is_ok(),
        "Expected Ok"
    );
    assert!(
        write_cp_index(&mut buf, u16::MAX as ConstantPoolIndex + 1).is_err(),
        "Expected error"
    );
}

#[test]
fn parse_and_write_round_trip() {
    let bytes = sample_class_bytes();
    let class_file = read_class_file(&bytes).unwrap();
    let rewritten = write_class_file(&class_file).unwrap();
    let class_file_2 = read_class_file(&rewritten).unwrap();
    assert_eq!(class_file, class_file_2);
}

#[test]
fn parse_sample_class_resolutions() {
    let bytes = sample_class_bytes();
    let class_file = read_class_file(&bytes).unwrap();
    assert_eq!("Dummy", class_file.get_class_name().unwrap());
    assert_eq!(
        Some("Dummy.java".to_string()),
        class_file.get_source_file_name().unwrap()
    );
    assert_eq!(
        &ConstantPoolEntry::ConstantLong { val: 0x42 },
        class_file.get_constant(3).unwrap()
    );
    // the slot after a Long is the empty sentinel, and resolving it as a
    // Utf8 entry is a resolution error
    assert_eq!(
        &ConstantPoolEntry::ConstantEmptySlot {},
        class_file.get_constant(4).unwrap()
    );
    assert!(matches!(
        class_file.get_constant_utf8(4),
        Err(ClassFileError::Resolution { index: 4 })
    ));
    // index 0 is never valid
    assert!(matches!(
        class_file.get_constant(0),
        Err(ClassFileError::Resolution { index: 0 })
    ));
}

#[test]
fn encode_rejects_this_class_zero() {
    let bytes = sample_class_bytes();
    let mut class_file = read_class_file(&bytes).unwrap();
    class_file.this_class = 0;
    assert!(matches!(
        write_class_file(&class_file),
        Err(ClassFileError::Range { value: 0 })
    ));
}

#[test]
fn encode_rejects_this_class_above_index_range() {
    let bytes = sample_class_bytes();
    let mut class_file = read_class_file(&bytes).unwrap();
    class_file.this_class = 65536;
    assert!(matches!(
        write_class_file(&class_file),
        Err(ClassFileError::Range { value: 65536 })
    ));
}

#[test]
fn unrecognized_attribute_round_trips_payload_verbatim() {
    let bytes = sample_class_bytes();
    let mut class_file = read_class_file(&bytes).unwrap();
    // attach an attribute whose name ("Dummy") no typed view recognizes
    class_file.attributes.attributes.push(Attribute {
        attribute_name_index: 1,
        info: vec![0xde, 0xad, 0xbe, 0xef, 0x00],
    });
    let rewritten = write_class_file(&class_file).unwrap();
    let class_file_2 = read_class_file(&rewritten).unwrap();
    assert_eq!(class_file, class_file_2);
    assert_eq!(
        vec![0xde, 0xad, 0xbe, 0xef, 0x00],
        class_file_2.attributes.attributes[1].info
    );
}

#[test]
fn code_attribute_decodes_and_method_lookup_finds_it() {
    let bytes = sample_class_bytes();
    let mut class_file = read_class_file(&bytes).unwrap();
    // give the pool a "Code" entry and the class one method carrying a
    // Code attribute
    class_file
        .constant_pool
        .push(ConstantPoolEntry::ConstantUtf8 {
            string: "Code".to_string(),
        });
    let code_name_index = class_file.constant_pool.len(); // 1-based
    let code_info = vec![
        0, 1, // max_stack
        0, 1, // max_locals
        0, 0, 0, 5, // code_length
        42, 183, 0, 1, 177, // aload_0; invokespecial #1; return
        0, 0, // exception table length
        0, 0, // attributes count
    ];
    class_file.methods.push(Method {
        access_flags: 1,
        name_index: 1,
        descriptor_index: 1,
        attributes: AttributeSet {
            attributes: vec![Attribute {
                attribute_name_index: code_name_index,
                info: code_info,
            }],
        },
    });
    let code = class_file.methods[0].get_code(&class_file).unwrap();
    assert_eq!(
        Some(Code {
            max_stack: 1,
            max_locals: 1,
            code: vec![
                (0, Bytecode::Aload_0),
                (1, Bytecode::Invokespecial(1)),
                (4, Bytecode::Return),
            ],
            exception_table: vec![],
            attributes: AttributeSet { attributes: vec![] },
        }),
        code
    );
    // and the extended class still survives a full round trip
    let rewritten = write_class_file(&class_file).unwrap();
    let class_file_2 = read_class_file(&rewritten).unwrap();
    assert_eq!(class_file, class_file_2);
}

#[test]
fn code_with_exception_table_decodes() {
    let info = vec![
        0, 2, // max_stack
        0, 3, // max_locals
        0, 0, 0, 2, // code_length
        42, 177, // aload_0; return
        0, 1, // exception table length
        0, 0, 0, 1, 0, 1, 0, 0, // start 0, end 1, handler 1, catch-all
        0, 0, // attributes count
    ];
    let code = Code::from_bytes(&info).unwrap();
    assert_eq!(2, code.max_stack);
    assert_eq!(3, code.max_locals);
    assert_eq!(
        vec![ExceptionTableEntry {
            start_pc: 0,
            end_pc: 1,
            handler_pc: 1,
            catch_type: 0,
        }],
        code.exception_table
    );
}

#[test]
fn exception_table_entry_decodes_from_eight_bytes() {
    let bytes = vec![0, 1, 0, 9, 0, 12, 0, 3];
    assert_eq!(
        ExceptionTableEntry {
            start_pc: 1,
            end_pc: 9,
            handler_pc: 12,
            catch_type: 3,
        },
        ExceptionTableEntry::from_bytes(&bytes)
    );
}

#[test]
fn instruction_stream_encodes_and_redecodes() {
    let code = vec![
        (0, Bytecode::Aload_0),
        (1, Bytecode::Ldc(7)),
        (3, Bytecode::Goto(0xfffe)),
        (6, Bytecode::Return),
    ];
    let bytes = Bytecode::to_bytes(&code);
    assert_eq!(vec![42, 18, 7, 167, 0xff, 0xfe, 177], bytes);
    assert_eq!(code, Bytecode::from_bytes(&bytes).unwrap());
}

#[test]
fn get_signature_reads_two_byte_payload() {
    let bytes = sample_class_bytes();
    let mut class_file = read_class_file(&bytes).unwrap();
    class_file
        .constant_pool
        .push(ConstantPoolEntry::ConstantUtf8 {
            string: "Signature".to_string(),
        });
    let sig_name_index = class_file.constant_pool.len();
    class_file.attributes.attributes.push(Attribute {
        attribute_name_index: sig_name_index,
        info: vec![0, 1], // -> Utf8 "Dummy"
    });
    assert_eq!(
        Ok(Some("Dummy".to_string())),
        class_file.attributes.get_signature(&class_file)
    );
}

#[test]
fn get_signature_rejects_wrong_payload_length() {
    let bytes = sample_class_bytes();
    let mut class_file = read_class_file(&bytes).unwrap();
    class_file
        .constant_pool
        .push(ConstantPoolEntry::ConstantUtf8 {
            string: "Signature".to_string(),
        });
    let sig_name_index = class_file.constant_pool.len();
    class_file.attributes.attributes.push(Attribute {
        attribute_name_index: sig_name_index,
        info: vec![0, 1, 2],
    });
    assert!(matches!(
        class_file.attributes.get_signature(&class_file),
        Err(ClassFileError::Resolution { .. })
    ));
}

#[test]
fn name_and_type_renders_quoted_name_and_descriptor() {
    let bytes = sample_class_bytes();
    let mut class_file = read_class_file(&bytes).unwrap();
    class_file
        .constant_pool
        .push(ConstantPoolEntry::ConstantUtf8 {
            string: "<init>".to_string(),
        });
    class_file
        .constant_pool
        .push(ConstantPoolEntry::ConstantUtf8 {
            string: "()V".to_string(),
        });
    let nat_index = class_file.constant_pool.len() + 1;
    class_file
        .constant_pool
        .push(ConstantPoolEntry::ConstantNameAndType {
            name_index: nat_index - 2,
            descriptor_index: nat_index - 1,
        });
    assert_eq!(
        "\"<init>\":()V",
        class_file
            .get_constant_name_and_type_str(nat_index)
            .unwrap()
    );
}

#[test]
fn instruction_text_forms() {
    assert_eq!("aconst_null", Bytecode::Aconst_null.to_string(2));
    assert_eq!("ifeq          15", Bytecode::Ifeq(5).to_string(10));
    assert_eq!("ldc           #7", Bytecode::Ldc(7).to_string(0));
    assert_eq!("checkcast     #3", Bytecode::Checkcast(3).to_string(1));
    assert_eq!("invokespecial #1", Bytecode::Invokespecial(1).to_string(1));
    // an unsigned branch operand used as a backward target goes past
    // 65535 without overflow in the display
    assert_eq!("goto          131070", Bytecode::Goto(65535).to_string(65535));
}

#[test]
fn every_pool_entry_kind_round_trips() {
    let mut bytes = vec![
        0xca, 0xfe, 0xba, 0xbe, 0x00, 0x00, 0x00, 0x34, 0x00,
        0x14, // constant pool count: 19 slots + 1
        0x01, 0x00, 0x01, b'A', // #1 Utf8
        0x03, 0xff, 0xff, 0xff, 0xfe, // #2 Integer -2
        0x04, 0x42, 0x28, 0x00, 0x00, // #3 Float bits
        0x05, 0x00, 0x00, 0x00, 0x00, 0x00, 0x00, 0x00, 0x2a, // #4 Long (fills #5)
        0x06, 0xc0, 0x00, 0x00, 0x00, 0x00, 0x00, 0x00, 0x00, // #6 Double (fills #7)
        0x07, 0x00, 0x01, // #8 Class
        0x08, 0x00, 0x01, // #9 String
        0x09, 0x00, 0x08, 0x00, 0x0d, // #10 Fieldref
        0x0a, 0x00, 0x08, 0x00, 0x0d, // #11 Methodref
        0x0b, 0x00, 0x08, 0x00, 0x0d, // #12 InterfaceMethodref
        0x0c, 0x00, 0x01, 0x00, 0x01, // #13 NameAndType
        0x0f, 0x05, 0x00, 0x0b, // #14 MethodHandle
        0x10, 0x00, 0x01, // #15 MethodType
        0x11, 0x00, 0x00, 0x00, 0x0d, // #16 Dynamic
        0x12, 0x00, 0x00, 0x00, 0x0d, // #17 InvokeDynamic
        0x13, 0x00, 0x01, // #18 Module
        0x14, 0x00, 0x01, // #19 Package
    ];
    bytes.extend_from_slice(&[
        0x00, 0x21, // access flags
        0x00, 0x08, // this class
        0x00, 0x08, // super class
        0x00, 0x01, 0x00, 0x08, // one interface
        0x00, 0x01, // one field
        0x00, 0x02, 0x00, 0x01, 0x00, 0x01, 0x00, 0x00, // private field, no attributes
        0x00, 0x01, // one method
        0x00, 0x01, 0x00, 0x01, 0x00, 0x01, 0x00, 0x00, // public method, no attributes
        0x00, 0x00, // no attributes
    ]);
    let class_file = read_class_file(&bytes).unwrap();
    assert_eq!(19, class_file.constant_pool.len());
    assert_eq!(
        ConstantPoolEntry::ConstantInteger { val: -2 },
        class_file.constant_pool[1]
    );
    assert_eq!(
        ConstantPoolEntry::ConstantFloat { bits: 0x4228_0000 },
        class_file.constant_pool[2]
    );
    assert_eq!(
        ConstantPoolEntry::ConstantDouble {
            bits: 0xc000_0000_0000_0000
        },
        class_file.constant_pool[5]
    );
    let rewritten = write_class_file(&class_file).unwrap();
    let class_file_2 = read_class_file(&rewritten).unwrap();
    assert_eq!(class_file, class_file_2);
}

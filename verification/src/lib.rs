//! A verified decoder and encoder for the JVM class file container format:
//! the tagged constant pool with its double-width slot rule, the generic
//! attribute mechanism, the bytecode instruction stream of `Code` attributes,
//! and the byte-exact writer whose output re-decodes to the same model.

pub mod attribute;
pub mod bytecode;
pub mod class_access;
pub mod class_file;
pub mod constant_pool;
pub mod error;
pub mod field;
pub mod field_access;
pub mod method;
pub mod parsing;
pub mod util;
pub mod wire;
pub mod writing;

pub use attribute::{Attribute, AttributeSet, Code, ExceptionTableEntry};
pub use bytecode::Bytecode;
pub use class_access::ClassAccess;
pub use class_file::ClassFile;
pub use constant_pool::{ConstantPoolEntry, ConstantPoolIndex};
pub use error::ClassFileError;
pub use field::Field;
pub use field_access::FieldAccess;
pub use method::Method;
pub use parsing::{read_attributes, read_class_file};
pub use util::flag_is_set;
pub use writing::write_class_file;

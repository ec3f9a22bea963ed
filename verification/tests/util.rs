use jvm_class_file_parser::flag_is_set;
use jvm_class_file_parser::{ClassAccess, FieldAccess};

#[test]
fn flag_is_set_finds_a_set_flag() {
    let public_flag = 0b0000_0000_0000_0001;
    let access_flags = 0b0000_0000_0000_1001;

    assert_eq!(true, flag_is_set(public_flag, access_flags))
}

#[test]
fn flag_is_set_does_not_find_a_missing_flag() {
    let volatile_flag = 0b0000_0000_0100_0000;
    let access_flags = 0b0000_0000_0000_1001;

    assert_eq!(false, flag_is_set(volatile_flag, access_flags))
}

#[test]
fn class_access_flags_decode_in_canonical_order() {
    let access_flags = 0b0000_0010_0000_0001;
    assert_eq!(
        Ok(vec![ClassAccess::Public, ClassAccess::Interface]),
        ClassAccess::from_access_flags(access_flags)
    );
}

#[test]
fn class_access_flags_survive_a_round_trip() {
    let decoded = ClassAccess::from_access_flags(0x0021).unwrap();
    assert_eq!(vec![ClassAccess::Public, ClassAccess::Super], decoded);
    let mask = ClassAccess::to_access_flags(&decoded);
    assert_eq!(0x0021, mask);
    assert_eq!(Ok(decoded), ClassAccess::from_access_flags(mask));
}

#[test]
fn field_access_flags_decode_in_canonical_order() {
    let access_flags = 0b0000_0000_0100_0001;
    assert_eq!(
        Ok(vec![FieldAccess::Public, FieldAccess::Volatile]),
        FieldAccess::from_access_flags(access_flags)
    );
}

#[test]
fn unknown_flag_bits_are_dropped() {
    // 0x0002 is not a class access bit combination that is kept: only the
    // nine known bits survive
    let decoded = ClassAccess::from_access_flags(0x0002).unwrap();
    assert_eq!(Vec::<ClassAccess>::new(), decoded);
}

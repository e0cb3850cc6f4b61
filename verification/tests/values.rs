//! Byte compatibility, dynamic values and build-time configuration.

use hdf5_types::array::VarLenArray;
use hdf5_types::config::CapabilityFlags;
use hdf5_types::config::Version;
use hdf5_types::config::emit_cfg_flags;
use hdf5_types::config::require_version;
use hdf5_types::dyn_value::DynValue;
use hdf5_types::dyn_value::OwnedDynValue;
use hdf5_types::h5type::CompoundType;
use hdf5_types::h5type::FloatSize;
use hdf5_types::h5type::H5Type;
use hdf5_types::h5type::IntSize;
use hdf5_types::h5type::TypeDescriptor;

fn point(kind_x: TypeDescriptor, kind_y: TypeDescriptor) -> TypeDescriptor {
    let c = CompoundType::build(vec![
        ("x".to_string(), kind_x),
        ("y".to_string(), kind_y),
    ])
    .unwrap();
    TypeDescriptor::Compound(c)
}

#[test]
fn identical_compound_definitions_are_compatible() {
    let a = point(
        TypeDescriptor::Integer(IntSize::U4),
        TypeDescriptor::Float(FloatSize::U8),
    );
    let b = point(
        TypeDescriptor::Integer(IntSize::U4),
        TypeDescriptor::Float(FloatSize::U8),
    );
    assert!(a.is_compatible_with(&b));
    assert!(b.is_compatible_with(&a));
}

#[test]
fn changed_definitions_are_incompatible() {
    let base = point(
        TypeDescriptor::Integer(IntSize::U4),
        TypeDescriptor::Float(FloatSize::U8),
    );
    let reordered = point(
        TypeDescriptor::Float(FloatSize::U8),
        TypeDescriptor::Integer(IntSize::U4),
    );
    assert!(!base.is_compatible_with(&reordered));
    let other_type = point(
        TypeDescriptor::Integer(IntSize::U8),
        TypeDescriptor::Float(FloatSize::U8),
    );
    assert!(!base.is_compatible_with(&other_type));
    let fewer = CompoundType::build(vec![(
        "x".to_string(),
        TypeDescriptor::Integer(IntSize::U4),
    )])
    .unwrap();
    assert!(!base.is_compatible_with(&TypeDescriptor::Compound(fewer)));
}

#[test]
fn renamed_field_is_incompatible() {
    let a = TypeDescriptor::Compound(
        CompoundType::build(vec![("x".to_string(), TypeDescriptor::Boolean)]).unwrap(),
    );
    let b = TypeDescriptor::Compound(
        CompoundType::build(vec![("y".to_string(), TypeDescriptor::Boolean)]).unwrap(),
    );
    assert!(!a.is_compatible_with(&b));
}

#[test]
fn reinterpret_succeeds_iff_compatible() {
    let td = <i32 as H5Type>::type_descriptor();
    let same = <i32 as H5Type>::type_descriptor();
    let other = <u32 as H5Type>::type_descriptor();
    let bytes = [1u8, 2, 3, 4];
    let v = DynValue::new(&td, &bytes);
    assert_eq!(v.bytes(), &bytes);
    let ok = v.reinterpret(&same).unwrap();
    assert_eq!(ok.bytes(), &bytes);
    assert!(v.reinterpret(&other).is_err());
}

#[test]
fn owned_copy_outlives_borrowed_source() {
    let td = <u16 as H5Type>::type_descriptor();
    let owned = {
        let storage = vec![0xABu8, 0xCD];
        let borrowed = DynValue::new(&td, &storage);
        OwnedDynValue::from_borrowed(&borrowed)
    };
    assert_eq!(owned.bytes(), &[0xAB, 0xCD]);
    assert!(matches!(
        owned.descriptor(),
        TypeDescriptor::Unsigned(IntSize::U2)
    ));
}

#[test]
fn zeroed_owned_value_matches_descriptor_size() {
    let td = point(
        TypeDescriptor::Integer(IntSize::U4),
        TypeDescriptor::Float(FloatSize::U8),
    );
    let v = OwnedDynValue::zeroed(td);
    assert_eq!(v.bytes(), &[0u8; 16][..]);
    let d = v.as_dyn();
    assert_eq!(d.bytes().len(), 16);
}

#[test]
fn primitive_descriptors() {
    assert!(matches!(
        <i8 as H5Type>::type_descriptor(),
        TypeDescriptor::Integer(IntSize::U1)
    ));
    assert!(matches!(
        <i64 as H5Type>::type_descriptor(),
        TypeDescriptor::Integer(IntSize::U8)
    ));
    assert!(matches!(
        <u8 as H5Type>::type_descriptor(),
        TypeDescriptor::Unsigned(IntSize::U1)
    ));
    assert!(matches!(
        <u64 as H5Type>::type_descriptor(),
        TypeDescriptor::Unsigned(IntSize::U8)
    ));
    assert!(matches!(
        <bool as H5Type>::type_descriptor(),
        TypeDescriptor::Boolean
    ));
    assert_eq!(<i16 as H5Type>::type_descriptor().byte_size(), 2);
    assert_eq!(<u32 as H5Type>::type_descriptor().byte_align(), 4);
}

#[test]
fn var_len_array_is_a_plain_handle() {
    let h = VarLenArray::from_parts(0x1000, 5);
    assert_eq!(h.address, 0x1000);
    assert_eq!(h.count, 5);
    assert!(!h.is_empty());
    let e = VarLenArray::empty();
    assert!(e.is_empty());
    assert_eq!(e.address, 0);
}

#[test]
fn emit_cfg_flags_lists_present_capabilities_in_order() {
    let all = CapabilityFlags {
        version_at_least_1_10_5: true,
        have_direct: true,
        have_parallel: true,
        have_threadsafe: true,
    };
    assert_eq!(
        emit_cfg_flags(&all),
        vec![
            "hdf5_1_10_5".to_string(),
            "h5_have_direct".to_string(),
            "h5_have_parallel".to_string(),
            "h5_have_threadsafe".to_string(),
        ]
    );
    let none = CapabilityFlags {
        version_at_least_1_10_5: false,
        have_direct: false,
        have_parallel: false,
        have_threadsafe: false,
    };
    assert!(emit_cfg_flags(&none).is_empty());
    let some = CapabilityFlags {
        version_at_least_1_10_5: true,
        have_direct: false,
        have_parallel: false,
        have_threadsafe: true,
    };
    assert_eq!(
        emit_cfg_flags(&some),
        vec!["hdf5_1_10_5".to_string(), "h5_have_threadsafe".to_string()]
    );
}

#[test]
fn require_version_reports_detected_and_required() {
    let detected = Version { major: 1, minor: 8, micro: 4 };
    let minimum = Version { major: 1, minor: 8, micro: 4 };
    assert!(require_version(detected, minimum).is_ok());
    let newer = Version { major: 1, minor: 10, micro: 0 };
    assert!(require_version(newer, minimum).is_ok());
    let older = Version { major: 1, minor: 6, micro: 10 };
    let e = require_version(older, minimum).unwrap_err();
    assert_eq!(e.detected, older);
    assert_eq!(e.required, minimum);
    assert!(older.at_least(&older));
    assert!(!older.at_least(&minimum));
}

#[test]
fn write_read_round_trip_for_primitives() {
    assert_eq!(0xABCDu16.write_bytes(), vec![0xCD, 0xAB]);
    assert_eq!(u16::read_bytes(&[0xCD, 0xAB]), 0xABCD);
    assert_eq!((-2i32).write_bytes(), vec![0xFE, 0xFF, 0xFF, 0xFF]);
    assert_eq!(i32::read_bytes(&[0xFE, 0xFF, 0xFF, 0xFF]), -2);
    assert_eq!(0x0102030405060708u64.write_bytes().len(), 8);
    assert_eq!(
        u64::read_bytes(&0x0102030405060708u64.write_bytes()),
        0x0102030405060708
    );
    assert_eq!(i64::read_bytes(&(-5i64).write_bytes()), -5);
    assert_eq!(i16::read_bytes(&(-300i16).write_bytes()), -300);
    assert_eq!(true.write_bytes(), vec![1]);
    assert_eq!(false.write_bytes(), vec![0]);
    assert!(bool::read_bytes(&[1]));
    assert!(!bool::read_bytes(&[0]));
    assert_eq!(i8::read_bytes(&(-7i8).write_bytes()), -7);
    assert_eq!(u8::read_bytes(&[0x7F]), 0x7F);
    assert_eq!(0x7Fu8.write_bytes(), vec![0x7F]);
}

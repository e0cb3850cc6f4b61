//! Compound layout and enumeration behaviour on concrete definitions.

use hdf5_types::h5type::CompoundType;
use hdf5_types::h5type::EnumType;
use hdf5_types::h5type::FloatSize;
use hdf5_types::h5type::IntSize;
use hdf5_types::h5type::LayoutError;
use hdf5_types::h5type::TypeDescriptor;

fn int_field(name: &str, size: IntSize) -> (String, TypeDescriptor) {
    (name.to_string(), TypeDescriptor::Integer(size))
}

#[test]
fn compound_int_then_float_is_padded() {
    let defs = vec![
        ("x".to_string(), TypeDescriptor::Integer(IntSize::U4)),
        ("y".to_string(), TypeDescriptor::Float(FloatSize::U8)),
    ];
    let c = CompoundType::build(defs).unwrap();
    assert_eq!(c.fields.len(), 2);
    assert_eq!(c.fields[0].offset, 0);
    assert_eq!(c.fields[1].offset, 8);
    assert_eq!(c.size, 16);
    assert_eq!(c.align, 8);
    assert_eq!(c.fields[0].name, "x");
    assert_eq!(c.fields[1].name, "y");
}

#[test]
fn compound_size_is_multiple_of_align_and_fields_fit() {
    let defs = vec![
        int_field("a", IntSize::U1),
        int_field("b", IntSize::U2),
        int_field("c", IntSize::U1),
    ];
    let c = CompoundType::build(defs).unwrap();
    assert_eq!(c.fields[0].offset, 0);
    assert_eq!(c.fields[1].offset, 2);
    assert_eq!(c.fields[2].offset, 4);
    assert_eq!(c.align, 2);
    assert_eq!(c.size, 6);
    assert_eq!(c.size % c.align, 0);
    let sizes = [1usize, 2, 1];
    for (i, f) in c.fields.iter().enumerate() {
        assert!(f.offset + sizes[i] <= c.size);
    }
}

#[test]
fn compound_duplicate_field_name_fails() {
    let defs = vec![int_field("a", IntSize::U4), int_field("a", IntSize::U8)];
    assert!(matches!(
        CompoundType::build(defs),
        Err(LayoutError::DuplicateFieldName)
    ));
}

#[test]
fn compound_empty_fails() {
    assert!(matches!(
        CompoundType::build(Vec::new()),
        Err(LayoutError::EmptyCompound)
    ));
}

#[test]
fn compound_nested_uses_inner_layout() {
    let inner = CompoundType::build(vec![
        int_field("lo", IntSize::U2),
        int_field("hi", IntSize::U4),
    ])
    .unwrap();
    assert_eq!(inner.size, 8);
    assert_eq!(inner.align, 4);
    let outer = CompoundType::build(vec![
        int_field("tag", IntSize::U1),
        ("body".to_string(), TypeDescriptor::Compound(inner)),
    ])
    .unwrap();
    assert_eq!(outer.fields[0].offset, 0);
    assert_eq!(outer.fields[1].offset, 4);
    assert_eq!(outer.size, 12);
    assert_eq!(outer.align, 4);
}

fn color_enum() -> EnumType {
    EnumType::build(
        IntSize::U2,
        false,
        vec![
            ("red".to_string(), 1),
            ("green".to_string(), 2),
            ("blue".to_string(), 7),
        ],
    )
    .unwrap()
}

#[test]
fn enum_round_trip_by_value_and_name() {
    let e = color_enum();
    assert_eq!(e.byte_size(), 2);
    for (name, value) in [("red", 1i64), ("green", 2), ("blue", 7)] {
        assert_eq!(e.member_name(value), Some(name));
        assert_eq!(e.member_value(name), Some(value));
    }
    assert_eq!(e.member_name(3), None);
    assert_eq!(e.member_value("cyan"), None);
}

#[test]
fn enum_duplicate_name_fails() {
    let r = EnumType::build(
        IntSize::U1,
        false,
        vec![("on".to_string(), 0), ("on".to_string(), 1)],
    );
    assert!(matches!(r, Err(LayoutError::DuplicateEnumName)));
}

#[test]
fn enum_duplicate_value_fails() {
    let r = EnumType::build(
        IntSize::U1,
        false,
        vec![("on".to_string(), 1), ("off".to_string(), 1)],
    );
    assert!(matches!(r, Err(LayoutError::DuplicateEnumValue)));
}

#[test]
fn enum_value_overflow_fails() {
    let r = EnumType::build(IntSize::U1, false, vec![("big".to_string(), 300)]);
    assert!(matches!(r, Err(LayoutError::EnumValueOverflow)));
    let r = EnumType::build(IntSize::U1, true, vec![("big".to_string(), 128)]);
    assert!(matches!(r, Err(LayoutError::EnumValueOverflow)));
    let r = EnumType::build(IntSize::U1, true, vec![("low".to_string(), -128)]);
    assert!(r.is_ok());
    let r = EnumType::build(IntSize::U8, false, vec![("neg".to_string(), -1)]);
    assert!(matches!(r, Err(LayoutError::EnumValueOverflow)));
}

#[test]
fn descriptor_sizes_and_alignments() {
    assert_eq!(TypeDescriptor::Boolean.byte_size(), 1);
    assert_eq!(TypeDescriptor::Integer(IntSize::U8).byte_size(), 8);
    assert_eq!(TypeDescriptor::Float(FloatSize::U4).byte_align(), 4);
    let arr = TypeDescriptor::FixedArray(Box::new(TypeDescriptor::Integer(IntSize::U4)), 3);
    assert_eq!(arr.byte_size(), 12);
    assert_eq!(arr.byte_align(), 4);
    let vla = TypeDescriptor::VarLenArray(Box::new(TypeDescriptor::Integer(IntSize::U2)));
    assert_eq!(vla.byte_size(), 16);
    assert_eq!(vla.byte_align(), 8);
    assert_eq!(TypeDescriptor::FixedAscii(10).byte_size(), 10);
    assert_eq!(TypeDescriptor::FixedAscii(10).byte_align(), 1);
    assert_eq!(TypeDescriptor::VarLenAscii.byte_size(), 8);
    assert_eq!(TypeDescriptor::VarLenUnicode.byte_align(), 8);
}

#[test]
fn compound_with_string_and_handle_fields() {
    let defs = vec![
        ("tag".to_string(), TypeDescriptor::FixedAscii(3)),
        ("text".to_string(), TypeDescriptor::VarLenAscii),
        ("flag".to_string(), TypeDescriptor::Boolean),
    ];
    let c = CompoundType::build(defs).unwrap();
    assert_eq!(c.fields[0].offset, 0);
    assert_eq!(c.fields[1].offset, 8);
    assert_eq!(c.fields[2].offset, 16);
    assert_eq!(c.align, 8);
    assert_eq!(c.size, 24);
}

#[test]
fn compound_with_fixed_array_field() {
    let arr = TypeDescriptor::FixedArray(Box::new(TypeDescriptor::Integer(IntSize::U2)), 3);
    let c = CompoundType::build(vec![
        ("head".to_string(), TypeDescriptor::Integer(IntSize::U1)),
        ("body".to_string(), arr),
    ])
    .unwrap();
    assert_eq!(c.fields[0].offset, 0);
    assert_eq!(c.fields[1].offset, 2);
    assert_eq!(c.align, 2);
    assert_eq!(c.size, 8);
}

#[test]
fn single_field_compound_is_its_own_layout() {
    let c = CompoundType::build(vec![(
        "only".to_string(),
        TypeDescriptor::Integer(IntSize::U8),
    )])
    .unwrap();
    assert_eq!(c.fields[0].offset, 0);
    assert_eq!(c.size, 8);
    assert_eq!(c.align, 8);
}

#[test]
fn empty_enum_is_valid_but_decodes_nothing() {
    let e = EnumType::build(IntSize::U4, true, Vec::new()).unwrap();
    assert_eq!(e.byte_size(), 4);
    assert_eq!(e.member_name(0), None);
    assert_eq!(e.member_value(""), None);
}

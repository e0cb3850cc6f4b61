//! Fixed- and variable-capacity string construction and read-back.

use hdf5_types::string::FixedAscii;
use hdf5_types::string::FixedUnicode;
use hdf5_types::string::StringError;
use hdf5_types::string::VarLenAscii;
use hdf5_types::string::VarLenUnicode;

#[test]
fn fixed_ascii_round_trip_with_zero_padding() {
    let fa = FixedAscii::from_str("hello", 8).unwrap();
    assert_eq!(fa.capacity(), 8);
    assert_eq!(fa.len(), 5);
    assert_eq!(fa.raw_bytes(), b"hello\0\0\0");
    assert_eq!(fa.content_bytes(), b"hello".to_vec());
}

#[test]
fn fixed_ascii_fits_up_to_capacity_minus_one() {
    assert!(FixedAscii::from_str("hello", 6).is_ok());
    assert!(matches!(
        FixedAscii::from_str("hello", 5),
        Err(StringError::TooLong)
    ));
    assert!(matches!(
        FixedAscii::from_str("", 0),
        Err(StringError::TooLong)
    ));
    let empty = FixedAscii::from_str("", 1).unwrap();
    assert_eq!(empty.raw_bytes(), b"\0");
}

#[test]
fn fixed_ascii_rejects_non_ascii() {
    assert!(matches!(
        FixedAscii::from_str("h\u{e9}llo", 32),
        Err(StringError::InvalidEncoding)
    ));
}

#[test]
fn fixed_unicode_round_trip() {
    let s = "h\u{e9}llo";
    assert_eq!(s.len(), 6);
    let fu = FixedUnicode::from_str(s, 8).unwrap();
    assert_eq!(fu.capacity(), 8);
    assert_eq!(fu.len(), 6);
    assert_eq!(fu.content_bytes(), s.as_bytes().to_vec());
    assert_eq!(&fu.raw_bytes()[6..], b"\0\0");
    assert!(matches!(
        FixedUnicode::from_str(s, 6),
        Err(StringError::TooLong)
    ));
    assert!(FixedUnicode::from_str(s, 7).is_ok());
}

#[test]
fn var_len_ascii_validates_charset_only() {
    let va = VarLenAscii::from_str("a long ascii string of unconstrained length").unwrap();
    assert_eq!(va.len(), 43);
    assert_eq!(va.as_bytes(), b"a long ascii string of unconstrained length");
    assert!(matches!(
        VarLenAscii::from_str("caf\u{e9}"),
        Err(StringError::InvalidEncoding)
    ));
}

#[test]
fn var_len_unicode_always_succeeds() {
    let vu = VarLenUnicode::from_str("\u{3b1}\u{3b2}");
    assert_eq!(vu.len(), 4);
    assert_eq!(vu.as_bytes(), "\u{3b1}\u{3b2}".as_bytes());
    let empty = VarLenUnicode::from_str("");
    assert_eq!(empty.len(), 0);
}

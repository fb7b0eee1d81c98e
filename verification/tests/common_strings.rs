use fault_manager::common::fixed_string::{FixedString, StringModificationError};
use fault_manager::common::fixed_vec::{CapacityExceeded, FixedVec};
use fault_manager::common::types::{
    to_static_long_string, to_static_short_string, LongString, ShortString,
};

#[test]
fn short_strings_hold_up_to_64_bytes() {
    let text = "a".repeat(64);
    let s = to_static_short_string(&text).unwrap();
    assert_eq!(s.len(), 64);
    assert_eq!(s.to_string(), text);
    assert_eq!(
        to_static_short_string(&"a".repeat(65)),
        Err(StringModificationError::InsertWouldExceedCapacity)
    );
}

#[test]
fn long_strings_hold_up_to_128_bytes() {
    assert_eq!(to_static_long_string(&"b".repeat(128)).unwrap().len(), 128);
    assert!(to_static_long_string(&"b".repeat(129)).is_err());
}

#[test]
fn strings_refuse_other_characters() {
    assert_eq!(to_static_short_string("caf\u{e9}"), Err(StringModificationError::InvalidCharacter));
    assert_eq!(
        FixedString::<8>::from_bytes(&[65, 0, 66]),
        Err(StringModificationError::InvalidCharacter)
    );
}

#[test]
fn truncation_keeps_the_beginning() {
    let s = FixedString::<4>::from_str_truncated("abcdefg").unwrap();
    assert_eq!(s.to_bytes(), b"abcd".to_vec());
    let all = ShortString::from_str_truncated("abc").unwrap();
    assert_eq!(all.to_string(), "abc");
    assert!(LongString::from_str_truncated("\u{fc}ber").is_err());
}

#[test]
fn unprintable_characters_are_escaped() {
    let s = to_static_short_string("a\tb\nc\rd\u{1}").unwrap();
    assert_eq!(s.to_string(), "a\\tb\\nc\\rd\\x01");
}

#[test]
fn equal_contents_are_equal_strings() {
    let a = to_static_short_string("same").unwrap();
    let b = ShortString::from_str_truncated("same").unwrap();
    assert_eq!(a, b);
    assert_ne!(a, to_static_short_string("other").unwrap());
    assert_eq!(a.byte_at(0), b's');
}

#[test]
fn vectors_refuse_what_does_not_fit() {
    let mut v: FixedVec<u8, 2> = FixedVec::new();
    assert!(v.is_empty());
    assert_eq!(v.push(1), Ok(()));
    assert_eq!(v.push(2), Ok(()));
    assert_eq!(v.push(3), Err(CapacityExceeded));
    assert_eq!(v.to_vec(), vec![1, 2]);
    assert_eq!(v.at(1), 2);
    assert_eq!(FixedVec::<u8, 2>::try_from(&[1, 2]).unwrap(), v);
    assert_eq!(FixedVec::<u8, 2>::try_from(&[1, 2, 3]), Err(CapacityExceeded));
}

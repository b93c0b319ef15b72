use decimal_digits::convert::{digits_from_int, int_from_digits};
use decimal_digits::error::ConversionError;

#[test]
fn digits_from_works() {
    assert_eq!(digits_from_int(42), Ok(vec![4, 2]));
}

#[test]
fn digits_from_works_with_zero() {
    assert_eq!(digits_from_int(0), Ok(vec![0]));
}

#[test]
fn digits_from_works_with_zeros() {
    assert_eq!(digits_from_int(00), Ok(vec![0]));
}

#[test]
fn digits_from_works_with_u8_max() {
    assert_eq!(digits_from_int(u8::MAX), Ok(vec![2, 5, 5]));
}

#[test]
fn digits_from_works_with_u16_max() {
    assert_eq!(digits_from_int(u16::MAX), Ok(vec![6, 5, 5, 3, 5]));
}

#[test]
fn digits_from_works_with_u32_max() {
    assert_eq!(
        digits_from_int(u32::MAX),
        Ok(vec![4, 2, 9, 4, 9, 6, 7, 2, 9, 5])
    );
}

#[test]
fn digits_from_works_with_u64_max() {
    assert_eq!(
        digits_from_int(u64::MAX),
        Ok(vec![
            1, 8, 4, 4, 6, 7, 4, 4, 0, 7, 3, 7, 0, 9, 5, 5, 1, 6, 1, 5
        ])
    );
}

#[test]
fn digits_from_throws_error_with_negative_number() {
    assert_eq!(
        digits_from_int(-42),
        Err(ConversionError::new(
            "unable to convert from negative integer to digits"
        ))
    );
}

#[test]
fn from_digits_works() {
    let v = vec![4, 2];
    assert_eq!(int_from_digits(v), 42);
}

#[test]
fn from_digits_works_with_zero() {
    assert_eq!(int_from_digits(vec![0]), 0);
}

#[test]
fn from_digits_works_with_u8_max() {
    assert_eq!(int_from_digits(vec![2, 5, 5]), u8::MAX);
}

#[test]
fn from_digits_works_with_u16_max() {
    assert_eq!(int_from_digits(vec![6, 5, 5, 3, 5]), u16::MAX);
}

#[test]
fn from_digits_works_with_u32_max() {
    assert_eq!(
        int_from_digits(vec![4, 2, 9, 4, 9, 6, 7, 2, 9, 5]),
        u32::MAX
    );
}

#[test]
fn from_digits_works_with_u64_max() {
    assert_eq!(
        int_from_digits(vec![
            1, 8, 4, 4, 6, 7, 4, 4, 0, 7, 3, 7, 0, 9, 5, 5, 1, 6, 1, 5
        ]),
        u64::MAX
    );
}

#[test]
fn error_message_is_fixed() {
    match digits_from_int(-1i64) {
        Ok(_) => panic!("negative input must fail"),
        Err(e) => assert_eq!(
            e.message(),
            "unable to convert from negative integer to digits"
        ),
    }
}

#[test]
fn errors_compare_by_message() {
    assert_eq!(ConversionError::new("one"), ConversionError::new("one"));
    assert_ne!(ConversionError::new("one"), ConversionError::new("two"));
}

#[test]
fn round_trip_from_integer() {
    for n in 0u32..=2000 {
        assert_eq!(int_from_digits(digits_from_int(n).unwrap()), n);
    }
    assert_eq!(int_from_digits(digits_from_int(913_i64).unwrap()), 913);
}

#[test]
fn round_trip_from_digits() {
    assert_eq!(
        digits_from_int(int_from_digits(vec![9, 0, 5])),
        Ok(vec![9, 0, 5])
    );
    assert_eq!(digits_from_int(int_from_digits(vec![0u8])), Ok(vec![0u8]));
}

#[test]
fn signed_widths_decompose() {
    assert_eq!(digits_from_int(i8::MAX), Ok(vec![1, 2, 7]));
    assert_eq!(digits_from_int(i16::MAX), Ok(vec![3, 2, 7, 6, 7]));
    assert_eq!(digits_from_int(9_223_372_036_854_775_807_i64).is_ok(), true);
    assert!(digits_from_int(i8::MIN).is_err());
    assert!(digits_from_int(-1i16).is_err());
}

#[test]
fn signed_widths_recompose() {
    assert_eq!(int_from_digits(vec![1i8, 2, 7]), i8::MAX);
    assert_eq!(int_from_digits(vec![3i16, 2, 7, 6, 7]), i16::MAX);
    assert_eq!(int_from_digits(Vec::<i32>::new()), 0);
}

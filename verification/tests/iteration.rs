use decimal_digits::digits::Digits;

#[test]
fn digits_struct_works() {
    let mut digits = Digits::from(42);
    assert_eq!(digits.next(), Some(4));
    assert_eq!(digits.next(), Some(2));
    assert_eq!(digits.next(), None);
}

#[test]
fn iterator_adapters_work() {
    let digits = Digits::from(42);
    assert_eq!(digits.len(), 2);

    let digits = Digits::from(369);
    assert_eq!(digits.as_vec().iter().count(), 3);

    let digits = Digits::from(42);
    let mut cycled = digits.as_vec().iter().copied().cycle();
    assert_eq!(cycled.next(), Some(4));
    assert_eq!(cycled.next(), Some(2));
    assert_eq!(cycled.next(), Some(4));
    assert_eq!(cycled.next(), Some(2));
    assert_eq!(cycled.next(), Some(4));
    assert_eq!(cycled.next(), Some(2));

    let digits = Digits::from(369);
    let mut enumerated = digits.as_vec().iter().copied().enumerate();
    assert_eq!(enumerated.next(), Some((0, 3)));
    assert_eq!(enumerated.next(), Some((1, 6)));
    assert_eq!(enumerated.next(), Some((2, 9)));
    assert_eq!(enumerated.next(), None);

    let digits = Digits::from(369);
    assert_eq!(digits.as_vec().iter().fold(0, |acc, x| acc + x), 18);
}

#[test]
fn contains_works() {
    let digits = Digits::from(369);
    assert!(digits.contains(3));
    assert_eq!(digits.contains(4), false);
}

#[test]
fn zero_yields_one_digit() {
    let mut digits = Digits::from(0);
    assert_eq!(digits.len(), 1);
    assert_eq!(digits.next(), Some(0));
    assert_eq!(digits.next(), None);
}

#[test]
fn exhaustion_is_terminal() {
    let mut digits = Digits::from(7u8);
    assert_eq!(digits.next(), Some(7));
    assert_eq!(digits.next(), None);
    assert_eq!(digits.next(), None);
}

#[test]
fn backing_sequence_ignores_cursor() {
    let mut digits = Digits::from(369);
    assert_eq!(digits.next(), Some(3));
    assert_eq!(digits.len(), 3);
    assert_eq!(digits.as_vec(), &vec![3, 6, 9]);
    assert!(digits.contains(9));
    assert_eq!(digits.next(), Some(6));
}

#[test]
fn wrapper_covers_every_width() {
    let mut digits = Digits::from(u64::MAX);
    assert_eq!(digits.len(), 20);
    assert_eq!(digits.next(), Some(1));
    let digits = Digits::from(255u8);
    assert_eq!(digits.as_vec(), &vec![2, 5, 5]);
}

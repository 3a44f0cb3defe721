use fix_acceptor::checksum::{
    check_at, check_fields, parse_field_value, validate_checksum, ChecksumStatus,
};
use fix_acceptor::fields::FieldMatchers;
use fix_acceptor::matcher::Capture;
use fix_acceptor::wire::{checksum_range, CHECKSUM_MODULUS, SOH};

fn matchers() -> FieldMatchers {
    FieldMatchers::new().expect("the field patterns compile")
}

#[test]
fn delimiter_and_modulus() {
    assert_eq!(SOH, 0x01);
    assert_eq!(CHECKSUM_MODULUS, 256);
}

#[test]
fn checksum_of_a_range_is_the_byte_sum_modulo_256() {
    assert_eq!(checksum_range(b"abc", 0, 3), 38);
    assert_eq!(checksum_range(b"abc", 1, 3), 197);
    assert_eq!(checksum_range(b"abc", 2, 2), 0);
    assert_eq!(checksum_range(&[255, 255, 255], 0, 3), 253);
    assert_eq!(checksum_range(b"", 0, 0), 0);
    assert_eq!(checksum_range(b"8=FIX.4.4\x019=5\x0135=A\x01", 0, 19), 180);
}

#[test]
fn three_digits_are_read_as_a_number() {
    assert_eq!(parse_field_value(b"10=180", 3, 6), Some(180));
    assert_eq!(parse_field_value(b"000", 0, 3), Some(0));
    assert_eq!(parse_field_value(b"007", 0, 3), Some(7));
    assert_eq!(parse_field_value(b"999", 0, 3), Some(999));
    assert_eq!(parse_field_value(b"12a", 0, 3), None);
    assert_eq!(parse_field_value(b"1234", 0, 4), None);
    assert_eq!(parse_field_value(b"12", 0, 2), None);
    assert_eq!(parse_field_value(b"+12", 0, 3), None);
    assert_eq!(parse_field_value(b"123", 1, 1), None);
}

#[test]
fn true_checksum_validates() {
    let m = matchers();
    assert_eq!(
        validate_checksum(&m, "8=FIX.4.4\u{1}9=5\u{1}35=A\u{1}10=180\u{1}"),
        ChecksumStatus::Valid
    );
    assert_eq!(
        validate_checksum(&m, "8=FIX.4.4\u{1}35=V\u{1}49=CLIENT\u{1}10=135\u{1}"),
        ChecksumStatus::Valid
    );
}

#[test]
fn checksum_off_by_one_is_a_mismatch() {
    let m = matchers();
    assert_eq!(
        validate_checksum(&m, "8=FIX.4.4\u{1}9=5\u{1}35=A\u{1}10=181\u{1}"),
        ChecksumStatus::Mismatch { expected: 180, carried: 181 }
    );
}

#[test]
fn checksum_counts_the_bytes_of_the_encoding() {
    let m = matchers();
    assert_eq!(
        validate_checksum(&m, "8=FIX.4.4\u{1}58=caf\u{e9}\u{1}35=\u{e9}t\u{e9}\u{1}10=084\u{1}"),
        ChecksumStatus::Valid
    );
}

#[test]
fn message_without_a_checksum_field_has_none_to_check() {
    let m = matchers();
    assert_eq!(validate_checksum(&m, "8=FIX.4.4\u{1}35=A\u{1}"), ChecksumStatus::Missing);
    assert_eq!(validate_checksum(&m, ""), ChecksumStatus::Missing);
    assert_eq!(validate_checksum(&m, "8=FIX.4.4\u{1}10=18\u{1}"), ChecksumStatus::Missing);
    assert_eq!(validate_checksum(&m, "8=FIX.4.4\u{1}10=1800\u{1}"), ChecksumStatus::Missing);
    assert_eq!(validate_checksum(&m, "8=FIX.4.4\u{1}10=180"), ChecksumStatus::Missing);
}

#[test]
fn checksum_field_that_comes_first_sums_what_is_left() {
    let m = matchers();
    assert_eq!(validate_checksum(&m, "10=000\u{1}"), ChecksumStatus::Valid);
    assert_eq!(
        validate_checksum(&m, "10=180\u{1}"),
        ChecksumStatus::Mismatch { expected: 0, carried: 180 }
    );
}

#[test]
fn only_the_last_checksum_field_is_left_out_and_compared() {
    let m = matchers();
    let msg = "8=FIX.4.4\u{1}58=x\u{1}10=999\u{1}35=A\u{1}10=117\u{1}";
    assert_eq!(validate_checksum(&m, msg), ChecksumStatus::Valid);
    let bad = "8=FIX.4.4\u{1}58=x\u{1}10=117\u{1}35=A\u{1}10=999\u{1}";
    assert_eq!(
        validate_checksum(&m, bad),
        ChecksumStatus::Mismatch { expected: 99, carried: 999 }
    );
}

#[test]
fn check_at_takes_the_field_it_is_given() {
    let bytes = b"8=FIX.4.4\x019=5\x0135=A\x0110=180\x01";
    let field = Capture { start: 18, end: 26, group: Some((22, 25)) };
    assert_eq!(check_at(bytes, &field), ChecksumStatus::Valid);
    let first = Capture { start: 0, end: 7, group: Some((3, 6)) };
    assert_eq!(
        check_at(b"10=180\x01abc", &first),
        ChecksumStatus::Mismatch { expected: 38, carried: 180 }
    );
}

#[test]
fn the_delimiter_in_front_of_the_field_stays_in_the_sum() {
    let bytes = b"8=FIX.4.4\x0110=033\x01";
    let led = Capture { start: 9, end: 17, group: Some((13, 16)) };
    let bare = Capture { start: 10, end: 17, group: Some((13, 16)) };
    assert_eq!(check_at(bytes, &led), ChecksumStatus::Valid);
    assert_eq!(check_at(bytes, &bare), ChecksumStatus::Valid);
    assert_eq!(
        check_at(b"8=FIX.4.4\x0110=032\x01", &led),
        ChecksumStatus::Mismatch { expected: 33, carried: 32 }
    );
}

#[test]
fn field_that_does_not_fit_the_text_counts_as_missing() {
    let bytes = b"8=FIX.4.4\x0110=180\x01";
    assert_eq!(
        check_at(bytes, &Capture { start: 9, end: 17, group: None }),
        ChecksumStatus::Missing
    );
    assert_eq!(
        check_at(bytes, &Capture { start: 9, end: 40, group: Some((13, 16)) }),
        ChecksumStatus::Missing
    );
    assert_eq!(
        check_at(bytes, &Capture { start: 9, end: 17, group: Some((16, 13)) }),
        ChecksumStatus::Missing
    );
    assert_eq!(
        check_at(bytes, &Capture { start: 9, end: 17, group: Some((11, 14)) }),
        ChecksumStatus::Missing
    );
    assert_eq!(
        check_at(bytes, &Capture { start: 9, end: 17, group: Some((12, 15)) }),
        ChecksumStatus::Missing
    );
}

#[test]
fn check_fields_goes_by_the_last_field() {
    let bytes = b"8=FIX.4.4\x019=5\x0135=A\x0110=180\x01";
    let good = Capture { start: 18, end: 26, group: Some((22, 25)) };
    let none = Capture { start: 0, end: 1, group: None };
    assert_eq!(check_fields(bytes, &vec![]), ChecksumStatus::Missing);
    assert_eq!(check_fields(bytes, &vec![none, good]), ChecksumStatus::Valid);
    assert_eq!(check_fields(bytes, &vec![good, none]), ChecksumStatus::Missing);
}

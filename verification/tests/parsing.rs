use textbridge::string_to_int;

#[test]
fn parses_plain_numbers() {
    assert_eq!(string_to_int("12".to_string()), 12);
    assert_eq!(string_to_int("0".to_string()), 0);
    assert_eq!(string_to_int("+7".to_string()), 7);
    assert_eq!(string_to_int("-5".to_string()), -5);
}

#[test]
fn parses_extreme_values() {
    assert_eq!(string_to_int("2147483647".to_string()), 2147483647);
    assert_eq!(string_to_int("-2147483648".to_string()), -2147483648);
    assert_eq!(string_to_int("0000000012".to_string()), 12);
}

#[test]
fn rejects_values_out_of_range() {
    assert_eq!(string_to_int("2147483648".to_string()), -1);
    assert_eq!(string_to_int("-2147483649".to_string()), -1);
    assert_eq!(string_to_int("99999999999999999999".to_string()), -1);
    assert_eq!(string_to_int("-99999999999999999999".to_string()), -1);
}

#[test]
fn rejects_non_numbers() {
    assert_eq!(string_to_int("".to_string()), -1);
    assert_eq!(string_to_int("+".to_string()), -1);
    assert_eq!(string_to_int("-".to_string()), -1);
    assert_eq!(string_to_int("abc".to_string()), -1);
    assert_eq!(string_to_int("12x".to_string()), -1);
    assert_eq!(string_to_int(" 12".to_string()), -1);
    assert_eq!(string_to_int("1 2".to_string()), -1);
    assert_eq!(string_to_int("١٢".to_string()), -1);
}

use tunnel_bridge::fragment::parse_fragment_option;

#[test]
fn frag_simple_range() {
    assert_eq!(parse_fragment_option("1-5".to_string()), Some((1, 5)));
}

#[test]
fn frag_reversed_rejected() {
    assert_eq!(parse_fragment_option("5-1".to_string()), None);
}

#[test]
fn frag_non_numeric_rejected() {
    assert_eq!(parse_fragment_option("a-5".to_string()), None);
}

#[test]
fn frag_single_number_rejected() {
    assert_eq!(parse_fragment_option("1".to_string()), None);
}

#[test]
fn frag_three_parts_rejected() {
    assert_eq!(parse_fragment_option("1-2-3".to_string()), None);
}

#[test]
fn frag_zero_range_accepted() {
    assert_eq!(parse_fragment_option("0-0".to_string()), Some((0, 0)));
}

#[test]
fn frag_surrounding_whitespace_accepted() {
    assert_eq!(parse_fragment_option(" 1 - 5 ".to_string()), Some((1, 5)));
    assert_eq!(parse_fragment_option("\t2-4\n".to_string()), Some((2, 4)));
}

#[test]
fn frag_empty_sides_rejected() {
    assert_eq!(parse_fragment_option("1-".to_string()), None);
    assert_eq!(parse_fragment_option("-5".to_string()), None);
    assert_eq!(parse_fragment_option("-".to_string()), None);
    assert_eq!(parse_fragment_option("".to_string()), None);
}

#[test]
fn frag_overflow_rejected() {
    assert_eq!(
        parse_fragment_option("99999999999999999999-99999999999999999999".to_string()),
        None
    );
}

#[test]
fn frag_largest_value_accepted() {
    assert_eq!(
        parse_fragment_option("18446744073709551615-18446744073709551615".to_string()),
        Some((u64::MAX, u64::MAX))
    );
}

#[test]
fn frag_plus_sign_rejected() {
    assert_eq!(parse_fragment_option("+1-5".to_string()), None);
}

#[test]
fn frag_inner_space_rejected() {
    assert_eq!(parse_fragment_option("1 2-5".to_string()), None);
}

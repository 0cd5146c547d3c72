use hello_actix::text::{parse_u32, push_decimal, remove_char};

#[test]
fn parse_u32_agrees_with_std() {
    let cases = [
        "0", "7788", "+5", "+", "", "-0", "-1", " 1", "1 ", "12a", "00042", "4294967295",
        "4294967296", "99999999999999999999", "+0007", "++1", "١٢", "5\u{0}",
    ];
    for c in cases.iter() {
        assert_eq!(parse_u32(c), c.parse::<u32>().ok(), "input {:?}", c);
    }
}

#[test]
fn decimal_text_of_numbers() {
    for n in [0u32, 7, 10, 404, 7788, 4294967295].iter() {
        let mut s = String::from("x");
        push_decimal(&mut s, *n);
        assert_eq!(s, format!("x{}", n));
    }
}

#[test]
fn decimal_text_parses_back() {
    for n in [0u32, 9, 100, 65535, 123456789, 4294967295].iter() {
        let mut s = String::new();
        push_decimal(&mut s, *n);
        assert_eq!(parse_u32(&s), Some(*n));
    }
}

#[test]
fn remove_char_drops_every_occurrence() {
    assert_eq!(remove_char("a-b--c-", '-'), "abc");
    assert_eq!(remove_char("", '-'), "");
    assert_eq!(remove_char("é-ü", '-'), "éü");
    assert_eq!(remove_char("abc", 'x'), "abc");
}

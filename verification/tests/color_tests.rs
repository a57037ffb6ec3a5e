use sia::color::{parse_rgba8, try_parse_rgba8, Rgb, Rgba8};

#[test]
fn hex_of_a_colour_is_upper_case() {
    assert_eq!(Rgb { r: 0xC0, g: 0xC5, b: 0xCE }.to_hex(), "#C0C5CE");
    assert_eq!(Rgb { r: 0, g: 0, b: 0 }.to_hex(), "#000000");
    assert_eq!(Rgb { r: 255, g: 10, b: 171 }.to_hex(), "#FF0AAB");
}

#[test]
fn six_digits_have_full_alpha() {
    assert_eq!(parse_rgba8("C0C5CE"), Ok(Rgba8 { r: 0xC0, g: 0xC5, b: 0xCE, a: 255 }));
    assert_eq!(parse_rgba8("#bf616a"), Ok(Rgba8 { r: 0xBF, g: 0x61, b: 0x6A, a: 255 }));
}

#[test]
fn eight_digits_end_in_alpha() {
    assert_eq!(parse_rgba8("#01020380"), Ok(Rgba8 { r: 1, g: 2, b: 3, a: 0x80 }));
    assert_eq!(parse_rgba8("FfFfFf00"), Ok(Rgba8 { r: 255, g: 255, b: 255, a: 0 }));
}

#[test]
fn only_one_hash_is_taken_off() {
    assert_eq!(parse_rgba8("##12345"), Err("`#1` is not valid hex".to_string()));
}

#[test]
fn plus_sign_stands_for_a_first_digit() {
    assert_eq!(parse_rgba8("+F+0+a"), Ok(Rgba8 { r: 15, g: 0, b: 10, a: 255 }));
}

#[test]
fn other_lengths_are_refused() {
    let wanted = Err("hex color must be 6 or 8 digits".to_string());
    assert_eq!(parse_rgba8(""), wanted);
    assert_eq!(parse_rgba8("#"), wanted);
    assert_eq!(parse_rgba8("12345"), wanted);
    assert_eq!(parse_rgba8("1234567"), wanted);
    assert_eq!(parse_rgba8("#123456789"), wanted);
}

#[test]
fn first_bad_pair_is_named() {
    assert_eq!(parse_rgba8("12zz56"), Err("`zz` is not valid hex".to_string()));
    assert_eq!(parse_rgba8("1g3h56"), Err("`1g` is not valid hex".to_string()));
    assert_eq!(parse_rgba8("123456-1"), Err("`-1` is not valid hex".to_string()));
    assert_eq!(parse_rgba8("1234F+"), Err("`F+` is not valid hex".to_string()));
}

#[test]
fn pair_of_one_two_byte_character_is_named() {
    assert_eq!(parse_rgba8("12\u{e9}56"), Err("`\u{e9}` is not valid hex".to_string()));
    assert_eq!(parse_rgba8("#\u{7ff}3456"), Err("`\u{7ff}` is not valid hex".to_string()));
}

#[test]
fn hex_notation_reads_back() {
    let c = Rgb { r: 0xBF, g: 0x61, b: 0x6A };
    assert_eq!(parse_rgba8(&c.to_hex()), Ok(Rgba8 { r: c.r, g: c.g, b: c.b, a: 255 }));
}

#[test]
fn pair_that_cuts_a_character_cannot_be_named() {
    assert_eq!(try_parse_rgba8("a\u{e9}123"), None);
    assert_eq!(try_parse_rgba8("12\u{20ac}5"), None);
    assert_eq!(try_parse_rgba8("#1234\u{1f600}"), None);
    assert_eq!(try_parse_rgba8("12345\u{e9}0"), None);
}

#[test]
fn text_that_can_be_read_is_read_alike() {
    let texts = ["C0C5CE", "#01020380", "+F+0+a", "", "12zz56", "12\u{e9}56", "\u{e9}\u{e9}\u{e9}"];
    for text in texts.iter() {
        assert_eq!(try_parse_rgba8(text), Some(parse_rgba8(text)));
    }
    assert_eq!(
        try_parse_rgba8("zz\u{20ac}4"),
        Some(Err("`zz` is not valid hex".to_string()))
    );
}

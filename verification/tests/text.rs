use intercal::english::from_english;
use intercal::err::ErrCode;
use intercal::roman::to_roman;

#[test]
fn roman_zero_is_a_lone_bar() {
    assert_eq!(to_roman(0), "_\n\n");
}

#[test]
fn roman_digits() {
    assert_eq!(to_roman(1), " \nI\n");
    assert_eq!(to_roman(2), "  \nII\n");
    assert_eq!(to_roman(3), "   \nIII\n");
    assert_eq!(to_roman(4), "  \nIV\n");
    assert_eq!(to_roman(5), " \nV\n");
    assert_eq!(to_roman(6), "  \nVI\n");
    assert_eq!(to_roman(7), "   \nVII\n");
    assert_eq!(to_roman(8), "    \nVIII\n");
    assert_eq!(to_roman(9), "  \nIX\n");
    assert_eq!(to_roman(10), " \nX\n");
}

#[test]
fn roman_numbers() {
    assert_eq!(to_roman(14), "   \nXIV\n");
    assert_eq!(to_roman(40), "  \nXL\n");
    assert_eq!(to_roman(90), "  \nXC\n");
    assert_eq!(to_roman(400), "  \nCD\n");
    assert_eq!(to_roman(1994), "       \nMCMXCIV\n");
    assert_eq!(to_roman(3999), "         \nMMMCMXCIX\n");
}

#[test]
fn roman_bars_and_small_letters() {
    assert_eq!(to_roman(4000), "__\nIV\n");
    assert_eq!(to_roman(4999), "__      \nIVCMXCIX\n");
    assert_eq!(to_roman(5000), "_\nV\n");
    assert_eq!(to_roman(9000), "__\nIX\n");
    assert_eq!(to_roman(65535), "___     \nLXVDXXXV\n");
    assert_eq!(to_roman(1000000), "_\nM\n");
    assert_eq!(to_roman(4000000), "  \niv\n");
    assert_eq!(to_roman(123456789), "   ________         \ncxxMMMCDLVIDCCLXXXIX\n");
    assert_eq!(to_roman(0x5555_5555), "      _____      \nmcdxxxMDCLVDCCLXV\n");
    assert_eq!(to_roman(0xAAAA_AAAA), "        _______     \nmmdccclxMMMCCCXMDXXX\n");
    assert_eq!(to_roman(4294967295), "__      _______     \nivccxcivCMLXVIICCXCV\n");
}

#[test]
fn english_digits() {
    assert_eq!(from_english("ZERO").unwrap(), 0);
    assert_eq!(from_english("OH").unwrap(), 0);
    assert_eq!(from_english("ONE").unwrap(), 1);
    assert_eq!(from_english("TWO").unwrap(), 2);
    assert_eq!(from_english("THREE").unwrap(), 3);
    assert_eq!(from_english("FOUR").unwrap(), 4);
    assert_eq!(from_english("FIVE").unwrap(), 5);
    assert_eq!(from_english("SIX").unwrap(), 6);
    assert_eq!(from_english("SEVEN").unwrap(), 7);
    assert_eq!(from_english("EIGHT").unwrap(), 8);
    assert_eq!(from_english("NINE").unwrap(), 9);
    assert_eq!(from_english("NINER").unwrap(), 9);
}

#[test]
fn english_numbers() {
    assert_eq!(from_english("ONE TWO THREE").unwrap(), 123);
    assert_eq!(from_english("  ONE\tTWO  \n").unwrap(), 12);
    assert_eq!(from_english("OH OH SEVEN\n").unwrap(), 7);
    assert_eq!(from_english("SIX FIVE FIVE THREE FIVE").unwrap(), 65535);
    assert_eq!(
        from_english("FOUR TWO NINE FOUR NINE SIX SEVEN TWO NINE FIVE").unwrap(),
        4294967295
    );
}

#[test]
fn english_without_words_is_zero() {
    assert_eq!(from_english("").unwrap(), 0);
    assert_eq!(from_english(" \n").unwrap(), 0);
}

#[test]
fn english_words_are_split_at_any_white_space() {
    assert_eq!(from_english("ONE\u{00A0}TWO\u{2003}THREE\u{3000}").unwrap(), 123);
    assert_eq!(from_english("ONE\u{000B}TWO\u{000C}THREE\r\n").unwrap(), 123);
    assert_eq!(from_english("ONE\u{0085}TWO\u{1680}THREE\u{2028}FOUR\u{2029}").unwrap(), 1234);
    assert_eq!(from_english("ONE\u{202F}TWO\u{205F}THREE\u{200A}FOUR\u{2000}").unwrap(), 1234);
}

#[test]
fn english_overflow() {
    let e = from_english("FOUR TWO NINE FOUR NINE SIX SEVEN TWO NINE SIX").unwrap_err();
    assert_eq!(e.code, ErrCode::IE533);
    assert_eq!(e.text, None);
    let long = "NINE ".repeat(40);
    assert_eq!(from_english(&long).unwrap_err().code, ErrCode::IE533);
}

#[test]
fn english_unknown_word() {
    let e = from_english("ONE TEN TWO").unwrap_err();
    assert_eq!(e.code, ErrCode::IE579);
    assert_eq!(e.text, Some(String::from("TEN")));
    assert_eq!(e.line, None);
    let e = from_english("one").unwrap_err();
    assert_eq!(e.text, Some(String::from("one")));
    let e = from_english("ONE\u{200B}TWO").unwrap_err();
    assert_eq!(e.text, Some(String::from("ONE\u{200B}TWO")));
}

#[test]
fn english_unknown_word_comes_before_overflow() {
    let text = format!("{}ELEVEN", "NINE ".repeat(12));
    let e = from_english(&text).unwrap_err();
    assert_eq!(e.code, ErrCode::IE579);
    assert_eq!(e.text, Some(String::from("ELEVEN")));
}

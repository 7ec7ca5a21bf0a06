use hornetmq::text::{
    chars_between, chars_of, decimal_text, int_error_message, join, parse_signed, parse_unsigned,
    same_text, split, strip, text_of, trim, IntError,
};

fn unsigned(s: &str) -> Result<u64, IntError> {
    parse_unsigned(&chars_of(s), u64::MAX)
}

#[test]
fn decimal_text_matches_to_string() {
    for n in [0, 1, 9, 10, 99, 100, 12345, u64::MAX - 1, u64::MAX] {
        assert_eq!(decimal_text(n), n.to_string());
    }
}

#[test]
fn decimal_text_reads_back() {
    for n in [0, 7, 10, 4096, u64::MAX] {
        assert_eq!(unsigned(&decimal_text(n)), Ok(n));
    }
}

#[test]
fn parse_unsigned_follows_the_standard_library() {
    let inputs = [
        "", "0", "00", "7", "+7", "-7", "+", "-", "++7", " 7", "7 ", "7x", "x7", "1_000",
        "4294967295", "4294967296", "18446744073709551615", "18446744073709551616",
        "18446744073709551616x", "99999999999999999999999", "99999999999999999999x",
        "1844674407370955161x", "+18446744073709551615", "\u{0661}", "1.5",
    ];
    for s in inputs {
        match s.parse::<u64>() {
            Ok(n) => assert_eq!(unsigned(s), Ok(n), "{s:?}"),
            Err(e) => {
                let mine = unsigned(s).unwrap_err();
                assert_eq!(int_error_message(mine), e.to_string(), "{s:?}");
            }
        }
        match s.parse::<u32>() {
            Ok(n) => assert_eq!(parse_unsigned(&chars_of(s), u32::MAX as u64), Ok(n as u64)),
            Err(e) => {
                let mine = parse_unsigned(&chars_of(s), u32::MAX as u64).unwrap_err();
                assert_eq!(int_error_message(mine), e.to_string(), "{s:?}");
            }
        }
    }
}

#[test]
fn parse_signed_follows_the_standard_library() {
    let inputs = [
        "", "-", "+", "0", "-0", "-1", "+1", "--1", "-+1", "9223372036854775807",
        "9223372036854775808", "-9223372036854775808", "-9223372036854775809", "12a",
    ];
    for s in inputs {
        assert_eq!(parse_signed(&chars_of(s)), s.parse::<i64>().ok(), "{s:?}");
    }
}

#[test]
fn trim_follows_the_standard_library() {
    let inputs = [
        "", " ", "a", " a ", "\t\n a b \r\n", "\u{a0}x\u{3000}", "\u{200b}x", "\u{85}\u{1680}",
        "\u{2028}y\u{2029}\u{202f}\u{205f}", "\u{2000}z\u{200a}",
    ];
    for s in inputs {
        assert_eq!(text_of(&trim(&chars_of(s))), s.trim(), "{s:?}");
    }
    for n in 0..0x11_0000u32 {
        if let Some(c) = char::from_u32(n) {
            assert_eq!(trim(&vec![c]).is_empty(), c.is_whitespace(), "{n:x}");
        }
    }
}

#[test]
fn split_follows_the_standard_library() {
    for s in ["", ",", "a", "a,b", ",a", "a,", ",,", "10, 1000", "a,b,c"] {
        let mine: Vec<String> = split(&chars_of(s), ',').iter().map(text_of).collect();
        let std: Vec<&str> = s.split(',').collect();
        assert_eq!(mine, std, "{s:?}");
    }
}

#[test]
fn strip_wants_both_ends() {
    let inner = |s: &str| strip(&chars_of(s), &chars_of("fixed("), ')').map(|v| text_of(&v));
    assert_eq!(inner("fixed(10)"), Some("10".to_string()));
    assert_eq!(inner("fixed()"), Some(String::new()));
    assert_eq!(inner("fixed("), None);
    assert_eq!(inner("fixed(10"), None);
    assert_eq!(inner("fixe(10)"), None);
    assert_eq!(inner(""), None);
}

#[test]
fn texts_are_compared_and_joined() {
    assert!(same_text("häuser", "häuser"));
    assert!(!same_text("a", "b"));
    assert!(!same_text("a", "ab"));
    assert_eq!(join("bull:", "q"), "bull:q");
    assert_eq!(chars_between(&chars_of("abcde"), 1, 3), vec!['b', 'c']);
}

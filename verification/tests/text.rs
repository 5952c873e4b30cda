use rbacklight::text::{decimal_text, parse_number, parse_trimmed};

#[test]
fn parse_number_reads_digits() {
    assert_eq!(parse_number("0"), Some(0));
    assert_eq!(parse_number("7"), Some(7));
    assert_eq!(parse_number("42"), Some(42));
    assert_eq!(parse_number("128"), Some(128));
    assert_eq!(parse_number("96000"), Some(96000));
    assert_eq!(parse_number("1234567890"), Some(1_234_567_890));
}

#[test]
fn parse_number_takes_one_plus_sign() {
    assert_eq!(parse_number("+0"), Some(0));
    assert_eq!(parse_number("+42"), Some(42));
    assert_eq!(parse_number("+"), None);
    assert_eq!(parse_number("++42"), None);
    assert_eq!(parse_number("4+2"), None);
    assert_eq!(parse_number("42+"), None);
}

#[test]
fn parse_number_takes_zeros_before_the_number() {
    assert_eq!(parse_number("007"), Some(7));
    assert_eq!(parse_number("0000000000000000000000000000000000000001"), Some(1));
    assert_eq!(parse_number("+0004294967295"), Some(u32::MAX));
}

#[test]
fn parse_number_refuses_what_is_no_number() {
    assert_eq!(parse_number(""), None);
    assert_eq!(parse_number("-"), None);
    assert_eq!(parse_number("-1"), None);
    assert_eq!(parse_number("-0"), None);
    assert_eq!(parse_number(" 1"), None);
    assert_eq!(parse_number("1 "), None);
    assert_eq!(parse_number("1\n"), None);
    assert_eq!(parse_number("1_000"), None);
    assert_eq!(parse_number("1.0"), None);
    assert_eq!(parse_number("1e3"), None);
    assert_eq!(parse_number("0x1f"), None);
    assert_eq!(parse_number("ten"), None);
    // digits of other scripts are no digits here
    assert_eq!(parse_number("\u{663}"), None);
    assert_eq!(parse_number("\u{ff11}"), None);
}

#[test]
fn parse_number_stops_at_32_bits() {
    assert_eq!(parse_number("4294967295"), Some(u32::MAX));
    assert_eq!(parse_number("4294967296"), None);
    assert_eq!(parse_number("4294967300"), None);
    assert_eq!(parse_number("42949672950"), None);
    assert_eq!(parse_number("18446744073709551616"), None);
    assert_eq!(parse_number("99999999999999999999999999999999999999999999"), None);
    // too large, and then no number at all
    assert_eq!(parse_number("99999999999x"), None);
}

#[test]
fn parse_number_agrees_with_the_standard_parser() {
    let alphabet: Vec<char> = "0123456789+- _a".chars().collect();
    let mut state: u64 = 0x2545_f491_4f6c_dd1d;
    for _ in 0..20_000 {
        let mut text = String::new();
        state = state.wrapping_mul(6364136223846793005).wrapping_add(1442695040888963407);
        let len = (state >> 60) as usize % 13;
        for _ in 0..len {
            state = state.wrapping_mul(6364136223846793005).wrapping_add(1442695040888963407);
            // digits more often than the rest
            let pick = (state >> 33) as usize % 40;
            let c = if pick < alphabet.len() { alphabet[pick] } else { alphabet[pick % 10] };
            text.push(c);
        }
        assert_eq!(parse_number(&text), text.parse::<u32>().ok(), "text {:?}", text);
    }
}

#[test]
fn parse_number_agrees_with_the_standard_parser_near_the_limit() {
    for n in (u64::from(u32::MAX) - 50)..(u64::from(u32::MAX) + 50) {
        let text = format!("{}", n);
        assert_eq!(parse_number(&text), text.parse::<u32>().ok());
        let signed = format!("+{}", n);
        assert_eq!(parse_number(&signed), signed.parse::<u32>().ok());
    }
}

#[test]
fn parse_trimmed_takes_white_space_off_the_end_only() {
    assert_eq!(parse_trimmed("128\n"), Some(128));
    assert_eq!(parse_trimmed("128\r\n"), Some(128));
    assert_eq!(parse_trimmed("128 \t \n\n"), Some(128));
    assert_eq!(parse_trimmed("128"), Some(128));
    assert_eq!(parse_trimmed("\n128"), None);
    assert_eq!(parse_trimmed(" 128 "), None);
    assert_eq!(parse_trimmed("1 28\n"), None);
    assert_eq!(parse_trimmed("\n"), None);
    assert_eq!(parse_trimmed("   "), None);
    assert_eq!(parse_trimmed(""), None);
    assert_eq!(parse_trimmed("+\n"), None);
    assert_eq!(parse_trimmed("+5\n"), Some(5));
}

#[test]
fn parse_trimmed_agrees_with_the_standard_trim() {
    let texts = [
        "255\n", "255", " 255", "255 ", "\t255\t", "255\u{b}", "255\u{c}", "255\u{85}",
        "255\u{a0}", "255\u{1680}", "255\u{2000}\u{2001}\u{200a}", "255\u{2028}\u{2029}",
        "255\u{202f}\u{205f}\u{3000}", "255\u{200b}", "255\u{180e}", "255\u{feff}", "255\0",
        "255\u{1c}\u{1d}\u{1e}\u{1f}", "\u{3000}", "",
    ];
    for text in texts {
        assert_eq!(parse_trimmed(text), text.trim_end().parse::<u32>().ok(), "text {:?}", text);
    }
}

#[test]
fn white_space_is_what_the_standard_library_takes_for_it() {
    for code in 0..=0x10_ffffu32 {
        if let Some(c) = char::from_u32(code) {
            let text = format!("7{}", c);
            let expected = if c.is_whitespace() {
                Some(7)
            } else if c.is_ascii_digit() {
                Some(70 + (code - 48))
            } else {
                None
            };
            assert_eq!(parse_trimmed(&text), expected, "char {:?}", c);
        }
    }
}

#[test]
fn decimal_text_writes_digits_only() {
    assert_eq!(decimal_text(0), "0");
    assert_eq!(decimal_text(7), "7");
    assert_eq!(decimal_text(10), "10");
    assert_eq!(decimal_text(130), "130");
    assert_eq!(decimal_text(1000), "1000");
    assert_eq!(decimal_text(96000), "96000");
    assert_eq!(decimal_text(4_294_967_295), "4294967295");
    assert_eq!(decimal_text(429_496_729_500), "429496729500");
    assert_eq!(decimal_text(u64::MAX), "18446744073709551615");
}

#[test]
fn decimal_text_agrees_with_the_standard_formatting() {
    let mut n: u64 = 0;
    for step in 0..5000u64 {
        assert_eq!(decimal_text(n), format!("{}", n));
        assert_eq!(decimal_text(n >> 32), format!("{}", n >> 32));
        n = n.wrapping_mul(6364136223846793005).wrapping_add(1442695040888963407 + step);
    }
    for n in 0..2000u64 {
        assert_eq!(decimal_text(n), n.to_string());
        assert_eq!(decimal_text(u64::MAX - n), (u64::MAX - n).to_string());
        let near = u64::from(u32::MAX) + 1000 - n;
        assert_eq!(decimal_text(near), near.to_string());
    }
}

#[test]
fn decimal_text_is_read_back() {
    let mut n: u32 = 1;
    for _ in 0..5000 {
        assert_eq!(parse_number(&decimal_text(u64::from(n))), Some(n));
        assert_eq!(parse_trimmed(&decimal_text(u64::from(n))), Some(n));
        n = n.wrapping_mul(1664525).wrapping_add(1013904223);
    }
    for n in [0u32, 9, 10, 99, 100, 101, u32::MAX - 1, u32::MAX] {
        assert_eq!(parse_number(&decimal_text(u64::from(n))), Some(n));
    }
    assert_eq!(parse_number(&decimal_text(u64::from(u32::MAX) + 1)), None);
}

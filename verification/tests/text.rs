use const_arith::base::arith::Const;
use const_arith::base::parse::ParseError;
use std::num::IntErrorKind;

#[test]
fn formatting_uses_the_fixed_labels() {
    assert_eq!(Const::Unsigned(42).to_string(), "U96(42)");
    assert_eq!(Const::Signed(-7).to_string(), "I96(-7)");
}

#[test]
fn formatting_of_edge_values() {
    assert_eq!(Const::Unsigned(0).to_string(), "U96(0)");
    assert_eq!(Const::Signed(0).to_string(), "I96(0)");
    assert_eq!(Const::Unsigned(9).to_string(), "U96(9)");
    assert_eq!(Const::Unsigned(10).to_string(), "U96(10)");
    assert_eq!(Const::Signed(1234567890).to_string(), "I96(1234567890)");
    assert_eq!(
        Const::Unsigned(u128::MAX).to_string(),
        "U96(340282366920938463463374607431768211455)"
    );
    assert_eq!(
        Const::Signed(i128::MAX).to_string(),
        "I96(170141183460469231731687303715884105727)"
    );
    assert_eq!(
        Const::Signed(i128::MIN).to_string(),
        "I96(-170141183460469231731687303715884105728)"
    );
}

#[test]
fn formatting_matches_native_decimal() {
    let values: [u128; 6] = [1, 99, 100, 101, 1u128 << 64, 0xdead_beef_0000_0001];
    for v in values {
        assert_eq!(Const::Unsigned(v).to_string(), format!("U96({})", v));
        assert_eq!(Const::Signed(-(v as i128)).to_string(), format!("I96({})", -(v as i128)));
    }
}

#[test]
fn parse_unsigned_round_trips() {
    assert_eq!(Const::from_str_radix("42", 10).unwrap().as_u128(), 42);
    assert_eq!(Const::from_str_radix("ff", 16).unwrap().as_u128(), 255);
    assert_eq!(Const::from_str_radix("FF", 16).unwrap().as_u128(), 255);
    assert_eq!(Const::from_str_radix("101", 2).unwrap().as_u128(), 5);
    assert_eq!(Const::from_str_radix("zz", 36).unwrap().as_u128(), 35 * 36 + 35);
    assert_eq!(Const::from_str_radix("0", 10), Ok(Const::Unsigned(0)));
    assert_eq!(Const::from_str_radix("+17", 10), Ok(Const::Unsigned(17)));
    assert_eq!(Const::from_str_radix("000123", 10), Ok(Const::Unsigned(123)));
    assert_eq!(
        Const::from_str_radix("340282366920938463463374607431768211455", 10),
        Ok(Const::Unsigned(u128::MAX))
    );
    assert_eq!(
        Const::from_str_radix("ffffffffffffffffffffffffffffffff", 16),
        Ok(Const::Unsigned(u128::MAX))
    );
    let ones = "1".repeat(128);
    assert_eq!(Const::from_str_radix(&ones, 2), Ok(Const::Unsigned(u128::MAX)));
}

#[test]
fn parse_signed_round_trips() {
    assert_eq!(Const::from_str_signed_radix("42", 10).unwrap().as_i128(), 42);
    assert_eq!(Const::from_str_signed_radix("-42", 10).unwrap().as_i128(), -42);
    assert_eq!(Const::from_str_signed_radix("+42", 10).unwrap().as_i128(), 42);
    assert_eq!(Const::from_str_signed_radix("-ff", 16).unwrap().as_i128(), -255);
    assert_eq!(Const::from_str_signed_radix("-101", 2).unwrap().as_i128(), -5);
    assert_eq!(Const::from_str_signed_radix("-0", 10), Ok(Const::Signed(0)));
    assert_eq!(
        Const::from_str_signed_radix("170141183460469231731687303715884105727", 10),
        Ok(Const::Signed(i128::MAX))
    );
    assert_eq!(
        Const::from_str_signed_radix("-170141183460469231731687303715884105728", 10),
        Ok(Const::Signed(i128::MIN))
    );
    assert_eq!(
        Const::from_str_signed_radix("-80000000000000000000000000000000", 16),
        Ok(Const::Signed(i128::MIN))
    );
}

#[test]
fn parse_rejects_the_empty_string() {
    assert_eq!(Const::from_str_radix("", 10), Err(ParseError::Empty));
    assert_eq!(Const::from_str_signed_radix("", 10), Err(ParseError::Empty));
}

#[test]
fn parse_rejects_invalid_digits() {
    assert_eq!(Const::from_str_radix("12a", 10), Err(ParseError::InvalidDigit));
    assert_eq!(Const::from_str_radix("2", 2), Err(ParseError::InvalidDigit));
    assert_eq!(Const::from_str_radix("g", 16), Err(ParseError::InvalidDigit));
    assert_eq!(Const::from_str_radix(" 1", 10), Err(ParseError::InvalidDigit));
    assert_eq!(Const::from_str_radix("1 ", 10), Err(ParseError::InvalidDigit));
    assert_eq!(Const::from_str_radix("1_000", 10), Err(ParseError::InvalidDigit));
    assert_eq!(Const::from_str_radix("0x10", 16), Err(ParseError::InvalidDigit));
    assert_eq!(Const::from_str_radix("-1", 10), Err(ParseError::InvalidDigit));
    assert_eq!(Const::from_str_radix("+", 10), Err(ParseError::InvalidDigit));
    assert_eq!(Const::from_str_radix("-", 10), Err(ParseError::InvalidDigit));
    assert_eq!(Const::from_str_radix("++1", 10), Err(ParseError::InvalidDigit));
    assert_eq!(Const::from_str_radix("\u{e9}", 10), Err(ParseError::InvalidDigit));
    assert_eq!(Const::from_str_radix("1\u{663}", 10), Err(ParseError::InvalidDigit));
    assert_eq!(Const::from_str_signed_radix("-", 10), Err(ParseError::InvalidDigit));
    assert_eq!(Const::from_str_signed_radix("+", 10), Err(ParseError::InvalidDigit));
    assert_eq!(Const::from_str_signed_radix("--1", 10), Err(ParseError::InvalidDigit));
    assert_eq!(Const::from_str_signed_radix("+-1", 10), Err(ParseError::InvalidDigit));
    assert_eq!(Const::from_str_signed_radix("1-", 10), Err(ParseError::InvalidDigit));
    assert_eq!(Const::from_str_signed_radix("-z", 35), Err(ParseError::InvalidDigit));
}

#[test]
fn parse_rejects_numbers_out_of_range() {
    assert_eq!(
        Const::from_str_radix("340282366920938463463374607431768211456", 10),
        Err(ParseError::PosOverflow)
    );
    assert_eq!(
        Const::from_str_radix("100000000000000000000000000000000", 16),
        Err(ParseError::PosOverflow)
    );
    assert_eq!(
        Const::from_str_signed_radix("170141183460469231731687303715884105728", 10),
        Err(ParseError::PosOverflow)
    );
    assert_eq!(
        Const::from_str_signed_radix("-170141183460469231731687303715884105729", 10),
        Err(ParseError::NegOverflow)
    );
    assert_eq!(
        Const::from_str_signed_radix("-80000000000000000000000000000001", 16),
        Err(ParseError::NegOverflow)
    );
}

#[test]
fn parse_reports_the_first_fault_from_the_left() {
    // The digits before the stray character are already out of range.
    assert_eq!(
        Const::from_str_radix("9999999999999999999999999999999999999999x", 10),
        Err(ParseError::PosOverflow)
    );
    // The stray character comes before the digits run out of range.
    assert_eq!(
        Const::from_str_radix("9x999999999999999999999999999999999999999", 10),
        Err(ParseError::InvalidDigit)
    );
    assert_eq!(
        Const::from_str_signed_radix("-9999999999999999999999999999999999999999x", 10),
        Err(ParseError::NegOverflow)
    );
}

#[test]
fn parse_agrees_with_native_parsing() {
    let samples = [
        "", "+", "-", "0", "-0", "+0", "7", "-7", "+7", "1f", "-1F", "zZ", "12 ", " 12", "1+1",
        "340282366920938463463374607431768211455", "340282366920938463463374607431768211456",
        "-170141183460469231731687303715884105728", "-170141183460469231731687303715884105729",
        "170141183460469231731687303715884105727", "170141183460469231731687303715884105728",
        "99999999999999999999999999999999999999999999999999", "0000000000000000000000000000000000000000000001",
        "-99999999999999999999999999999999999999999999999999x", "ffffffffffffffffffffffffffffffffg",
    ];
    for radix in [2u32, 8, 10, 16, 36] {
        for s in samples {
            let ours = Const::from_str_radix(s, radix).map(|c| c.as_u128()).ok();
            let native = u128::from_str_radix(s, radix).ok();
            assert_eq!(ours, native, "unsigned {:?} in radix {}", s, radix);
            let ours = Const::from_str_signed_radix(s, radix).map(|c| c.as_i128()).ok();
            let native = i128::from_str_radix(s, radix).ok();
            assert_eq!(ours, native, "signed {:?} in radix {}", s, radix);
        }
    }
}

#[test]
fn parse_errors_agree_with_native_kinds() {
    let samples = [
        "", "+", "-", "1x", "x1", "-x", "340282366920938463463374607431768211456",
        "-170141183460469231731687303715884105729", "170141183460469231731687303715884105728",
        "9999999999999999999999999999999999999999x", "-9999999999999999999999999999999999999999x",
    ];
    for s in samples {
        let ours = Const::from_str_radix(s, 10).err();
        let native = u128::from_str_radix(s, 10).err().map(|e| match e.kind() {
            IntErrorKind::Empty => ParseError::Empty,
            IntErrorKind::InvalidDigit => ParseError::InvalidDigit,
            IntErrorKind::PosOverflow => ParseError::PosOverflow,
            _ => ParseError::NegOverflow,
        });
        assert_eq!(ours, native, "unsigned {:?}", s);
        let ours = Const::from_str_signed_radix(s, 10).err();
        let native = i128::from_str_radix(s, 10).err().map(|e| match e.kind() {
            IntErrorKind::Empty => ParseError::Empty,
            IntErrorKind::InvalidDigit => ParseError::InvalidDigit,
            IntErrorKind::PosOverflow => ParseError::PosOverflow,
            _ => ParseError::NegOverflow,
        });
        assert_eq!(ours, native, "signed {:?}", s);
    }
}

#[test]
fn rendering_then_parsing_gives_the_value_back() {
    for v in [0u128, 1, 9, 10, 12345, u128::MAX] {
        let text = Const::Unsigned(v).to_string();
        let digits = &text[4..text.len() - 1];
        assert_eq!(Const::from_str_radix(digits, 10), Ok(Const::Unsigned(v)));
    }
    for v in [0i128, -1, 1, -12345, i128::MIN, i128::MAX] {
        let text = Const::Signed(v).to_string();
        let digits = &text[4..text.len() - 1];
        assert_eq!(Const::from_str_signed_radix(digits, 10), Ok(Const::Signed(v)));
    }
}

use zim_dsp::number::{read_u32, read_usize, Number};

fn chars(s: &str) -> Vec<char> {
    s.chars().collect()
}

#[test]
fn number_grammar_agrees_with_float_parsing() {
    let tokens = [
        "0", "440", "-1", "+2", "0.5", ".5", "5.", ".", "", "+", "-", "1e3", "1E3", "1e", "1e+",
        "1e-2", "1.5e10", "e5", "inf", "-inf", "+Infinity", "INFINITY", "nan", "NaN", "-nan",
        "infinit", "1_000", "0x10", " 1", "1 ", "sine", "1.2.3", "--1", "1e5.0", "00012",
        "1.e5", ".e5", "12a",
    ];
    for token in tokens {
        assert_eq!(
            Number::parse(token).is_some(),
            token.parse::<f32>().is_ok(),
            "token {token:?}"
        );
    }
}

#[test]
fn number_keeps_its_text() {
    let n = Number::parse("0.25").unwrap();
    assert_eq!(n.as_str(), "0.25");
    assert_eq!(n.clone().as_str(), "0.25");
    assert_eq!(Number::whole(1200).as_str(), "1200");
    assert_eq!(Number::whole(0).as_str(), "0");
    assert_eq!(Number::tenths(7).as_str(), "0.7");
    assert_eq!(Number::zero().as_str(), "0");
    assert_eq!(Number::one().as_str(), "1");
}

#[test]
fn readings_follow_the_written_value() {
    let cases: [(&str, usize, bool, bool, bool); 22] = [
        ("0", 0, false, false, false),
        ("0.5", 0, false, false, true),
        ("0.50001", 0, true, false, true),
        ("0.6", 0, true, false, true),
        ("0.49999", 0, false, false, true),
        ("1", 1, true, false, true),
        ("4", 4, true, false, true),
        ("4.9", 4, true, false, true),
        ("-4.9", 4, false, true, false),
        ("-0", 0, false, false, false),
        ("-0.0", 0, false, false, false),
        ("1e2", 100, true, false, true),
        ("1.5e1", 15, true, false, true),
        ("125e-2", 1, true, false, true),
        ("5e-1", 0, false, false, true),
        ("51e-2", 0, true, false, true),
        ("5e-2", 0, false, false, true),
        ("0e5", 0, false, false, false),
        ("nan", 0, false, false, false),
        ("inf", usize::MAX, true, false, true),
        ("-inf", usize::MAX, false, true, false),
        ("1e30", usize::MAX, true, false, true),
    ];
    for (text, whole, above_half, below_zero, above_zero) in cases {
        let r = Number::parse(text).unwrap().readings();
        assert_eq!(r.whole, whole, "whole part of {text}");
        assert_eq!(r.above_half, above_half, "{text} above one half");
        assert_eq!(r.below_zero, below_zero, "{text} below zero");
        assert_eq!(r.above_zero, above_zero, "{text} above zero");
    }
}

#[test]
fn readings_agree_with_floats_on_plain_values() {
    for text in ["0", "1", "2", "3.7", "8", "0.25", "0.75", "100", "-3", "12.5e1", "7e-1"] {
        let value = text.parse::<f32>().unwrap();
        let n = Number::parse(text).unwrap();
        assert_eq!(n.truncated(), value as usize, "{text}");
        assert_eq!(n.exceeds_half(), value > 0.5, "{text}");
        assert_eq!(n.is_negative(), value < 0.0, "{text}");
        assert_eq!(n.is_positive(), value > 0.0, "{text}");
    }
}

#[test]
fn huge_exponents_do_not_overflow() {
    let up = Number::parse("1e99999999999999999999999999999999999999").unwrap();
    assert_eq!(up.magnitude(), usize::MAX);
    let zero = Number::parse("0e99999999999999999999999999999999999999").unwrap();
    assert_eq!(zero.magnitude(), 0);
    let down = Number::parse("9e-99999999999999999999999999999999999999").unwrap();
    assert_eq!(down.magnitude(), 0);
    assert!(!down.exceeds_half());
    assert!(!down.is_positive());
}

#[test]
fn readings_agree_with_single_precision_at_the_marks() {
    let tie_at_zero = format!(
        "0.{}{}",
        "0".repeat(45),
        "700649232162408535461864791644958065640130970938257885878534141944895541342930300743319094181060791015625"
    );
    let above_the_tie = format!("{tie_at_zero}0001");
    let texts = [
        "0.5",
        "0.50000001",
        "0.50000002",
        "0.5000000298023223876953125",
        "0.50000002980232238769531250000",
        "0.5000000298023223876953126",
        "0.50000002980232238769531250001",
        "0.50000003",
        "0.5000001",
        "50000002e-8",
        "50000003e-8",
        "5000000298023223876953125e-25",
        "5000000298023223876953126e-25",
        "0.05000000298023223876953126e1",
        "0.499999999999",
        "-0.6",
        "1e-50",
        "-1e-50",
        "1e-46",
        "7e-46",
        "7.006e-46",
        "7.007e-46",
        "-7.007e-46",
        "8e-46",
        "1e-45",
        "1.4e-45",
        "1e-44",
        "0.1e-44",
        "70e-47",
        "71e-47",
        "0.0000000000000000000000000000000000000000000071",
        "0.000000000000000000000000000000000000000000007",
        "0.00000000000000000000000000000000000000000000701",
        "1e-200",
        "123456789e-60",
        "0",
        "0.0",
        "-0.0",
        "0e-7",
        tie_at_zero.as_str(),
        above_the_tie.as_str(),
    ];
    for text in texts {
        let value = text.parse::<f32>().unwrap();
        let n = Number::parse(text).unwrap();
        assert_eq!(n.exceeds_half(), value > 0.5, "{text} above one half");
        assert_eq!(n.is_negative(), value < 0.0, "{text} below zero");
        assert_eq!(n.is_positive(), value > 0.0, "{text} above zero");
    }
    assert!(!Number::parse("1e-50").unwrap().is_positive());
    assert!(!Number::parse("0.50000001").unwrap().exceeds_half());
    assert!(Number::parse("0.50000003").unwrap().exceeds_half());
    assert!(Number::parse("1.4e-45").unwrap().is_positive());
}

#[test]
fn unsigned_integers_are_read() {
    assert_eq!(read_u32(&chars("0")), Some(0));
    assert_eq!(read_u32(&chars("+17")), Some(17));
    assert_eq!(read_u32(&chars("4294967295")), Some(u32::MAX));
    assert_eq!(read_u32(&chars("4294967296")), None);
    assert_eq!(read_u32(&chars("")), None);
    assert_eq!(read_u32(&chars("+")), None);
    assert_eq!(read_u32(&chars("-1")), None);
    assert_eq!(read_u32(&chars("1a")), None);
    assert_eq!(read_usize(&chars("007")), Some(7));
    assert_eq!(read_usize(&chars("99999999999999999999999")), None);
    for token in ["3", "+3", "-3", "", "03", "3.0", "4294967296"] {
        assert_eq!(read_u32(&chars(token)), token.parse::<u32>().ok(), "{token:?}");
    }
}

#[test]
fn whole_parts_agree_with_single_precision() {
    let texts = [
        "0", "0.4", "0.9", "0.99999", "0.99999997", "0.99999998", "0.9999999701976776123046875",
        "0.99999997019767761230468749", "0.9999999701976776123046876", "1", "1.5", "1.9999999",
        "1.99999994", "1.999999940395355224609375", "1.99999993", "2.5", "3.7", "3.9999998",
        "3.9999999", "3.99999999", "4", "7.9999997", "7.9999998", "255.99999", "255.999993",
        "65535.996", "65535.998", "4194303.5", "4194303.74", "4194303.75", "4194303.76",
        "4194304.74", "4194304.75", "8388607.49", "8388607.5", "8388607.51", "8388607.75",
        "8388608.5", "8388608.50000000000000000001", "8388609.5", "8388609.49999", "16777215",
        "16777215.5", "16777215.49", "16777216", "16777217", "16777217.0001", "16777218",
        "16777219", "16777220", "33554432", "33554433", "33554434", "33554435", "33554436",
        "33554438", "33554438.0000001", "123456789", "987654321.5", "4294967295", "4294967296",
        "4294967297", "9007199254740993", "18446742974197923840", "18446743523953737728",
        "18446743523953737727", "18446743523953737729", "18446744073709551614",
        "18446744073709551615", "18446744073709551616", "1e10", "1e19", "1e20", "1e38", "1e39",
        "1.5e1", "12.5e1", "0.0000001e8", "167772170e-1", "-3.7", "-0.99999999", "-16777217",
        "inf", "-inf", "nan",
    ];
    for text in texts {
        let value = text.parse::<f32>().unwrap();
        let n = Number::parse(text).unwrap();
        assert_eq!(n.magnitude(), value.abs() as usize, "whole part of {text}");
        assert_eq!(n.truncated(), value as usize, "{text} as a count");
    }
    assert_eq!(Number::parse("3.99999999").unwrap().magnitude(), 4);
    assert_eq!(Number::parse("3.9999998").unwrap().magnitude(), 3);
    assert_eq!(Number::parse("16777217").unwrap().magnitude(), 16777216);
    assert_eq!(Number::parse("16777219").unwrap().magnitude(), 16777220);
}

#[test]
fn numbers_are_raised_to_one_thousandth() {
    let texts = [
        "0.001", "0.0009", "0.00099999", "0.00099999995", "0.00099999999", "0.000999999989",
        "0.0009999999892897903919219970703125", "0.0009999999892897903919219970703126",
        "0.00099999998928979039192199707031249", "0.00100000001", "0.0011", "1e-3", "1e-4",
        "9.9999999e-4", "99999999e-11", "0.00001", "1e-50", "0", "-0", "-1", "-0.5", "0.5", "2",
        "1000", "nan", "inf", "-inf", "+0.002", "0.0000000000000000000000000000000000000000000001",
    ];
    for text in texts {
        let value = text.parse::<f32>().unwrap().max(0.001);
        let raised = Number::parse(text).unwrap().raised_to_thousandth();
        assert_eq!(raised.as_str().parse::<f32>().unwrap(), value, "{text}");
        if raised.as_str() != text {
            assert_eq!(raised.as_str(), "0.001", "{text}");
        }
    }
    assert_eq!(Number::parse("0.0009").unwrap().raised_to_thousandth().as_str(), "0.001");
    assert_eq!(Number::parse("0.25").unwrap().raised_to_thousandth().as_str(), "0.25");
}

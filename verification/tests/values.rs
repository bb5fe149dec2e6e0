use usd_bevy::float::{less32, less64};
use usd_bevy::materialx::value::{
    component_count, float_literal, parse_default, value_to_uniform, Lane,
};
use usd_bevy::stage::{Authored, Value};
use usd_bevy::text::{
    contains, eq_ignore_case, ends_with, hex_number, less, number, split, starts_with,
    strip_leading, trim,
};

#[test]
fn float_literals_follow_the_grammar() {
    for good in [
        "0", "1.", ".5", "-3.25", "+7", "1e5", "1E-5", "2.5e+3", "inf", "-Infinity", "NaN", "00.0",
    ] {
        assert!(float_literal(good), "{good}");
        assert!(good.parse::<f32>().is_ok(), "{good}");
    }
    for bad in ["", ".", "-", "e5", "1e", "1e+", "1.2.3", "0x10", "1 ", "infinit", "1f", "--1"] {
        assert!(!float_literal(bad), "{bad}");
        assert!(bad.parse::<f32>().is_err(), "{bad}");
    }
}

#[test]
fn defaults_are_parsed_by_component() {
    let slot = parse_default("color3", "0.8, 0.7 ,0.6").unwrap();
    assert_eq!(slot.x, Lane::Literal("0.8".into()));
    assert_eq!(slot.y, Lane::Literal("0.7".into()));
    assert_eq!(slot.z, Lane::Literal("0.6".into()));
    assert_eq!(slot.w, Lane::Bits32(0));
    assert_eq!(parse_default("boolean", " true ").unwrap().x, Lane::Bits32(1.0f32.to_bits()));
    assert_eq!(parse_default("boolean", "1").unwrap().x, Lane::Bits32(1.0f32.to_bits()));
    assert_eq!(parse_default("boolean", "yes").unwrap().x, Lane::Bits32(0));
    assert_eq!(
        parse_default("vector2", "1.0").unwrap_err(),
        "vector2 default expects 2 component(s), got 1 in \"1.0\""
    );
    assert_eq!(
        parse_default("float", "").unwrap_err(),
        "invalid float default \"\": cannot parse float from empty string"
    );
    assert_eq!(
        parse_default("filename", "a").unwrap_err(),
        "MaterialX default type filename is not GPU-uniform compatible"
    );
    assert_eq!(component_count("color4"), Some(4));
    assert_eq!(component_count("boolean"), None);
}

#[test]
fn authored_values_fit_their_type() {
    let authored = |value: Value| Authored { shown: format!("{value:?}"), value };
    let one = |kind: &str, value: Value| value_to_uniform(kind, &authored(value)).unwrap().x;
    assert_eq!(one("boolean", Value::Bool(true)), Lane::Bits32(1.0f32.to_bits()));
    assert_eq!(one("integer", Value::Int(-3)), Lane::Int(-3));
    assert_eq!(one("integer", Value::Int64(9)), Lane::Int(9));
    assert_eq!(one("float", Value::Float(0.5f32.to_bits())), Lane::Bits32(0.5f32.to_bits()));
    assert_eq!(one("float", Value::Double(0.5f64.to_bits())), Lane::Bits64(0.5f64.to_bits()));
    let pair = value_to_uniform("vector2", &authored(Value::Vec2f(1, 2))).unwrap();
    assert_eq!((pair.x, pair.y, pair.z), (Lane::Bits32(1), Lane::Bits32(2), Lane::Bits32(0)));
    let four = value_to_uniform("color4", &authored(Value::Vec4d(1, 2, 3, 4))).unwrap();
    assert_eq!(four.w, Lane::Bits64(4));
    assert_eq!(
        value_to_uniform("float", &authored(Value::Bool(true))).unwrap_err(),
        "expected MaterialX float, got authored USD value Bool(true)"
    );
}

#[test]
fn floats_compare_by_their_bits() {
    let samples = [
        f32::NEG_INFINITY, -2.5, -1.0e-40, -0.0, 0.0, 1.0e-40, 0.5, 1.0, 3.0e38, f32::INFINITY,
        f32::NAN,
    ];
    for a in samples {
        for b in samples {
            assert_eq!(less32(a.to_bits(), b.to_bits()), a < b, "{a} {b}");
            let (x, y) = (a as f64, b as f64);
            assert_eq!(less64(x.to_bits(), y.to_bits()), x < y, "{x} {y}");
        }
    }
}

#[test]
fn text_helpers_agree_with_std() {
    assert_eq!(number(0), "0");
    assert_eq!(number(18446744073709551615), u64::MAX.to_string());
    assert_eq!(hex_number(0xdead_beef, 16), format!("{:016x}", 0xdead_beefu64));
    assert_eq!(trim(" \t\u{3000}a b\u{a0}\n"), " \t\u{3000}a b\u{a0}\n".trim());
    assert_eq!(split("a,,b", ','), ["a", "", "b"]);
    assert_eq!(split("", ','), [""]);
    assert!(contains("abcabd", "cab") && !contains("abc", "abcd") && contains("abc", ""));
    assert!(starts_with("inputs:a", "inputs:") && !starts_with("in", "inputs:"));
    assert!(ends_with("FixedJoint", "Joint") && !ends_with("t", "Joint"));
    assert!(less("a", "b") && less("a", "ab") && !less("b", "a") && !less("a", "a"));
    assert_eq!(less("Z", "é"), "Z" < "é");
    assert_eq!(strip_leading("outputs:outputs:out", "outputs:"), "out");
    assert!(eq_ignore_case("MtLx", "mtlx") && !eq_ignore_case("mtl", "mtlx"));
}

use nucleation::float::{f32_eq, f32_to_f64_bits, f64_eq, f64_to_f32_bits, i64_to_f64_bits};
use nucleation::float_add::{f64_add, f64_add_bits};
use nucleation::json::{create_translatable_component, retrieve_translation_string};
use nucleation::text::{debug_text, eq_ignore_ascii_case, find_text, int_text, parse_i32, strip_prefix};

#[test]
fn widening_a_float_is_exact() {
    for x in [1.5f32, -0.0, 0.1, 1e-45, f32::MAX, f32::MIN_POSITIVE, f32::INFINITY, -3.25e7] {
        assert_eq!(f32_to_f64_bits(x.to_bits()), (x as f64).to_bits(), "{x}");
    }
    let nan = f64::from_bits(f32_to_f64_bits(f32::NAN.to_bits()));
    assert!(nan.is_nan());
}

#[test]
fn narrowing_a_double_rounds_to_nearest_even() {
    for d in [
        1.0000000000000002f64,
        0.1,
        -2.5,
        1e300,
        -1e300,
        1e-50,
        1.0 + 2f64.powi(-24),
        1.0 + 3.0 * 2f64.powi(-24),
        f32::MAX as f64 * 1.0000001,
        1.401298464324817e-45,
        7.006492321624085e-46,
        3.4028235677973366e38,
    ] {
        assert_eq!(f64_to_f32_bits(d.to_bits()), (d as f32).to_bits(), "{d:e}");
    }
    assert_eq!(f64_to_f32_bits((1.0 + 2f64.powi(-24)).to_bits()), 1.0f32.to_bits());
    assert!(f32::from_bits(f64_to_f32_bits(f64::NAN.to_bits())).is_nan());
}

#[test]
fn narrowing_then_widening_loses_only_what_a_float_cannot_hold() {
    let exact = 1.5f64;
    let w = f32_to_f64_bits(f64_to_f32_bits(exact.to_bits()));
    assert!(f64_eq(w, exact.to_bits()));
    let precise = 1.0000000000000002f64;
    let w = f32_to_f64_bits(f64_to_f32_bits(precise.to_bits()));
    assert!(!f64_eq(w, precise.to_bits()));
}

#[test]
fn integers_convert_to_the_nearest_double() {
    for x in [0i64, 1, -7, i64::MAX, i64::MIN, (1 << 53) + 1, (1 << 53) + 3, -(1 << 60) - 1] {
        assert_eq!(i64_to_f64_bits(x), (x as f64).to_bits(), "{x}");
    }
}

#[test]
fn float_equality_ignores_the_sign_of_zero_and_refuses_nan() {
    assert!(f64_eq(0.0f64.to_bits(), (-0.0f64).to_bits()));
    assert!(!f64_eq(f64::NAN.to_bits(), f64::NAN.to_bits()));
    assert!(!f64_eq(1.0f64.to_bits(), 2.0f64.to_bits()));
    assert!(f32_eq(0.0f32.to_bits(), (-0.0f32).to_bits()));
    assert!(!f32_eq(f32::NAN.to_bits(), f32::NAN.to_bits()));
}

#[test]
fn parse_i32_follows_str_parse() {
    for s in ["0", "42", "-42", "+7", "2147483647", "-2147483648", "2147483648", "", "-", "+", " 1", "1x", "--1", "007"] {
        assert_eq!(parse_i32(s), s.parse::<i32>().ok(), "{s:?}");
    }
}

#[test]
fn int_text_writes_decimal() {
    assert_eq!(int_text(-42), "-42");
    assert_eq!(int_text(0), "0");
    assert_eq!(int_text(i64::MIN), i64::MIN.to_string());
    assert_eq!(int_text(i64::MAX), i64::MAX.to_string());
}

#[test]
fn text_helpers() {
    assert!(eq_ignore_ascii_case("Minecraft:Stone", "minecraft:stone"));
    assert!(!eq_ignore_ascii_case("minecraft:stone", "minecraft:stones"));
    assert_eq!(find_text("abcabc", "ca"), Some(2));
    assert_eq!(find_text("abc", "d"), None);
    assert_eq!(find_text("abc", ""), Some(0));
    assert_eq!(strip_prefix("minecraft:stone", "minecraft:"), Some("stone"));
    assert_eq!(strip_prefix("stone", "minecraft:"), None);
    assert_eq!(debug_text("a\"b"), "\"a\\\"b\"");
}

#[test]
fn a_translation_key_is_read_from_json() {
    assert_eq!(
        retrieve_translation_string("{\"translate\":\"block.minecraft.stone\"}"),
        Some("block.minecraft.stone".to_string())
    );
    assert_eq!(retrieve_translation_string("not json"), None);
    assert_eq!(retrieve_translation_string("{\"translate\":3}"), None);
    assert_eq!(retrieve_translation_string("{\"text\":\"x\"}"), None);
}

#[test]
fn a_translatable_component_is_written_as_json() {
    assert_eq!(
        create_translatable_component("block.minecraft.ominous_banner"),
        "{\"translate\":\"block.minecraft.ominous_banner\"}"
    );
    assert_eq!(create_translatable_component("a\"b"), "{\"translate\":\"a\\\"b\"}");
    assert_eq!(create_translatable_component("x\n\u{1}\\"), "{\"translate\":\"x\\n\\u0001\\\\\"}");
}

#[test]
fn a_written_translatable_component_reads_back_its_key() {
    for key in ["block.minecraft.stone", "a\"b", "x\n\u{1}\\\t", "", "é\u{7f}"] {
        let json = create_translatable_component(key);
        assert_eq!(retrieve_translation_string(&json), Some(key.to_string()));
    }
}

#[test]
fn double_addition_rounds_like_the_hardware() {
    let values = [
        0.0f64,
        -0.0,
        1.0,
        -1.0,
        0.1,
        0.2,
        0.3,
        1e-310,
        -1e-310,
        5e-324,
        -5e-324,
        f64::MIN_POSITIVE,
        f64::MAX,
        -f64::MAX,
        1e308,
        3.0e307,
        1.0 + f64::EPSILON,
        9007199254740993.0,
        4503599627370496.5,
        1e16,
        -1e16,
        123456.789,
        2f64.powi(100),
        2f64.powi(-100),
        f64::INFINITY,
        f64::NEG_INFINITY,
    ];
    for a in values {
        for b in values {
            let want = a + b;
            let got = f64::from_bits(f64_add_bits(a.to_bits(), b.to_bits()));
            if want.is_nan() {
                assert!(got.is_nan(), "{a:e} + {b:e}");
            } else {
                assert_eq!(got.to_bits(), want.to_bits(), "{a:e} + {b:e}");
            }
        }
    }
    assert!(f64::from_bits(f64_add(f64::NAN.to_bits(), 1.0f64.to_bits())).is_nan());
    assert_eq!(f64_add(f64::NAN.to_bits(), 1.0f64.to_bits()), 0x7FF8_0000_0000_0000);
    // Ties go to even.
    let one = 1.0f64.to_bits();
    let half_ulp = 2f64.powi(-53).to_bits();
    assert_eq!(f64_add_bits(one, half_ulp), one);
    let next = (1.0f64 + f64::EPSILON).to_bits();
    assert_eq!(f64_add_bits(next, half_ulp), (1.0f64 + 2.0 * f64::EPSILON).to_bits());
}

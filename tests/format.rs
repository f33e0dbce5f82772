use airquamon::data::Data;
use airquamon::format::{co2_text, format_line, value_text, CO2_CAPACITY, VALUE_CAPACITY};
use airquamon::text::{Text, TEXT_CAPACITY};

fn text(t: Text) -> String {
    t.as_str().to_string()
}

#[test]
fn line_text_of_scenario_reading() {
    let d = Data::new(459, 2059, 5742);
    assert_eq!(text(format_line(&d)), "CO2: 459 ppm | 20.59 \u{b0}C | 57.42 %");
}

#[test]
fn line_text_keeps_two_decimals_and_sign() {
    let d = Data::new(0, -530, 5);
    assert_eq!(text(format_line(&d)), "CO2: 0 ppm | -5.30 \u{b0}C | 0.05 %");
}

#[test]
fn line_text_fits_for_extreme_values() {
    let d = Data::new(u16::MAX, i32::MIN, i32::MAX);
    let t = format_line(&d);
    assert!(t.len() <= TEXT_CAPACITY);
    assert_eq!(text(t), "CO2: 65535 ppm | -21474836.48 \u{b0}C | 21474836.47 %");
}

#[test]
fn co2_text_is_plain_integer() {
    assert_eq!(text(co2_text(459)), "459");
    assert_eq!(text(co2_text(0)), "0");
    assert_eq!(text(co2_text(9999)), "9999");
    assert!(co2_text(9999).len() <= CO2_CAPACITY);
}

#[test]
fn value_text_rounds_to_one_decimal() {
    assert_eq!(text(value_text(2059)), "20.6");
    assert_eq!(text(value_text(5742)), "57.4");
    assert_eq!(text(value_text(0)), "0.0");
    assert_eq!(text(value_text(-530)), "-5.3");
}

#[test]
fn value_text_rounds_halves_to_even() {
    assert_eq!(text(value_text(2045)), "20.4");
    assert_eq!(text(value_text(2055)), "20.6");
    assert_eq!(text(value_text(95)), "1.0");
    assert_eq!(text(value_text(-4)), "-0.0");
}

#[test]
fn value_text_fits_at_range_edges() {
    for v in [-9990, -1000, -999, 0, 9999, 19990] {
        assert!(value_text(v).len() <= VALUE_CAPACITY, "{}", v);
    }
    assert_eq!(text(value_text(-9990)), "-99.9");
    assert_eq!(text(value_text(19990)), "199.9");
}

#[test]
fn range_check_of_reading() {
    assert!(Data::new(9999, -9990, 19990).is_in_range());
    assert!(!Data::new(10000, 0, 0).is_in_range());
    assert!(!Data::new(400, -9991, 0).is_in_range());
    assert!(!Data::new(400, 0, 19991).is_in_range());
}

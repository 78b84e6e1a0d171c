//! Tests of the piecewise-linear scale conversions.

use font_kit::properties::{Stretch, Weight};
use font_kit::rational::Frac;
use font_kit::scale::{piecewise_linear_find_index, piecewise_linear_lookup};
use font_kit::sources::core_text::{
    css_stretchiness_to_core_text_width, css_to_core_text_font_weight, font_weight_mapping,
};

fn assert_value(actual: &Frac, num: i128, den: i128) {
    let expected = Frac::new(num, den);
    assert!(
        actual.same_value(&expected),
        "expected {}/{}, got {}/{}",
        num,
        den,
        actual.num(),
        actual.den()
    );
}

#[test]
fn test_css_to_core_text_font_weight() {
    // Exact matches
    assert_value(&css_to_core_text_font_weight(Weight(100_000)), -7, 10);
    assert_value(&css_to_core_text_font_weight(Weight(400_000)), 0, 1);
    assert_value(&css_to_core_text_font_weight(Weight(700_000)), 4, 10);
    assert_value(&css_to_core_text_font_weight(Weight(900_000)), 8, 10);

    // Linear interpolation
    assert_value(&css_to_core_text_font_weight(Weight(450_000)), 1, 10);
}

#[test]
fn test_css_to_core_text_font_stretch() {
    // Exact matches
    assert_value(&css_stretchiness_to_core_text_width(Stretch(1000)), 0, 1);
    assert_value(&css_stretchiness_to_core_text_width(Stretch(500)), -1, 1);
    assert_value(&css_stretchiness_to_core_text_width(Stretch(2000)), 1, 1);

    // Linear interpolation
    assert_value(&css_stretchiness_to_core_text_width(Stretch(1700)), 85, 100);
}

#[test]
fn test_forward_at_integer_indices_is_exact() {
    let weights = font_weight_mapping();
    for (i, entry) in weights.iter().enumerate() {
        let index = Frac::new(i as i128, 1);
        let value = piecewise_linear_lookup(&index, &weights);
        assert_value(&value, *entry as i128, 1);
    }
}

#[test]
fn test_inverse_of_exact_breakpoint_is_its_index() {
    let stretches = Stretch::mapping();
    for (i, entry) in stretches.iter().enumerate() {
        let query = Frac::new(*entry as i128, 1);
        let index = piecewise_linear_find_index(&query, &stretches);
        assert_value(&index, i as i128, 1);
    }
}

#[test]
fn test_inverse_forward_round_trip_is_stable() {
    let stretches = Stretch::mapping();
    for query_value in [500i128, 700, 1000, 1300, 1700, 1999, 2000] {
        let query = Frac::new(query_value, 1);
        let first_index = piecewise_linear_find_index(&query, &stretches);
        let value = piecewise_linear_lookup(&first_index, &stretches);
        assert!(value.same_value(&query), "forward(inverse(q)) differs from q");
        let second_index = piecewise_linear_find_index(&value, &stretches);
        assert!(
            second_index.same_value(&first_index),
            "inverse(forward(inverse(q))) differs from inverse(q)"
        );
    }
}

#[test]
fn test_inverse_below_table_clamps_to_zero() {
    let stretches = Stretch::mapping();
    let query = Frac::new(499, 1);
    assert_value(&piecewise_linear_find_index(&query, &stretches), 0, 1);
    let far_below = Frac::new(-1_000_000, 1);
    assert_value(&piecewise_linear_find_index(&far_below, &stretches), 0, 1);
}

#[test]
fn test_interpolated_index_between_breakpoints() {
    let stretches = Stretch::mapping();
    // 1700 lies between 1500 (index 7) and 2000 (index 8): index 7.4.
    let query = Frac::new(1700, 1);
    assert_value(&piecewise_linear_find_index(&query, &stretches), 37, 5);
}

use bmi::{calculate_bmi, classify, BMIConclusion, BmiError, Height, Weight};

fn metres(m: f64) -> Height {
    Height((m * 1e6).round() as i64)
}

fn kilograms(kg: f64) -> Weight {
    Weight((kg * 1e6).round() as i64)
}

#[test]
fn test_height_zero_err() {
    let bmi_err = calculate_bmi(&metres(0.0), &kilograms(78.0)).unwrap_err();
    assert_eq!(bmi_err, BmiError::HeightCannotBeZeroOrNegative);
}

#[test]
fn test_weight_zero_err() {
    let bmi_err = calculate_bmi(&metres(1.0), &kilograms(0.0)).unwrap_err();
    assert_eq!(bmi_err, BmiError::WeightCannotBeZeroOrNegative);
}

#[test]
fn test_result() {
    let bmi = calculate_bmi(&metres(1.84), &kilograms(78.0)).unwrap();
    let value = bmi.bmi as f64 / 1e6;
    assert!((value - 23.03).abs() <= 0.15);
}

#[test]
fn typical_measurement_is_normal() {
    let bmi = calculate_bmi(&Height(1_840_000), &Weight(78_000_000)).unwrap();
    assert_eq!(bmi.bmi, 23_038_752);
    assert_eq!(bmi.conclusion, BMIConclusion::Normal);
}

#[test]
fn exact_ratio_at_one_metre() {
    let bmi = calculate_bmi(&Height(1_000_000), &Weight(70_000_000)).unwrap();
    assert_eq!(bmi.bmi, 70_000_000);
    assert_eq!(bmi.conclusion, BMIConclusion::MorbidObese);
}

#[test]
fn ratio_is_rounded_down_to_a_millionth() {
    let bmi = calculate_bmi(&Height(3_000_000), &Weight(100_000_000)).unwrap();
    assert_eq!(bmi.bmi, 11_111_111);
    assert_eq!(bmi.conclusion, BMIConclusion::Underweight);
}

#[test]
fn ratio_on_a_band_boundary() {
    let bmi = calculate_bmi(&Height(2_000_000), &Weight(100_000_000)).unwrap();
    assert_eq!(bmi.bmi, 25_000_000);
    assert_eq!(bmi.conclusion, BMIConclusion::Overweight);
}

#[test]
fn band_follows_exact_ratio_just_below_boundary() {
    // 19 * 1.5² = 42.75 kg; one milligram less lies just under the boundary.
    let below = calculate_bmi(&Height(1_500_000), &Weight(42_749_999)).unwrap();
    assert_eq!(below.bmi, 18_999_999);
    assert_eq!(below.conclusion, BMIConclusion::Underweight);
    let at = calculate_bmi(&Height(1_500_000), &Weight(42_750_000)).unwrap();
    assert_eq!(at.bmi, 19_000_000);
    assert_eq!(at.conclusion, BMIConclusion::Normal);
}

#[test]
fn formula_over_many_inputs() {
    for h in [500_000i64, 1_230_000, 1_750_000, 2_100_000] {
        for w in [1i64, 45_000_000, 82_500_000, 150_000_000] {
            let bmi = calculate_bmi(&Height(h), &Weight(w)).unwrap();
            let expected = (w as u128 * 1_000_000_000_000) / (h as u128 * h as u128);
            assert_eq!(bmi.bmi, expected);
            assert_eq!(bmi.conclusion, classify(expected));
        }
    }
}

#[test]
fn negative_height_wins_over_any_weight() {
    for w in [-5_000_000i64, 0, 70_000_000] {
        let err = calculate_bmi(&Height(-1_700_000), &Weight(w)).unwrap_err();
        assert_eq!(err, BmiError::HeightCannotBeZeroOrNegative);
        let err = calculate_bmi(&Height(0), &Weight(w)).unwrap_err();
        assert_eq!(err, BmiError::HeightCannotBeZeroOrNegative);
    }
}

#[test]
fn negative_weight_is_refused() {
    let err = calculate_bmi(&Height(1_700_000), &Weight(-70_000_000)).unwrap_err();
    assert_eq!(err, BmiError::WeightCannotBeZeroOrNegative);
    let err = calculate_bmi(&Height(1), &Weight(i64::MIN)).unwrap_err();
    assert_eq!(err, BmiError::WeightCannotBeZeroOrNegative);
}

#[test]
fn largest_inputs_do_not_overflow() {
    let small = calculate_bmi(&Height(1), &Weight(i64::MAX)).unwrap();
    assert_eq!(small.bmi, i64::MAX as u128 * 1_000_000_000_000);
    assert_eq!(small.conclusion, BMIConclusion::MorbidObese);
    let tall = calculate_bmi(&Height(i64::MAX), &Weight(1)).unwrap();
    assert_eq!(tall.bmi, 0);
    assert_eq!(tall.conclusion, BMIConclusion::Underweight);
}

#[test]
fn classification_boundaries_are_half_open() {
    assert_eq!(classify(18_999_999), BMIConclusion::Underweight);
    assert_eq!(classify(19_000_000), BMIConclusion::Normal);
    assert_eq!(classify(24_999_000), BMIConclusion::Normal);
    assert_eq!(classify(25_000_000), BMIConclusion::Overweight);
    assert_eq!(classify(29_999_999), BMIConclusion::Overweight);
    assert_eq!(classify(30_000_000), BMIConclusion::Obese);
    assert_eq!(classify(34_999_999), BMIConclusion::Obese);
    assert_eq!(classify(35_000_000), BMIConclusion::MorbidObese);
    assert_eq!(classify(0), BMIConclusion::Underweight);
    assert_eq!(classify(u128::MAX), BMIConclusion::MorbidObese);
}

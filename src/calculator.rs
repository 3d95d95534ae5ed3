//! The calculator: `weight / height²`, checked inputs, five bands.

use vstd::prelude::*;

verus! {

/// Fixed-point units in one whole unit: micrometres in a metre, milligrams in
/// a kilogram, millionths of kg/m² in one kg/m².
pub const MICROS: u128 = 1_000_000;

/// `MICROS * MICROS`.
pub const MICROS_SQUARED: u128 = 1_000_000_000_000;

/// The weight taken when a typed weight cannot be read: 85.2 kg.
pub const FALLBACK_WEIGHT_MG: i64 = 85_200_000;

/// The height taken when a typed height cannot be read: 1.8 m.
pub const FALLBACK_HEIGHT_UM: i64 = 1_800_000;

/// A body weight in milligrams.
pub struct Weight(pub i64);

/// A body height in micrometres.
pub struct Height(pub i64);

/// The five bands of the BMI scale.
#[derive(Debug, Clone, Copy, PartialEq, Eq, Structural)]
pub enum BMIConclusion {
    Underweight,
    Normal,
    Overweight,
    Obese,
    MorbidObese,
}

/// Why a measurement could not be turned into a BMI.
#[derive(Debug, Clone, Copy, PartialEq, Eq, Structural)]
pub enum BmiError {
    HeightCannotBeZeroOrNegative,
    WeightCannotBeZeroOrNegative,
}

/// A computed BMI: `bmi` in millionths of kg/m², rounded down, and the band
/// of the exact ratio.
#[derive(Debug, Clone, Copy, PartialEq, Eq, Structural)]
pub struct Bmi {
    pub bmi: u128,
    pub conclusion: BMIConclusion,
}

/// The band of the exact ratio `num / den` (in kg/m²), `den > 0`. Each band
/// holds its lower bound and not its upper one.
pub open spec fn band_of_ratio(num: int, den: int) -> BMIConclusion {
    if num < 19 * den {
        BMIConclusion::Underweight
    } else if num < 25 * den {
        BMIConclusion::Normal
    } else if num < 30 * den {
        BMIConclusion::Overweight
    } else if num < 35 * den {
        BMIConclusion::Obese
    } else {
        BMIConclusion::MorbidObese
    }
}

/// The band of a BMI given in millionths of kg/m².
pub open spec fn band_of_micros(micros: int) -> BMIConclusion {
    band_of_ratio(micros, MICROS as int)
}

/// `weight / height²` in millionths of kg/m², rounded down, for a weight in
/// milligrams and a height in micrometres.
pub open spec fn bmi_micros(height_um: int, weight_mg: int) -> int {
    (weight_mg * MICROS_SQUARED as int) / (height_um * height_um)
}

/// What `calculate_bmi` gives for a height in micrometres and a weight in
/// milligrams: the height is checked first, then the weight; the band is
/// that of the exact ratio `weight / height²`.
pub open spec fn bmi_outcome(height_um: int, weight_mg: int) -> Result<Bmi, BmiError> {
    if height_um <= 0 {
        Err(BmiError::HeightCannotBeZeroOrNegative)
    } else if weight_mg <= 0 {
        Err(BmiError::WeightCannotBeZeroOrNegative)
    } else {
        Ok(
            Bmi {
                bmi: bmi_micros(height_um, weight_mg) as u128,
                conclusion: band_of_ratio(weight_mg * MICROS as int, height_um * height_um),
            },
        )
    }
}

/// The band of a BMI given in millionths of kg/m².
pub fn classify(bmi: u128) -> (r: BMIConclusion)
    ensures
        r == band_of_micros(bmi as int),
{
    if bmi < 19 * MICROS {
        BMIConclusion::Underweight
    } else if bmi < 25 * MICROS {
        BMIConclusion::Normal
    } else if bmi < 30 * MICROS {
        BMIConclusion::Overweight
    } else if bmi < 35 * MICROS {
        BMIConclusion::Obese
    } else {
        BMIConclusion::MorbidObese
    }
}

/// For `b > 0` and a whole `k`, `a / b` lies below `k` exactly when `a` lies
/// below `k * b`.
proof fn lemma_div_below(a: int, b: int, k: int)
    requires
        a >= 0,
        b > 0,
    ensures
        (a / b < k) == (a < k * b),
{
    let q = a / b;
    let r = a % b;
    vstd::arithmetic::div_mod::lemma_fundamental_div_mod(a, b);
    assert(0 <= r < b);
    if q < k {
        assert(a < k * b) by (nonlinear_arith)
            requires
                a == b * q + r,
                r < b,
                q < k,
                b > 0,
        ;
    } else {
        assert(a >= k * b) by (nonlinear_arith)
            requires
                a == b * q + r,
                r >= 0,
                q >= k,
                b > 0,
        ;
    }
}

/// With `a = weight_mg * MICROS²` and `b > 0`, the rounded-down quotient in
/// millionths lies below the threshold `t` exactly when the exact ratio does.
proof fn lemma_threshold(a: int, b: int, weight_mg: int, t: int)
    requires
        a == weight_mg * MICROS_SQUARED as int,
        a >= 0,
        b > 0,
    ensures
        (a / b < t * (MICROS as int)) == (weight_mg * (MICROS as int) < t * b),
{
    let m = MICROS as int;
    lemma_div_below(a, b, t * m);
    assert((a < (t * m) * b) == (weight_mg * m < t * b)) by (nonlinear_arith)
        requires
            a == weight_mg * 1_000_000_000_000,
            m == 1_000_000,
    ;
}

/// Classifying the rounded-down BMI gives the band of the exact ratio.
proof fn lemma_band_of_rounded(height_um: int, weight_mg: int)
    requires
        height_um > 0,
        weight_mg > 0,
    ensures
        band_of_micros(bmi_micros(height_um, weight_mg)) == band_of_ratio(
            weight_mg * MICROS as int,
            height_um * height_um,
        ),
{
    let a = weight_mg * MICROS_SQUARED as int;
    let b = height_um * height_um;
    let m = MICROS as int;
    assert(b > 0) by (nonlinear_arith)
        requires
            height_um > 0,
            b == height_um * height_um,
    ;
    assert(a >= 0) by (nonlinear_arith)
        requires
            weight_mg > 0,
            a == weight_mg * 1_000_000_000_000,
    ;
    lemma_threshold(a, b, weight_mg, 19);
    lemma_threshold(a, b, weight_mg, 25);
    lemma_threshold(a, b, weight_mg, 30);
    lemma_threshold(a, b, weight_mg, 35);
}

/// Computes the BMI of a measurement. A height of zero or below is refused
/// before the weight is looked at; then a weight of zero or below is refused.
pub fn calculate_bmi(height: &Height, weight: &Weight) -> (r: Result<Bmi, BmiError>)
    ensures
        r == bmi_outcome(height.0 as int, weight.0 as int),
{
    if height.0 <= 0 {
        Err(BmiError::HeightCannotBeZeroOrNegative)
    } else if weight.0 <= 0 {
        Err(BmiError::WeightCannotBeZeroOrNegative)
    } else {
        let h = height.0 as u128;
        let w = weight.0 as u128;
        assert(h * h <= 0x8000_0000_0000_0000u128 * 0x8000_0000_0000_0000u128) by (nonlinear_arith)
            requires
                h <= 0x8000_0000_0000_0000u128,
        ;
        let area = h * h;
        let scaled = w * MICROS_SQUARED;
        assert(area > 0) by (nonlinear_arith)
            requires
                h > 0,
                area == h * h,
        ;
        let bmi = scaled / area;
        proof {
            lemma_band_of_rounded(height.0 as int, weight.0 as int);
        }
        Ok(Bmi { bmi, conclusion: classify(bmi) })
    }
}

} // verus!

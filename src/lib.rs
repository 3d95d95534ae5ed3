//! Body Mass Index: validation, computation and classification of a
//! measurement, and the append-only history of past results.
//!
//! Quantities are fixed-point integers: a height in micrometres, a weight in
//! milligrams and a BMI in millionths of kg/m².

pub mod calculator;
pub mod history;

pub use calculator::{
    calculate_bmi, classify, BMIConclusion, Bmi, BmiError, Height, Weight, FALLBACK_HEIGHT_UM,
    FALLBACK_WEIGHT_MG, MICROS,
};
pub use history::{calculate_and_record, HistData, History};

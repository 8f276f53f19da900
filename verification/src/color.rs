//! Colour categories and the classification of raw sensor codes.

use vstd::prelude::*;

verus! {

/// The colour category of an object in front of a sensor.
#[derive(Clone, Copy, Debug, PartialEq, Eq, Structural)]
pub enum BrickColor {
    /// Nothing recognised: no object, an unknown code or a failed read.
    Unclassified,
    Black,
    Blue,
    Green,
    Yellow,
    Red,
    White,
    Brown,
}

/// The category that a raw sensor code stands for: codes 0 to 7 name the
/// eight categories in order, every other code is `Unclassified`.
pub open spec fn category_of_code(code: int) -> BrickColor {
    if code == 1 {
        BrickColor::Black
    } else if code == 2 {
        BrickColor::Blue
    } else if code == 3 {
        BrickColor::Green
    } else if code == 4 {
        BrickColor::Yellow
    } else if code == 5 {
        BrickColor::Red
    } else if code == 6 {
        BrickColor::White
    } else if code == 7 {
        BrickColor::Brown
    } else {
        BrickColor::Unclassified
    }
}

/// The category of a sample: that of its code, or `Unclassified` where the
/// sensor gave no code.
pub open spec fn category_of_sample(sample: Option<i32>) -> BrickColor {
    match sample {
        Some(code) => category_of_code(code as int),
        None => BrickColor::Unclassified,
    }
}

/// Maps a raw sensor code to its category. Total: any code outside 0..=7
/// yields `Unclassified`.
pub fn classify(raw_code: i32) -> (category: BrickColor)
    ensures
        category == category_of_code(raw_code as int),
{
    match raw_code {
        1 => BrickColor::Black,
        2 => BrickColor::Blue,
        3 => BrickColor::Green,
        4 => BrickColor::Yellow,
        5 => BrickColor::Red,
        6 => BrickColor::White,
        7 => BrickColor::Brown,
        _ => BrickColor::Unclassified,
    }
}

/// Classifies one poll of a sensor. A failed read (`None`) degrades to
/// `Unclassified` so that a glitch can neither stop the belt nor fire the kicker.
pub fn classify_sample(sample: Option<i32>) -> (category: BrickColor)
    ensures
        category == category_of_sample(sample),
{
    match sample {
        Some(code) => classify(code),
        None => BrickColor::Unclassified,
    }
}

impl BrickColor {
    /// The sensor code that names this category.
    pub open spec fn sensor_code(self) -> int {
        match self {
            BrickColor::Unclassified => 0,
            BrickColor::Black => 1,
            BrickColor::Blue => 2,
            BrickColor::Green => 3,
            BrickColor::Yellow => 4,
            BrickColor::Red => 5,
            BrickColor::White => 6,
            BrickColor::Brown => 7,
        }
    }

    /// The sensor code that names this category, in `0..=7`.
    pub fn code(self) -> (code: i32)
        ensures
            code == self.sensor_code(),
            0 <= code <= 7,
    {
        match self {
            BrickColor::Unclassified => 0,
            BrickColor::Black => 1,
            BrickColor::Blue => 2,
            BrickColor::Green => 3,
            BrickColor::Yellow => 4,
            BrickColor::Red => 5,
            BrickColor::White => 6,
            BrickColor::Brown => 7,
        }
    }
}

/// Classification inverts `code`: every category is the class of its own code.
pub proof fn lemma_classify_code(category: BrickColor)
    ensures
        category_of_code(category.sensor_code()) == category,
{
}

/// A code classifies to something other than `Unclassified` exactly when it
/// lies in `1..=7`.
pub proof fn lemma_classified_codes(code: int)
    ensures
        category_of_code(code) != BrickColor::Unclassified <==> 1 <= code <= 7,
        category_of_code(code).sensor_code() == (if 0 <= code <= 7 { code } else { 0 }),
{
}

} // verus!

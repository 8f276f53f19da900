use bricksorter::color::{classify, classify_sample, BrickColor};

const ALL_CATEGORIES: [BrickColor; 8] = [
    BrickColor::Unclassified,
    BrickColor::Black,
    BrickColor::Blue,
    BrickColor::Green,
    BrickColor::Yellow,
    BrickColor::Red,
    BrickColor::White,
    BrickColor::Brown,
];

#[test]
fn codes_zero_to_seven_name_the_categories_in_order() {
    assert_eq!(classify(0), BrickColor::Unclassified);
    assert_eq!(classify(1), BrickColor::Black);
    assert_eq!(classify(2), BrickColor::Blue);
    assert_eq!(classify(3), BrickColor::Green);
    assert_eq!(classify(4), BrickColor::Yellow);
    assert_eq!(classify(5), BrickColor::Red);
    assert_eq!(classify(6), BrickColor::White);
    assert_eq!(classify(7), BrickColor::Brown);
}

#[test]
fn codes_out_of_range_are_unclassified() {
    assert_eq!(classify(8), BrickColor::Unclassified);
    assert_eq!(classify(-1), BrickColor::Unclassified);
    assert_eq!(classify(255), BrickColor::Unclassified);
    assert_eq!(classify(i32::MAX), BrickColor::Unclassified);
    assert_eq!(classify(i32::MIN), BrickColor::Unclassified);
}

#[test]
fn failed_read_is_unclassified() {
    assert_eq!(classify_sample(None), BrickColor::Unclassified);
}

#[test]
fn successful_read_is_classified_by_its_code() {
    assert_eq!(classify_sample(Some(5)), BrickColor::Red);
    assert_eq!(classify_sample(Some(2)), BrickColor::Blue);
    assert_eq!(classify_sample(Some(0)), BrickColor::Unclassified);
    assert_eq!(classify_sample(Some(42)), BrickColor::Unclassified);
}

#[test]
fn every_category_is_the_class_of_its_code() {
    for category in ALL_CATEGORIES {
        assert_eq!(classify(category.code()), category);
    }
}

#[test]
fn category_codes_are_zero_to_seven() {
    let codes: Vec<i32> = ALL_CATEGORIES.iter().map(|c| c.code()).collect();
    assert_eq!(codes, vec![0, 1, 2, 3, 4, 5, 6, 7]);
}

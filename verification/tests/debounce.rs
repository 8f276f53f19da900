use bricksorter::color::{classify, BrickColor};
use bricksorter::config::SorterConfig;
use bricksorter::debounce::{SensorDebouncer, HISTORY_LENGTH};

use bricksorter::color::BrickColor::{Black, Blue, Green, Red, Unclassified, White, Yellow};

fn feed_all(debouncer: &mut SensorDebouncer, readings: &[BrickColor]) -> Vec<BrickColor> {
    let mut stable = Vec::new();
    for reading in readings {
        debouncer.update(*reading);
        stable.push(debouncer.get_most_likely_brick());
    }
    stable
}

#[test]
fn new_window_is_primed_with_unclassified() {
    let debouncer = SensorDebouncer::new(10);
    assert_eq!(debouncer.get_readings(), vec![Unclassified; 10]);
    assert_eq!(debouncer.get_most_likely_brick(), Unclassified);
    assert_eq!(debouncer.window_size(), 10);
    assert_eq!(debouncer.confidence_threshold(), 3);
    assert!(debouncer.get_brick_window().is_empty());
}

#[test]
fn with_threshold_keeps_both_numbers() {
    let debouncer = SensorDebouncer::with_threshold(7, 4);
    assert_eq!(debouncer.window_size(), 7);
    assert_eq!(debouncer.confidence_threshold(), 4);
    assert_eq!(debouncer.get_readings(), vec![Unclassified; 7]);
    assert_eq!(debouncer.get_most_likely_brick(), Unclassified);
}

#[test]
fn from_config_takes_window_and_threshold() {
    let mut config = SorterConfig::default();
    config.window_size = 6;
    config.confidence_threshold = 2;
    let debouncer = SensorDebouncer::from_config(&config);
    assert_eq!(debouncer.window_size(), 6);
    assert_eq!(debouncer.confidence_threshold(), 2);
    assert_eq!(debouncer.get_readings(), vec![Unclassified; 6]);
}

#[test]
fn update_evicts_the_oldest_reading() {
    let mut debouncer = SensorDebouncer::new(3);
    debouncer.update(Red);
    assert_eq!(debouncer.get_readings(), vec![Unclassified, Unclassified, Red]);
    debouncer.update(Blue);
    assert_eq!(debouncer.get_readings(), vec![Unclassified, Red, Blue]);
    debouncer.update(Green);
    assert_eq!(debouncer.get_readings(), vec![Red, Blue, Green]);
    debouncer.update(Yellow);
    assert_eq!(debouncer.get_readings(), vec![Blue, Green, Yellow]);
}

#[test]
fn window_never_holds_more_than_its_size() {
    let cycle = [Red, Unclassified, Blue, Blue, Green, White, Unclassified, Black, Yellow];
    for window_size in [0usize, 1, 2, 4, 10] {
        let mut debouncer = SensorDebouncer::new(window_size);
        assert!(debouncer.get_readings().len() <= window_size);
        for round in 0..50usize {
            debouncer.update(cycle[round % cycle.len()]);
            assert!(debouncer.get_readings().len() <= window_size);
            assert_eq!(debouncer.get_readings().len(), window_size);
        }
    }
}

#[test]
fn window_of_size_zero_stays_empty() {
    let mut debouncer = SensorDebouncer::new(0);
    assert!(debouncer.get_readings().is_empty());
    debouncer.update(Red);
    debouncer.update(Red);
    debouncer.update(Red);
    assert!(debouncer.get_readings().is_empty());
    assert_eq!(debouncer.get_most_likely_brick(), Unclassified);
}

#[test]
fn threshold_flips_in_a_window_of_twice_its_length() {
    let mut debouncer = SensorDebouncer::with_threshold(6, 3);
    debouncer.update(Red);
    assert_eq!(debouncer.get_most_likely_brick(), Unclassified);
    debouncer.update(Red);
    assert_eq!(debouncer.get_most_likely_brick(), Unclassified);
    debouncer.update(Red);
    assert_eq!(debouncer.get_most_likely_brick(), Red);
}

#[test]
fn threshold_flips_in_a_window_of_its_own_length() {
    let mut debouncer = SensorDebouncer::with_threshold(3, 3);
    assert_eq!(feed_all(&mut debouncer, &[Red, Red, Red]), vec![Unclassified, Unclassified, Red]);
}

#[test]
fn threshold_never_reached_in_a_shorter_window() {
    let mut debouncer = SensorDebouncer::with_threshold(2, 3);
    assert_eq!(feed_all(&mut debouncer, &[Red; 6]), vec![Unclassified; 6]);
}

#[test]
fn blanks_outnumber_three_copies_in_the_default_window() {
    let mut debouncer = SensorDebouncer::new(10);
    let stable = feed_all(&mut debouncer, &[Red; 6]);
    assert_eq!(stable, vec![Unclassified, Unclassified, Unclassified, Unclassified, Red, Red]);
}

#[test]
fn confident_winner_is_stable() {
    let mut debouncer = SensorDebouncer::with_threshold(7, 3);
    let stable = feed_all(&mut debouncer, &[Red, Red, Red, Blue, Blue, Blue, Blue]);
    assert_eq!(stable, vec![Unclassified, Unclassified, Unclassified, Red, Red, Blue, Blue]);
    assert_eq!(debouncer.get_readings(), vec![Red, Red, Red, Blue, Blue, Blue, Blue]);
}

#[test]
fn confident_loser_is_not_stable() {
    let mut debouncer = SensorDebouncer::with_threshold(10, 3);
    feed_all(&mut debouncer, &[Red, Red, Red, Blue, Blue, Blue, Blue, Unclassified, Unclassified, Unclassified]);
    assert_eq!(debouncer.get_most_likely_brick(), Blue);
}

#[test]
fn unconfident_winner_is_unclassified() {
    let mut debouncer = SensorDebouncer::with_threshold(3, 3);
    let stable = feed_all(&mut debouncer, &[Red, Red, Blue, Green]);
    assert_eq!(stable, vec![Unclassified; 4]);
}

#[test]
fn unclassified_winner_hides_a_confident_category() {
    let mut debouncer = SensorDebouncer::with_threshold(4, 1);
    debouncer.update(Red);
    assert_eq!(debouncer.get_readings(), vec![Unclassified, Unclassified, Unclassified, Red]);
    assert_eq!(debouncer.get_most_likely_brick(), Unclassified);
}

#[test]
fn tie_goes_to_the_more_recent_category() {
    let mut debouncer = SensorDebouncer::with_threshold(4, 2);
    let stable = feed_all(&mut debouncer, &[Red, Red, Blue, Blue, Red]);
    assert_eq!(stable, vec![Unclassified, Red, Red, Blue, Red]);
}

#[test]
fn tie_with_unclassified_goes_to_the_more_recent() {
    let mut debouncer = SensorDebouncer::with_threshold(6, 3);
    feed_all(&mut debouncer, &[Red, Red, Red]);
    assert_eq!(debouncer.get_most_likely_brick(), Red);
    feed_all(&mut debouncer, &[Unclassified, Unclassified, Unclassified]);
    assert_eq!(
        debouncer.get_readings(),
        vec![Red, Red, Red, Unclassified, Unclassified, Unclassified]
    );
    assert_eq!(debouncer.get_most_likely_brick(), Unclassified);
}

#[test]
fn threshold_of_zero_accepts_any_real_winner() {
    let mut debouncer = SensorDebouncer::with_threshold(2, 0);
    assert_eq!(debouncer.get_most_likely_brick(), Unclassified);
    debouncer.update(Red);
    assert_eq!(debouncer.get_most_likely_brick(), Red);
    debouncer.update(Unclassified);
    assert_eq!(debouncer.get_most_likely_brick(), Unclassified);
}

#[test]
fn history_keeps_the_last_five_stable_categories() {
    let mut debouncer = SensorDebouncer::with_threshold(1, 1);
    let fed = [Red, Blue, Unclassified, Green, Yellow, Black, White];
    let stable = feed_all(&mut debouncer, &fed);
    assert_eq!(stable, fed.to_vec());
    assert_eq!(debouncer.get_brick_window(), vec![Unclassified, Green, Yellow, Black, White]);
    assert_eq!(debouncer.get_brick_window().len(), HISTORY_LENGTH);
}

#[test]
fn history_logs_the_stable_category_not_the_reading() {
    let mut debouncer = SensorDebouncer::with_threshold(4, 2);
    feed_all(&mut debouncer, &[Red, Red, Blue]);
    assert_eq!(debouncer.get_brick_window(), vec![Unclassified, Red, Red]);
}

#[test]
fn update_brick_window_appends_and_trims() {
    let mut debouncer = SensorDebouncer::new(3);
    for brick in [Red, Blue, Green, Yellow, Black] {
        debouncer.update_brick_window(brick);
    }
    assert_eq!(debouncer.get_brick_window(), vec![Red, Blue, Green, Yellow, Black]);
    debouncer.update_brick_window(White);
    assert_eq!(debouncer.get_brick_window(), vec![Blue, Green, Yellow, Black, White]);
    assert_eq!(debouncer.get_readings(), vec![Unclassified; 3]);
    assert_eq!(debouncer.get_most_likely_brick(), Unclassified);
}

#[test]
fn get_readings_hands_out_a_copy() {
    let mut debouncer = SensorDebouncer::new(2);
    let mut copy = debouncer.get_readings();
    copy.push(Red);
    copy[0] = Blue;
    assert_eq!(debouncer.get_readings(), vec![Unclassified, Unclassified]);
    debouncer.update(Green);
    assert_eq!(debouncer.get_readings(), vec![Unclassified, Green]);
}

#[test]
fn clone_is_independent() {
    let mut first = SensorDebouncer::with_threshold(2, 1);
    let second = first.clone();
    first.update(Red);
    first.update(Red);
    assert_eq!(first.get_most_likely_brick(), Red);
    assert_eq!(second.get_most_likely_brick(), Unclassified);
    assert_eq!(second.get_readings(), vec![Unclassified, Unclassified]);
}

#[test]
fn raw_codes_in_a_window_of_five() {
    let mut debouncer = SensorDebouncer::with_threshold(5, 3);
    let codes: [i32; 10] = [0, 0, 0, 5, 5, 5, 5, 0, 0, 0];
    let mut stable = Vec::new();
    for code in codes {
        debouncer.update(classify(code));
        stable.push(debouncer.get_most_likely_brick());
    }
    assert_eq!(
        stable,
        vec![
            Unclassified,
            Unclassified,
            Unclassified,
            Unclassified,
            Unclassified,
            Red,
            Red,
            Red,
            Red,
            Unclassified
        ]
    );
    assert_eq!(debouncer.get_readings(), vec![Red, Red, Unclassified, Unclassified, Unclassified]);
}

#[test]
fn raw_codes_in_the_default_window() {
    let mut debouncer = SensorDebouncer::with_threshold(10, 3);
    let codes: [i32; 10] = [0, 0, 0, 5, 5, 5, 5, 0, 0, 0];
    let mut stable = Vec::new();
    for code in codes {
        debouncer.update(classify(code));
        stable.push(debouncer.get_most_likely_brick());
    }
    assert_eq!(stable, vec![Unclassified; 10]);
    assert_eq!(
        debouncer.get_readings(),
        vec![
            Unclassified,
            Unclassified,
            Unclassified,
            Red,
            Red,
            Red,
            Red,
            Unclassified,
            Unclassified,
            Unclassified
        ]
    );
}

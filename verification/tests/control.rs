use bricksorter::color::BrickColor;
use bricksorter::config::SorterConfig;
use bricksorter::control::{ControlDecision, ControlLoop, KickRequest};

#[test]
fn unclassified_poll_only_pauses() {
    let control = ControlLoop::new(SorterConfig::default());
    assert_eq!(
        control.decide(BrickColor::Unclassified),
        ControlDecision { kick: None, pause_ms: 200 }
    );
}

#[test]
fn classified_poll_kicks_then_pauses() {
    let control = ControlLoop::new(SorterConfig::default());
    assert_eq!(
        control.decide(BrickColor::Red),
        ControlDecision {
            kick: Some(KickRequest { category: BrickColor::Red, target_duration_ms: 4900 }),
            pause_ms: 200,
        }
    );
}

#[test]
fn every_real_category_asks_for_a_kick() {
    let control = ControlLoop::new(SorterConfig::default());
    let real = [
        BrickColor::Black,
        BrickColor::Blue,
        BrickColor::Green,
        BrickColor::Yellow,
        BrickColor::Red,
        BrickColor::White,
        BrickColor::Brown,
    ];
    for category in real {
        let decision = control.decide(category);
        assert_eq!(decision.kick.map(|k| k.category), Some(category));
    }
}

#[test]
fn decision_uses_the_configured_periods() {
    let mut config = SorterConfig::default();
    config.poll_period_ms = 75;
    config.kick_target_duration_ms = 3000;
    let control = ControlLoop::new(config);
    assert_eq!(control.decide(BrickColor::Unclassified).pause_ms, 75);
    let decision = control.decide(BrickColor::Green);
    assert_eq!(decision.pause_ms, 75);
    assert_eq!(
        decision.kick,
        Some(KickRequest { category: BrickColor::Green, target_duration_ms: 3000 })
    );
}

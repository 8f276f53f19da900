use bricksorter::color::{classify_sample, BrickColor};
use bricksorter::config::{Direction, SorterConfig};
use bricksorter::control::ControlLoop;
use bricksorter::debounce::SensorDebouncer;
use bricksorter::kick::{KickAction, KickEvent, KickScheduler, KickStatus, StepOutcome};

fn red_to_the_negative_side(window_size: usize) -> SorterConfig {
    let mut config = SorterConfig::default();
    config.window_size = window_size;
    config.confidence_threshold = 3;
    config.direction_map.assign(BrickColor::Red, Direction::Negative);
    config
}

/// Feeds the samples one per update; after each, polls the stable category
/// and runs the kick that the control loop asks for. Returns the stable
/// categories and the angles of the moves of each kick.
fn sort(config: SorterConfig, samples: &[Option<i32>]) -> (Vec<BrickColor>, Vec<Vec<i32>>) {
    let mut debouncer = SensorDebouncer::from_config(&config);
    let control = ControlLoop::new(config);
    let scheduler = KickScheduler::new(config).unwrap();
    let mut stable = Vec::new();
    let mut kicks = Vec::new();
    for sample in samples {
        debouncer.update(classify_sample(*sample));
        let observed = debouncer.get_most_likely_brick();
        stable.push(observed);
        if let Some(request) = control.decide(observed).kick {
            let (mut plan, mut action) = scheduler.begin(request.category, request.target_duration_ms);
            let mut angles = Vec::new();
            let mut elapsed: u64 = 0;
            loop {
                match action {
                    KickAction::Move(command) => angles.push(command.angle),
                    KickAction::Sleep { millis } => elapsed += millis,
                    KickAction::Done => break,
                    KickAction::Abort(_) => panic!("no command fails here"),
                }
                elapsed += 1;
                action = plan.advance(KickEvent { outcome: StepOutcome::Completed, elapsed_ms: elapsed });
            }
            assert_eq!(plan.status(), KickStatus::Done);
            assert_eq!(plan.displacement(), 0);
            kicks.push(angles);
        }
    }
    (stable, kicks)
}

#[test]
fn red_run_in_a_window_of_five_is_kicked() {
    let samples: Vec<Option<i32>> = [0, 0, 0, 5, 5, 5, 5, 0, 0, 0].iter().map(|c| Some(*c)).collect();
    let (stable, kicks) = sort(red_to_the_negative_side(5), &samples);
    let u = BrickColor::Unclassified;
    let r = BrickColor::Red;
    assert_eq!(stable, vec![u, u, u, u, u, r, r, r, r, u]);
    let kick = vec![-34, -34, -34, -34, -34, 215, -45];
    assert_eq!(kicks, vec![kick.clone(), kick.clone(), kick.clone(), kick]);
}

#[test]
fn red_run_in_the_default_window_is_outvoted() {
    let samples: Vec<Option<i32>> = [0, 0, 0, 5, 5, 5, 5, 0, 0, 0].iter().map(|c| Some(*c)).collect();
    let (stable, kicks) = sort(red_to_the_negative_side(10), &samples);
    assert_eq!(stable, vec![BrickColor::Unclassified; 10]);
    assert!(kicks.is_empty());
}

#[test]
fn failed_reads_never_kick() {
    let samples: Vec<Option<i32>> = vec![None; 12];
    let (stable, kicks) = sort(red_to_the_negative_side(5), &samples);
    assert_eq!(stable, vec![BrickColor::Unclassified; 12]);
    assert!(kicks.is_empty());
}

#[test]
fn category_left_on_the_belt_commands_nothing() {
    let samples: Vec<Option<i32>> = vec![Some(2); 4];
    let (stable, kicks) = sort(red_to_the_negative_side(5), &samples);
    let u = BrickColor::Unclassified;
    let b = BrickColor::Blue;
    assert_eq!(stable, vec![u, u, b, b]);
    assert_eq!(kicks, vec![Vec::<i32>::new(), Vec::<i32>::new()]);
}

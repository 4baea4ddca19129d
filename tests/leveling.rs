use levels::cooldown::{cooldown_expiry, is_on_cooldown};
use levels::curve::{xp_required_for_level, LevelCurve};
use levels::engine::{Action, Event, LevelsConfig, Session, Stage};
use levels::progress::{accrue, new_record, LevelUp, LevelingError, ProgressRecord};

fn curve() -> LevelCurve {
    LevelCurve::new(100, 3, 2).unwrap()
}

fn config() -> LevelsConfig {
    LevelsConfig { cooldown_secs: 60, message_xp: 50, curve: curve() }
}

fn record(xp: u64, level: u32) -> ProgressRecord {
    ProgressRecord { id: 7, xp, level }
}

#[test]
fn curve_costs_match_rounded_formula() {
    let c = curve();
    assert_eq!(xp_required_for_level(&c, 0), Some(100));
    assert_eq!(xp_required_for_level(&c, 1), Some(150));
    assert_eq!(xp_required_for_level(&c, 2), Some(225));
    // 337.5 rounds up
    assert_eq!(xp_required_for_level(&c, 3), Some(338));
    assert_eq!(xp_required_for_level(&c, 4), Some(506));
    assert_eq!(xp_required_for_level(&c, 5), Some(759));
}

#[test]
fn curve_is_reproducible_from_parameters() {
    let a = LevelCurve::new(100, 3, 2).unwrap();
    let b = LevelCurve::new(100, 6, 4).unwrap();
    let c = LevelCurve::new(100, 1500, 1000).unwrap();
    for level in 0..110u32 {
        assert_eq!(xp_required_for_level(&a, level), xp_required_for_level(&b, level));
        assert_eq!(xp_required_for_level(&a, level), xp_required_for_level(&c, level));
        assert_eq!(xp_required_for_level(&a, level), xp_required_for_level(&a, level));
    }
    assert_eq!(xp_required_for_level(&c, 12), Some(12975));
}

#[test]
fn curve_never_falls() {
    let c = LevelCurve::new(100, 17, 16).unwrap();
    let mut prev = 0u64;
    for level in 0..200u32 {
        let cost = xp_required_for_level(&c, level).unwrap();
        assert!(cost >= prev);
        prev = cost;
    }
}

#[test]
fn costs_stay_exact_when_powers_are_large() {
    assert_eq!(xp_required_for_level(&LevelCurve::new(100, 17, 16).unwrap(), 30), Some(616));
    assert_eq!(xp_required_for_level(&LevelCurve::new(100, 11, 10).unwrap(), 35), Some(2810));
    assert_eq!(xp_required_for_level(&LevelCurve::new(100, 1000, 1000).unwrap(), 13), Some(100));
}

#[test]
fn largest_cost_that_fits() {
    let c = curve();
    assert_eq!(xp_required_for_level(&c, 98), Some(18069385668231788329));
    assert_eq!(xp_required_for_level(&c, 99), None);
}

#[test]
fn accrual_continues_at_high_levels_of_a_gentle_curve() {
    let c = LevelCurve::new(100, 11, 10).unwrap();
    let a = accrue(&c, record(0, 40), 50).unwrap();
    assert_eq!(a.record, record(50, 40));
}

#[test]
fn flat_curve_costs_the_base() {
    let c = LevelCurve::new(40, 1, 1).unwrap();
    assert_eq!(xp_required_for_level(&c, 0), Some(40));
    assert_eq!(xp_required_for_level(&c, 1000), Some(40));
}

#[test]
fn curve_too_steep_for_arithmetic_is_refused() {
    let c = curve();
    assert_eq!(xp_required_for_level(&c, 500), None);
    let huge = LevelCurve::new(u32::MAX, u32::MAX, 1).unwrap();
    assert_eq!(xp_required_for_level(&huge, 3), None);
}

#[test]
fn invalid_curves_are_rejected() {
    assert!(LevelCurve::new(0, 3, 2).is_none());
    assert!(LevelCurve::new(100, 3, 0).is_none());
    assert!(LevelCurve::new(100, 1, 2).is_none());
}

#[test]
fn fresh_user_gains_without_level_up() {
    let a = accrue(&curve(), new_record(7), 50).unwrap();
    assert_eq!(a.record, record(50, 0));
    assert!(a.level_ups.is_empty());
}

#[test]
fn crossing_first_threshold_levels_up_once() {
    let a = accrue(&curve(), record(140, 0), 50).unwrap();
    assert_eq!(a.record, record(40, 1));
    assert_eq!(a.level_ups, vec![LevelUp { user_id: 7, new_level: 1, xp: 40, required_xp: 225 }]);
}

#[test]
fn exact_threshold_levels_up() {
    let a = accrue(&curve(), record(100, 0), 50).unwrap();
    assert_eq!(a.record, record(0, 1));
    assert_eq!(a.level_ups.len(), 1);
}

#[test]
fn large_grant_gives_one_level_up_per_level_in_order() {
    let a = accrue(&curve(), record(0, 0), 1000).unwrap();
    assert_eq!(a.record, record(287, 3));
    assert_eq!(
        a.level_ups,
        vec![
            LevelUp { user_id: 7, new_level: 1, xp: 850, required_xp: 225 },
            LevelUp { user_id: 7, new_level: 2, xp: 625, required_xp: 338 },
            LevelUp { user_id: 7, new_level: 3, xp: 287, required_xp: 506 },
        ]
    );
}

#[test]
fn settled_record_is_below_next_cost() {
    let c = curve();
    for start in 0..400u64 {
        let a = accrue(&c, record(start % 150, 0), start * 7).unwrap();
        let next = xp_required_for_level(&c, a.record.level + 1).unwrap();
        assert!(a.record.xp < next);
    }
}

#[test]
fn xp_overflow_is_reported() {
    assert_eq!(accrue(&curve(), record(u64::MAX, 0), 1).unwrap_err(), LevelingError::Overflow);
}

#[test]
fn level_overflow_is_reported() {
    let flat = LevelCurve::new(1, 1, 1).unwrap();
    assert_eq!(accrue(&flat, record(0, u32::MAX), 0).unwrap_err(), LevelingError::Overflow);
}

#[test]
fn cooldown_marker_semantics() {
    assert!(!is_on_cooldown(None, 100));
    assert!(is_on_cooldown(Some(101), 100));
    assert!(!is_on_cooldown(Some(100), 100));
    assert_eq!(cooldown_expiry(100, 60), Some(160));
    assert_eq!(cooldown_expiry(i64::MAX, 1), None);
}

fn run_accepted(now: i64, stored: Option<ProgressRecord>) -> (i64, ProgressRecord, Vec<LevelUp>) {
    let cfg = config();
    let (s, a) = Session::start(7);
    assert_eq!(a, Action::ReadCooldown { user_id: 7 });
    let (s, a) = s.step(&cfg, Event::CooldownRead { marker: None, now });
    let expires_at = match a {
        Action::ArmCooldown { user_id: 7, expires_at } => expires_at,
        other => panic!("unexpected action {:?}", other),
    };
    let (s, a) = s.step(&cfg, Event::CooldownArmed);
    assert_eq!(a, Action::LoadRecord { user_id: 7 });
    let (s, a) = match stored {
        Some(r) => s.step(&cfg, Event::RecordLoaded { record: Some(r) }),
        None => {
            let (s, a) = s.step(&cfg, Event::RecordLoaded { record: None });
            assert_eq!(a, Action::CreateRecord { user_id: 7 });
            s.step(&cfg, Event::RecordCreated { created: new_record(7) })
        }
    };
    let saved = match a {
        Action::SaveRecord { record } => record,
        other => panic!("unexpected action {:?}", other),
    };
    let (s, a) = s.step(&cfg, Event::RecordSaved);
    assert_eq!(s.stage, Stage::Finished);
    let ups = match a {
        Action::Notify { level_ups } => level_ups,
        other => panic!("unexpected action {:?}", other),
    };
    (expires_at, saved, ups)
}

#[test]
fn session_for_new_user_creates_and_saves() {
    let (expires_at, saved, ups) = run_accepted(1000, None);
    assert_eq!(expires_at, 1060);
    assert_eq!(saved, record(50, 0));
    assert!(ups.is_empty());
}

#[test]
fn session_level_up_is_notified_after_save() {
    let (_, saved, ups) = run_accepted(1000, Some(record(140, 0)));
    assert_eq!(saved, record(40, 1));
    assert_eq!(ups, vec![LevelUp { user_id: 7, new_level: 1, xp: 40, required_xp: 225 }]);
}

#[test]
fn event_on_cooldown_writes_nothing() {
    let (s, _) = Session::start(7);
    let (s, a) = s.step(&config(), Event::CooldownRead { marker: Some(1030), now: 1000 });
    assert_eq!(a, Action::Skip);
    assert_eq!(s.stage, Stage::Finished);
}

#[test]
fn replayed_event_is_suppressed() {
    let (expires_at, _, _) = run_accepted(1000, Some(record(10, 2)));
    let (s, _) = Session::start(7);
    let (s, a) = s.step(&config(), Event::CooldownRead { marker: Some(expires_at), now: 1000 });
    assert_eq!(a, Action::Skip);
    assert_eq!(s.stage, Stage::Finished);
}

#[test]
fn store_failure_stops_processing() {
    let (s, _) = Session::start(7);
    let (s, a) = s.step(&config(), Event::CooldownRead { marker: None, now: 0 });
    assert!(matches!(a, Action::ArmCooldown { .. }));
    let (s, a) = s.step(&config(), Event::StoreFailed);
    assert_eq!(a, Action::Fail { error: LevelingError::StoreUnavailable });
    assert_eq!(s.stage, Stage::Finished);
}

#[test]
fn out_of_order_event_is_refused() {
    let (s, _) = Session::start(7);
    let (s, a) = s.step(&config(), Event::RecordSaved);
    assert_eq!(a, Action::Fail { error: LevelingError::UnexpectedEvent });
    assert_eq!(s.stage, Stage::Finished);
}

#[test]
fn expiry_overflow_fails_the_event() {
    let (s, _) = Session::start(7);
    let (_, a) = s.step(&config(), Event::CooldownRead { marker: None, now: i64::MAX });
    assert_eq!(a, Action::Fail { error: LevelingError::Overflow });
}

#[test]
fn accrual_overflow_fails_the_event() {
    let (s, _) = Session::start(7);
    let (s, _) = s.step(&config(), Event::CooldownRead { marker: None, now: 0 });
    let (s, _) = s.step(&config(), Event::CooldownArmed);
    let (s, a) = s.step(&config(), Event::RecordLoaded { record: Some(record(u64::MAX, 0)) });
    assert_eq!(a, Action::Fail { error: LevelingError::Overflow });
    assert_eq!(s.stage, Stage::Finished);
}

#[test]
fn record_of_another_user_is_refused() {
    let (s, _) = Session::start(7);
    let (s, _) = s.step(&config(), Event::CooldownRead { marker: None, now: 0 });
    let (s, _) = s.step(&config(), Event::CooldownArmed);
    let other = ProgressRecord { id: 8, xp: 0, level: 0 };
    let (s, a) = s.step(&config(), Event::RecordLoaded { record: Some(other) });
    assert_eq!(a, Action::Fail { error: LevelingError::UnexpectedEvent });
    assert_eq!(s.stage, Stage::Finished);
}

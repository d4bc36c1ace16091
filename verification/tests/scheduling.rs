use block_factory::config::{Configuration, Mode};
use block_factory::error::BlockFactoryError;
use block_factory::scheduler::{Scheduler, SchedulerAction, SchedulerEvent, SchedulerState};
use block_factory::utils::{get_random_nonce, get_unix_timestamp_now, unix_timestamp_of, TimeError};
use std::time::{Duration, UNIX_EPOCH};

fn warmed_up() -> Scheduler {
    let mut scheduler = Scheduler::new();
    scheduler.step(SchedulerEvent::TimerFired);
    scheduler
}

#[test]
fn the_scheduler_starts_idle() {
    let scheduler = Scheduler::new();
    assert_eq!(scheduler.state, SchedulerState::Idle);
    assert!(scheduler.first_tick_pending);
}

#[test]
fn the_first_tick_is_absorbed() {
    let mut scheduler = Scheduler::new();
    assert_eq!(scheduler.step(SchedulerEvent::TimerFired), SchedulerAction::AwaitTimer);
    assert_eq!(scheduler.state, SchedulerState::Idle);
    assert!(!scheduler.first_tick_pending);
    assert_eq!(scheduler.step(SchedulerEvent::TimerFired), SchedulerAction::LockPool);
    assert_eq!(scheduler.state, SchedulerState::Ticking);
}

#[test]
fn an_epoch_with_a_batch_goes_through_every_state() {
    let mut scheduler = warmed_up();
    assert_eq!(scheduler.step(SchedulerEvent::TimerFired), SchedulerAction::LockPool);
    assert_eq!(scheduler.state, SchedulerState::Ticking);
    assert_eq!(scheduler.step(SchedulerEvent::PoolLocked), SchedulerAction::Seal);
    assert_eq!(scheduler.state, SchedulerState::Sealing);
    assert_eq!(
        scheduler.step(SchedulerEvent::Sealed { batch_present: true }),
        SchedulerAction::Persist
    );
    assert_eq!(scheduler.state, SchedulerState::Persisting);
    assert_eq!(
        scheduler.step(SchedulerEvent::Persisted { succeeded: true }),
        SchedulerAction::AwaitTimer
    );
    assert_eq!(scheduler.state, SchedulerState::Idle);
    assert_eq!(scheduler.step(SchedulerEvent::TimerFired), SchedulerAction::LockPool);
}

#[test]
fn an_epoch_without_a_batch_goes_back_to_idle() {
    let mut scheduler = warmed_up();
    scheduler.step(SchedulerEvent::TimerFired);
    scheduler.step(SchedulerEvent::PoolLocked);
    assert_eq!(
        scheduler.step(SchedulerEvent::Sealed { batch_present: false }),
        SchedulerAction::AwaitTimer
    );
    assert_eq!(scheduler.state, SchedulerState::Idle);
}

#[test]
fn a_failed_store_stops_the_scheduler_for_good() {
    let mut scheduler = warmed_up();
    scheduler.step(SchedulerEvent::TimerFired);
    scheduler.step(SchedulerEvent::PoolLocked);
    scheduler.step(SchedulerEvent::Sealed { batch_present: true });
    assert_eq!(
        scheduler.step(SchedulerEvent::Persisted { succeeded: false }),
        SchedulerAction::Stop
    );
    assert_eq!(scheduler.state, SchedulerState::Stopped);
    for event in [
        SchedulerEvent::TimerFired,
        SchedulerEvent::PoolLocked,
        SchedulerEvent::Sealed { batch_present: true },
        SchedulerEvent::Persisted { succeeded: true },
    ] {
        assert_eq!(scheduler.step(event), SchedulerAction::Stop);
        assert_eq!(scheduler.state, SchedulerState::Stopped);
    }
}

#[test]
fn an_event_out_of_turn_changes_nothing() {
    let mut scheduler = warmed_up();
    assert_eq!(scheduler.step(SchedulerEvent::PoolLocked), SchedulerAction::AwaitTimer);
    assert_eq!(
        scheduler.step(SchedulerEvent::Persisted { succeeded: false }),
        SchedulerAction::AwaitTimer
    );
    assert_eq!(scheduler.state, SchedulerState::Idle);
    scheduler.step(SchedulerEvent::TimerFired);
    assert_eq!(scheduler.step(SchedulerEvent::TimerFired), SchedulerAction::LockPool);
    assert_eq!(
        scheduler.step(SchedulerEvent::Sealed { batch_present: true }),
        SchedulerAction::LockPool
    );
    assert_eq!(scheduler.state, SchedulerState::Ticking);
    scheduler.step(SchedulerEvent::PoolLocked);
    assert_eq!(scheduler.step(SchedulerEvent::PoolLocked), SchedulerAction::Seal);
    assert_eq!(scheduler.step(SchedulerEvent::TimerFired), SchedulerAction::Seal);
    assert_eq!(scheduler.state, SchedulerState::Sealing);
}

#[test]
fn a_nonce_lies_below_its_limit() {
    for _ in 0..1000 {
        assert!(get_random_nonce(100) < 100);
    }
    for _ in 0..20 {
        assert_eq!(get_random_nonce(1), 0);
        assert!(get_random_nonce(2) < 2);
    }
}

#[test]
fn nonces_vary() {
    let first = get_random_nonce(u32::MAX);
    let mut varied = false;
    for _ in 0..20 {
        varied = varied || get_random_nonce(u32::MAX) != first;
    }
    assert!(varied);
}

#[test]
fn the_timestamp_is_of_this_century() {
    let now = get_unix_timestamp_now().unwrap();
    assert!(now > 1_600_000_000);
    let later = get_unix_timestamp_now().unwrap();
    assert!(later >= now);
}

#[test]
fn a_timestamp_is_the_whole_seconds_since_the_epoch() {
    let later = UNIX_EPOCH + Duration::from_millis(5_999);
    assert_eq!(unix_timestamp_of(later.duration_since(UNIX_EPOCH)), Ok(5));
    assert_eq!(unix_timestamp_of(UNIX_EPOCH.duration_since(UNIX_EPOCH)), Ok(0));
    assert_eq!(unix_timestamp_of(Ok(Duration::from_secs(1_700_000_000))), Ok(1_700_000_000));
}

#[test]
fn a_clock_before_the_epoch_gives_no_timestamp() {
    let later = UNIX_EPOCH + Duration::from_secs(1);
    assert_eq!(
        unix_timestamp_of(UNIX_EPOCH.duration_since(later)),
        Err(TimeError::BeforeUnixEpoch)
    );
}

#[test]
fn a_configuration_needs_a_port_and_a_block_time() {
    assert_eq!(
        Configuration::new(8080, 1, Mode::Full),
        Some(Configuration { port: 8080, block_time: 1, mode: Mode::Full })
    );
    assert_eq!(Configuration::new(0, 1, Mode::Full), None);
    assert_eq!(Configuration::new(8080, 0, Mode::Full), None);
    assert_eq!(Configuration::new(0, 0, Mode::QueryOnly), None);
    assert!(Configuration::new(1, u32::MAX, Mode::FactoryOnly).is_some());
}

#[test]
fn modes_are_shown_by_their_names() {
    assert_eq!(Mode::Full.label(), "Full");
    assert_eq!(Mode::FactoryOnly.label(), "Factory Only");
    assert_eq!(Mode::QueryOnly.label(), "Query Only");
}

#[test]
fn a_configuration_is_shown_in_three_rows() {
    let config = Configuration::new(8080, 15, Mode::FactoryOnly).unwrap();
    assert_eq!(
        config.display_rows(),
        vec![
            ("Port", "8080".to_string()),
            ("Block Time", "15".to_string()),
            ("Mode", "Factory Only".to_string()),
        ]
    );
}

#[test]
fn errors_have_messages() {
    assert_eq!(BlockFactoryError::MissingGenesis.message(), "genesis block missing");
    assert_eq!(BlockFactoryError::AlreadyInitialized.message(), "genesis block already stored");
    assert_eq!(BlockFactoryError::PersistenceFailure.message(), "persistence failure");
    assert_eq!(BlockFactoryError::EncodingFailure.message(), "instruction is not valid UTF-8");
}

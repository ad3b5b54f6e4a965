use pg_stat_sysinfo::cache_worker::{
    cache_info, reports, Action, CacheWorker, Event, Phase, Uninitialized, WorkerState,
    DISK_CACHE_HIATUS,
};
use pg_stat_sysinfo::collector::{Load, Memory, Report, Timestamp};
use pg_stat_sysinfo::settings::Settings;
use pg_stat_sysinfo::shmem_ring_buffer::{BufferSummary, ShmemBackedSerdeRingBuffer};

const SECOND: u128 = 1_000_000_000;
const MILLI: u128 = 1_000_000;

fn report_at(now: u128) -> Report {
    Report {
        load: Load { min1: 0, min5: 0, min15: 0 },
        at: Timestamp {
            year: 2024,
            ordinal: 1,
            hour: 0,
            minute: 0,
            second: (now / SECOND) as u8,
            nanosecond: (now % SECOND) as u32,
            offset_hours: 0,
            offset_minutes: 0,
            offset_seconds: 0,
        },
        cpu_usage: 0,
        memory: Memory { size: 0, available: 0, usage: 0 },
        swap: Memory { size: 0, available: 0, usage: 0 },
        volumes: vec![],
    }
}

fn timeout() -> Event {
    Event::Woken { terminate: false, reload: None }
}

fn reload(interval: Option<u128>) -> Event {
    Event::Woken { terminate: false, reload: Some(Settings { interval }) }
}

#[test]
fn remaining_time_is_interval_less_elapsed() {
    let now = 100 * SECOND;
    let state = WorkerState { interval: 5 * SECOND, last_run: now - 3 * SECOND, enabled: true };
    assert_eq!(state.remaining_time(now), 2 * SECOND);
}

#[test]
fn remaining_time_saturates_at_zero() {
    let now = 100 * SECOND;
    let state = WorkerState { interval: 5 * SECOND, last_run: now - 10 * SECOND, enabled: true };
    assert_eq!(state.remaining_time(now), 0);
}

#[test]
fn remaining_time_is_the_interval_when_the_clock_reads_less() {
    let state = WorkerState { interval: 5 * SECOND, last_run: 10 * SECOND, enabled: true };
    assert_eq!(state.remaining_time(9 * SECOND), 5 * SECOND);
}

#[test]
fn worker_state_starts_disabled() {
    assert_eq!(WorkerState::new(7), WorkerState { interval: 0, last_run: 7, enabled: false });
}

#[test]
fn enable_from_disabled_resets_last_run() {
    let mut state = WorkerState::new(10);
    assert!(state.enable(5 * SECOND, 40));
    assert_eq!(state, WorkerState { interval: 5 * SECOND, last_run: 40, enabled: true });
}

#[test]
fn changing_the_interval_keeps_last_run() {
    let mut state = WorkerState { interval: 5 * SECOND, last_run: 40, enabled: true };
    assert!(state.enable(7 * SECOND, 90));
    assert_eq!(state, WorkerState { interval: 7 * SECOND, last_run: 40, enabled: true });
}

#[test]
fn enable_with_the_same_interval_changes_nothing() {
    let mut state = WorkerState { interval: 5 * SECOND, last_run: 40, enabled: true };
    assert!(!state.enable(5 * SECOND, 90));
    assert_eq!(state, WorkerState { interval: 5 * SECOND, last_run: 40, enabled: true });
}

#[test]
fn disable_reports_whether_it_changed_anything() {
    let mut state = WorkerState { interval: 5 * SECOND, last_run: 40, enabled: true };
    assert!(state.disable());
    assert_eq!(state, WorkerState { interval: 5 * SECOND, last_run: 40, enabled: false });
    assert!(!state.disable());
    assert_eq!(state, WorkerState { interval: 5 * SECOND, last_run: 40, enabled: false });
}

#[test]
fn start_without_interval_waits_without_limit() {
    let (worker, action) = CacheWorker::start(&Settings { interval: None }, 5);
    assert_eq!(action, Action::Wait(None));
    assert_eq!(worker.phase, Phase::Waiting);
    assert!(!worker.state.enabled);
}

#[test]
fn start_with_interval_waits_one_interval() {
    let (worker, action) = CacheWorker::start(&Settings { interval: Some(SECOND) }, 5);
    assert_eq!(action, Action::Wait(Some(SECOND)));
    assert_eq!(worker.state, WorkerState { interval: SECOND, last_run: 5, enabled: true });
    assert_eq!(worker.last_config, 5);
}

#[test]
fn disabled_worker_never_samples() {
    let (mut worker, _) = CacheWorker::start(&Settings { interval: None }, 0);
    for t in 1..50u128 {
        assert_eq!(worker.step(timeout(), t * SECOND), Action::Wait(None));
    }
}

#[test]
fn early_wake_up_waits_for_the_rest() {
    let (mut worker, _) = CacheWorker::start(&Settings { interval: Some(5 * SECOND) }, 0);
    assert_eq!(worker.step(timeout(), 3 * SECOND), Action::Wait(Some(2 * SECOND)));
    assert_eq!(worker.step(timeout(), 5 * SECOND), Action::Sample);
    assert_eq!(worker.phase, Phase::Sampling);
    assert_eq!(worker.step(Event::Done, 5 * SECOND + 20 * MILLI), Action::Wait(Some(5 * SECOND)));
    assert_eq!(worker.state.last_run, 5 * SECOND + 20 * MILLI);
}

#[test]
fn termination_is_checked_before_reconfiguration() {
    let (mut worker, _) = CacheWorker::start(&Settings { interval: Some(SECOND) }, 0);
    let settings = Settings { interval: Some(2 * SECOND) };
    let both = Event::Woken { terminate: true, reload: Some(settings) };
    assert_eq!(worker.step(both, 10 * SECOND), Action::Exit);
    assert_eq!(worker.phase, Phase::Stopped);
    assert_eq!(worker.state.interval, SECOND);
    assert_eq!(worker.step(timeout(), 11 * SECOND), Action::Exit);
    assert_eq!(worker.step(Event::Done, 12 * SECOND), Action::Exit);
}

#[test]
fn reload_enables_a_disabled_worker_and_resets_last_run() {
    let (mut worker, _) = CacheWorker::start(&Settings { interval: None }, 0);
    assert_eq!(worker.step(reload(Some(4 * SECOND)), 30 * SECOND), Action::Wait(Some(4 * SECOND)));
    assert_eq!(
        worker.state,
        WorkerState { interval: 4 * SECOND, last_run: 30 * SECOND, enabled: true }
    );
}

#[test]
fn reload_with_another_interval_keeps_last_run() {
    let (mut worker, _) = CacheWorker::start(&Settings { interval: Some(10 * SECOND) }, 0);
    assert_eq!(worker.step(reload(Some(4 * SECOND)), 3 * SECOND), Action::Wait(Some(SECOND)));
    assert_eq!(worker.state, WorkerState { interval: 4 * SECOND, last_run: 0, enabled: true });
}

#[test]
fn reload_with_the_same_interval_changes_nothing() {
    let (mut worker, _) = CacheWorker::start(&Settings { interval: Some(10 * SECOND) }, 0);
    let before = worker.state;
    assert_eq!(worker.step(reload(Some(10 * SECOND)), 3 * SECOND), Action::Wait(Some(7 * SECOND)));
    assert_eq!(worker.state, before);
}

#[test]
fn reload_without_interval_disables() {
    let (mut worker, _) = CacheWorker::start(&Settings { interval: Some(10 * SECOND) }, 0);
    assert_eq!(worker.step(reload(None), 3 * SECOND), Action::Wait(None));
    assert_eq!(worker.state, WorkerState { interval: 10 * SECOND, last_run: 0, enabled: false });
    assert_eq!(worker.step(timeout(), 60 * SECOND), Action::Wait(None));
}

#[test]
fn reload_after_the_hiatus_refreshes_the_disks_first() {
    let (mut worker, _) = CacheWorker::start(&Settings { interval: Some(SECOND) }, 0);
    let now = DISK_CACHE_HIATUS;
    assert_eq!(worker.step(reload(Some(SECOND)), now), Action::RefreshDisks);
    assert_eq!(worker.phase, Phase::Refreshing);
    // The sample that has long been due follows the refresh.
    assert_eq!(worker.step(Event::Done, now + SECOND), Action::Sample);
    assert_eq!(worker.last_config, now + SECOND);
    assert_eq!(worker.step(Event::Done, now + 2 * SECOND), Action::Wait(Some(SECOND)));
}

#[test]
fn reload_before_the_hiatus_does_not_refresh() {
    let (mut worker, _) = CacheWorker::start(&Settings { interval: None }, 0);
    assert_eq!(worker.step(reload(None), DISK_CACHE_HIATUS - 1), Action::Wait(None));
    assert_eq!(worker.last_config, DISK_CACHE_HIATUS - 1);
    // The hiatus counts from the last reconfiguration.
    assert_eq!(worker.step(reload(None), DISK_CACHE_HIATUS + 5), Action::Wait(None));
    assert_eq!(
        worker.step(reload(None), 2 * DISK_CACHE_HIATUS + 5),
        Action::RefreshDisks
    );
    assert_eq!(worker.step(Event::Done, 2 * DISK_CACHE_HIATUS + 6), Action::Wait(None));
}

#[test]
fn hiatus_is_a_hundred_seconds() {
    assert_eq!(DISK_CACHE_HIATUS, 100 * SECOND);
}

#[test]
fn done_without_anything_asked_keeps_waiting() {
    let (mut worker, _) = CacheWorker::start(&Settings { interval: Some(SECOND) }, 0);
    assert_eq!(worker.step(Event::Done, 5 * SECOND), Action::Wait(Some(0)));
    assert_eq!(worker.phase, Phase::Waiting);
    assert_eq!(worker.state.last_run, 0);
}

#[test]
fn missed_wake_ups_do_not_pile_up() {
    let (mut worker, _) = CacheWorker::start(&Settings { interval: Some(SECOND) }, 0);
    // The caller oversleeps by many intervals: one sample, then a whole
    // interval from when it was taken.
    assert_eq!(worker.step(timeout(), 10 * SECOND), Action::Sample);
    assert_eq!(worker.step(Event::Done, 10 * SECOND), Action::Wait(Some(SECOND)));
    assert_eq!(worker.step(timeout(), 10 * SECOND + 1), Action::Wait(Some(SECOND - 1)));
}

#[test]
fn end_to_end_one_second_interval_for_three_seconds() {
    let mut cache = ShmemBackedSerdeRingBuffer::<4096, 3>::new();
    let mut now: u128 = 0;
    let took = 15 * MILLI;
    let (mut worker, mut action) = CacheWorker::start(&Settings { interval: Some(SECOND) }, now);
    let end = 3 * SECOND + 100 * MILLI;
    loop {
        match action {
            Action::Wait(Some(left)) => {
                if now + left > end {
                    action = worker.step(Event::Woken { terminate: true, reload: None }, end);
                } else {
                    now += left;
                    action = worker.step(timeout(), now);
                }
            }
            Action::Wait(None) => panic!("an enabled sampler waits with a limit"),
            Action::RefreshDisks => panic!("nothing was reconfigured"),
            Action::Sample => {
                now += took;
                let written = cache.write(report_at(now));
                assert_eq!(written, Ok(()));
                action = worker.step(Event::Done, now);
            }
            Action::Exit => break,
        }
    }
    let samples = reports(Ok(&cache));
    assert!(samples.len() >= 2 && samples.len() <= 4);
    assert_eq!(samples.len(), 3);
    for pair in samples.windows(2) {
        let (a, b) = (&pair[0].at, &pair[1].at);
        assert!((a.second, a.nanosecond) < (b.second, b.nanosecond));
    }
    assert_eq!(cache_info(Ok(&cache)).items, 3);
}

#[test]
fn uninitialized_cache_reads_as_empty() {
    let missing: Result<&ShmemBackedSerdeRingBuffer<64, 2>, Uninitialized> = Err(Uninitialized);
    assert_eq!(reports(missing), vec![]);
    assert_eq!(
        cache_info(missing),
        BufferSummary { items: 0, bytes_used: 0, item_average_bytes: 0 }
    );
}

#[test]
fn initialized_cache_is_read_through() {
    let mut cache = ShmemBackedSerdeRingBuffer::<256, 2>::new();
    cache.write(report_at(SECOND)).unwrap();
    assert_eq!(reports(Ok(&cache)), vec![report_at(SECOND)]);
    assert_eq!(
        cache_info(Ok(&cache)),
        BufferSummary { items: 1, bytes_used: 97, item_average_bytes: 97 }
    );
}

#[test]
fn sampler_is_launched_only_with_an_interval() {
    assert!(pg_stat_sysinfo::cache_worker::start(&Settings { interval: Some(SECOND) }));
    assert!(pg_stat_sysinfo::cache_worker::start(&Settings { interval: Some(0) }));
    assert!(!pg_stat_sysinfo::cache_worker::start(&Settings { interval: None }));
}

//! The sampler: when the next sample is due, and what a wake-up leads to.
//!
//! The caller owns the clock, the signals and the work. It waits as long as
//! it is told, reports what woke it, carries out what it is asked for, and
//! reports that it has.

use crate::collector::{report_views, Report, ReportView};
use crate::settings::Settings;
use crate::shmem_ring_buffer::{BufferSummary, ShmemBackedSerdeRingBuffer};
use vstd::prelude::*;

verus! {

/// After a reconfiguration that comes this long after the last one, in
/// nanoseconds, the list of disks is looked up again.
pub const DISK_CACHE_HIATUS: u128 = 100_000_000_000;

/// Whether samples are taken, how far apart, and when the last one was.
#[derive(Clone, Copy, Debug, PartialEq, Eq)]
pub struct WorkerState {
    /// The time from one sample to the next, in nanoseconds.
    pub interval: u128,
    /// The reading of the clock at the last sample, or when sampling was
    /// switched on.
    pub last_run: u128,
    pub enabled: bool,
}

impl WorkerState {
    /// The time since the last run, and none where the clock reads less
    /// than it did then.
    pub open spec fn elapsed(self, now: u128) -> nat {
        if now >= self.last_run {
            (now - self.last_run) as nat
        } else {
            0
        }
    }

    /// The time left until the next sample is due, and none where it is
    /// overdue.
    pub open spec fn remaining(self, now: u128) -> nat {
        if self.interval >= self.elapsed(now) {
            (self.interval - self.elapsed(now)) as nat
        } else {
            0
        }
    }

    /// The state in which a sampler starts: switched off.
    pub fn new(now: u128) -> (out: Self)
        ensures
            out == (WorkerState { interval: 0, last_run: now, enabled: false }),
    {
        WorkerState { interval: 0, last_run: now, enabled: false }
    }

    /// Switches sampling on with the given interval, and says whether that
    /// changed anything.
    ///
    /// Only a sampler that was switched off starts its interval anew; one
    /// that was running keeps the time of its last run.
    pub fn enable(&mut self, interval: u128, now: u128) -> (changed: bool)
        ensures
            final(self).enabled,
            final(self).interval == interval,
            final(self).last_run == if old(self).enabled {
                old(self).last_run
            } else {
                now
            },
            changed == (!old(self).enabled || old(self).interval != interval),
    {
        let mut changed = false;
        if !self.enabled {
            self.enabled = true;
            self.last_run = now;
            changed = true;
        }
        if self.interval != interval {
            self.interval = interval;
            changed = true;
        }
        changed
    }

    /// Switches sampling off, and says whether that changed anything.
    pub fn disable(&mut self) -> (changed: bool)
        ensures
            !final(self).enabled,
            final(self).interval == old(self).interval,
            final(self).last_run == old(self).last_run,
            changed == old(self).enabled,
    {
        let mut changed = false;
        if self.enabled {
            self.enabled = false;
            changed = true;
        }
        changed
    }

    /// The time left until the next sample is due: the interval less the
    /// time since the last run, and zero where that would be negative.
    pub fn remaining_time(&self, now: u128) -> (left: u128)
        ensures
            left == self.remaining(now),
            left <= self.interval,
    {
        let passed: u128 = now.saturating_sub(self.last_run);
        self.interval.saturating_sub(passed)
    }
}

/// What the caller reports to the sampler.
#[derive(Clone, Copy, Debug, PartialEq, Eq)]
pub enum Event {
    /// The wait is over: its time has run out or a signal has come.
    /// `terminate` says whether the sampler was told to stop; `reload`
    /// holds the settings as read anew where it was told to reconfigure.
    Woken { terminate: bool, reload: Option<Settings> },
    /// What the sampler asked for last has been done, or has failed.
    Done,
}

/// What the sampler asks of the caller.
#[derive(Clone, Copy, Debug, PartialEq, Eq)]
pub enum Action {
    /// Wait for a signal, and no longer than the given nanoseconds where
    /// there are any; then report `Woken`.
    Wait(Option<u128>),
    /// Look up the list of disks again; then report `Done`.
    RefreshDisks,
    /// Take one sample and write it to the cache; then report `Done`,
    /// whether or not that worked.
    Sample,
    /// Stop.
    Exit,
}

/// What the sampler is in the middle of.
#[derive(Clone, Copy, Debug, PartialEq, Eq)]
pub enum Phase {
    /// Nothing: the caller waits.
    Waiting,
    /// The caller looks up the list of disks.
    Refreshing,
    /// The caller takes a sample.
    Sampling,
    /// The sampler has stopped.
    Stopped,
}

/// The sampler.
#[derive(Clone, Copy, Debug, PartialEq, Eq)]
pub struct CacheWorker {
    pub state: WorkerState,
    /// The reading of the clock when the settings were last applied.
    pub last_config: u128,
    pub phase: Phase,
}

/// The state that `settings` lead to: with an interval sampling is on, and
/// starts anew where it was off; without one it is off.
pub open spec fn reconfigured(state: WorkerState, settings: Settings, now: u128) -> WorkerState {
    match settings.interval {
        Some(interval) => WorkerState {
            interval,
            last_run: if state.enabled {
                state.last_run
            } else {
                now
            },
            enabled: true,
        },
        None => WorkerState { enabled: false, ..state },
    }
}

/// Whether the settings were last applied long enough before `now` for the
/// list of disks to be looked up again.
pub open spec fn hiatus_over(last_config: u128, now: u128) -> bool {
    now >= last_config && now - last_config >= DISK_CACHE_HIATUS
}

impl CacheWorker {
    /// How long to wait: until the next sample is due, or without limit
    /// where sampling is off.
    pub open spec fn timeout(self, now: u128) -> Option<u128> {
        if self.state.enabled {
            Some(self.state.remaining(now) as u128)
        } else {
            None
        }
    }

    /// The sampler at rest, and the wait it asks for.
    pub open spec fn rest(self, now: u128) -> (CacheWorker, Action) {
        (CacheWorker { phase: Phase::Waiting, ..self }, Action::Wait(self.timeout(now)))
    }

    /// What follows when nothing else is to be done first: a sample where
    /// sampling is on and one is due, a wait otherwise.
    pub open spec fn proceed(self, now: u128) -> (CacheWorker, Action) {
        if self.state.enabled && self.state.remaining(now) == 0 {
            (CacheWorker { phase: Phase::Sampling, ..self }, Action::Sample)
        } else {
            self.rest(now)
        }
    }

    /// The sampler when it starts, and the wait it asks for first.
    pub open spec fn begin(settings: Settings, now: u128) -> (CacheWorker, Action) {
        let off = WorkerState { interval: 0, last_run: now, enabled: false };
        (CacheWorker {
            state: reconfigured(off, settings, now),
            last_config: now,
            phase: Phase::Waiting,
        }).rest(now)
    }

    /// The sampler after `event`, and what it asks for next.
    ///
    /// A sampler that has stopped stays stopped. A wake-up to terminate
    /// stops it, whatever else it brings. A wake-up to reconfigure applies
    /// the settings and, after a hiatus, has the disks looked up before
    /// anything else. Once a sample has been taken, the interval starts
    /// anew and the sampler waits. A wake-up is answered in the same way
    /// whatever the sampler was in the middle of, and the end of something
    /// that was never asked for changes nothing.
    pub open spec fn next(self, event: Event, now: u128) -> (CacheWorker, Action) {
        if self.phase is Stopped {
            (self, Action::Exit)
        } else {
            match event {
                Event::Woken { terminate, reload } => {
                    if terminate {
                        (CacheWorker { phase: Phase::Stopped, ..self }, Action::Exit)
                    } else {
                        match reload {
                            Some(settings) => {
                                let applied = CacheWorker {
                                    state: reconfigured(self.state, settings, now),
                                    last_config: now,
                                    phase: self.phase,
                                };
                                if hiatus_over(self.last_config, now) {
                                    (
                                        CacheWorker { phase: Phase::Refreshing, ..applied },
                                        Action::RefreshDisks,
                                    )
                                } else {
                                    applied.proceed(now)
                                }
                            },
                            None => self.proceed(now),
                        }
                    }
                },
                Event::Done => match self.phase {
                    Phase::Refreshing => (CacheWorker { last_config: now, ..self }).proceed(now),
                    Phase::Sampling => (CacheWorker {
                        state: WorkerState { last_run: now, ..self.state },
                        ..self
                    }).rest(now),
                    _ => self.rest(now),
                },
            }
        }
    }

    /// Starts the sampler under `settings`. It asks for a wait first, also
    /// where a sample is due at once.
    pub fn start(settings: &Settings, now: u128) -> (out: (CacheWorker, Action))
        ensures
            out == CacheWorker::begin(*settings, now),
    {
        let mut state = WorkerState::new(now);
        if let Some(interval) = settings.interval {
            state.enable(interval, now);
        }
        let worker = CacheWorker { state, last_config: now, phase: Phase::Waiting };
        let action = Action::Wait(worker.limit(now));
        (worker, action)
    }

    /// How long to wait at most, if sampling is on.
    fn limit(&self, now: u128) -> (out: Option<u128>)
        ensures
            out == self.timeout(now),
    {
        if self.state.enabled {
            Some(self.state.remaining_time(now))
        } else {
            None
        }
    }

    /// Comes to rest and asks for a wait.
    fn come_to_rest(&mut self, now: u128) -> (action: Action)
        ensures
            (*final(self), action) == old(self).rest(now),
    {
        self.phase = Phase::Waiting;
        Action::Wait(self.limit(now))
    }

    /// Asks for a sample where one is due, and for a wait otherwise.
    fn go_on(&mut self, now: u128) -> (action: Action)
        ensures
            (*final(self), action) == old(self).proceed(now),
    {
        if self.state.enabled && self.state.remaining_time(now) == 0 {
            self.phase = Phase::Sampling;
            Action::Sample
        } else {
            self.come_to_rest(now)
        }
    }

    /// Applies settings that were read anew.
    fn reconfigure(&mut self, settings: Settings, now: u128)
        ensures
            final(self).state == reconfigured(old(self).state, settings, now),
            final(self).last_config == now,
            final(self).phase == old(self).phase,
    {
        match settings.interval {
            Some(interval) => {
                self.state.enable(interval, now);
            },
            None => {
                self.state.disable();
            },
        }
        self.last_config = now;
    }

    /// Takes in what the caller reports and says what it is to do next.
    pub fn step(&mut self, event: Event, now: u128) -> (action: Action)
        ensures
            (*final(self), action) == old(self).next(event, now),
    {
        if let Phase::Stopped = self.phase {
            return Action::Exit;
        }
        match event {
            Event::Woken { terminate, reload } => {
                if terminate {
                    self.phase = Phase::Stopped;
                    return Action::Exit;
                }
                match reload {
                    Some(settings) => {
                        let since: u128 = now.saturating_sub(self.last_config);
                        self.reconfigure(settings, now);
                        if since >= DISK_CACHE_HIATUS {
                            self.phase = Phase::Refreshing;
                            Action::RefreshDisks
                        } else {
                            self.go_on(now)
                        }
                    },
                    None => self.go_on(now),
                }
            },
            Event::Done => match self.phase {
                Phase::Refreshing => {
                    self.last_config = now;
                    self.go_on(now)
                },
                Phase::Sampling => {
                    self.state.last_run = now;
                    self.come_to_rest(now)
                },
                _ => self.come_to_rest(now),
            },
        }
    }
}

impl CacheWorker {
    /// A sample is only asked for while sampling is on and a sample is due,
    /// and never by a sampler that has stopped.
    pub proof fn law_samples_only_when_due(self, event: Event, now: u128)
        ensures
            self.next(event, now).1 is Sample ==> {
                &&& self.next(event, now).0.state.enabled
                &&& self.next(event, now).0.state.remaining(now) == 0
                &&& self.next(event, now).0.phase is Sampling
                &&& !(self.phase is Stopped)
            },
    {
    }

    /// What holds of a sampler from its start on: a sample is only under
    /// way while sampling is on.
    pub open spec fn inv(self) -> bool {
        self.phase is Sampling ==> self.state.enabled
    }

    /// A sampler starts with its invariant, and no event takes it away.
    pub proof fn law_invariant(self, settings: Settings, event: Event, now: u128)
        ensures
            CacheWorker::begin(settings, now).0.inv(),
            self.inv() ==> self.next(event, now).0.inv(),
    {
    }

    /// No wake-up leads to more than one sample: a sample is only asked for
    /// in answer to a wake-up or to the end of the refresh that a wake-up
    /// led to, and once it has been taken the sampler waits, for a whole
    /// interval.
    pub proof fn law_one_sample_per_wake(self, event: Event, now: u128)
        requires
            self.inv(),
        ensures
            self.next(event, now).1 is Sample ==> event is Woken || self.phase is Refreshing,
            self.phase is Sampling && event is Done ==> self.next(event, now).1 == Action::Wait(
                Some(self.state.interval),
            ),
            self.phase is Sampling && event is Done ==> self.next(event, now).0.state.last_run
                == now,
    {
    }

    /// A wake-up to terminate stops the sampler, whether or not it also
    /// brings new settings, and a stopped sampler asks for nothing more.
    pub proof fn law_termination_wins(self, reload: Option<Settings>, event: Event, now: u128)
        ensures
            self.next(Event::Woken { terminate: true, reload }, now).1 is Exit,
            self.next(Event::Woken { terminate: true, reload }, now).0.phase is Stopped,
            self.phase is Stopped ==> self.next(event, now) == (self, Action::Exit),
    {
    }

    /// Settings with another interval, applied to a running sampler, change
    /// the interval and keep the time of the last run; applied to one that
    /// is switched off, they start the interval at the time of the wake-up.
    /// Settings without an interval switch sampling off and change nothing
    /// else.
    pub proof fn law_reconfiguration(self, settings: Settings, now: u128)
        requires
            !(self.phase is Stopped),
        ensures
            ({
                let reload = Event::Woken { terminate: false, reload: Some(settings) };
                let after = self.next(reload, now).0.state;
                match settings.interval {
                    Some(interval) => {
                        &&& after.enabled
                        &&& after.interval == interval
                        &&& self.state.enabled ==> after.last_run == self.state.last_run
                        &&& !self.state.enabled ==> after.last_run == now
                    },
                    None => {
                        &&& !after.enabled
                        &&& after.interval == self.state.interval
                        &&& after.last_run == self.state.last_run
                    },
                }
            }),
    {
    }

    /// The wait that the sampler asks for never exceeds the interval, and
    /// is the interval less the time since the last run where that is not
    /// negative.
    pub proof fn law_wait_within_interval(self, event: Event, now: u128)
        ensures
            self.next(event, now).1 matches Action::Wait(Some(left)) ==> {
                &&& left <= self.next(event, now).0.state.interval
                &&& left == self.next(event, now).0.state.remaining(now)
            },
            self.next(event, now).1 == Action::Wait(None) ==> !self.next(
                event,
                now,
            ).0.state.enabled,
    {
    }
}

/// Whether a sampler is to be launched at all: only where an interval is
/// configured.
pub fn start(settings: &Settings) -> (launch: bool)
    ensures
        launch == settings.interval is Some,
{
    settings.interval.is_some()
}

/// The shared store has not been set up.
#[derive(Clone, Copy, Debug, PartialEq, Eq)]
pub struct Uninitialized;

/// The reports in the cache, the oldest first; none where the cache has
/// not been set up.
pub fn reports<const N: usize, const M: usize>(
    cache: Result<&ShmemBackedSerdeRingBuffer<N, M>, Uninitialized>,
) -> (out: Vec<Report>)
    requires
        cache matches Ok(store) ==> store.wf(),
    ensures
        report_views(out@) == match cache {
            Ok(store) => store@.reports(),
            Err(_) => Seq::<ReportView>::empty(),
        },
{
    match cache {
        Ok(store) => store.read(),
        Err(_) => Vec::new(),
    }
}

/// How full the cache is; the summary of an empty store where the cache
/// has not been set up.
pub fn cache_info<const N: usize, const M: usize>(
    cache: Result<&ShmemBackedSerdeRingBuffer<N, M>, Uninitialized>,
) -> (out: BufferSummary)
    requires
        cache matches Ok(store) ==> store.wf(),
        N * M <= usize::MAX,
    ensures
        out == match cache {
            Ok(store) => store@.summary(),
            Err(_) => (BufferSummary { items: 0, bytes_used: 0, item_average_bytes: 0 }),
        },
{
    match cache {
        Ok(store) => store.stats(),
        Err(_) => BufferSummary::default(),
    }
}

} // verus!

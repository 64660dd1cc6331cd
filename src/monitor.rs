//! The silence state machine: one tick per second, fed the peak of the second
//! that just ended.
use vstd::prelude::*;
use crate::binary32::Binary32;

verus! {

/// What one tick decided, for the caller to act on and report.
#[derive(Clone, Copy, Debug, PartialEq, Eq, Structural)]
pub enum Tick {
    /// The peak reached the threshold and no silence was running.
    Loud,
    /// The peak reached the threshold and ended a silence.
    SilenceOver,
    /// The peak stayed under the threshold: `seconds` of silence so far, and
    /// whether the alarm is to be triggered now.
    Silent { seconds: u64, fire: bool },
}

/// The three states a monitor moves between.
#[derive(Clone, Copy, Debug, PartialEq, Eq, Structural)]
pub enum Phase {
    /// No silence is running.
    Loud,
    /// A silence is running and the alarm has not been raised.
    Counting,
    /// A silence has outlasted the timeout and the alarm has been raised.
    Alarmed,
}

/// The state of a monitor as plain values.
pub struct MonitorView {
    pub threshold: Binary32,
    pub timeout: int,
    pub elapsed: nat,
    pub alarm_active: bool,
}

impl MonitorView {
    /// The counter fits its machine word, and the alarm is only up once the
    /// silence has outlasted the timeout.
    pub open spec fn wf(self) -> bool {
        self.elapsed <= u64::MAX && (self.alarm_active ==> self.elapsed > self.timeout)
    }

    /// Whether `peak` counts as silence: strictly below the threshold.
    pub open spec fn is_quiet(self, peak: Binary32) -> bool {
        peak.spec_lt(self.threshold)
    }

    /// The silence counter after one more quiet second; it stays at its largest
    /// value once there.
    pub open spec fn counted(self) -> nat {
        if self.elapsed < u64::MAX {
            self.elapsed + 1
        } else {
            self.elapsed
        }
    }

    /// The state after a tick with `peak`.
    pub open spec fn next(self, peak: Binary32) -> MonitorView {
        if self.is_quiet(peak) {
            MonitorView {
                threshold: self.threshold,
                timeout: self.timeout,
                elapsed: self.counted(),
                alarm_active: self.alarm_active || self.counted() > self.timeout,
            }
        } else {
            MonitorView {
                threshold: self.threshold,
                timeout: self.timeout,
                elapsed: 0,
                alarm_active: false,
            }
        }
    }

    /// What a tick with `peak` reports.
    pub open spec fn outcome(self, peak: Binary32) -> Tick {
        if self.is_quiet(peak) {
            Tick::Silent {
                seconds: self.counted() as u64,
                fire: self.counted() > self.timeout && !self.alarm_active,
            }
        } else if self.alarm_active || self.elapsed > 0 {
            Tick::SilenceOver
        } else {
            Tick::Loud
        }
    }

    /// The phase this state is in.
    pub open spec fn phase(self) -> Phase {
        if self.alarm_active {
            Phase::Alarmed
        } else if self.elapsed > 0 {
            Phase::Counting
        } else {
            Phase::Loud
        }
    }
}

impl Tick {
    /// Whether the tick triggers the alarm.
    pub open spec fn fires(self) -> bool {
        match self {
            Tick::Silent { fire, .. } => fire,
            _ => false,
        }
    }
}

/// How many times the alarm is triggered over ticks with `peaks`, from `m`.
pub open spec fn fire_count(m: MonitorView, peaks: Seq<Binary32>) -> nat
    decreases peaks.len(),
{
    if peaks.len() == 0 {
        0
    } else {
        (if m.outcome(peaks[0]).fires() {
            1nat
        } else {
            0nat
        }) + fire_count(m.next(peaks[0]), peaks.drop_first())
    }
}

/// The alarm is triggered at most once over any run of quiet ticks, however long
/// it lasts, and not at all if it was already up when the run began.
pub proof fn lemma_alarm_fires_at_most_once(m: MonitorView, peaks: Seq<Binary32>)
    requires
        m.wf(),
        forall|i: int| 0 <= i < peaks.len() ==> m.is_quiet(#[trigger] peaks[i]),
    ensures
        fire_count(m, peaks) <= 1,
        m.alarm_active ==> fire_count(m, peaks) == 0,
    decreases peaks.len(),
{
    if peaks.len() > 0 {
        let n = m.next(peaks[0]);
        let rest = peaks.drop_first();
        assert(m.is_quiet(peaks[0]));
        assert forall|i: int| 0 <= i < rest.len() implies n.is_quiet(#[trigger] rest[i]) by {
            assert(rest[i] == peaks[i + 1]);
            assert(m.is_quiet(peaks[i + 1]));
        }
        lemma_alarm_fires_at_most_once(n, rest);
    }
}

/// One loud tick after the alarm went up ends the episode completely: the counter
/// is back at zero, the alarm is down, and the next quiet tick counts one second,
/// with nothing carried over from before.
pub proof fn lemma_loud_tick_ends_episode(m: MonitorView, loud: Binary32, quiet: Binary32)
    requires
        m.wf(),
        m.alarm_active,
        !m.is_quiet(loud),
        m.is_quiet(quiet),
    ensures
        m.next(loud).elapsed == 0,
        !m.next(loud).alarm_active,
        m.next(loud).phase() == Phase::Loud,
        m.next(loud).next(quiet).elapsed == 1,
        m.next(loud).next(quiet).alarm_active == (1 > m.timeout),
{
}

/// Silence detection over one peak per second.
pub struct SilenceMonitor {
    threshold: Binary32,
    timeout: i32,
    elapsed: u64,
    alarm_active: bool,
}

impl View for SilenceMonitor {
    type V = MonitorView;

    closed spec fn view(&self) -> MonitorView {
        MonitorView {
            threshold: self.threshold,
            timeout: self.timeout as int,
            elapsed: self.elapsed as nat,
            alarm_active: self.alarm_active,
        }
    }
}

impl SilenceMonitor {
    /// A monitor in the loud state: a silence is a run of peaks below `threshold`,
    /// and the alarm goes up once it has lasted more than `timeout` seconds.
    pub fn new(threshold: Binary32, timeout: i32) -> (r: SilenceMonitor)
        ensures
            r@ == (MonitorView {
                threshold,
                timeout: timeout as int,
                elapsed: 0,
                alarm_active: false,
            }),
            r@.wf(),
    {
        SilenceMonitor { threshold, timeout, elapsed: 0, alarm_active: false }
    }

    /// Takes the peak of the second that just ended and moves to the next state.
    pub fn tick(&mut self, peak: Binary32) -> (r: Tick)
        requires
            old(self)@.wf(),
        ensures
            final(self)@ == old(self)@.next(peak),
            r == old(self)@.outcome(peak),
            final(self)@.wf(),
    {
        if peak.less_than(&self.threshold) {
            if self.elapsed < u64::MAX {
                self.elapsed = self.elapsed + 1;
            }
            let over = self.timeout < 0 || self.elapsed > self.timeout as u64;
            let fire = over && !self.alarm_active;
            if over {
                self.alarm_active = true;
            }
            Tick::Silent { seconds: self.elapsed, fire }
        } else {
            let r = if self.alarm_active || self.elapsed > 0 {
                Tick::SilenceOver
            } else {
                Tick::Loud
            };
            self.elapsed = 0;
            self.alarm_active = false;
            r
        }
    }

    /// Whether a tick's peak is worth reporting at `verbosity`: always from 2 on,
    /// at 1 only while a silence is running, never at 0.
    pub fn reports_peak(&self, verbosity: u64) -> (r: bool)
        ensures
            r == (verbosity > 1 || (verbosity == 1 && self@.elapsed > 0)),
    {
        verbosity > 1 || (verbosity == 1 && self.elapsed > 0)
    }

    /// The phase the monitor is in.
    pub fn phase(&self) -> (r: Phase)
        ensures
            r == self@.phase(),
    {
        if self.alarm_active {
            Phase::Alarmed
        } else if self.elapsed > 0 {
            Phase::Counting
        } else {
            Phase::Loud
        }
    }

    /// The level under which a peak counts as silence.
    pub fn threshold(&self) -> (r: Binary32)
        ensures
            r == self@.threshold,
    {
        self.threshold
    }

    /// The seconds of silence after which the alarm goes up.
    pub fn timeout(&self) -> (r: i32)
        ensures
            r as int == self@.timeout,
    {
        self.timeout
    }

    /// The seconds of the silence running now; zero when none is.
    pub fn elapsed_silent_seconds(&self) -> (r: u64)
        ensures
            r as nat == self@.elapsed,
    {
        self.elapsed
    }

    /// Whether the alarm is up.
    pub fn alarm_active(&self) -> (r: bool)
        ensures
            r == self@.alarm_active,
    {
        self.alarm_active
    }
}

} // verus!

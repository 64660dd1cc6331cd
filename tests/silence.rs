use silentjack::binary32::Binary32;
use silentjack::monitor::{Phase, SilenceMonitor, Tick};

fn b(x: f32) -> Binary32 {
    Binary32::from_bits(x.to_bits())
}

#[test]
fn silence_then_signal_with_two_second_timeout() {
    let mut m = SilenceMonitor::new(b(-40.0), 2);
    let mut elapsed = Vec::new();
    let mut ticks = Vec::new();
    for peak in [-50.0f32, -50.0, -50.0, -10.0] {
        ticks.push(m.tick(b(peak)));
        elapsed.push(m.elapsed_silent_seconds());
        if ticks.len() == 3 {
            assert!(m.alarm_active());
        }
    }
    assert_eq!(elapsed, vec![1, 2, 3, 0]);
    assert_eq!(
        ticks,
        vec![
            Tick::Silent { seconds: 1, fire: false },
            Tick::Silent { seconds: 2, fire: false },
            Tick::Silent { seconds: 3, fire: true },
            Tick::SilenceOver,
        ]
    );
    assert!(!m.alarm_active());
}

#[test]
fn alarm_fires_once_in_long_silence() {
    let mut m = SilenceMonitor::new(b(-40.0), 2);
    let mut fires = 0;
    for _ in 0..100 {
        if let Tick::Silent { fire: true, .. } = m.tick(b(-60.0)) {
            fires += 1;
        }
    }
    assert_eq!(fires, 1);
    assert_eq!(m.elapsed_silent_seconds(), 100);
    assert_eq!(m.phase(), Phase::Alarmed);
}

#[test]
fn one_loud_tick_resets_the_episode() {
    let mut m = SilenceMonitor::new(b(-40.0), 2);
    for _ in 0..5 {
        m.tick(b(-60.0));
    }
    assert_eq!(m.phase(), Phase::Alarmed);
    assert_eq!(m.tick(b(-30.0)), Tick::SilenceOver);
    assert_eq!(m.elapsed_silent_seconds(), 0);
    assert_eq!(m.phase(), Phase::Loud);
    assert_eq!(m.tick(b(-60.0)), Tick::Silent { seconds: 1, fire: false });
    assert_eq!(m.tick(b(-60.0)), Tick::Silent { seconds: 2, fire: false });
    assert_eq!(m.tick(b(-60.0)), Tick::Silent { seconds: 3, fire: true });
}

#[test]
fn peak_equal_to_threshold_is_not_silence() {
    let mut m = SilenceMonitor::new(b(-40.0), 2);
    assert_eq!(m.tick(b(-40.0)), Tick::Loud);
    assert_eq!(m.elapsed_silent_seconds(), 0);
}

#[test]
fn loud_start_reports_loud() {
    let mut m = SilenceMonitor::new(b(-40.0), 45);
    assert_eq!(m.phase(), Phase::Loud);
    assert_eq!(m.tick(b(-3.0)), Tick::Loud);
    assert_eq!(m.tick(b(-60.0)), Tick::Silent { seconds: 1, fire: false });
    assert_eq!(m.phase(), Phase::Counting);
    assert_eq!(m.tick(b(-3.0)), Tick::SilenceOver);
}

#[test]
fn nan_peak_counts_as_signal() {
    let mut m = SilenceMonitor::new(b(-40.0), 2);
    m.tick(b(-60.0));
    assert_eq!(m.tick(b(f32::NAN)), Tick::SilenceOver);
    assert_eq!(m.elapsed_silent_seconds(), 0);
}

#[test]
fn floor_peak_is_silence() {
    let mut m = SilenceMonitor::new(b(-40.0), 0);
    assert_eq!(m.tick(b(-90.0)), Tick::Silent { seconds: 1, fire: true });
}

#[test]
fn negative_timeout_fires_on_first_quiet_tick() {
    let mut m = SilenceMonitor::new(b(-40.0), -5);
    assert_eq!(m.tick(b(-60.0)), Tick::Silent { seconds: 1, fire: true });
    assert_eq!(m.tick(b(-60.0)), Tick::Silent { seconds: 2, fire: false });
}

#[test]
fn peak_reporting_by_verbosity() {
    let mut m = SilenceMonitor::new(b(-40.0), 2);
    assert!(!m.reports_peak(0));
    assert!(!m.reports_peak(1));
    assert!(m.reports_peak(2));
    m.tick(b(-60.0));
    assert!(!m.reports_peak(0));
    assert!(m.reports_peak(1));
    assert!(m.reports_peak(3));
}

#[test]
fn configuration_is_kept() {
    let m = SilenceMonitor::new(b(-40.0), 45);
    assert_eq!(m.threshold(), b(-40.0));
    assert_eq!(m.timeout(), 45);
    assert!(!m.alarm_active());
}

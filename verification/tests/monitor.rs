use egloorator::monitor::{
    is_level, make_level_pipeline, make_sine_pipeline, Feed, Monitor, Reaction, SineOrder,
    SINE_HOLD,
};
use egloorator::silence::Sample;

const LOUD: Feed = Feed::Level(Sample { below_active: false, below_silent: false });
const BETWEEN: Feed = Feed::Level(Sample { below_active: true, below_silent: false });
const QUIET: Feed = Feed::Level(Sample { below_active: true, below_silent: true });

/// The reaction as plain values: change (who, silent), sine, quit, done.
fn plain(r: Reaction) -> (Option<(usize, bool)>, SineOrder, bool, bool) {
    (r.change.map(|c| (c.who, c.silent)), r.sine, r.quit, r.done)
}

fn with_tone(period: i64, timeout: u64) -> Monitor {
    Monitor::new(3, &String::from("pulsesink device=x"), period, timeout)
}

fn without_tone(period: i64) -> Monitor {
    Monitor::new(5, &String::from("filesink location=output_5.wav"), period, 10)
}

#[test]
fn a_tone_marks_activity_on_sound_server_sinks_only() {
    assert!(with_tone(1, 10).play_sine_on_activity());
    assert!(!without_tone(1).play_sine_on_activity());
    assert!(!Monitor::new(0, &String::from(" pulsesink"), 1, 10).play_sine_on_activity());
    assert!(Monitor::new(0, &String::from("pulsesink"), 1, 10).play_sine_on_activity());
    assert!(with_tone(1, 10).silent());
}

#[test]
fn each_flip_is_reported_once() {
    let mut m = without_tone(2);
    assert_eq!(plain(m.watch_level(QUIET)), (None, SineOrder::Keep, false, false));
    assert_eq!(plain(m.watch_level(BETWEEN)), (None, SineOrder::Keep, false, false));
    assert_eq!(
        plain(m.watch_level(LOUD)),
        (Some((5, false)), SineOrder::Keep, false, false)
    );
    assert!(!m.silent());
    assert_eq!(plain(m.watch_level(LOUD)), (None, SineOrder::Keep, false, false));
    assert_eq!(plain(m.watch_level(QUIET)), (None, SineOrder::Keep, false, false));
    assert_eq!(
        plain(m.watch_level(QUIET)),
        (Some((5, true)), SineOrder::Keep, false, false)
    );
    assert!(m.silent());
    assert_eq!(plain(m.watch_level(QUIET)), (None, SineOrder::Keep, false, false));
}

#[test]
fn the_tone_is_held_and_then_paused() {
    assert_eq!(SINE_HOLD, 5);
    let mut m = with_tone(100, 10);
    // silent and nothing to hold: paused over and over
    assert_eq!(plain(m.watch_level(QUIET)), (None, SineOrder::Pause, false, false));
    assert_eq!(
        plain(m.watch_level(LOUD)),
        (Some((3, false)), SineOrder::Play, false, false)
    );
    for _ in 0..5 {
        assert_eq!(plain(m.watch_level(LOUD)), (None, SineOrder::Keep, false, false));
    }
    assert_eq!(plain(m.watch_level(LOUD)), (None, SineOrder::Pause, false, false));
    assert_eq!(plain(m.watch_level(BETWEEN)), (None, SineOrder::Pause, false, false));
}

#[test]
fn falling_silent_pauses_the_tone_and_keeps_the_count() {
    let mut m = with_tone(1, 10);
    assert_eq!(
        plain(m.watch_level(LOUD)),
        (Some((3, false)), SineOrder::Play, false, false)
    );
    assert_eq!(plain(m.watch_level(LOUD)), (None, SineOrder::Keep, false, false));
    assert_eq!(
        plain(m.watch_level(QUIET)),
        (Some((3, true)), SineOrder::Pause, false, false)
    );
    // four of the five readings are left
    for _ in 0..4 {
        assert_eq!(plain(m.watch_level(QUIET)), (None, SineOrder::Keep, false, false));
    }
    assert_eq!(plain(m.watch_level(QUIET)), (None, SineOrder::Pause, false, false));
    // becoming active again holds it anew
    assert_eq!(
        plain(m.watch_level(LOUD)),
        (Some((3, false)), SineOrder::Play, false, false)
    );
    for _ in 0..5 {
        assert_eq!(plain(m.watch_level(LOUD)), (None, SineOrder::Keep, false, false));
    }
    assert_eq!(plain(m.watch_level(LOUD)), (None, SineOrder::Pause, false, false));
}

#[test]
fn without_timeout_the_tone_plays_on() {
    let mut m = with_tone(1, 0);
    assert_eq!(plain(m.watch_level(QUIET)), (None, SineOrder::Keep, false, false));
    assert_eq!(
        plain(m.watch_level(LOUD)),
        (Some((3, false)), SineOrder::Play, false, false)
    );
    for _ in 0..20 {
        assert_eq!(plain(m.watch_level(LOUD)), (None, SineOrder::Keep, false, false));
    }
    assert_eq!(
        plain(m.watch_level(QUIET)),
        (Some((3, true)), SineOrder::Pause, false, false)
    );
}

#[test]
fn other_messages_change_nothing() {
    let mut m = with_tone(1, 10);
    m.watch_level(LOUD);
    for _ in 0..10 {
        assert_eq!(plain(m.watch_level(Feed::Other)), (None, SineOrder::Keep, false, false));
    }
    // the five readings are still to come
    for _ in 0..5 {
        assert_eq!(plain(m.watch_level(LOUD)), (None, SineOrder::Keep, false, false));
    }
    assert_eq!(plain(m.watch_level(LOUD)), (None, SineOrder::Pause, false, false));
}

#[test]
fn the_end_of_the_stream_asks_to_quit() {
    let mut m = without_tone(1);
    m.watch_level(LOUD);
    assert_eq!(
        plain(m.watch_level(Feed::EndOfStream)),
        (None, SineOrder::Keep, true, true)
    );
    // nothing comes after the end
    assert_eq!(plain(m.watch_level(QUIET)), (None, SineOrder::Keep, false, true));
    assert_eq!(
        plain(m.watch_level(Feed::EndOfStream)),
        (None, SineOrder::Keep, false, true)
    );
    assert!(!m.silent());
}

#[test]
fn a_fault_ends_the_monitor_quietly() {
    let mut m = with_tone(1, 10);
    assert_eq!(plain(m.watch_level(Feed::Fault)), (None, SineOrder::Keep, false, true));
    assert_eq!(plain(m.watch_level(LOUD)), (None, SineOrder::Keep, false, true));
    assert_eq!(plain(m.watch_level(Feed::Other)), (None, SineOrder::Keep, false, true));
    assert!(m.silent());
}

#[test]
fn level_messages_by_name() {
    assert!(is_level("level"));
    assert!(!is_level("Level"));
    assert!(!is_level("level "));
    assert!(!is_level(""));
    assert!(!is_level("spectrum"));
}

#[test]
fn pipelines_of_the_monitor() {
    assert_eq!(
        make_level_pipeline(&String::from("pulsesrc device=x"), "0.1"),
        "pulsesrc device=x ! level interval=0.1 ! fakesink"
    );
    assert_eq!(
        make_level_pipeline(&String::from("pulsesrc device=x"), &format!("{}", 0.1f64)),
        format!("{} ! level interval={} ! fakesink", "pulsesrc device=x", 0.1f64)
    );
    assert_eq!(
        make_sine_pipeline(&String::from("pulsesink device=x")),
        "ladspasrc-sine-so-sine-fcac amplitude=0.02 ! pulsesink device=pulsesink device=x"
    );
    assert_eq!(
        make_sine_pipeline(&String::from("filesink location=output_0.wav")),
        "fakesrc ! fakesink"
    );
}

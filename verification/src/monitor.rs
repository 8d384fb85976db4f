//! The monitor of one source: it runs the readings of the source through the
//! activity detector, reports each change of activity once, and decides when
//! the tone that marks activity is played.

use crate::pairing::{SilenceChange, Voice};
use crate::silence::{Sample, Silence, SilenceState};
use crate::text::{occurs_at, same_text, starts_with};
use vstd::prelude::*;

verus! {

/// The number of readings after which the tone of a source that became active
/// may be paused.
pub const SINE_HOLD: u64 = 5;

/// What reaches a monitor from the feed of its source.
#[derive(Clone, Copy, Debug)]
pub enum Feed {
    /// A level reading.
    Level(Sample),
    /// The feed ended.
    EndOfStream,
    /// The engine reported a fault of the source.
    Fault,
    /// Anything else.
    Other,
}

/// What is to be done with the tone that marks activity.
#[derive(Clone, Copy, Debug, PartialEq, Eq, Structural)]
pub enum SineOrder {
    /// Leave it as it is.
    Keep,
    /// Play it.
    Play,
    /// Pause it.
    Pause,
}

/// What a monitor asks for after one item of its feed.
#[derive(Clone, Copy, Debug)]
pub struct Reaction {
    /// The change to report to the routing controller.
    pub change: Option<SilenceChange>,
    /// The order for the tone.
    pub sine: SineOrder,
    /// The routing controller is to be told to quit.
    pub quit: bool,
    /// The monitor has ended and takes no more of the feed.
    pub done: bool,
}

/// The mathematical state of a monitor.
pub struct MonitorState {
    /// The voice that is monitored.
    pub index: Voice,
    /// Its activity detector.
    pub silence: SilenceState,
    /// Whether a tone marks its activity.
    pub play_sine_on_activity: bool,
    /// Zero where the tone is never paused while the source is active.
    pub sine_timeout_max: int,
    /// Readings left until the tone may be paused.
    pub sine_timeout_counter: int,
    /// The feed ended or failed.
    pub done: bool,
}

impl MonitorState {
    /// The detector after a reading.
    pub open spec fn heard(self, sample: Sample) -> SilenceState {
        self.silence.step(sample)
    }

    /// Whether a reading flips the detector.
    pub open spec fn flips(self, sample: Sample) -> bool {
        self.heard(sample).silent != self.silence.silent
    }

    /// The state after one item of the feed. Once the feed has ended or
    /// failed, nothing changes any more.
    pub open spec fn after(self, feed: Feed) -> MonitorState {
        if self.done {
            self
        } else {
            match feed {
                Feed::Level(sample) => MonitorState {
                    silence: self.heard(sample),
                    sine_timeout_counter: if !self.play_sine_on_activity {
                        self.sine_timeout_counter
                    } else if self.flips(sample) {
                        if self.heard(sample).silent {
                            self.sine_timeout_counter
                        } else {
                            SINE_HOLD as int
                        }
                    } else if self.sine_timeout_counter > 0 {
                        self.sine_timeout_counter - 1
                    } else {
                        self.sine_timeout_counter
                    },
                    ..self
                },
                Feed::EndOfStream | Feed::Fault => MonitorState { done: true, ..self },
                Feed::Other => self,
            }
        }
    }

    /// The change that a reading gives rise to: one for each flip of the
    /// detector, none otherwise.
    pub open spec fn change(self, sample: Sample) -> Option<SilenceChange> {
        if self.flips(sample) {
            Some(SilenceChange { who: self.index, silent: self.heard(sample).silent })
        } else {
            None
        }
    }

    /// The order for the tone after a reading: paused when the source falls
    /// silent, played when it becomes active, and otherwise paused once the
    /// readings to hold it have run out, unless it is never to be paused.
    pub open spec fn sine(self, sample: Sample) -> SineOrder {
        if !self.play_sine_on_activity {
            SineOrder::Keep
        } else if self.flips(sample) {
            if self.heard(sample).silent {
                SineOrder::Pause
            } else {
                SineOrder::Play
            }
        } else if self.sine_timeout_max != 0 && self.sine_timeout_counter == 0 {
            SineOrder::Pause
        } else {
            SineOrder::Keep
        }
    }

    /// What the monitor asks for after one item of the feed.
    pub open spec fn reaction(self, feed: Feed) -> Reaction {
        if self.done {
            Reaction { change: None, sine: SineOrder::Keep, quit: false, done: true }
        } else {
            match feed {
                Feed::Level(sample) => Reaction {
                    change: self.change(sample),
                    sine: self.sine(sample),
                    quit: false,
                    done: false,
                },
                Feed::EndOfStream => Reaction {
                    change: None,
                    sine: SineOrder::Keep,
                    quit: true,
                    done: true,
                },
                Feed::Fault => Reaction {
                    change: None,
                    sine: SineOrder::Keep,
                    quit: false,
                    done: true,
                },
                Feed::Other => Reaction {
                    change: None,
                    sine: SineOrder::Keep,
                    quit: false,
                    done: false,
                },
            }
        }
    }
}

impl MonitorState {
    /// The state after a sequence of items of the feed, oldest first.
    pub open spec fn run(self, feeds: Seq<Feed>) -> MonitorState
        decreases feeds.len(),
    {
        if feeds.len() == 0 {
            self
        } else {
            self.run(feeds.drop_last()).after(feeds.last())
        }
    }

    /// The changes that are reported over a sequence of items of the feed,
    /// oldest first.
    pub open spec fn changes(self, feeds: Seq<Feed>) -> Seq<SilenceChange>
        decreases feeds.len(),
    {
        if feeds.len() == 0 {
            Seq::empty()
        } else {
            let before = self.changes(feeds.drop_last());
            match self.run(feeds.drop_last()).reaction(feeds.last()).change {
                Some(change) => before.push(change),
                None => before,
            }
        }
    }
}

/// A monitor never repeats itself: every change that it reports is of its own
/// voice, the first is the opposite of what the detector started as, every
/// later one is the opposite of the one before, and the last says what the
/// detector is now.
pub proof fn lemma_changes_alternate(state: MonitorState, feeds: Seq<Feed>)
    ensures
        state.run(feeds).index == state.index,
        forall|i: int|
            0 <= i < state.changes(feeds).len() ==> (#[trigger] state.changes(feeds)[i]).who
                == state.index,
        state.changes(feeds).len() > 0 ==> state.changes(feeds)[0].silent
            != state.silence.silent,
        forall|i: int|
            0 < i < state.changes(feeds).len() ==> (#[trigger] state.changes(feeds)[i]).silent
                != state.changes(feeds)[i - 1].silent,
        state.run(feeds).silence.silent == if state.changes(feeds).len() == 0 {
            state.silence.silent
        } else {
            state.changes(feeds).last().silent
        },
    decreases feeds.len(),
{
    if feeds.len() > 0 {
        lemma_changes_alternate(state, feeds.drop_last());
    }
}

/// The monitor of one source.
#[derive(Debug)]
pub struct Monitor {
    index: Voice,
    silence: Silence,
    play_sine_on_activity: bool,
    sine_timeout_max: u64,
    sine_timeout_counter: u64,
    done: bool,
}

impl View for Monitor {
    type V = MonitorState;

    closed spec fn view(&self) -> MonitorState {
        MonitorState {
            index: self.index,
            silence: self.silence@,
            play_sine_on_activity: self.play_sine_on_activity,
            sine_timeout_max: self.sine_timeout_max as int,
            sine_timeout_counter: self.sine_timeout_counter as int,
            done: self.done,
        }
    }
}

/// Whether the activity of a source is marked by a tone on its sink: it is
/// where the sink is a sound server's.
pub open spec fn plays_sine(sink: Seq<char>) -> bool {
    occurs_at(sink, "pulsesink"@, 0)
}

impl Monitor {
    /// The monitor of voice `index`, whose detector starts silent and falls
    /// silent after `silent_period` quiet readings in a row. With a
    /// `sine_timeout` of zero the tone is never paused while the source is
    /// active.
    pub fn new(index: Voice, sink: &String, silent_period: i64, sine_timeout: u64) -> (monitor:
        Monitor)
        ensures
            monitor@ == (MonitorState {
                index,
                silence: SilenceState::initial(silent_period as int),
                play_sine_on_activity: plays_sine(sink@),
                sine_timeout_max: sine_timeout as int,
                sine_timeout_counter: 0,
                done: false,
            }),
    {
        Monitor {
            index,
            silence: Silence::new(silent_period),
            play_sine_on_activity: starts_with(sink.as_str(), "pulsesink"),
            sine_timeout_max: sine_timeout,
            sine_timeout_counter: 0,
            done: false,
        }
    }

    /// Whether a tone marks the activity of the source.
    pub fn play_sine_on_activity(&self) -> (plays: bool)
        ensures
            plays == self@.play_sine_on_activity,
    {
        self.play_sine_on_activity
    }

    /// Whether the source counts as silent.
    pub fn silent(&self) -> (silent: bool)
        ensures
            silent == self@.silence.silent,
    {
        self.silence.output()
    }

    /// Takes in one item of the feed and says what is to be done.
    pub fn watch_level(&mut self, feed: Feed) -> (reaction: Reaction)
        ensures
            final(self)@ == old(self)@.after(feed),
            reaction == old(self)@.reaction(feed),
    {
        let mut reaction = Reaction { change: None, sine: SineOrder::Keep, quit: false, done: self.done };
        if self.done {
            return reaction;
        }
        match feed {
            Feed::Level(sample) => {
                let prev = self.silence.output();
                self.silence = self.silence.input(sample);
                let output = self.silence.output();
                if output != prev {
                    if self.play_sine_on_activity {
                        if output {
                            reaction.sine = SineOrder::Pause;
                        } else {
                            reaction.sine = SineOrder::Play;
                            self.sine_timeout_counter = SINE_HOLD;
                        }
                    }
                    reaction.change = Some(SilenceChange { who: self.index, silent: output });
                } else if self.play_sine_on_activity {
                    if self.sine_timeout_max != 0 && self.sine_timeout_counter == 0 {
                        reaction.sine = SineOrder::Pause;
                    }
                    if self.sine_timeout_counter > 0 {
                        self.sine_timeout_counter -= 1;
                    }
                }
            },
            Feed::EndOfStream => {
                self.done = true;
                reaction.quit = true;
                reaction.done = true;
            },
            Feed::Fault => {
                self.done = true;
                reaction.done = true;
            },
            Feed::Other => {},
        }
        reaction
    }
}

/// The description of the pipeline that measures the level of a source, one
/// reading per `interval`, which is given in seconds as the engine reads it.
pub open spec fn level_pipeline(source: Seq<char>, interval: Seq<char>) -> Seq<char> {
    source + " ! level interval="@ + interval + " ! fakesink"@
}

/// The description of the pipeline of the tone of a sink: a sine on the sink
/// where a tone marks activity, and else a pipeline that does nothing.
pub open spec fn sine_pipeline(sink: Seq<char>) -> Seq<char> {
    if plays_sine(sink) {
        "ladspasrc-sine-so-sine-fcac amplitude=0.02 ! pulsesink device="@ + sink
    } else {
        "fakesrc ! fakesink"@
    }
}

/// Describes the pipeline that measures the level of a source.
pub fn make_level_pipeline(source: &String, interval: &str) -> (pipeline: String)
    ensures
        pipeline@ == level_pipeline(source@, interval@),
{
    let mut pipeline = source.clone();
    pipeline.append(" ! level interval=");
    pipeline.append(interval);
    pipeline.append(" ! fakesink");
    pipeline
}

/// Describes the pipeline of the tone of a sink.
pub fn make_sine_pipeline(sink: &String) -> (pipeline: String)
    ensures
        pipeline@ == sine_pipeline(sink@),
{
    let mut pipeline = String::new();
    if starts_with(sink.as_str(), "pulsesink") {
        pipeline.append("ladspasrc-sine-so-sine-fcac amplitude=0.02 ! pulsesink device=");
        pipeline.append(sink.as_str());
        assert(pipeline@ =~= sine_pipeline(sink@));
    } else {
        pipeline.append("fakesrc ! fakesink");
        assert(pipeline@ =~= sine_pipeline(sink@));
    }
    pipeline
}

/// Whether a message of the engine, by its name, carries a level reading.
pub fn is_level(name: &str) -> (level: bool)
    ensures
        level == (name@ == "level"@),
{
    same_text(name, "level")
}

} // verus!

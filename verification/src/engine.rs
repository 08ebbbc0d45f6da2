//! The decisions of the audio engine: the single worker that takes the
//! controller's messages one at a time and tells the output device what to
//! do. The engine holds no device; it returns the actions, and whoever runs
//! it performs them in order and reports back whether a file could be
//! decoded.

use vstd::prelude::*;
use crate::error::PlayerError;
use crate::player::{MessageView, PlayerMessage, MAX_VOLUME};

verus! {

/// What the engine knows of the device's sink.
#[derive(Clone, Copy, Debug, PartialEq, Eq, Structural)]
pub enum Sink {
    /// No sink is held.
    Absent,
    /// A sink is held and was started.
    Playing,
    /// A sink is held and was stopped; it is kept so that a change of volume
    /// still has something to act on.
    Stopped,
}

/// Something for the output device to do.
#[derive(Debug, PartialEq, Eq)]
pub enum DeviceAction {
    /// Stop the sink that is held and let go of it.
    DiscardSink,
    /// Open and decode the file at this path, then report the outcome.
    Decode(String),
    /// Make a new sink at this volume, hand it what was decoded, start it and
    /// hold it.
    StartSink(u32),
    /// Set the volume of the sink that is held.
    SetSinkVolume(u32),
    /// Stop the sink that is held and keep holding it.
    StopSink,
}

/// The mathematical value of a [`DeviceAction`].
pub enum ActionView {
    DiscardSink,
    Decode(Seq<char>),
    StartSink(u32),
    SetSinkVolume(u32),
    StopSink,
}

impl View for DeviceAction {
    type V = ActionView;

    open spec fn view(&self) -> ActionView {
        match self {
            DeviceAction::DiscardSink => ActionView::DiscardSink,
            DeviceAction::Decode(path) => ActionView::Decode(path@),
            DeviceAction::StartSink(volume) => ActionView::StartSink(*volume),
            DeviceAction::SetSinkVolume(volume) => ActionView::SetSinkVolume(*volume),
            DeviceAction::StopSink => ActionView::StopSink,
        }
    }
}

/// The views of a sequence of actions.
pub open spec fn action_views(actions: Seq<DeviceAction>) -> Seq<ActionView> {
    actions.map_values(|a: DeviceAction| a@)
}

/// The state of the engine.
#[derive(Clone, Copy, Debug, PartialEq, Eq, Structural)]
pub struct AudioEngine {
    /// What is known of the sink.
    pub sink: Sink,
    /// The volume last asked for, in hundredths of full scale.
    pub volume: u32,
    /// Whether the engine still takes messages.
    pub running: bool,
    /// Whether a file was handed out for decoding and the outcome is awaited.
    pub decoding: bool,
}

impl AudioEngine {
    /// What holds of every engine that is run as it asks: while the outcome
    /// of a decoding is awaited the engine runs and holds no sink.
    pub open spec fn valid(self) -> bool {
        self.decoding ==> self.running && self.sink == Sink::Absent
    }

    /// How many sinks the device holds in this state.
    pub open spec fn sinks(self) -> int {
        if self.sink == Sink::Absent {
            0
        } else {
            1
        }
    }

    /// The state after `message`. An engine that has ended stays as it is. A
    /// message that comes while an outcome is awaited gives the awaited file
    /// up.
    pub open spec fn after(self, message: MessageView) -> AudioEngine {
        if !self.running {
            self
        } else {
            match message {
                MessageView::Play(path) => AudioEngine {
                    sink: Sink::Absent,
                    decoding: true,
                    ..self
                },
                MessageView::Stop => AudioEngine {
                    sink: if self.sink == Sink::Absent {
                        Sink::Absent
                    } else {
                        Sink::Stopped
                    },
                    decoding: false,
                    ..self
                },
                MessageView::SetVolume(level) => AudioEngine {
                    volume: level,
                    decoding: false,
                    ..self
                },
                MessageView::Quit => AudioEngine { running: false, decoding: false, ..self },
            }
        }
    }

    /// What the device is to do on `message`.
    pub open spec fn actions(self, message: MessageView) -> Seq<ActionView> {
        if !self.running {
            Seq::empty()
        } else {
            match message {
                MessageView::Play(path) => if self.sink == Sink::Absent {
                    seq![ActionView::Decode(path)]
                } else {
                    seq![ActionView::DiscardSink, ActionView::Decode(path)]
                },
                MessageView::Stop => if self.sink == Sink::Absent {
                    Seq::empty()
                } else {
                    seq![ActionView::StopSink]
                },
                MessageView::SetVolume(level) => if self.sink == Sink::Absent {
                    Seq::empty()
                } else {
                    seq![ActionView::SetSinkVolume(level)]
                },
                MessageView::Quit => Seq::empty(),
            }
        }
    }

    /// Whether the outcome `ok` is the failure of a decoding that was awaited.
    pub open spec fn decoding_failed(self, ok: bool) -> bool {
        self.running && self.decoding && !ok
    }

    /// The state after the outcome of a decoding came in. An outcome that is
    /// not awaited changes nothing; after a failure no sink is held and
    /// nothing plays.
    pub open spec fn after_decoded(self, ok: bool) -> AudioEngine {
        if self.running && self.decoding {
            AudioEngine {
                sink: if ok {
                    Sink::Playing
                } else {
                    self.sink
                },
                decoding: false,
                ..self
            }
        } else {
            self
        }
    }

    /// What the device is to do when the outcome of a decoding came in.
    pub open spec fn actions_decoded(self, ok: bool) -> Seq<ActionView> {
        if self.running && self.decoding && ok {
            seq![ActionView::StartSink(self.volume)]
        } else {
            Seq::empty()
        }
    }

    /// An engine at full volume that holds no sink.
    pub fn new() -> (engine: AudioEngine)
        ensures
            engine == (AudioEngine {
                sink: Sink::Absent,
                volume: MAX_VOLUME,
                running: true,
                decoding: false,
            }),
            engine.valid(),
    {
        AudioEngine { sink: Sink::Absent, volume: MAX_VOLUME, running: true, decoding: false }
    }

    /// Takes one message and says what the device is to do.
    pub fn handle(&mut self, message: PlayerMessage) -> (todo: Vec<DeviceAction>)
        ensures
            *final(self) == old(self).after(message@),
            action_views(todo@) == old(self).actions(message@),
            old(self).valid() ==> final(self).valid(),
    {
        let mut todo: Vec<DeviceAction> = Vec::new();
        if !self.running {
            return todo;
        }
        self.decoding = false;
        match message {
            PlayerMessage::Play(path) => {
                if self.sink != Sink::Absent {
                    todo.push(DeviceAction::DiscardSink);
                }
                todo.push(DeviceAction::Decode(path));
                self.sink = Sink::Absent;
                self.decoding = true;
            },
            PlayerMessage::Stop => {
                if self.sink != Sink::Absent {
                    todo.push(DeviceAction::StopSink);
                    self.sink = Sink::Stopped;
                }
            },
            PlayerMessage::SetVolume(level) => {
                self.volume = level;
                if self.sink != Sink::Absent {
                    todo.push(DeviceAction::SetSinkVolume(level));
                }
            },
            PlayerMessage::Quit => {
                self.running = false;
            },
        }
        todo
    }

    /// Takes the outcome of a decoding and says what the device is to do. The
    /// failure of a decoding that was awaited is reported; the engine goes on
    /// all the same.
    pub fn decoded(&mut self, ok: bool) -> (todo: Result<Vec<DeviceAction>, PlayerError>)
        ensures
            *final(self) == old(self).after_decoded(ok),
            match todo {
                Ok(actions) => !old(self).decoding_failed(ok) && action_views(actions@)
                    == old(self).actions_decoded(ok),
                Err(e) => old(self).decoding_failed(ok) && e == PlayerError::Decode,
            },
            old(self).valid() ==> final(self).valid(),
    {
        let mut todo: Vec<DeviceAction> = Vec::new();
        if self.running && self.decoding {
            self.decoding = false;
            if ok {
                todo.push(DeviceAction::StartSink(self.volume));
                self.sink = Sink::Playing;
            } else {
                return Err(PlayerError::Decode);
            }
        }
        Ok(todo)
    }
}

/// How many sinks the device holds after `todo`, if it held `held` before.
pub open spec fn sinks_after(held: int, todo: Seq<ActionView>) -> int
    decreases todo.len(),
{
    if todo.len() == 0 {
        held
    } else {
        let before = sinks_after(held, todo.drop_last());
        match todo.last() {
            ActionView::DiscardSink => before - 1,
            ActionView::StartSink(_) => before + 1,
            _ => before,
        }
    }
}

} // verus!

use music_player::engine::{AudioEngine, DeviceAction, Sink};
use music_player::error::PlayerError;
use music_player::player::PlayerMessage;

fn play(path: &str) -> PlayerMessage {
    PlayerMessage::Play(path.to_string())
}

#[test]
fn new_engine_holds_no_sink_at_full_volume() {
    let engine = AudioEngine::new();
    assert_eq!(engine.sink, Sink::Absent);
    assert_eq!(engine.volume, 100);
    assert!(engine.running);
    assert!(!engine.decoding);
}

#[test]
fn play_decodes_and_then_starts_a_sink() {
    let mut engine = AudioEngine::new();
    assert_eq!(engine.handle(play("a.mp3")), vec![DeviceAction::Decode("a.mp3".to_string())]);
    assert!(engine.decoding);
    assert_eq!(engine.decoded(true), Ok(vec![DeviceAction::StartSink(100)]));
    assert_eq!(engine.sink, Sink::Playing);
    assert!(!engine.decoding);
}

#[test]
fn play_discards_the_sink_that_is_held() {
    let mut engine = AudioEngine::new();
    engine.handle(play("a.mp3"));
    assert!(engine.decoded(true).is_ok());
    assert_eq!(
        engine.handle(play("b.mp3")),
        vec![DeviceAction::DiscardSink, DeviceAction::Decode("b.mp3".to_string())]
    );
    assert_eq!(engine.sink, Sink::Absent);
    assert_eq!(engine.decoded(true), Ok(vec![DeviceAction::StartSink(100)]));
    assert_eq!(engine.sink, Sink::Playing);
}

#[test]
fn failed_decoding_is_passed_over() {
    let mut engine = AudioEngine::new();
    engine.handle(play("a.mp3"));
    assert!(engine.decoded(true).is_ok());
    engine.handle(play("broken.mp3"));
    assert_eq!(engine.decoded(false), Err(PlayerError::Decode));
    assert_eq!(engine.sink, Sink::Absent);
    assert_eq!(engine.handle(PlayerMessage::Stop), Vec::<DeviceAction>::new());
}

#[test]
fn stop_keeps_the_sink() {
    let mut engine = AudioEngine::new();
    assert_eq!(engine.handle(PlayerMessage::Stop), Vec::<DeviceAction>::new());
    engine.handle(play("a.mp3"));
    assert!(engine.decoded(true).is_ok());
    assert_eq!(engine.handle(PlayerMessage::Stop), vec![DeviceAction::StopSink]);
    assert_eq!(engine.sink, Sink::Stopped);
    assert_eq!(engine.handle(PlayerMessage::Stop), vec![DeviceAction::StopSink]);
    assert_eq!(engine.handle(PlayerMessage::SetVolume(40)), vec![DeviceAction::SetSinkVolume(40)]);
    assert_eq!(engine.sink, Sink::Stopped);
}

#[test]
fn volume_is_remembered_for_the_next_sink() {
    let mut engine = AudioEngine::new();
    assert_eq!(engine.handle(PlayerMessage::SetVolume(35)), Vec::<DeviceAction>::new());
    assert_eq!(engine.volume, 35);
    engine.handle(play("a.mp3"));
    assert_eq!(engine.decoded(true), Ok(vec![DeviceAction::StartSink(35)]));
    assert_eq!(engine.handle(PlayerMessage::SetVolume(60)), vec![DeviceAction::SetSinkVolume(60)]);
    assert_eq!(engine.volume, 60);
}

#[test]
fn quit_ends_the_engine() {
    let mut engine = AudioEngine::new();
    engine.handle(play("a.mp3"));
    assert!(engine.decoded(true).is_ok());
    assert_eq!(engine.handle(PlayerMessage::Quit), Vec::<DeviceAction>::new());
    assert!(!engine.running);
    let ended = engine;
    assert_eq!(engine.handle(play("b.mp3")), Vec::<DeviceAction>::new());
    assert_eq!(engine.handle(PlayerMessage::SetVolume(5)), Vec::<DeviceAction>::new());
    assert_eq!(engine.decoded(true), Ok(Vec::new()));
    assert_eq!(engine, ended);
}

#[test]
fn outcome_that_is_not_awaited_changes_nothing() {
    let mut engine = AudioEngine::new();
    let before = engine;
    assert_eq!(engine.decoded(true), Ok(Vec::new()));
    assert_eq!(engine.decoded(false), Ok(Vec::new()));
    assert_eq!(engine, before);
    engine.handle(play("a.mp3"));
    engine.handle(PlayerMessage::SetVolume(10));
    assert_eq!(engine.decoded(true), Ok(Vec::new()));
    assert_eq!(engine.sink, Sink::Absent);
}

#[test]
fn device_never_holds_two_sinks() {
    let mut engine = AudioEngine::new();
    let mut held: i32 = 0;
    let script: Vec<(Option<PlayerMessage>, bool)> = vec![
        (Some(play("a")), true),
        (None, true),
        (Some(play("b")), true),
        (None, false),
        (Some(PlayerMessage::Stop), true),
        (Some(play("c")), true),
        (None, true),
        (Some(PlayerMessage::Stop), true),
        (Some(play("d")), true),
        (None, true),
        (Some(PlayerMessage::SetVolume(3)), true),
        (Some(PlayerMessage::Quit), true),
    ];
    for (message, ok) in script {
        let todo = match message {
            Some(m) => engine.handle(m),
            None => engine.decoded(ok).unwrap_or_default(),
        };
        for action in todo {
            match action {
                DeviceAction::StartSink(_) => held += 1,
                DeviceAction::DiscardSink => held -= 1,
                _ => {}
            }
            assert!(held == 0 || held == 1);
        }
        assert_eq!(held == 1, engine.sink != Sink::Absent);
    }
}

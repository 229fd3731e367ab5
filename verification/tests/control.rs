use aurrasd::api::{Command, Event, PlaybackState, PlaybackStatus};
use aurrasd::control::{Action, Controller, Input};

fn actions(controller: &mut Controller, input: Input) -> Vec<String> {
    controller.handle(input).iter().map(|action| format!("{:?}", action)).collect()
}

fn command(controller: &mut Controller, command: Command) -> Vec<String> {
    actions(controller, Input::Command(command))
}

fn playing(path: &str) -> Controller {
    let mut controller = Controller::new();
    controller.handle(Input::Command(Command::Play(path.to_string())));
    controller.handle(Input::Started(Ok(())));
    controller
}

fn queue(controller: &Controller) -> Vec<String> {
    controller.playback_state().queue.iter().cloned().collect()
}

#[test]
fn fresh_state_is_stopped_and_empty() {
    let state = PlaybackState::new();
    assert_eq!(state.status, PlaybackStatus::Stopped);
    assert!(state.queue.is_empty());
    assert_eq!(PlaybackStatus::default(), PlaybackStatus::Stopped);
    assert!(PlaybackState::default().queue.is_empty());
    let controller = Controller::new();
    assert!(!controller.has_session());
    assert_eq!(controller.playback_state().status, PlaybackStatus::Stopped);
}

#[test]
fn cloned_state_is_independent() {
    let mut state = PlaybackState::new();
    state.queue.push_back("a".to_string());
    let copy = state.clone();
    state.queue.clear();
    assert_eq!(copy.queue.len(), 1);
    assert_eq!(copy.queue[0], "a");
    assert_eq!(copy.status, PlaybackStatus::Stopped);
}

#[test]
fn play_starts_a_session() {
    let mut controller = Controller::new();
    assert_eq!(
        command(&mut controller, Command::Play("a.mp3".to_string())),
        ["StartSession(\"a.mp3\")"]
    );
    assert!(!controller.has_session());
    assert_eq!(
        actions(&mut controller, Input::Started(Ok(()))),
        ["Emit(PlaybackStarted(\"a.mp3\"))", "Emit(StateChanged(Playing))"]
    );
    assert!(controller.has_session());
    assert_eq!(controller.playback_state().status, PlaybackStatus::Playing);
}

#[test]
fn play_replaces_the_running_session() {
    let mut controller = playing("a");
    assert_eq!(
        command(&mut controller, Command::Play("b".to_string())),
        ["StopSession", "StartSession(\"b\")"]
    );
}

#[test]
fn failed_start_is_reported_and_keeps_the_status() {
    let mut controller = playing("a");
    command(&mut controller, Command::Play("b".to_string()));
    assert_eq!(
        actions(&mut controller, Input::Started(Err("no device".to_string()))),
        ["Emit(Error(\"Playback error: no device\"))"]
    );
    assert!(!controller.has_session());
    assert_eq!(controller.playback_state().status, PlaybackStatus::Playing);
}

#[test]
fn stop_ends_the_session_once() {
    let mut controller = playing("a");
    assert_eq!(
        command(&mut controller, Command::Stop),
        ["StopSession", "Emit(PlaybackStopped)", "Emit(StateChanged(Stopped))"]
    );
    assert!(command(&mut controller, Command::Stop).is_empty());
}

#[test]
fn pause_and_resume_undo_each_other() {
    let mut controller = playing("a");
    assert_eq!(command(&mut controller, Command::Pause), ["PauseStream"]);
    assert_eq!(
        actions(&mut controller, Input::Paused(Ok(()))),
        ["Emit(PlaybackPaused)", "Emit(StateChanged(Paused))"]
    );
    assert_eq!(command(&mut controller, Command::Resume), ["ResumeStream"]);
    assert_eq!(
        actions(&mut controller, Input::Resumed(Ok(()))),
        ["Emit(PlaybackResumed)", "Emit(StateChanged(Playing))"]
    );
    assert_eq!(controller.playback_state().status, PlaybackStatus::Playing);
}

#[test]
fn failed_pause_and_resume_are_reported() {
    let mut controller = playing("a");
    command(&mut controller, Command::Pause);
    assert_eq!(
        actions(&mut controller, Input::Paused(Err("busy".to_string()))),
        ["Emit(Error(\"Failed to pause stream: busy\"))"]
    );
    assert_eq!(controller.playback_state().status, PlaybackStatus::Playing);
    command(&mut controller, Command::Pause);
    controller.handle(Input::Paused(Ok(())));
    command(&mut controller, Command::Resume);
    assert_eq!(
        actions(&mut controller, Input::Resumed(Err("busy".to_string()))),
        ["Emit(Error(\"Failed to resume stream: busy\"))"]
    );
    assert_eq!(controller.playback_state().status, PlaybackStatus::Paused);
}

#[test]
fn refused_commands_are_answered_by_one_error() {
    let mut controller = Controller::new();
    assert_eq!(
        command(&mut controller, Command::Pause),
        ["Emit(Error(\"Cannot pause: no active session\"))"]
    );
    assert_eq!(
        command(&mut controller, Command::Resume),
        ["Emit(Error(\"Cannot resume: no active session\"))"]
    );
    assert_eq!(
        command(&mut controller, Command::Previous),
        ["Emit(Error(\"Cannot go back: no previous track\"))"]
    );
    let mut controller = playing("a");
    assert_eq!(
        command(&mut controller, Command::Resume),
        ["Emit(Error(\"Cannot resume: not currently paused\"))"]
    );
    command(&mut controller, Command::Pause);
    controller.handle(Input::Paused(Ok(())));
    assert_eq!(
        command(&mut controller, Command::Pause),
        ["Emit(Error(\"Cannot pause: not currently playing\"))"]
    );
}

#[test]
fn queue_plays_first_in_first_out() {
    let mut controller = Controller::new();
    for path in ["a", "b", "c"] {
        assert_eq!(
            command(&mut controller, Command::Enqueue(path.to_string())),
            ["Emit(QueueUpdated)"]
        );
    }
    assert_eq!(queue(&controller), ["a", "b", "c"]);
    assert_eq!(
        command(&mut controller, Command::Next),
        ["Emit(QueueUpdated)", "StartSession(\"a\")"]
    );
    controller.handle(Input::Started(Ok(())));
    assert_eq!(
        command(&mut controller, Command::Next),
        ["Emit(QueueUpdated)", "StopSession", "StartSession(\"b\")"]
    );
    controller.handle(Input::Started(Ok(())));
    assert_eq!(queue(&controller), ["c"]);
}

#[test]
fn going_back_starts_the_track_before() {
    let mut controller = playing("a");
    command(&mut controller, Command::Enqueue("c".to_string()));
    command(&mut controller, Command::Play("b".to_string()));
    controller.handle(Input::Started(Ok(())));
    assert_eq!(
        command(&mut controller, Command::Previous),
        ["StopSession", "StartSession(\"a\")"]
    );
    assert_eq!(
        actions(&mut controller, Input::Started(Ok(()))),
        ["Emit(PlaybackStarted(\"a\"))", "Emit(StateChanged(Playing))"]
    );
    assert_eq!(queue(&controller), ["c"]);
    assert_eq!(
        command(&mut controller, Command::Previous),
        ["Emit(Error(\"Cannot go back: no previous track\"))"]
    );
    assert!(controller.has_session());
}

#[test]
fn going_back_after_the_end_plays_again() {
    let mut controller = playing("a");
    controller.handle(Input::Drained);
    assert_eq!(command(&mut controller, Command::Previous), ["StartSession(\"a\")"]);
}

#[test]
fn volume_is_set_on_its_scale() {
    let mut controller = playing("a");
    for (asked, set) in [
        (0.5, 0.5),
        (0.0, 0.0),
        (1.0, 1.0),
        (1.5, 1.0),
        (f32::INFINITY, 1.0),
        (-0.25, 0.0),
        (-0.0, 0.0),
        (f32::NAN, 0.0),
    ] {
        assert_eq!(
            command(&mut controller, Command::SetVolume(f32::to_bits(asked))),
            [format!("SetVolume({})", f32::to_bits(set))]
        );
        assert_eq!(controller.playback_state().status, PlaybackStatus::Playing);
    }
}

#[test]
fn queue_keeps_its_order_over_any_run() {
    let mut controller = Controller::new();
    command(&mut controller, Command::Enqueue("a".to_string()));
    command(&mut controller, Command::Enqueue("b".to_string()));
    command(&mut controller, Command::Next);
    controller.handle(Input::Started(Ok(())));
    command(&mut controller, Command::Enqueue("c".to_string()));
    actions(&mut controller, Input::Drained);
    controller.handle(Input::Started(Err("gone".to_string())));
    assert_eq!(queue(&controller), ["c"]);
}

#[test]
fn next_without_queue_stops() {
    let mut controller = playing("a");
    assert_eq!(
        command(&mut controller, Command::Next),
        ["StopSession", "Emit(PlaybackStopped)", "Emit(StateChanged(Stopped))"]
    );
    assert!(command(&mut controller, Command::Next).is_empty());
}

#[test]
fn clearing_empties_the_queue() {
    let mut controller = Controller::new();
    command(&mut controller, Command::Enqueue("a".to_string()));
    assert_eq!(command(&mut controller, Command::ClearQueue), ["Emit(QueueUpdated)"]);
    assert!(queue(&controller).is_empty());
}

#[test]
fn drained_session_gives_way_to_the_queue() {
    let mut controller = playing("a");
    command(&mut controller, Command::Enqueue("b".to_string()));
    assert_eq!(
        actions(&mut controller, Input::Drained),
        [
            "StopSession",
            "Emit(PlaybackFinished)",
            "Emit(QueueUpdated)",
            "StartSession(\"b\")"
        ]
    );
    controller.handle(Input::Started(Ok(())));
    assert_eq!(
        actions(&mut controller, Input::Drained),
        ["StopSession", "Emit(PlaybackFinished)", "Emit(StateChanged(Stopped))"]
    );
}

#[test]
fn status_between_tracks_is_not_announced() {
    let mut controller = playing("a");
    command(&mut controller, Command::Enqueue("b".to_string()));
    let news = actions(&mut controller, Input::Drained);
    assert!(!news.iter().any(|action| action.contains("StateChanged")));
    controller.handle(Input::Started(Err("gone".to_string())));
    assert_eq!(controller.playback_state().status, PlaybackStatus::Stopped);
}

#[test]
fn stream_error_stops_playback() {
    let mut controller = playing("a");
    assert_eq!(
        actions(&mut controller, Input::StreamError(Some("unplugged".to_string()))),
        ["StopSession", "Emit(Error(\"unplugged\"))", "Emit(StateChanged(Stopped))"]
    );
    let mut controller = playing("a");
    assert_eq!(
        actions(&mut controller, Input::StreamError(None)),
        ["StopSession", "Emit(Error(\"unknown stream error\"))", "Emit(StateChanged(Stopped))"]
    );
}

#[test]
fn state_is_reported_whole() {
    let mut controller = playing("a");
    command(&mut controller, Command::Enqueue("b".to_string()));
    let answer = controller.handle(Input::Command(Command::GetState));
    assert_eq!(answer.len(), 1);
    match &answer[0] {
        Action::Emit(Event::FullState(state)) => {
            assert_eq!(state.status, PlaybackStatus::Playing);
            assert_eq!(state.queue.len(), 1);
            assert_eq!(state.queue[0], "b");
        }
        other => panic!("unexpected answer {:?}", other),
    }
}

#[test]
fn closing_ends_the_loop_for_good() {
    let mut controller = playing("a");
    assert_eq!(actions(&mut controller, Input::Closed), ["StopSession", "Exit"]);
    assert!(command(&mut controller, Command::Play("b".to_string())).is_empty());
    let mut idle = Controller::new();
    assert_eq!(actions(&mut idle, Input::Closed), ["Exit"]);
}

#[test]
fn only_closing_leaves_the_loop() {
    let mut controller = playing("a");
    for asked in [Command::Stop, Command::Next, Command::ClearQueue, Command::Previous] {
        assert!(!command(&mut controller, asked).contains(&"Exit".to_string()));
        controller.handle(Input::Started(Ok(())));
    }
    assert!(!actions(&mut controller, Input::Drained).contains(&"Exit".to_string()));
    assert!(actions(&mut controller, Input::Closed).contains(&"Exit".to_string()));
}

#[test]
fn unexpected_outcomes_change_nothing() {
    let mut controller = playing("a");
    assert!(actions(&mut controller, Input::Started(Ok(()))).is_empty());
    assert!(actions(&mut controller, Input::Paused(Ok(()))).is_empty());
    assert_eq!(controller.playback_state().status, PlaybackStatus::Playing);
}

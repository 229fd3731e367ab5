use aurrasd::api::{Command, Event, PlaybackState, PlaybackStatus};
use aurrasd::cli::{
    awaits_answer, status_lines, status_reply, to_command, CliCommand, StatusReply,
};
use aurrasd::ipc::holds_command;
use aurrasd::text::{
    before, chars_of, decimal_text, is_space, same, starts_with, trim,
};

#[test]
fn subcommands_become_commands() {
    let sent = |c: CliCommand| format!("{:?}", to_command(c));
    assert_eq!(sent(CliCommand::Play { path: "p".to_string() }), "Some(Play(\"p\"))");
    assert_eq!(sent(CliCommand::Pause), "Some(Pause)");
    assert_eq!(sent(CliCommand::Resume), "Some(Resume)");
    assert_eq!(sent(CliCommand::Stop), "Some(Stop)");
    assert_eq!(sent(CliCommand::Next), "Some(Next)");
    assert_eq!(sent(CliCommand::Prev), "Some(Previous)");
    assert_eq!(sent(CliCommand::Clear), "Some(ClearQueue)");
    assert_eq!(sent(CliCommand::Enqueue { path: "q".to_string() }), "Some(Enqueue(\"q\"))");
    assert_eq!(sent(CliCommand::Status), "Some(GetState)");
    assert_eq!(sent(CliCommand::Daemon), "None");
    match to_command(CliCommand::Volume { level: 0.25f32.to_bits() }) {
        Some(Command::SetVolume(level)) => assert_eq!(f32::from_bits(level), 0.25),
        other => panic!("unexpected command {:?}", other),
    }
}

#[test]
fn status_of_an_idle_player() {
    assert_eq!(status_lines(&PlaybackState::new()), ["Status: Stopped", "Queue is empty."]);
}

#[test]
fn status_lists_the_queue() {
    let mut state = PlaybackState::new();
    state.status = PlaybackStatus::Paused;
    for i in 0..11 {
        state.queue.push_back(format!("track {}", i));
    }
    let lines = status_lines(&state);
    assert_eq!(lines.len(), 13);
    assert_eq!(lines[0], "Status: Paused");
    assert_eq!(lines[1], "Queue (11 items):");
    assert_eq!(lines[2], "  1. track 0");
    assert_eq!(lines[12], "  11. track 10");
    state.status = PlaybackStatus::Playing;
    assert_eq!(status_lines(&state)[0], "Status: Playing");
}

#[test]
fn only_a_state_request_waits() {
    assert!(awaits_answer(&Command::GetState));
    assert!(!awaits_answer(&Command::Stop));
    assert!(!awaits_answer(&Command::Play("a".to_string())));
}

#[test]
fn first_full_state_answers_a_status_request() {
    assert!(matches!(status_reply(&Event::QueueUpdated), StatusReply::ReadOn));
    let news = Event::StateChanged(PlaybackStatus::Playing);
    assert!(matches!(status_reply(&news), StatusReply::ReadOn));
    match status_reply(&Event::FullState(PlaybackState::new())) {
        StatusReply::Show(lines) => assert_eq!(lines, ["Status: Stopped", "Queue is empty."]),
        other => panic!("unexpected reply {:?}", other),
    }
}

#[test]
fn blank_lines_hold_no_command() {
    assert!(!holds_command(""));
    assert!(!holds_command(" \t\r\n"));
    assert!(!holds_command("\u{3000}\u{a0}"));
    assert!(holds_command("\"Stop\""));
    assert!(holds_command("  x  "));
}

#[test]
fn white_space_is_that_of_unicode() {
    for n in 0..0x110000u32 {
        if let Some(c) = char::from_u32(n) {
            assert_eq!(is_space(c), c.is_whitespace(), "{:x}", n);
        }
    }
}

#[test]
fn trimming_agrees_with_the_standard_library() {
    for text in ["", " ", "a", " a", "a ", " a b ", "\u{2003}x\u{2029}", "\n\n", "é "] {
        assert_eq!(trim(text), text.trim());
    }
}

#[test]
fn text_before_a_character() {
    assert_eq!(before("a;b;c", ';'), "a");
    assert_eq!(before(";b", ';'), "");
    assert_eq!(before("abc", ';'), "abc");
    assert_eq!(before("", ';'), "");
}

#[test]
fn text_comparison() {
    assert!(same("abc", "abc"));
    assert!(!same("abc", "abd"));
    assert!(!same("abc", "ab"));
    assert!(same("", ""));
    assert!(starts_with("http://x", "http://"));
    assert!(!starts_with("http:/x", "http://"));
    assert!(starts_with("x", ""));
    assert!(!starts_with("", "x"));
    assert_eq!(chars_of("aé"), vec!['a', 'é']);
}

#[test]
fn numbers_in_base_ten() {
    for n in [0usize, 7, 9, 10, 99, 100, 48000, 1234567890, usize::MAX] {
        assert_eq!(decimal_text(n), format!("{}", n));
    }
}

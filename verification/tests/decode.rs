use aurrasd::audio::decode::{
    after_first_attempt, take_chunk, AfterFirstAttempt, DecodeError, DecodeEvent, DecodeSession,
    DecodeStep,
};
use aurrasd::audio::ffmpeg::{
    ffmpeg_arguments, ffmpeg_step, samples_from_bytes, FfmpegEvent, FfmpegStep,
};
use aurrasd::audio::normalize::normalize_into;
use aurrasd::audio::probe::{
    build_probe_hint, choose_hint, extension_from_mime, is_url, segments_extension,
};
use aurrasd::audio::{ACCUM_MAX_SAMPLES, SILENCE};

fn normalize(samples: &[u32], input: usize, output: usize) -> Vec<u32> {
    let mut out = vec![77];
    normalize_into(samples, input, output, &mut out);
    assert_eq!(out[0], 77);
    out[1..].to_vec()
}

#[test]
fn same_layout_is_copied_whole() {
    assert_eq!(normalize(&[1, 2, 3], 2, 2), [1, 2, 3]);
    assert_eq!(normalize(&[], 0, 0), [] as [u32; 0]);
}

#[test]
fn mono_becomes_two_equal_channels() {
    assert_eq!(normalize(&[1, 2, 3], 1, 2), [1, 1, 2, 2, 3, 3]);
}

#[test]
fn surplus_channels_are_dropped() {
    assert_eq!(normalize(&[1, 2, 3, 4, 5, 6, 7], 3, 2), [1, 2, 4, 5]);
    assert_eq!(normalize(&[1, 2, 3, 4], 2, 1), [1, 3]);
    assert_eq!(normalize(&[1, 2, 3, 4], 2, 0), [] as [u32; 0]);
}

#[test]
fn missing_channels_are_silent() {
    assert_eq!(normalize(&[1, 2, 3, 4, 5], 2, 3), [1, 2, SILENCE, 3, 4, SILENCE]);
    assert_eq!(normalize(&[1, 2], 1, 3), [1, SILENCE, SILENCE, 2, SILENCE, SILENCE]);
    assert_eq!(f32::from_bits(SILENCE), 0.0);
}

#[test]
fn widening_is_undone_by_narrowing() {
    let samples = [1, 2, 3, 4, 5, 6];
    for (narrow, wide) in [(1, 2), (2, 3), (3, 7), (1, 5), (6, 6)] {
        assert_eq!(normalize(&normalize(&samples, narrow, wide), wide, narrow), samples);
    }
}

#[test]
fn content_types_name_extensions() {
    for (mime, extension) in [
        ("audio/mp4", "mp4"),
        ("video/mp4", "mp4"),
        ("audio/mpeg", "mp3"),
        ("audio/webm", "webm"),
        ("video/webm", "webm"),
        ("audio/ogg", "ogg"),
        ("audio/flac", "flac"),
        ("audio/wav", "wav"),
        ("\t audio/flac\n", "flac"),
        ("audio/ogg;x;y", "ogg"),
        (" audio/ogg ; codecs=opus", "ogg"),
        ("audio/wav;a;b", "wav"),
    ] {
        assert_eq!(extension_from_mime(mime), Some(extension));
    }
    for mime in ["", ";audio/ogg", "text/html", "AUDIO/OGG", "audio/ogg2"] {
        assert_eq!(extension_from_mime(mime), None);
    }
}

#[test]
fn web_addresses_are_recognised() {
    assert!(is_url("http://example.net/a.mp3"));
    assert!(is_url("https://example.net"));
    assert!(!is_url("ftp://example.net"));
    assert!(!is_url("HTTP://example.net"));
    assert!(!is_url("/music/http://a"));
}

fn hint(path: &str, is_url: bool, content_type: Option<&str>) -> Option<String> {
    build_probe_hint(path, is_url, content_type).extension
}

#[test]
fn content_type_decides_before_the_location() {
    assert_eq!(
        hint("http://example.net/a.mp3", true, Some("audio/flac")),
        Some("flac".to_string())
    );
    assert_eq!(
        hint("http://example.net/a.mp3", true, Some("text/html")),
        Some("mp3".to_string())
    );
    assert_eq!(choose_hint(Some("wav"), Some("ogg".to_string())).extension, Some("wav".to_string()));
    assert_eq!(choose_hint(None, Some("ogg".to_string())).extension, Some("ogg".to_string()));
    assert_eq!(choose_hint(None, None).extension, None);
}

#[test]
fn urls_show_the_extension_of_their_last_segment() {
    assert_eq!(hint("https://example.net/x/a.ogg?b=c.mp3#d.wav", true, None), Some("ogg".to_string()));
    assert_eq!(hint("https://example.net/a.b/c", true, None), None);
    assert_eq!(hint("https://example.net", true, None), None);
    assert_eq!(hint("https://example.net/a.mp3/", true, None), None);
    assert_eq!(hint("https://", true, None), None);
    assert_eq!(hint("not a url.mp3", true, None), None);
    assert_eq!(hint("https://example.net/a%20b.flac", true, None), Some("flac".to_string()));
    assert_eq!(hint("https://example.net/a:b.flac", true, None), Some("flac".to_string()));
}

#[test]
fn files_show_their_extension() {
    for (path, extension) in [
        ("a.mp3", Some("mp3")),
        ("/music/a.tar.gz", Some("gz")),
        ("music.d/a", None),
        (".hidden", None),
        ("..odd", Some("odd")),
        ("a.", Some("")),
        ("a.mp3/", Some("mp3")),
        ("a.mp3/.//", Some("mp3")),
        ("a.mp3/..", None),
        (".", None),
        ("..", None),
        ("/", None),
        ("", None),
        ("./a.wav", Some("wav")),
        ("music/a:b.flac", Some("flac")),
        ("ab:c", None),
        ("a.b:c", Some("b:c")),
        ("C:a.mp3", Some("mp3")),
        ("music\\a.ogg", Some("ogg")),
    ] {
        assert_eq!(hint(path, false, None), extension.map(String::from), "{}", path);
    }
}

#[test]
fn errors_in_words() {
    assert_eq!(DecodeError::Http.message(), "failed to fetch URL");
    assert_eq!(DecodeError::File.message(), "failed to open file");
    assert_eq!(DecodeError::Probe.message(), "failed to probe format");
    assert_eq!(DecodeError::NoTrack.message(), "no audio track");
    assert_eq!(DecodeError::Decoder.message(), "failed to initialize decoder");
    assert_eq!(DecodeError::Decode.message(), "decode failed");
}

#[test]
fn only_unknown_media_falls_back() {
    for error in [DecodeError::Probe, DecodeError::NoTrack, DecodeError::Decoder] {
        assert_eq!(after_first_attempt(Err(error)), AfterFirstAttempt::FallBack);
    }
    for error in [DecodeError::Http, DecodeError::File, DecodeError::Decode] {
        assert_eq!(after_first_attempt(Err(error)), AfterFirstAttempt::Done(Err(error)));
    }
    assert_eq!(after_first_attempt(Ok(())), AfterFirstAttempt::Done(Ok(())));
}

#[test]
fn chunks_of_a_resampler() {
    let mut accum = vec![1, 2, 3, 4, 5];
    assert_eq!(take_chunk(&mut accum, 2, false), Some(vec![1, 2]));
    assert_eq!(accum, [3, 4, 5]);
    assert_eq!(take_chunk(&mut accum, 4, false), None);
    assert_eq!(accum, [3, 4, 5]);
    assert_eq!(take_chunk(&mut accum, 4, true), Some(vec![3, 4, 5, SILENCE]));
    assert!(accum.is_empty());
    assert_eq!(take_chunk(&mut accum, 4, true), None);
}

fn step(session: &mut DecodeSession, event: DecodeEvent) -> String {
    format!("{:?}", session.advance(event, 2))
}

fn decoded(rate: u32, samples: &[u32]) -> DecodeEvent {
    DecodeEvent::Decoded { rate, channels: 2, samples: samples.to_vec() }
}

#[test]
fn internal_rate_bypasses_the_resampler() {
    let mut session = DecodeSession::new(3);
    assert_eq!(step(&mut session, DecodeEvent::Packet(3)), "Decode");
    let mono = DecodeEvent::Decoded { rate: 48000, channels: 1, samples: vec![5, 6] };
    assert_eq!(step(&mut session, mono), "Push([5, 5, 6, 6])");
    assert_eq!(step(&mut session, DecodeEvent::Pushed(false)), "Poll");
    assert_eq!(step(&mut session, DecodeEvent::EndOfStream), "Finish(Ok(()))");
    assert_eq!(step(&mut session, DecodeEvent::Packet(3)), "Unexpected");
}

#[test]
fn other_rates_go_through_a_resampler() {
    let mut session = DecodeSession::new(0);
    step(&mut session, DecodeEvent::Packet(0));
    assert_eq!(step(&mut session, decoded(44100, &[1, 2, 3, 4, 5, 6])), "Build(44100)");
    assert_eq!(step(&mut session, DecodeEvent::Built(true)), "Resample([1, 2, 3, 4])");
    assert_eq!(step(&mut session, DecodeEvent::Resampled(Some(vec![9, 9]))), "Push([9, 9])");
    assert_eq!(step(&mut session, DecodeEvent::Pushed(true)), "Poll");
    step(&mut session, DecodeEvent::Packet(0));
    assert_eq!(step(&mut session, decoded(44100, &[7, 8])), "Resample([5, 6, 7, 8])");
    assert_eq!(step(&mut session, DecodeEvent::Resampled(None)), "Poll");
    step(&mut session, DecodeEvent::Packet(0));
    assert_eq!(step(&mut session, decoded(44100, &[1, 2])), "Poll");
    assert_eq!(step(&mut session, DecodeEvent::Shutdown), "Resample([1, 2, 0, 0])");
    assert_eq!(step(&mut session, DecodeEvent::Resampled(Some(vec![4]))), "Push([4])");
    assert_eq!(step(&mut session, DecodeEvent::Pushed(true)), "Finish(Ok(()))");
}

#[test]
fn tail_is_drained_in_chunks() {
    let mut session = DecodeSession::new(0);
    step(&mut session, DecodeEvent::Packet(0));
    step(&mut session, decoded(44100, &[1, 2, 3, 4, 5, 6, 7, 8]));
    assert!(matches!(session.advance(DecodeEvent::Built(true), 9), DecodeStep::Poll));
    assert_eq!(step(&mut session, DecodeEvent::Packet(0)), "Decode");
    let more = session.advance(decoded(44100, &[9, 10]), 9);
    assert!(matches!(more, DecodeStep::Poll));
    assert_eq!(step(&mut session, DecodeEvent::EndOfStream), "Resample([1, 2, 3, 4])");
    assert_eq!(step(&mut session, DecodeEvent::Resampled(Some(vec![70]))), "Push([70])");
    assert_eq!(step(&mut session, DecodeEvent::Pushed(true)), "Resample([5, 6, 7, 8])");
    assert_eq!(step(&mut session, DecodeEvent::Resampled(None)), "Resample([9, 10, 0, 0])");
    assert_eq!(step(&mut session, DecodeEvent::Resampled(Some(vec![71]))), "Push([71])");
    assert_eq!(step(&mut session, DecodeEvent::Pushed(true)), "Finish(Ok(()))");
}

#[test]
fn shutdown_cuts_the_tail_short() {
    let mut session = DecodeSession::new(0);
    step(&mut session, DecodeEvent::Packet(0));
    step(&mut session, decoded(44100, &[1, 2, 3, 4, 5, 6]));
    assert!(matches!(session.advance(DecodeEvent::Built(true), 9), DecodeStep::Poll));
    assert_eq!(step(&mut session, DecodeEvent::Shutdown), "Resample([1, 2, 3, 4])");
    assert_eq!(step(&mut session, DecodeEvent::Resampled(Some(vec![70]))), "Push([70])");
    assert_eq!(step(&mut session, DecodeEvent::Pushed(false)), "Finish(Ok(()))");
}

#[test]
fn changed_rate_drops_what_waits() {
    let mut session = DecodeSession::new(0);
    step(&mut session, DecodeEvent::Packet(0));
    step(&mut session, decoded(44100, &[1, 2]));
    assert_eq!(step(&mut session, DecodeEvent::Built(true)), "Poll");
    step(&mut session, DecodeEvent::Packet(0));
    assert_eq!(step(&mut session, decoded(22050, &[3, 4, 5, 6])), "Build(22050)");
    assert_eq!(step(&mut session, DecodeEvent::Built(true)), "Resample([3, 4, 5, 6])");
}

#[test]
fn packets_that_do_not_count() {
    let mut session = DecodeSession::new(1);
    assert_eq!(step(&mut session, DecodeEvent::Packet(2)), "Poll");
    step(&mut session, DecodeEvent::Packet(1));
    assert_eq!(step(&mut session, DecodeEvent::Corrupt), "Poll");
}

#[test]
fn failures_end_the_session() {
    let mut session = DecodeSession::new(1);
    step(&mut session, DecodeEvent::Packet(1));
    assert_eq!(step(&mut session, DecodeEvent::Failed), "Finish(Err(Decode))");
    let mut session = DecodeSession::new(1);
    step(&mut session, DecodeEvent::Packet(1));
    step(&mut session, decoded(8000, &[1, 2]));
    assert_eq!(step(&mut session, DecodeEvent::Built(false)), "Finish(Err(Decoder))");
}

#[test]
fn shutdown_while_pushing_resampled_audio_ends_well() {
    let mut session = DecodeSession::new(0);
    step(&mut session, DecodeEvent::Packet(0));
    step(&mut session, decoded(44100, &[1, 2, 3, 4, 5]));
    step(&mut session, DecodeEvent::Built(true));
    step(&mut session, DecodeEvent::Resampled(Some(vec![1])));
    assert_eq!(step(&mut session, DecodeEvent::Pushed(false)), "Finish(Ok(()))");
}

#[test]
fn runaway_input_is_not_fed() {
    let mut session = DecodeSession::new(0);
    session.advance(DecodeEvent::Packet(0), 2_000_000);
    session.advance(decoded(44100, &vec![1; ACCUM_MAX_SAMPLES]), 2_000_000);
    assert!(matches!(session.advance(DecodeEvent::Built(true), 2_000_000), DecodeStep::Poll));
    session.advance(DecodeEvent::Packet(0), 2_000_000);
    assert!(matches!(session.advance(decoded(44100, &[2, 2]), 2_000_000), DecodeStep::Poll));
    match session.advance(DecodeEvent::EndOfStream, 500_000) {
        DecodeStep::Resample(chunk) => {
            assert_eq!(chunk.len(), 1_000_000);
            assert_eq!(chunk[ACCUM_MAX_SAMPLES - 1], 1);
            assert_eq!(chunk[ACCUM_MAX_SAMPLES], SILENCE);
        }
        other => panic!("unexpected step {:?}", other),
    }
}

#[test]
fn arguments_for_ffmpeg() {
    assert_eq!(
        ffmpeg_arguments("a b.mp3"),
        ["-v", "quiet", "-i", "a b.mp3", "-f", "f32le", "-ar", "48000", "-ac", "2", "-"]
    );
}

#[test]
fn bytes_become_samples() {
    let mut bytes = Vec::new();
    for value in [1.5f32, -0.25, 0.0] {
        bytes.extend_from_slice(&value.to_le_bytes());
    }
    bytes.extend_from_slice(&[1, 2, 3]);
    let samples: Vec<f32> =
        samples_from_bytes(&bytes).iter().map(|bits| f32::from_bits(*bits)).collect();
    assert_eq!(samples, [1.5, -0.25, 0.0]);
    assert_eq!(samples_from_bytes(&[1, 2, 3, 4]), [0x04030201]);
    assert!(samples_from_bytes(&[1, 2]).is_empty());
}

#[test]
fn steps_with_ffmpeg() {
    assert!(matches!(ffmpeg_step(FfmpegEvent::Shutdown), FfmpegStep::Kill(Ok(()))));
    assert!(matches!(ffmpeg_step(FfmpegEvent::Bytes(vec![])), FfmpegStep::Wait));
    assert!(matches!(ffmpeg_step(FfmpegEvent::Interrupted), FfmpegStep::Read));
    assert!(matches!(
        ffmpeg_step(FfmpegEvent::Failed),
        FfmpegStep::Kill(Err(DecodeError::Decode))
    ));
    assert!(matches!(ffmpeg_step(FfmpegEvent::Pushed(true)), FfmpegStep::Read));
    assert!(matches!(ffmpeg_step(FfmpegEvent::Pushed(false)), FfmpegStep::Kill(Ok(()))));
    match ffmpeg_step(FfmpegEvent::Bytes(vec![0, 1, 0, 0, 9])) {
        FfmpegStep::Push(samples) => assert_eq!(samples, [256]),
        other => panic!("unexpected step {:?}", other),
    }
}

#[test]
fn frames_are_laid_out_on_their_own() {
    for (input, output) in [(1, 2), (2, 2), (3, 2), (2, 3), (2, 1)] {
        let first: Vec<u32> = (1..=6).collect();
        let second: Vec<u32> = (7..=11).collect();
        let mut joined = normalize(&first, input, output);
        joined.extend(normalize(&second, input, output));
        let whole: Vec<u32> = (1..=11).collect();
        assert_eq!(normalize(&whole, input, output), joined);
    }
}

#[test]
fn reads_between_samples_can_be_joined() {
    let bytes: Vec<u8> = (1..=11).collect();
    let mut joined = samples_from_bytes(&bytes[..4]);
    joined.extend(samples_from_bytes(&bytes[4..]));
    assert_eq!(samples_from_bytes(&bytes), joined);
    assert_eq!(joined, [0x04030201, 0x08070605]);
}

#[test]
fn last_segment_shows_the_extension() {
    let segments = vec!["a.mp3".to_string(), "b.ogg".to_string()];
    assert_eq!(segments_extension(Some(segments)), Some("ogg".to_string()));
    assert_eq!(segments_extension(Some(vec!["".to_string()])), None);
    assert_eq!(segments_extension(None), None);
}

#[test]
fn request_during_a_direct_push_is_spent() {
    let mut session = DecodeSession::new(0);
    step(&mut session, DecodeEvent::Packet(0));
    assert_eq!(step(&mut session, decoded(48000, &[1, 2])), "Push([1, 2])");
    assert_eq!(step(&mut session, DecodeEvent::Pushed(false)), "Poll");
    step(&mut session, DecodeEvent::Packet(0));
    assert_eq!(step(&mut session, decoded(48000, &[3, 4])), "Push([3, 4])");
}

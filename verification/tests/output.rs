use aurrasd::audio::feed::{asks_to_end, PendingPush, PushTurn, Signal};
use aurrasd::audio::output::{
    create_audio_buffer, fill_silence, select_output_format, track_is_over, OutputConfig,
    OutputError, Prebuffer,
};
use aurrasd::audio::output_adapter::{FillEvent, FillStep, OutputAdapter, ADAPTER_CAPACITY};
use aurrasd::audio::ring::RingBuffer;
use aurrasd::audio::samples::{SampleConsumer, SampleProducer};
use aurrasd::audio::types;
use aurrasd::audio::{AudioFormat, SampleFormat, SILENCE};

fn config(channels: u16, min: u32, max: u32, sample_format: SampleFormat) -> OutputConfig {
    OutputConfig { channels, min_sample_rate: min, max_sample_rate: max, sample_format }
}

fn chosen(supported: Vec<OutputConfig>) -> Option<(u16, u32, SampleFormat)> {
    match select_output_format(&supported) {
        Ok(f) => Some((f.channels, f.sample_rate, f.sample_format)),
        Err(OutputError::NoCompatibleFormat) => None,
    }
}

#[test]
fn formats_are_what_they_were_made_of() {
    let format = AudioFormat::new(6, 96_000, SampleFormat::I16);
    assert_eq!((format.channels, format.sample_rate), (6, 96_000));
    assert_eq!(format.sample_format, SampleFormat::I16);
    let shape = types::AudioFormat::new(1, 8_000);
    assert_eq!((shape.channels, shape.sample_rate), (1, 8_000));
}

#[test]
fn internal_format_is_preferred() {
    assert_eq!(
        chosen(vec![
            config(2, 44_100, 44_100, SampleFormat::F32),
            config(1, 8_000, 96_000, SampleFormat::F32),
            config(2, 48_000, 192_000, SampleFormat::I16),
            config(2, 8_000, 48_000, SampleFormat::F32),
        ]),
        Some((2, 48_000, SampleFormat::I16))
    );
}

#[test]
fn otherwise_the_first_writable_range_at_its_highest_rate() {
    assert_eq!(
        chosen(vec![
            config(2, 48_000, 48_000, SampleFormat::Other),
            config(6, 8_000, 44_100, SampleFormat::U16),
            config(2, 8_000, 22_050, SampleFormat::F32),
        ]),
        Some((6, 44_100, SampleFormat::U16))
    );
}

#[test]
fn no_writable_range_is_an_error() {
    assert_eq!(chosen(vec![]), None);
    assert_eq!(chosen(vec![config(2, 48_000, 48_000, SampleFormat::Other)]), None);
}

#[test]
fn device_collects_before_it_plays() {
    let mut gate = Prebuffer::new(SampleFormat::F32);
    assert!(!gate.decide(false, true, 0));
    assert!(!gate.decide(false, false, 28_799));
    assert!(gate.decide(false, false, 28_800));
    assert!(gate.decide(false, false, 1));
    assert!(!gate.decide(false, true, 0));
    assert!(!gate.decide(false, false, 5));
    assert!(gate.decide(false, false, 30_000));
    assert!(!gate.decide(true, false, 5));
}

#[test]
fn integer_devices_play_on_when_dry() {
    for format in [SampleFormat::I16, SampleFormat::U16] {
        let mut gate = Prebuffer::new(format);
        assert!(!gate.decide(false, false, 28_799));
        assert!(gate.decide(false, false, 28_800));
        assert!(gate.decide(false, true, 0));
        assert!(!gate.decide(true, true, 0));
    }
}

fn stereo() -> AudioFormat {
    AudioFormat::new(2, 48_000, SampleFormat::F32)
}

fn push(producer: &mut SampleProducer, samples: Vec<u32>) -> PushTurn {
    PendingPush::new(samples).turn(producer, false)
}

fn mix(left: u32, right: u32) -> u32 {
    ((f32::from_bits(left) + f32::from_bits(right)) * 0.5).to_bits()
}

fn fill(adapter: &mut OutputAdapter, consumer: &mut SampleConsumer, wanted: usize) -> Vec<u32> {
    while !matches!(
        adapter.fill_buffer(consumer, wanted, FillEvent::Continue, 0, &mix),
        FillStep::Ready
    ) {}
    let mut output = vec![99; wanted];
    adapter.drain(&mut output);
    output
}

#[test]
fn samples_reach_the_device_in_order() {
    let (mut producer, mut consumer) = create_audio_buffer(&stereo());
    let mut adapter = OutputAdapter::new(stereo());
    assert_eq!(push(&mut producer, (1..=3000).collect()), PushTurn::Done);
    assert_eq!(fill(&mut adapter, &mut consumer, 1000), (1..=1000).collect::<Vec<u32>>());
    let rest = fill(&mut adapter, &mut consumer, 2005);
    assert_eq!(rest[..2000], (1001..=3000).collect::<Vec<u32>>());
    assert_eq!(rest[2000..], [SILENCE; 5]);
}

#[test]
fn queue_takes_four_seconds_and_then_waits() {
    let (mut producer, mut consumer) = create_audio_buffer(&stereo());
    let mut pending = PendingPush::new(vec![7; 384_001]);
    assert_eq!(pending.turn(&mut producer, false), PushTurn::Waiting);
    assert!(!pending.is_done());
    let mut adapter = OutputAdapter::new(stereo());
    fill(&mut adapter, &mut consumer, 1);
    assert_eq!(pending.turn(&mut producer, false), PushTurn::Done);
    assert!(pending.is_done());
    let surround = AudioFormat::new(6, 96_000, SampleFormat::F32);
    let (mut wide, _consumer) = create_audio_buffer(&surround);
    assert_eq!(push(&mut wide, vec![7; 2_304_000]), PushTurn::Done);
    assert_eq!(push(&mut wide, vec![7]), PushTurn::Waiting);
}

#[test]
fn pushing_stops_when_asked_to_end() {
    let (mut producer, mut consumer) = create_audio_buffer(&stereo());
    let mut pending = PendingPush::new(vec![1, 2]);
    assert_eq!(pending.turn(&mut producer, true), PushTurn::Aborted);
    assert_eq!(PendingPush::new(vec![]).turn(&mut producer, true), PushTurn::Done);
    let mut adapter = OutputAdapter::new(stereo());
    assert_eq!(fill(&mut adapter, &mut consumer, 2), [SILENCE; 2]);
    let mut counted = PendingPush::new(vec![1, 2, 3]);
    assert_eq!(counted.accept(2), PushTurn::Waiting);
    assert_eq!(counted.accept(1), PushTurn::Done);
}

#[test]
fn one_channel_gets_the_mean() {
    let (mut producer, mut consumer) = create_audio_buffer(&stereo());
    let mono = AudioFormat::new(1, 48_000, SampleFormat::F32);
    let mut adapter = OutputAdapter::new(mono);
    let frames: Vec<u32> = [1.0f32, 3.0, -1.0, 0.0].iter().map(|s| s.to_bits()).collect();
    push(&mut producer, frames);
    let output = fill(&mut adapter, &mut consumer, 3);
    let heard: Vec<f32> = output.iter().map(|s| f32::from_bits(*s)).collect();
    assert_eq!(heard, [2.0, -0.5, 0.0]);
}

#[test]
fn other_device_rates_ask_for_the_resampler() {
    let (mut producer, mut consumer) = create_audio_buffer(&stereo());
    let mut adapter = OutputAdapter::new(AudioFormat::new(2, 44_100, SampleFormat::F32));
    push(&mut producer, vec![1, 2, 3, 4, 5, 6]);
    let mut turn = |event| format!("{:?}", adapter.fill_buffer(&mut consumer, 4, event, 2, &mix));
    assert_eq!(turn(FillEvent::Continue), "Again");
    assert_eq!(turn(FillEvent::Continue), "Resample([1, 2, 3, 4])");
    assert_eq!(turn(FillEvent::Resampled(vec![10, 11, 12])), "Again");
    assert_eq!(turn(FillEvent::Continue), "Ready");
    push(&mut producer, vec![7, 8, 9]);
    assert_eq!(turn(FillEvent::Continue), "Again");
    assert_eq!(turn(FillEvent::Continue), "Resample([5, 6, 7, 8])");
    assert_eq!(turn(FillEvent::ResampleFailed), "Ready");
    assert_eq!(turn(FillEvent::Resampled(vec![13])), "Again");
    assert_eq!(turn(FillEvent::Continue), "Ready");
    let mut output = [0; 6];
    assert_eq!(adapter.drain(&mut output), 4);
    assert_eq!(output, [10, 11, 12, 13, SILENCE, SILENCE]);
}

#[test]
fn overfull_adapter_drops_the_newest() {
    let (_producer, mut consumer) = create_audio_buffer(&stereo());
    let mut adapter = OutputAdapter::new(AudioFormat::new(2, 44_100, SampleFormat::F32));
    let many: Vec<u32> = (0..ADAPTER_CAPACITY as u32 + 10).collect();
    adapter.fill_buffer(&mut consumer, 1, FillEvent::Resampled(many), 0, &mix);
    let mut output = vec![1; ADAPTER_CAPACITY + 1];
    adapter.drain(&mut output);
    assert_eq!(output[ADAPTER_CAPACITY - 1], ADAPTER_CAPACITY as u32 - 1);
    assert_eq!(output[ADAPTER_CAPACITY], SILENCE);
}

#[test]
fn flushing_empties_the_queue() {
    let (mut producer, mut consumer) = create_audio_buffer(&stereo());
    let mut gate = Prebuffer::new(SampleFormat::F32);
    push(&mut producer, vec![5; 28_800]);
    assert!(gate.poll(false, &mut consumer));
    assert!(!gate.poll(true, &mut consumer));
    let mut adapter = OutputAdapter::new(stereo());
    assert_eq!(fill(&mut adapter, &mut consumer, 2), [SILENCE; 2]);
    push(&mut producer, vec![6; 28_799]);
    assert!(!gate.poll(false, &mut consumer));
    push(&mut producer, vec![6]);
    assert!(gate.poll(false, &mut consumer));
}

#[test]
fn dry_queue_makes_the_device_collect_again() {
    let (mut producer, mut consumer) = create_audio_buffer(&stereo());
    let mut gate = Prebuffer::new(SampleFormat::F32);
    push(&mut producer, vec![5; 28_800]);
    assert!(gate.poll(false, &mut consumer));
    let mut adapter = OutputAdapter::new(stereo());
    fill(&mut adapter, &mut consumer, 28_800);
    assert!(!gate.poll(false, &mut consumer));
}

#[test]
fn ring_gives_back_what_was_written() {
    let mut ring = RingBuffer::new(5);
    assert_eq!(ring.write(&[1, 2, 3]), 3);
    let mut output = [0; 2];
    assert_eq!(ring.read(&mut output), 2);
    assert_eq!(output, [1, 2]);
    assert_eq!(ring.write_some(&[4, 5, 6, 7]), 3);
    assert_eq!(ring.write_some(&[8]), 0);
    let mut output = [9; 6];
    assert_eq!(ring.read(&mut output), 4);
    assert_eq!(output, [3, 4, 5, 6, 9, 9]);
    assert_eq!(ring.read(&mut output), 0);
}

#[test]
fn ring_keeps_one_slot_free() {
    let mut ring = RingBuffer::new(3);
    assert_eq!(ring.write_some(&[1, 2, 3]), 2);
    let mut single = RingBuffer::new(1);
    assert_eq!(single.write_some(&[1]), 0);
    let mut none = RingBuffer::new(0);
    assert_eq!(none.write(&[]), 0);
    assert_eq!(none.read(&mut [0]), 0);
}

#[test]
fn ring_remembers_the_end() {
    let mut ring = RingBuffer::new(4);
    assert!(!ring.is_finished());
    ring.write(&[1]);
    ring.mark_finished();
    assert!(ring.is_finished());
    let mut output = [0];
    assert_eq!(ring.read(&mut output), 1);
    assert_eq!(output, [1]);
    assert!(ring.is_finished());
}

#[test]
fn fetching_stops_at_the_limit_or_when_dry() {
    let (mut producer, mut consumer) = create_audio_buffer(&stereo());
    let mut adapter = OutputAdapter::new(stereo());
    push(&mut producer, (1..=1500).collect());
    let mut turn = || {
        format!("{:?}", adapter.fill_buffer(&mut consumer, 2000, FillEvent::Continue, 0, &mix))
    };
    assert_eq!([turn(), turn(), turn(), turn(), turn()], ["Again", "Again", "Again", "Again", "Ready"]);
    assert_eq!(turn(), "Ready");
    let mut output = vec![0; 2000];
    assert_eq!(adapter.drain(&mut output), 1500);
    assert_eq!(output[1499], 1500);
}

#[test]
fn two_fills_joined_are_one() {
    let rendered = |sizes: &[usize]| {
        let (mut producer, mut consumer) = create_audio_buffer(&stereo());
        let mut adapter = OutputAdapter::new(stereo());
        push(&mut producer, (1..=5000).collect());
        let mut heard = Vec::new();
        for size in sizes {
            heard.extend(fill(&mut adapter, &mut consumer, *size));
        }
        heard
    };
    assert_eq!(rendered(&[700, 1300]), rendered(&[2000]));
    assert_eq!(rendered(&[4990, 20]), rendered(&[5010]));
    assert_eq!(rendered(&[6000, 10]), rendered(&[6010]));
}

#[test]
fn one_fill_takes_at_most_one_fetch_too_much() {
    let (mut producer, mut consumer) = create_audio_buffer(&stereo());
    let mut adapter = OutputAdapter::new(stereo());
    push(&mut producer, (1..=2048).collect());
    fill(&mut adapter, &mut consumer, 1);
    let mut gate = Prebuffer::new(SampleFormat::I16);
    gate.poll(true, &mut consumer);
    let rest = fill(&mut adapter, &mut consumer, 1024);
    assert_eq!(rest[..1023], (2..=1024).collect::<Vec<u32>>());
    assert_eq!(rest[1023], SILENCE);
}

#[test]
fn device_is_silent_after_a_flush_until_enough_is_queued() {
    let (mut producer, mut consumer) = create_audio_buffer(&stereo());
    for format in [SampleFormat::F32, SampleFormat::I16, SampleFormat::U16] {
        let mut gate = Prebuffer::new(format);
        push(&mut producer, vec![5; 30_000]);
        assert!(gate.poll(false, &mut consumer));
        assert!(!gate.poll(true, &mut consumer));
        assert!(!gate.poll(false, &mut consumer));
        push(&mut producer, vec![5; 28_799]);
        assert!(!gate.poll(false, &mut consumer));
        push(&mut producer, vec![5]);
        assert!(gate.poll(false, &mut consumer));
        assert!(!gate.poll(true, &mut consumer));
    }
}

#[test]
fn track_ends_when_decoded_and_played() {
    assert!(track_is_over(true, true));
    assert!(!track_is_over(true, false));
    assert!(!track_is_over(false, true));
    assert!(!track_is_over(false, false));
}

#[test]
fn whole_writes_take_everything() {
    let mut ring = RingBuffer::new(4);
    assert_eq!(ring.write(&[1, 2, 3]), 3);
    assert_eq!(ring.write(&[]), 0);
    let mut output = [0; 3];
    assert_eq!(ring.read(&mut output), 3);
    assert_eq!(output, [1, 2, 3]);
    assert_eq!(ring.write(&[4, 5]), 2);
    assert_eq!(ring.read(&mut output), 2);
    assert_eq!(output, [4, 5, 3]);
}

#[test]
fn silence_overwrites_everything() {
    let mut output = [1, 2, 3];
    fill_silence(&mut output);
    assert_eq!(output, [SILENCE; 3]);
    fill_silence(&mut []);
}

#[test]
fn only_a_message_asks_to_end() {
    assert!(asks_to_end(Signal::Message));
    assert!(!asks_to_end(Signal::Nothing));
    assert!(!asks_to_end(Signal::Disconnected));
}

#[test]
fn incomplete_chunks_stay() {
    let (mut producer, mut consumer) = create_audio_buffer(&stereo());
    let mut adapter = OutputAdapter::new(AudioFormat::new(2, 44_100, SampleFormat::F32));
    push(&mut producer, vec![1, 2, 3]);
    adapter.fill_buffer(&mut consumer, 4, FillEvent::Continue, 2, &mix);
    assert_eq!(adapter.process_one_chunk(2), None);
    assert_eq!(adapter.process_one_chunk(2), None);
    assert_eq!(adapter.process_one_chunk(1), Some(vec![1, 2]));
    assert_eq!(adapter.process_one_chunk(1), None);
    let mut direct = OutputAdapter::new(stereo());
    assert_eq!(direct.process_one_chunk(0), None);
}

//! Decoding through the FFmpeg program, for media that is not understood
//! otherwise.

use vstd::prelude::*;

use super::decode::DecodeError;
use super::{Sample, INTERNAL_CHANNELS, INTERNAL_SAMPLE_RATE};
use crate::text::{decimal, decimal_text, texts};

verus! {

/// The arguments that make FFmpeg write a track to its standard output as
/// little-endian singles in the internal format.
pub open spec fn arguments(path: Seq<char>) -> Seq<Seq<char>> {
    seq![
        "-v"@,
        "quiet"@,
        "-i"@,
        path,
        "-f"@,
        "f32le"@,
        "-ar"@,
        decimal(INTERNAL_SAMPLE_RATE as nat),
        "-ac"@,
        decimal(INTERNAL_CHANNELS as nat),
        "-"@,
    ]
}

/// The arguments for one track.
pub fn ffmpeg_arguments(path: &str) -> (args: Vec<String>)
    ensures
        texts(args@) == arguments(path@),
{
    let mut args: Vec<String> = Vec::new();
    args.push("-v".to_owned());
    args.push("quiet".to_owned());
    args.push("-i".to_owned());
    args.push(path.to_owned());
    args.push("-f".to_owned());
    args.push("f32le".to_owned());
    args.push("-ar".to_owned());
    args.push(decimal_text(INTERNAL_SAMPLE_RATE as usize));
    args.push("-ac".to_owned());
    args.push(decimal_text(INTERNAL_CHANNELS as usize));
    args.push("-".to_owned());
    assert(texts(args@) =~= arguments(path@));
    args
}

/// The sample whose four bytes start at `at`, lowest byte first.
pub open spec fn sample_at(bytes: Seq<u8>, at: int) -> Sample {
    (bytes[at] + 0x100 * bytes[at + 1] + 0x1_0000 * bytes[at + 2] + 0x100_0000 * bytes[at
        + 3]) as Sample
}

/// The samples that bytes stand for. Up to three bytes left over at the end
/// stand for nothing.
pub open spec fn samples_of(bytes: Seq<u8>) -> Seq<Sample> {
    Seq::new(bytes.len() / 4, |i: int| sample_at(bytes, 4 * i))
}

/// The four bytes of a sample, lowest first.
pub open spec fn bytes_of(sample: Sample) -> Seq<u8> {
    seq![
        (sample % 0x100) as u8,
        (sample / 0x100 % 0x100) as u8,
        (sample / 0x1_0000 % 0x100) as u8,
        (sample / 0x100_0000) as u8,
    ]
}

/// Turn the bytes of a read into samples.
pub fn samples_from_bytes(bytes: &[u8]) -> (samples: Vec<Sample>)
    ensures
        samples@ == samples_of(bytes@),
{
    let total: usize = bytes.len();
    let count: usize = total / 4;
    let mut samples: Vec<Sample> = Vec::new();
    for i in 0..count
        invariant
            total == bytes@.len(),
            count == total / 4,
            samples@ == samples_of(bytes@).take(i as int),
    {
        let at: usize = 4 * i;
        let sample: Sample = bytes[at] as u32 + 0x100 * bytes[at + 1] as u32 + 0x1_0000
            * bytes[at + 2] as u32 + 0x100_0000 * bytes[at + 3] as u32;
        samples.push(sample);
        assert(samples@ =~= samples_of(bytes@).take(i + 1));
    }
    assert(samples_of(bytes@).take(count as int) =~= samples_of(bytes@));
    samples
}

/// What came of looking for a request to end and reading from FFmpeg.
#[derive(Debug)]
pub enum FfmpegEvent {
    /// The session is asked to end.
    Shutdown,
    /// These bytes were read; none means that FFmpeg is done.
    Bytes(Vec<u8>),
    /// The read was interrupted and can be repeated.
    Interrupted,
    /// The read failed.
    Failed,
    /// Whether all samples went into the output queue before the session was
    /// asked to end.
    Pushed(bool),
}

/// What to do with FFmpeg next.
#[derive(Debug)]
pub enum FfmpegStep {
    /// See whether the session is asked to end; if not, read.
    Read,
    /// Put these samples into the output queue.
    Push(Vec<Sample>),
    /// Kill FFmpeg, wait for it, and end with this outcome.
    Kill(Result<(), DecodeError>),
    /// Wait for FFmpeg and end well.
    Wait,
}

/// The mathematical value of a [`FfmpegStep`].
pub enum FfmpegStepView {
    Read,
    Push(Seq<Sample>),
    Kill(Result<(), DecodeError>),
    Wait,
}

impl View for FfmpegStep {
    type V = FfmpegStepView;

    open spec fn view(&self) -> FfmpegStepView {
        match *self {
            FfmpegStep::Read => FfmpegStepView::Read,
            FfmpegStep::Push(samples) => FfmpegStepView::Push(samples@),
            FfmpegStep::Kill(outcome) => FfmpegStepView::Kill(outcome),
            FfmpegStep::Wait => FfmpegStepView::Wait,
        }
    }
}

/// What to do with FFmpeg after an event.
pub open spec fn due_step(event: FfmpegEvent) -> FfmpegStepView {
    match event {
        FfmpegEvent::Shutdown => FfmpegStepView::Kill(Ok(())),
        FfmpegEvent::Bytes(bytes) => if bytes@.len() == 0 {
            FfmpegStepView::Wait
        } else {
            FfmpegStepView::Push(samples_of(bytes@))
        },
        FfmpegEvent::Interrupted => FfmpegStepView::Read,
        FfmpegEvent::Failed => FfmpegStepView::Kill(Err(DecodeError::Decode)),
        FfmpegEvent::Pushed(complete) => if complete {
            FfmpegStepView::Read
        } else {
            FfmpegStepView::Kill(Ok(()))
        },
    }
}

/// Decide what to do with FFmpeg after an event.
pub fn ffmpeg_step(event: FfmpegEvent) -> (step: FfmpegStep)
    ensures
        step@ == due_step(event),
{
    match event {
        FfmpegEvent::Shutdown => FfmpegStep::Kill(Ok(())),
        FfmpegEvent::Bytes(bytes) => {
            if bytes.len() == 0 {
                FfmpegStep::Wait
            } else {
                FfmpegStep::Push(samples_from_bytes(bytes.as_slice()))
            }
        },
        FfmpegEvent::Interrupted => FfmpegStep::Read,
        FfmpegEvent::Failed => FfmpegStep::Kill(Err(DecodeError::Decode)),
        FfmpegEvent::Pushed(complete) => {
            if complete {
                FfmpegStep::Read
            } else {
                FfmpegStep::Kill(Ok(()))
            }
        },
    }
}

/// The bytes of many samples, one after the other.
pub open spec fn all_bytes_of(samples: Seq<Sample>) -> Seq<u8>
    decreases samples.len(),
{
    if samples.len() == 0 {
        Seq::empty()
    } else {
        all_bytes_of(samples.drop_last()) + bytes_of(samples.last())
    }
}

/// Reading gives back the samples that were written as bytes.
pub proof fn law_reading_undoes_writing(samples: Seq<Sample>)
    ensures
        all_bytes_of(samples).len() == 4 * samples.len(),
        samples_of(all_bytes_of(samples)) == samples,
    decreases samples.len(),
{
    let bytes = all_bytes_of(samples);
    if samples.len() > 0 {
        let before = all_bytes_of(samples.drop_last());
        law_reading_undoes_writing(samples.drop_last());
        assert forall|i: int| 0 <= i < samples.len() implies samples_of(bytes)[i] == samples[i] by {
            if i < samples.len() - 1 {
                assert(sample_at(bytes, 4 * i) == sample_at(before, 4 * i));
                assert(samples_of(before)[i] == samples.drop_last()[i]);
            } else {
                let sample = samples.last();
                assert(bytes[4 * i] == bytes_of(sample)[0]);
                assert(bytes[4 * i + 1] == bytes_of(sample)[1]);
                assert(bytes[4 * i + 2] == bytes_of(sample)[2]);
                assert(bytes[4 * i + 3] == bytes_of(sample)[3]);
            }
        }
    }
    assert(samples_of(bytes) =~= samples);
}

/// Bytes beyond the last whole sample do not matter.
pub proof fn law_partial_samples_are_dropped(bytes: Seq<u8>, rest: Seq<u8>)
    requires
        bytes.len() % 4 == 0,
        rest.len() < 4,
    ensures
        samples_of(bytes + rest) == samples_of(bytes),
{
    assert(samples_of(bytes + rest) =~= samples_of(bytes));
}

/// Whole samples can be read on their own: reads that end between two samples
/// give, joined, what one read of all the bytes gives.
pub proof fn law_samples_are_independent(first: Seq<u8>, second: Seq<u8>)
    requires
        first.len() % 4 == 0,
    ensures
        samples_of(first + second) == samples_of(first) + samples_of(second),
{
    let whole = samples_of(first + second);
    let joined = samples_of(first) + samples_of(second);
    assert forall|i: int| 0 <= i < whole.len() implies whole[i] == joined[i] by {
        if i >= first.len() / 4 {
            assert(4 * (i - first.len() / 4) == 4 * i - first.len());
        }
    }
    assert(whole =~= joined);
}

/// Each four bytes are one sample, lowest byte first, and a rest of up to three
/// bytes is none.
pub proof fn law_four_bytes_are_a_sample(bytes: Seq<u8>, i: int)
    requires
        0 <= i,
        4 * i + 3 < bytes.len(),
    ensures
        samples_of(bytes).len() == bytes.len() / 4,
        samples_of(bytes)[i] == bytes[4 * i] + 256 * bytes[4 * i + 1] + 65_536 * bytes[4 * i + 2]
            + 16_777_216 * bytes[4 * i + 3],
{
}

/// Fewer than four bytes are no sample.
pub proof fn law_few_bytes_are_no_sample(bytes: Seq<u8>)
    requires
        bytes.len() < 4,
    ensures
        samples_of(bytes).len() == 0,
{
}

/// FFmpeg is told to read the path, whatever it is, and to write little-endian
/// singles at 48 kHz in two channels to its standard output. Nothing but the
/// path depends on the path.
pub proof fn law_ffmpeg_reads_the_path(path: Seq<char>)
    ensures
        ({
            let args = arguments(path);
            &&& args.len() == 11
            &&& args[0] == "-v"@
            &&& args[1] == "quiet"@
            &&& args[2] == "-i"@
            &&& args[3] == path
            &&& args[4] == "-f"@
            &&& args[5] == "f32le"@
            &&& args[6] == "-ar"@
            &&& args[7] == "48000"@
            &&& args[8] == "-ac"@
            &&& args[9] == "2"@
            &&& args[10] == "-"@
        }),
{
    reveal_strlit("48000");
    reveal_strlit("2");
    reveal_with_fuel(decimal, 6);
    assert(decimal(48_000) =~= "48000"@);
    assert(decimal(2) =~= "2"@);
}

/// All whole samples of a read are pushed, however long it is: each four bytes
/// are one of them. A read of nothing, and only that, is the end.
pub proof fn law_all_that_is_read_is_pushed(bytes: Vec<u8>)
    ensures
        bytes@.len() == 0 ==> due_step(FfmpegEvent::Bytes(bytes)) == FfmpegStepView::Wait,
        bytes@.len() > 0 ==> match due_step(FfmpegEvent::Bytes(bytes)) {
            FfmpegStepView::Push(samples) => {
                &&& samples.len() == bytes@.len() / 4
                &&& forall|i: int|
                    0 <= i < samples.len() ==> #[trigger] samples[i] == bytes@[4 * i] + 256
                        * bytes@[4 * i + 1] + 65_536 * bytes@[4 * i + 2] + 16_777_216 * bytes@[4 * i
                        + 3]
            },
            _ => false,
        },
{
}

/// Reading goes on after a whole push and after an interruption. A request to
/// end, before a read or in a push, ends FFmpeg and is no error; a failed read
/// ends it and is one.
pub proof fn law_reading_goes_on_until_the_end(complete: bool)
    ensures
        due_step(FfmpegEvent::Interrupted) == FfmpegStepView::Read,
        due_step(FfmpegEvent::Pushed(complete)) == if complete {
            FfmpegStepView::Read
        } else {
            FfmpegStepView::Kill(Ok(()))
        },
        due_step(FfmpegEvent::Shutdown) == FfmpegStepView::Kill(Ok(())),
        due_step(FfmpegEvent::Failed) == FfmpegStepView::Kill(Err(DecodeError::Decode)),
{
}

/// What a step stands for is the same step, with the same samples.
pub proof fn law_steps_are_what_they_say(step: FfmpegStep)
    ensures
        match step {
            FfmpegStep::Read => step@ == FfmpegStepView::Read,
            FfmpegStep::Push(samples) => step@ == FfmpegStepView::Push(samples@),
            FfmpegStep::Kill(outcome) => step@ == FfmpegStepView::Kill(outcome),
            FfmpegStep::Wait => step@ == FfmpegStepView::Wait,
        },
{
}

} // verus!

//! Decoding: from packets of a media file to samples in the internal format.
//!
//! A [`DecodeSession`] decides, event by event, what the decoding thread does
//! next. Reading packets, decoding them, resampling and waiting for room in
//! the output queue are done outside, and their outcomes are the events.

use vstd::prelude::*;

pub mod laws;
pub mod reactions;

use super::normalize::{normalize_into, normalized};
use super::{Sample, ACCUM_MAX_SAMPLES, INTERNAL_CHANNELS, INTERNAL_SAMPLE_RATE, SILENCE};

verus! {

/// Why a track could not be decoded.
#[derive(Debug, Clone, Copy, PartialEq, Eq, Structural)]
pub enum DecodeError {
    Http,
    File,
    Probe,
    NoTrack,
    Decoder,
    Decode,
}

/// The text of an error.
pub open spec fn error_text(error: DecodeError) -> Seq<char> {
    match error {
        DecodeError::Http => "failed to fetch URL"@,
        DecodeError::File => "failed to open file"@,
        DecodeError::Probe => "failed to probe format"@,
        DecodeError::NoTrack => "no audio track"@,
        DecodeError::Decoder => "failed to initialize decoder"@,
        DecodeError::Decode => "decode failed"@,
    }
}

impl DecodeError {
    /// The error in words.
    pub fn message(&self) -> (text: &'static str)
        ensures
            text@ == error_text(*self),
    {
        match self {
            DecodeError::Http => "failed to fetch URL",
            DecodeError::File => "failed to open file",
            DecodeError::Probe => "failed to probe format",
            DecodeError::NoTrack => "no audio track",
            DecodeError::Decoder => "failed to initialize decoder",
            DecodeError::Decode => "decode failed",
        }
    }
}

/// What follows the first attempt at decoding a track.
#[derive(Debug, Clone, Copy, PartialEq, Eq)]
pub enum AfterFirstAttempt {
    /// The attempt settles it.
    Done(Result<(), DecodeError>),
    /// The media is not understood: let FFmpeg try.
    FallBack,
}

/// Whether media that fails like this may still be understood by FFmpeg.
pub open spec fn worth_another_decoder(error: DecodeError) -> bool {
    error == DecodeError::Probe || error == DecodeError::NoTrack || error == DecodeError::Decoder
}

/// Decide what follows the first attempt.
pub fn after_first_attempt(outcome: Result<(), DecodeError>) -> (next: AfterFirstAttempt)
    ensures
        next == match outcome {
            Err(error) if worth_another_decoder(error) => AfterFirstAttempt::FallBack,
            _ => AfterFirstAttempt::Done(outcome),
        },
{
    match outcome {
        Err(DecodeError::Probe) | Err(DecodeError::NoTrack) | Err(DecodeError::Decoder) => {
            AfterFirstAttempt::FallBack
        },
        _ => AfterFirstAttempt::Done(outcome),
    }
}

/// The next `needed` samples of a resampler's input buffer and what then
/// remains. A shorter rest is held back, unless `pad` asks for it to be filled
/// up with silence.
pub open spec fn next_chunk(accum: Seq<Sample>, needed: nat, pad: bool) -> Option<
    (Seq<Sample>, Seq<Sample>),
> {
    if accum.len() >= needed {
        Some((accum.take(needed as int), accum.skip(needed as int)))
    } else if pad && accum.len() > 0 {
        Some(
            (accum + Seq::new((needed - accum.len()) as nat, |i: int| SILENCE), Seq::empty()),
        )
    } else {
        None
    }
}

/// Take the next chunk out of a resampler's input buffer.
pub fn take_chunk(accum: &mut Vec<Sample>, needed: usize, pad: bool) -> (chunk: Option<
    Vec<Sample>,
>)
    ensures
        match next_chunk(old(accum)@, needed as nat, pad) {
            Some((head, rest)) => chunk matches Some(taken) && taken@ == head && final(accum)@
                == rest,
            None => chunk is None && final(accum)@ == old(accum)@,
        },
{
    if accum.len() < needed {
        if pad && accum.len() > 0 {
            accum.resize(needed, SILENCE);
            assert(accum@ =~= next_chunk(old(accum)@, needed as nat, pad).unwrap().0);
        } else {
            return None;
        }
    }
    let mut chunk = accum.split_off(needed);
    core::mem::swap(&mut chunk, accum);
    assert(chunk@ =~= next_chunk(old(accum)@, needed as nat, pad).unwrap().0);
    assert(accum@ =~= next_chunk(old(accum)@, needed as nat, pad).unwrap().1);
    Some(chunk)
}

/// What happened since the last step of a decoding session.
#[derive(Debug)]
pub enum DecodeEvent {
    /// The session is asked to end.
    Shutdown,
    /// There is no further packet.
    EndOfStream,
    /// A packet of this track was read.
    Packet(u32),
    /// The packet held these interleaved samples.
    Decoded { rate: u32, channels: usize, samples: Vec<Sample> },
    /// The packet is damaged; the next one may be fine.
    Corrupt,
    /// The decoder cannot go on.
    Failed,
    /// Whether a resampler could be made.
    Built(bool),
    /// What the resampler made of a chunk, unless it failed.
    Resampled(Option<Vec<Sample>>),
    /// Whether all samples went into the output queue before the session was
    /// asked to end.
    Pushed(bool),
}

/// The mathematical value of a [`DecodeEvent`].
pub enum DecodeEventView {
    Shutdown,
    EndOfStream,
    Packet(u32),
    Decoded { rate: u32, channels: usize, samples: Seq<Sample> },
    Corrupt,
    Failed,
    Built(bool),
    Resampled(Option<Seq<Sample>>),
    Pushed(bool),
}

impl View for DecodeEvent {
    type V = DecodeEventView;

    open spec fn view(&self) -> DecodeEventView {
        match *self {
            DecodeEvent::Shutdown => DecodeEventView::Shutdown,
            DecodeEvent::EndOfStream => DecodeEventView::EndOfStream,
            DecodeEvent::Packet(track) => DecodeEventView::Packet(track),
            DecodeEvent::Decoded { rate, channels, samples } => DecodeEventView::Decoded {
                rate,
                channels,
                samples: samples@,
            },
            DecodeEvent::Corrupt => DecodeEventView::Corrupt,
            DecodeEvent::Failed => DecodeEventView::Failed,
            DecodeEvent::Built(ok) => DecodeEventView::Built(ok),
            DecodeEvent::Resampled(output) => DecodeEventView::Resampled(
                match output {
                    Some(samples) => Some(samples@),
                    None => None,
                },
            ),
            DecodeEvent::Pushed(complete) => DecodeEventView::Pushed(complete),
        }
    }
}

/// What the decoding thread does next.
#[derive(Debug)]
pub enum DecodeStep {
    /// See whether the session is asked to end; if not, read a packet.
    Poll,
    /// Decode the packet.
    Decode,
    /// Put these samples into the output queue.
    Push(Vec<Sample>),
    /// Make a resampler from this rate to the internal one.
    Build(u32),
    /// Send this chunk through the resampler.
    Resample(Vec<Sample>),
    /// End with this outcome.
    Finish(Result<(), DecodeError>),
    /// The event answers no step that was asked for.
    Unexpected,
}

/// The mathematical value of a [`DecodeStep`].
pub enum DecodeStepView {
    Poll,
    Decode,
    Push(Seq<Sample>),
    Build(u32),
    Resample(Seq<Sample>),
    Finish(Result<(), DecodeError>),
    Unexpected,
}

impl View for DecodeStep {
    type V = DecodeStepView;

    open spec fn view(&self) -> DecodeStepView {
        match *self {
            DecodeStep::Poll => DecodeStepView::Poll,
            DecodeStep::Decode => DecodeStepView::Decode,
            DecodeStep::Push(samples) => DecodeStepView::Push(samples@),
            DecodeStep::Build(rate) => DecodeStepView::Build(rate),
            DecodeStep::Resample(chunk) => DecodeStepView::Resample(chunk@),
            DecodeStep::Finish(outcome) => DecodeStepView::Finish(outcome),
            DecodeStep::Unexpected => DecodeStepView::Unexpected,
        }
    }
}

/// Which step a session waits for.
#[derive(Debug)]
enum DecodePhase {
    Polling,
    Decoding,
    /// Samples that need no resampling are being pushed.
    PushingDirect,
    /// These samples wait for a resampler.
    Building { rate: u32, channels: usize, samples: Vec<Sample> },
    /// A chunk is being resampled; one of the tail if `pad`.
    Resampling { pad: bool },
    /// A resampled chunk is being pushed; one of the tail if `pad`.
    PushingChunk { pad: bool },
    Finished,
}

/// The mathematical value of a [`DecodePhase`].
pub enum DecodePhaseView {
    Polling,
    Decoding,
    PushingDirect,
    Building { rate: u32, channels: usize, samples: Seq<Sample> },
    Resampling { pad: bool },
    PushingChunk { pad: bool },
    Finished,
}

impl DecodePhase {
    spec fn view(&self) -> DecodePhaseView {
        match *self {
            DecodePhase::Polling => DecodePhaseView::Polling,
            DecodePhase::Decoding => DecodePhaseView::Decoding,
            DecodePhase::PushingDirect => DecodePhaseView::PushingDirect,
            DecodePhase::Building { rate, channels, samples } => DecodePhaseView::Building {
                rate,
                channels,
                samples: samples@,
            },
            DecodePhase::Resampling { pad } => DecodePhaseView::Resampling { pad },
            DecodePhase::PushingChunk { pad } => DecodePhaseView::PushingChunk { pad },
            DecodePhase::Finished => DecodePhaseView::Finished,
        }
    }
}

/// The mathematical value of a [`DecodeSession`].
#[verifier::ext_equal]
pub struct DecodeView {
    /// The track that is decoded.
    pub track: u32,
    /// Samples that wait for the resampler.
    pub accum: Seq<Sample>,
    /// The rate that the resampler was made for.
    pub current_rate: Option<u32>,
    pub phase: DecodePhaseView,
}

/// What a session becomes, and the step it asks for.
pub type DecodeReaction = (DecodeView, DecodeStepView);

/// Samples with as many channels as the internal format has.
pub open spec fn internal_samples(samples: Seq<Sample>, channels: usize) -> Seq<Sample> {
    normalized(samples, channels as int, INTERNAL_CHANNELS as int)
}

impl DecodeView {
    pub open spec fn with_phase(self, phase: DecodePhaseView) -> DecodeView {
        DecodeView { phase, ..self }
    }

    pub open spec fn with_accum(self, accum: Seq<Sample>) -> DecodeView {
        DecodeView { accum, ..self }
    }

    pub open spec fn with_rate(self, rate: u32) -> DecodeView {
        DecodeView { current_rate: Some(rate), ..self }
    }

    /// A session for one track that has done nothing yet.
    pub open spec fn initial(track: u32) -> DecodeView {
        DecodeView {
            track,
            accum: Seq::empty(),
            current_rate: None,
            phase: DecodePhaseView::Polling,
        }
    }

    /// What every session keeps: the resampler's input buffer is bounded, and
    /// a resampler exists only for a rate that is not the internal one.
    pub open spec fn consistent(self) -> bool {
        &&& self.accum.len() <= ACCUM_MAX_SAMPLES
        &&& self.current_rate != Some(INTERNAL_SAMPLE_RATE)
        &&& self.phase matches DecodePhaseView::Building { rate, channels, .. } ==> rate
            != INTERNAL_SAMPLE_RATE && channels > 0
    }

    pub open spec fn poll(self) -> DecodeReaction {
        (self.with_phase(DecodePhaseView::Polling), DecodeStepView::Poll)
    }

    pub open spec fn finish(self, outcome: Result<(), DecodeError>) -> DecodeReaction {
        (self.with_phase(DecodePhaseView::Finished), DecodeStepView::Finish(outcome))
    }

    /// Add decoded samples to the resampler's input buffer, unless it would
    /// grow beyond its maximum.
    pub open spec fn feed(self, samples: Seq<Sample>, channels: usize) -> DecodeView {
        let added = internal_samples(samples, channels);
        if self.accum.len() + added.len() <= ACCUM_MAX_SAMPLES {
            self.with_accum(self.accum + added)
        } else {
            self
        }
    }

    /// Hand the resampler its next chunk, or go on when there is none. If
    /// `pad`, all that waits goes through in chunks, the last one filled up
    /// with silence, and the session ends when nothing waits any more.
    pub open spec fn flush(self, pad: bool, needed: nat) -> DecodeReaction {
        if pad && self.accum.len() == 0 {
            self.finish(Ok(()))
        } else {
            match next_chunk(self.accum, needed, pad) {
                Some((chunk, rest)) => (
                    self.with_accum(rest).with_phase(DecodePhaseView::Resampling { pad }),
                    DecodeStepView::Resample(chunk),
                ),
                None => self.poll(),
            }
        }
    }

    /// No packet follows: resample what is left, then end.
    pub open spec fn wind_up(self, needed: nat) -> DecodeReaction {
        if self.current_rate is Some {
            self.flush(true, needed)
        } else {
            self.finish(Ok(()))
        }
    }

    /// The reaction to the samples of a packet.
    pub open spec fn on_decoded(
        self,
        rate: u32,
        channels: usize,
        samples: Seq<Sample>,
        needed: nat,
    ) -> DecodeReaction {
        if rate == INTERNAL_SAMPLE_RATE {
            (
                self.with_phase(DecodePhaseView::PushingDirect),
                DecodeStepView::Push(internal_samples(samples, channels)),
            )
        } else if self.current_rate != Some(rate) {
            (
                self.with_accum(Seq::empty()).with_phase(
                    DecodePhaseView::Building { rate, channels, samples },
                ),
                DecodeStepView::Build(rate),
            )
        } else {
            self.feed(samples, channels).flush(false, needed)
        }
    }

    /// The reaction to any event, where the resampler takes `needed` samples
    /// next. An event that answers no step changes nothing.
    pub open spec fn react(self, event: DecodeEventView, needed: nat) -> DecodeReaction {
        match (self.phase, event) {
            (DecodePhaseView::Polling, DecodeEventView::Shutdown) => self.wind_up(needed),
            (DecodePhaseView::Polling, DecodeEventView::EndOfStream) => self.wind_up(needed),
            (DecodePhaseView::Polling, DecodeEventView::Packet(track)) => if track == self.track {
                (self.with_phase(DecodePhaseView::Decoding), DecodeStepView::Decode)
            } else {
                self.poll()
            },
            (DecodePhaseView::Decoding, DecodeEventView::Corrupt) => self.poll(),
            (DecodePhaseView::Decoding, DecodeEventView::Failed) => self.finish(
                Err(DecodeError::Decode),
            ),
            (
                DecodePhaseView::Decoding,
                DecodeEventView::Decoded { rate, channels, samples },
            ) => self.on_decoded(rate, channels, samples, needed),
            (DecodePhaseView::PushingDirect, DecodeEventView::Pushed(_)) => self.poll(),
            (
                DecodePhaseView::Building { rate, channels, samples },
                DecodeEventView::Built(ok),
            ) => if ok {
                self.with_rate(rate).feed(samples, channels).flush(false, needed)
            } else {
                self.finish(Err(DecodeError::Decoder))
            },
            (
                DecodePhaseView::Resampling { pad },
                DecodeEventView::Resampled(output),
            ) => match output {
                Some(samples) => (
                    self.with_phase(DecodePhaseView::PushingChunk { pad }),
                    DecodeStepView::Push(samples),
                ),
                None => self.flush(pad, needed),
            },
            (
                DecodePhaseView::PushingChunk { pad },
                DecodeEventView::Pushed(complete),
            ) => if complete {
                self.flush(pad, needed)
            } else {
                self.finish(Ok(()))
            },
            _ => (self, DecodeStepView::Unexpected),
        }
    }
}

/// An event that can happen: decoded audio has at least one channel.
pub open spec fn possible(event: DecodeEventView) -> bool {
    event matches DecodeEventView::Decoded { channels, .. } ==> channels > 0
}

/// The progress of decoding one track of a media file.
#[derive(Debug)]
pub struct DecodeSession {
    track: u32,
    accum: Vec<Sample>,
    current_rate: Option<u32>,
    phase: DecodePhase,
}

impl View for DecodeSession {
    type V = DecodeView;

    closed spec fn view(&self) -> DecodeView {
        DecodeView {
            track: self.track,
            accum: self.accum@,
            current_rate: self.current_rate,
            phase: self.phase.view(),
        }
    }
}

impl DecodeSession {
    /// A session for one track. Its first step is [`DecodeStep::Poll`].
    pub fn new(track: u32) -> (session: Self)
        ensures
            session@ == DecodeView::initial(track),
            session@.consistent(),
    {
        DecodeSession {
            track,
            accum: Vec::new(),
            current_rate: None,
            phase: DecodePhase::Polling,
        }
    }

    /// Take one event and answer with the next step. The resampler, if there
    /// is one, takes `needed_frames` frames next.
    pub fn advance(&mut self, event: DecodeEvent, needed_frames: usize) -> (step: DecodeStep)
        requires
            old(self)@.consistent(),
            possible(event@),
            needed_frames * INTERNAL_CHANNELS <= usize::MAX,
        ensures
            (final(self)@, step@) == old(self)@.react(
                event@,
                (needed_frames * INTERNAL_CHANNELS) as nat,
            ),
            final(self)@.consistent(),
    {
        let needed: usize = needed_frames * INTERNAL_CHANNELS as usize;
        let mut phase = DecodePhase::Finished;
        core::mem::swap(&mut phase, &mut self.phase);
        match (phase, event) {
            (DecodePhase::Polling, DecodeEvent::Shutdown) => self.wind_up(needed),
            (DecodePhase::Polling, DecodeEvent::EndOfStream) => self.wind_up(needed),
            (DecodePhase::Polling, DecodeEvent::Packet(track)) => {
                if track == self.track {
                    self.phase = DecodePhase::Decoding;
                    DecodeStep::Decode
                } else {
                    self.phase = DecodePhase::Polling;
                    DecodeStep::Poll
                }
            },
            (DecodePhase::Decoding, DecodeEvent::Corrupt) => {
                self.phase = DecodePhase::Polling;
                DecodeStep::Poll
            },
            (DecodePhase::Decoding, DecodeEvent::Failed) => {
                DecodeStep::Finish(Err(DecodeError::Decode))
            },
            (DecodePhase::Decoding, DecodeEvent::Decoded { rate, channels, samples }) => {
                self.on_decoded(rate, channels, samples, needed)
            },
            (DecodePhase::PushingDirect, DecodeEvent::Pushed(_)) => {
                self.phase = DecodePhase::Polling;
                DecodeStep::Poll
            },
            (DecodePhase::Building { rate, channels, samples }, DecodeEvent::Built(ok)) => {
                if ok {
                    self.current_rate = Some(rate);
                    self.feed(samples.as_slice(), channels);
                    self.flush(false, needed)
                } else {
                    DecodeStep::Finish(Err(DecodeError::Decoder))
                }
            },
            (DecodePhase::Resampling { pad }, DecodeEvent::Resampled(output)) => {
                match output {
                    Some(samples) => {
                        self.phase = DecodePhase::PushingChunk { pad };
                        DecodeStep::Push(samples)
                    },
                    None => self.flush(pad, needed),
                }
            },
            (DecodePhase::PushingChunk { pad }, DecodeEvent::Pushed(complete)) => {
                if complete {
                    self.flush(pad, needed)
                } else {
                    DecodeStep::Finish(Ok(()))
                }
            },
            (phase, _) => {
                self.phase = phase;
                DecodeStep::Unexpected
            },
        }
    }

    /// Add decoded samples to the resampler's input buffer, unless it would
    /// grow beyond its maximum.
    fn feed(&mut self, samples: &[Sample], channels: usize)
        requires
            old(self)@.consistent(),
            channels > 0,
        ensures
            final(self)@ == old(self)@.feed(samples@, channels),
    {
        let mut added: Vec<Sample> = Vec::new();
        normalize_into(samples, channels, INTERNAL_CHANNELS as usize, &mut added);
        assert(added@ =~= internal_samples(samples@, channels));
        if added.len() <= ACCUM_MAX_SAMPLES - self.accum.len() {
            self.accum.append(&mut added);
        }
    }

    /// Hand the resampler its next chunk, or go on when there is none; if
    /// `pad`, end when nothing waits any more.
    fn flush(&mut self, pad: bool, needed: usize) -> (step: DecodeStep)
        ensures
            (final(self)@, step@) == old(self)@.flush(pad, needed as nat),
    {
        if pad && self.accum.len() == 0 {
            self.phase = DecodePhase::Finished;
            return DecodeStep::Finish(Ok(()));
        }
        match take_chunk(&mut self.accum, needed, pad) {
            Some(chunk) => {
                self.phase = DecodePhase::Resampling { pad };
                DecodeStep::Resample(chunk)
            },
            None => {
                self.phase = DecodePhase::Polling;
                DecodeStep::Poll
            },
        }
    }

    /// No packet follows: resample what is left, then end.
    fn wind_up(&mut self, needed: usize) -> (step: DecodeStep)
        ensures
            (final(self)@, step@) == old(self)@.wind_up(needed as nat),
    {
        if self.current_rate.is_some() {
            self.flush(true, needed)
        } else {
            self.phase = DecodePhase::Finished;
            DecodeStep::Finish(Ok(()))
        }
    }

    /// The reaction to the samples of a packet.
    fn on_decoded(
        &mut self,
        rate: u32,
        channels: usize,
        samples: Vec<Sample>,
        needed: usize,
    ) -> (step: DecodeStep)
        requires
            old(self)@.consistent(),
            channels > 0,
        ensures
            (final(self)@, step@) == old(self)@.on_decoded(
                rate,
                channels,
                samples@,
                needed as nat,
            ),
    {
        if rate == INTERNAL_SAMPLE_RATE {
            let mut direct: Vec<Sample> = Vec::new();
            normalize_into(
                samples.as_slice(),
                channels,
                INTERNAL_CHANNELS as usize,
                &mut direct,
            );
            assert(direct@ =~= internal_samples(samples@, channels));
            self.phase = DecodePhase::PushingDirect;
            return DecodeStep::Push(direct);
        }
        let ready = match self.current_rate {
            Some(current) => current == rate,
            None => false,
        };
        if ready {
            self.feed(samples.as_slice(), channels);
            self.flush(false, needed)
        } else {
            self.accum.clear();
            self.phase = DecodePhase::Building { rate, channels, samples };
            DecodeStep::Build(rate)
        }
    }
}

} // verus!

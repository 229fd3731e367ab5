//! Laws that say of every event what comes of it, in terms of the session before
//! and after and of the step, and what runs of events come to.

use vstd::prelude::*;

use super::laws::{last_step, queued, run, to_push, Happening};
use super::{
    error_text, next_chunk, worth_another_decoder, DecodeError, DecodeEvent, DecodeEventView,
    DecodePhaseView, DecodeStep, DecodeStepView, DecodeView,
};
use crate::audio::normalize::normalized;
use crate::audio::Sample;

verus! {

/// A fresh session reads packets of its track, and nothing waits.
pub proof fn law_fresh_session_polls(track: u32)
    ensures
        ({
            let fresh = DecodeView::initial(track);
            &&& fresh.track == track
            &&& fresh.accum.len() == 0
            &&& fresh.current_rate is None
            &&& fresh.phase == DecodePhaseView::Polling
        }),
{
}

/// Whether samples that wait are handed to the resampler as they should be. A
/// whole chunk is handed on as soon as one waits. At the end whatever waits is
/// handed on, filled up with silence, and only then the session ends.
pub open spec fn hands_on(
    waiting: Seq<Sample>,
    needed: nat,
    pad: bool,
    next: DecodeView,
    step: DecodeStepView,
) -> bool {
    let more = if pad {
        waiting.len() > 0
    } else {
        waiting.len() >= needed
    };
    if more {
        &&& next.phase == (DecodePhaseView::Resampling { pad })
        &&& step matches DecodeStepView::Resample(chunk) && {
            &&& chunk.len() == needed
            &&& waiting.is_prefix_of(chunk + next.accum)
            &&& next.accum.len() == if waiting.len() >= needed {
                waiting.len() - needed
            } else {
                0
            }
            &&& forall|i: int| waiting.len() <= i < needed ==> #[trigger] chunk[i] == 0
        }
    } else {
        &&& next.accum == waiting
        &&& if pad {
            &&& step == DecodeStepView::Finish(Ok(()))
            &&& next.phase == DecodePhaseView::Finished
        } else {
            &&& step == DecodeStepView::Poll
            &&& next.phase == DecodePhaseView::Polling
        }
    }
}

/// What waits after samples of one more packet were added, unless that would be
/// too much.
pub open spec fn joined(waiting: Seq<Sample>, samples: Seq<Sample>, channels: usize) -> Seq<
    Sample,
> {
    let added = normalized(samples, channels as int, 2);
    if waiting.len() + added.len() <= 960_000 {
        waiting + added
    } else {
        waiting
    }
}

proof fn lemma_flush(session: DecodeView, needed: nat, pad: bool)
    ensures
        hands_on(
            session.accum,
            needed,
            pad,
            session.flush(pad, needed).0,
            session.flush(pad, needed).1,
        ),
        session.flush(pad, needed).0.track == session.track,
        session.flush(pad, needed).0.current_rate == session.current_rate,
{
    let waiting = session.accum;
    if let Some((chunk, rest)) = next_chunk(waiting, needed, pad) {
        assert(waiting =~= (chunk + rest).take(waiting.len() as int));
    }
}

/// A packet of the track is decoded, one of another track is passed over; what
/// waits is not touched.
pub proof fn law_packets_of_the_track_are_decoded(session: DecodeView, track: u32, needed: nat)
    requires
        session.phase == DecodePhaseView::Polling,
    ensures
        ({
            let (next, step) = session.react(DecodeEventView::Packet(track), needed);
            &&& step == if track == session.track {
                DecodeStepView::Decode
            } else {
                DecodeStepView::Poll
            }
            &&& next.phase == if track == session.track {
                DecodePhaseView::Decoding
            } else {
                DecodePhaseView::Polling
            }
            &&& next.track == session.track
            &&& next.accum == session.accum
            &&& next.current_rate == session.current_rate
        }),
{
}

/// When packets end, or the session is asked to end between packets, what waits
/// for a resampler is sent through it before the session ends, and ends well.
pub proof fn law_ending_winds_up(session: DecodeView, event: DecodeEventView, needed: nat)
    requires
        session.phase == DecodePhaseView::Polling,
        event == DecodeEventView::EndOfStream || event == DecodeEventView::Shutdown,
    ensures
        ({
            let (next, step) = session.react(event, needed);
            if session.current_rate is Some {
                hands_on(session.accum, needed, true, next, step)
            } else {
                &&& step == DecodeStepView::Finish(Ok(()))
                &&& next.phase == DecodePhaseView::Finished
                &&& next.accum == session.accum
            }
        }),
{
    lemma_flush(session, needed, true);
}

/// A damaged packet is passed over; a decoder that gives up ends the session
/// with an error.
pub proof fn law_undecodable_packets(session: DecodeView, needed: nat)
    requires
        session.phase == DecodePhaseView::Decoding,
    ensures
        ({
            let (next, step) = session.react(DecodeEventView::Corrupt, needed);
            &&& step == DecodeStepView::Poll
            &&& next.phase == DecodePhaseView::Polling
            &&& next.track == session.track
            &&& next.accum == session.accum
            &&& next.current_rate == session.current_rate
        }),
        ({
            let (next, step) = session.react(DecodeEventView::Failed, needed);
            &&& step == DecodeStepView::Finish(Err(DecodeError::Decode))
            &&& next.phase == DecodePhaseView::Finished
        }),
{
}

/// Samples at 48 kHz go straight to the output, in two channels.
pub proof fn law_internal_rate_is_pushed(
    session: DecodeView,
    channels: usize,
    samples: Seq<Sample>,
    needed: nat,
)
    requires
        session.phase == DecodePhaseView::Decoding,
    ensures
        ({
            let event = DecodeEventView::Decoded { rate: 48_000, channels, samples };
            let (next, step) = session.react(event, needed);
            &&& step == DecodeStepView::Push(normalized(samples, channels as int, 2))
            &&& next.phase == DecodePhaseView::PushingDirect
            &&& next.track == session.track
            &&& next.accum == session.accum
            &&& next.current_rate == session.current_rate
        }),
{
}

/// Samples at another rate than those before wait until a resampler for their
/// rate is made; what waited for the old one is dropped. If none can be made,
/// the session ends with an error. Otherwise the samples, in two channels, are
/// the first to wait for it.
pub proof fn law_new_rate_gets_a_resampler(
    session: DecodeView,
    rate: u32,
    channels: usize,
    samples: Seq<Sample>,
    needed: nat,
    later: nat,
)
    requires
        session.phase == DecodePhaseView::Decoding,
        rate != 48_000,
        session.current_rate != Some(rate),
    ensures
        ({
            let event = DecodeEventView::Decoded { rate, channels, samples };
            let (building, step) = session.react(event, needed);
            let (failed, failed_step) = building.react(DecodeEventView::Built(false), later);
            let (next, next_step) = building.react(DecodeEventView::Built(true), later);
            &&& step == DecodeStepView::Build(rate)
            &&& building.accum.len() == 0
            &&& failed_step == DecodeStepView::Finish(Err(DecodeError::Decoder))
            &&& failed.phase == DecodePhaseView::Finished
            &&& next.track == session.track
            &&& next.current_rate == Some(rate)
            &&& hands_on(joined(Seq::empty(), samples, channels), later, false, next, next_step)
        }),
{
    let event = DecodeEventView::Decoded { rate, channels, samples };
    let building = session.react(event, needed).0;
    lemma_flush(building.with_rate(rate).feed(samples, channels), later, false);
    assert(building.with_rate(rate).feed(samples, channels).accum =~= joined(
        Seq::empty(),
        samples,
        channels,
    ));
}

/// Samples at the rate of those before join what waits, in two channels.
pub proof fn law_same_rate_joins_what_waits(
    session: DecodeView,
    rate: u32,
    channels: usize,
    samples: Seq<Sample>,
    needed: nat,
)
    requires
        session.phase == DecodePhaseView::Decoding,
        rate != 48_000,
        session.current_rate == Some(rate),
    ensures
        ({
            let event = DecodeEventView::Decoded { rate, channels, samples };
            let (next, step) = session.react(event, needed);
            &&& hands_on(joined(session.accum, samples, channels), needed, false, next, step)
            &&& next.track == session.track
            &&& next.current_rate == Some(rate)
        }),
{
    lemma_flush(session.feed(samples, channels), needed, false);
}

/// All that the resampler makes of a chunk is pushed, as it is. A chunk on
/// which it fails is passed over, and the next one is handed on.
pub proof fn law_resampled_samples_are_pushed(
    session: DecodeView,
    pad: bool,
    output: Option<Seq<Sample>>,
    needed: nat,
)
    requires
        session.phase == (DecodePhaseView::Resampling { pad }),
    ensures
        ({
            let (next, step) = session.react(DecodeEventView::Resampled(output), needed);
            &&& match output {
                Some(samples) => {
                    &&& step == DecodeStepView::Push(samples)
                    &&& next.phase == (DecodePhaseView::PushingChunk { pad })
                    &&& next.accum == session.accum
                },
                None => hands_on(session.accum, needed, pad, next, step),
            }
            &&& next.track == session.track
            &&& next.current_rate == session.current_rate
        }),
{
    lemma_flush(session, needed, pad);
}

/// After a push of resampled samples the next chunk is handed on, unless the
/// session is asked to end, which it then does, and well. After a push of
/// samples at the internal rate the next packet is read in any case.
pub proof fn law_pushes_go_on(session: DecodeView, complete: bool, needed: nat)
    ensures
        ({
            let (next, step) = session.react(DecodeEventView::Pushed(complete), needed);
            match session.phase {
                DecodePhaseView::PushingDirect => {
                    &&& step == DecodeStepView::Poll
                    &&& next.phase == DecodePhaseView::Polling
                    &&& next.track == session.track
                    &&& next.accum == session.accum
                    &&& next.current_rate == session.current_rate
                },
                DecodePhaseView::PushingChunk { pad } => if complete {
                    &&& hands_on(session.accum, needed, pad, next, step)
                    &&& next.track == session.track
                    &&& next.current_rate == session.current_rate
                } else {
                    &&& step == DecodeStepView::Finish(Ok(()))
                    &&& next.phase == DecodePhaseView::Finished
                },
                _ => {
                    &&& step == DecodeStepView::Unexpected
                    &&& next == session
                },
            }
        }),
{
    lemma_flush(session, needed, true);
    lemma_flush(session, needed, false);
}

/// The output of an event: what a packet at 48 kHz held, in two channels, or
/// what the resampler made of a chunk.
pub open spec fn output_of(event: DecodeEventView) -> Seq<Sample> {
    match event {
        DecodeEventView::Decoded { rate, channels, samples } => if rate == 48_000 {
            normalized(samples, channels as int, 2)
        } else {
            Seq::empty()
        },
        DecodeEventView::Resampled(Some(samples)) => samples,
        _ => Seq::empty(),
    }
}

/// The outputs of all events, in order.
pub open spec fn all_output(happenings: Seq<Happening>) -> Seq<Sample>
    decreases happenings.len(),
{
    if happenings.len() == 0 {
        Seq::empty()
    } else {
        output_of(happenings[0].0) + all_output(happenings.drop_first())
    }
}

/// Whether every event answers the step before it and no push is cut short.
pub open spec fn uncut(session: DecodeView, happenings: Seq<Happening>) -> bool
    decreases happenings.len(),
{
    happenings.len() == 0 || {
        let (event, needed) = happenings[0];
        let (next, step) = session.react(event, needed);
        &&& step != DecodeStepView::Unexpected
        &&& event != DecodeEventView::Pushed(false)
        &&& uncut(next, happenings.drop_first())
    }
}

/// Whether a step is the one that a session waits for, as far as pushing goes.
pub open spec fn awaited(session: DecodeView, step: DecodeStepView) -> bool {
    let pushing = match session.phase {
        DecodePhaseView::PushingDirect => true,
        DecodePhaseView::PushingChunk { .. } => true,
        _ => false,
    };
    pushing == (step matches DecodeStepView::Push(_))
}

/// Nothing of the output is lost, repeated, changed or reordered on its way: over
/// any run in which no push is cut short, what goes into the queue, followed by
/// what is just being pushed, is what was just being pushed at first, followed
/// by the outputs of all events in order.
pub proof fn law_output_reaches_the_queue(
    session: DecodeView,
    step: DecodeStepView,
    happenings: Seq<Happening>,
    partial: nat,
)
    requires
        uncut(session, happenings),
        awaited(session, step),
    ensures
        queued(session, step, happenings, partial) + to_push(last_step(session, step, happenings))
            == to_push(step) + all_output(happenings),
    decreases happenings.len(),
{
    if happenings.len() == 0 {
        assert(Seq::<Sample>::empty() + to_push(step) =~= to_push(step) + Seq::<Sample>::empty());
    } else {
        let (event, needed) = happenings[0];
        let (next, next_step) = session.react(event, needed);
        let rest = happenings.drop_first();
        law_output_reaches_the_queue(next, next_step, rest, partial);
        let later = queued(next, next_step, rest, partial);
        let last = to_push(last_step(next, next_step, rest));
        let now = to_push(step);
        let added = to_push(next_step);
        let outputs = all_output(rest);
        assert(now + later + last =~= now + (later + last));
        assert(now + (added + outputs) =~= now + added + outputs);
        assert(Seq::<Sample>::empty() + outputs =~= outputs);
        assert(Seq::<Sample>::empty() + later =~= later);
        assert(Seq::<Sample>::empty() + (added + outputs) =~= added + outputs);
        if now.len() == 0 {
            assert(now =~= Seq::<Sample>::empty());
        }
    }
}

/// From a fresh session on, everything that is put out reaches the queue.
pub proof fn law_session_pushes_its_output(track: u32, happenings: Seq<Happening>, partial: nat)
    requires
        uncut(DecodeView::initial(track), happenings),
    ensures
        ({
            let fresh = DecodeView::initial(track);
            let step = DecodeStepView::Poll;
            queued(fresh, step, happenings, partial) + to_push(last_step(fresh, step, happenings))
                == all_output(happenings)
        }),
{
    let outputs = all_output(happenings);
    law_output_reaches_the_queue(
        DecodeView::initial(track),
        DecodeStepView::Poll,
        happenings,
        partial,
    );
    assert(Seq::<Sample>::empty() + outputs =~= outputs);
}

/// A chunk is handed out exactly when enough waits, or, at the end, when
/// anything waits. It has the size that is asked for, begins with what waits,
/// and holds nothing else but silence; what is not in it stays.
pub proof fn law_chunk_is_cut_off(accum: Seq<Sample>, needed: nat, pad: bool)
    ensures
        next_chunk(accum, needed, pad) is Some <==> accum.len() >= needed || pad && accum.len()
            > 0,
        next_chunk(accum, needed, pad) matches Some((chunk, rest)) ==> {
            &&& chunk.len() == needed
            &&& forall|i: int| 0 <= i < needed ==> #[trigger] chunk[i] == if i < accum.len() {
                accum[i]
            } else {
                0
            }
            &&& rest.len() == if accum.len() >= needed {
                accum.len() - needed
            } else {
                0
            }
            &&& forall|i: int| 0 <= i < rest.len() ==> #[trigger] rest[i] == accum[needed + i]
        },
{
}

/// The track of a session never changes.
pub proof fn law_track_is_kept(session: DecodeView, happenings: Seq<Happening>)
    ensures
        run(session, happenings).track == session.track,
    decreases happenings.len(),
{
    if happenings.len() > 0 {
        let (event, needed) = happenings[0];
        law_track_is_kept(session.react(event, needed).0, happenings.drop_first());
    }
}

/// An event that answers no step changes nothing: one that does not belong to
/// what the session waits for.
pub proof fn law_stray_events_do_nothing(session: DecodeView, event: DecodeEventView, needed: nat)
    requires
        match (session.phase, event) {
            (DecodePhaseView::Polling, DecodeEventView::Shutdown) => false,
            (DecodePhaseView::Polling, DecodeEventView::EndOfStream) => false,
            (DecodePhaseView::Polling, DecodeEventView::Packet(_)) => false,
            (DecodePhaseView::Decoding, DecodeEventView::Decoded { .. }) => false,
            (DecodePhaseView::Decoding, DecodeEventView::Corrupt) => false,
            (DecodePhaseView::Decoding, DecodeEventView::Failed) => false,
            (DecodePhaseView::PushingDirect, DecodeEventView::Pushed(_)) => false,
            (DecodePhaseView::PushingChunk { .. }, DecodeEventView::Pushed(_)) => false,
            (DecodePhaseView::Building { .. }, DecodeEventView::Built(_)) => false,
            (DecodePhaseView::Resampling { .. }, DecodeEventView::Resampled(_)) => false,
            _ => true,
        },
    ensures
        session.react(event, needed) == (session, DecodeStepView::Unexpected),
{
}

/// What an event stands for is the same event, with the same samples.
pub proof fn law_events_are_what_they_say(event: DecodeEvent)
    ensures
        match event {
            DecodeEvent::Shutdown => event@ == DecodeEventView::Shutdown,
            DecodeEvent::EndOfStream => event@ == DecodeEventView::EndOfStream,
            DecodeEvent::Packet(track) => event@ == DecodeEventView::Packet(track),
            DecodeEvent::Decoded { rate, channels, samples } => event@ == (
                DecodeEventView::Decoded { rate, channels, samples: samples@ }),
            DecodeEvent::Corrupt => event@ == DecodeEventView::Corrupt,
            DecodeEvent::Failed => event@ == DecodeEventView::Failed,
            DecodeEvent::Built(ok) => event@ == DecodeEventView::Built(ok),
            DecodeEvent::Resampled(Some(samples)) => event@ == DecodeEventView::Resampled(
                Some(samples@),
            ),
            DecodeEvent::Resampled(None) => event@ == DecodeEventView::Resampled(None),
            DecodeEvent::Pushed(complete) => event@ == DecodeEventView::Pushed(complete),
        },
{
}

/// What a step stands for is the same step, with the same samples.
pub proof fn law_steps_are_what_they_say(step: DecodeStep)
    ensures
        match step {
            DecodeStep::Poll => step@ == DecodeStepView::Poll,
            DecodeStep::Decode => step@ == DecodeStepView::Decode,
            DecodeStep::Push(samples) => step@ == DecodeStepView::Push(samples@),
            DecodeStep::Build(rate) => step@ == DecodeStepView::Build(rate),
            DecodeStep::Resample(chunk) => step@ == DecodeStepView::Resample(chunk@),
            DecodeStep::Finish(outcome) => step@ == DecodeStepView::Finish(outcome),
            DecodeStep::Unexpected => step@ == DecodeStepView::Unexpected,
        },
{
}

/// Media that is not understood is tried with FFmpeg: its format, its tracks or
/// its codec. What cannot be fetched, opened or decoded to its end is not.
pub proof fn law_unknown_media_gets_another_try(error: DecodeError)
    ensures
        match error {
            DecodeError::Probe | DecodeError::NoTrack | DecodeError::Decoder => {
                worth_another_decoder(error)
            },
            DecodeError::Http | DecodeError::File | DecodeError::Decode => {
                !worth_another_decoder(error)
            },
        },
{
}

/// Every error has its own words.
pub proof fn law_errors_are_told_apart(error: DecodeError)
    ensures
        match error {
            DecodeError::Http => error_text(error) == "failed to fetch URL"@,
            DecodeError::File => error_text(error) == "failed to open file"@,
            DecodeError::Probe => error_text(error) == "failed to probe format"@,
            DecodeError::NoTrack => error_text(error) == "no audio track"@,
            DecodeError::Decoder => error_text(error) == "failed to initialize decoder"@,
            DecodeError::Decode => error_text(error) == "decode failed"@,
        },
{
}

} // verus!

//! The output side: choosing a device format, the queue in front of the
//! device, and when the device plays from it.

use vstd::prelude::*;

use super::samples::{
    allocatable, consumer_available, consumer_capacity, consumer_checks, consumer_looks,
    consumer_queue, consumer_refusals, follows_queue, producer_capacity, producer_queue,
    SampleConsumer, SampleProducer, SampleRing,
};
use super::{
    AudioFormat, Sample, SampleFormat, INTERNAL_BUFFER_SECONDS, INTERNAL_CHANNELS,
    INTERNAL_SAMPLE_RATE, PREBUFFER_MS, SILENCE,
};

verus! {

/// A range of formats that a device offers.
#[derive(Clone, Copy, Debug)]
pub struct OutputConfig {
    pub channels: u16,
    pub min_sample_rate: u32,
    pub max_sample_rate: u32,
    pub sample_format: SampleFormat,
}

/// Why there is no output.
#[derive(Clone, Copy, Debug, PartialEq, Eq, Structural)]
pub enum OutputError {
    /// The device offers nothing that the player can write.
    NoCompatibleFormat,
}

/// Whether the player can write this encoding.
pub open spec fn writable(format: SampleFormat) -> bool {
    format == SampleFormat::F32 || format == SampleFormat::I16 || format == SampleFormat::U16
}

/// Whether a device range holds the internal rate and channel count.
pub open spec fn matches_internal(config: OutputConfig) -> bool {
    &&& writable(config.sample_format)
    &&& config.channels == INTERNAL_CHANNELS
    &&& config.min_sample_rate <= INTERNAL_SAMPLE_RATE <= config.max_sample_rate
}

/// The first position, from `from` on, of a range with a property.
pub open spec fn first_from(
    configs: Seq<OutputConfig>,
    property: spec_fn(OutputConfig) -> bool,
    from: int,
) -> Option<int>
    decreases configs.len() - from,
{
    if from >= configs.len() {
        None
    } else if property(configs[from]) {
        Some(from)
    } else {
        first_from(configs, property, from + 1)
    }
}

/// The format to use of those that a device offers: the internal rate on the
/// first range that matches the internal format; failing that, the highest
/// rate of the first range that can be written at all.
pub open spec fn best_format(supported: Seq<OutputConfig>) -> Option<AudioFormat> {
    match first_from(supported, |c: OutputConfig| matches_internal(c), 0) {
        Some(i) => Some(
            AudioFormat {
                channels: supported[i].channels,
                sample_rate: INTERNAL_SAMPLE_RATE,
                sample_format: supported[i].sample_format,
            },
        ),
        None => match first_from(supported, |c: OutputConfig| writable(c.sample_format), 0) {
            Some(i) => Some(
                AudioFormat {
                    channels: supported[i].channels,
                    sample_rate: supported[i].max_sample_rate,
                    sample_format: supported[i].sample_format,
                },
            ),
            None => None,
        },
    }
}

/// Whether the player can write this encoding.
fn is_writable(format: SampleFormat) -> (yes: bool)
    ensures
        yes == writable(format),
{
    format == SampleFormat::F32 || format == SampleFormat::I16 || format == SampleFormat::U16
}

/// Choose the format to use of those that a device offers.
pub fn select_output_format(supported: &Vec<OutputConfig>) -> (format: Result<
    AudioFormat,
    OutputError,
>)
    ensures
        match best_format(supported@) {
            Some(best) => format == Ok::<AudioFormat, OutputError>(best),
            None => format == Err::<AudioFormat, OutputError>(OutputError::NoCompatibleFormat),
        },
{
    let ghost exact = |c: OutputConfig| matches_internal(c);
    let ghost any = |c: OutputConfig| writable(c.sample_format);
    let mut i: usize = 0;
    while i < supported.len()
        invariant
            i <= supported@.len(),
            exact == (|c: OutputConfig| matches_internal(c)),
            first_from(supported@, exact, 0) == first_from(supported@, exact, i as int),
        decreases supported@.len() - i,
    {
        let config = supported[i];
        if is_writable(config.sample_format) && config.channels == INTERNAL_CHANNELS {
            if INTERNAL_SAMPLE_RATE >= config.min_sample_rate && INTERNAL_SAMPLE_RATE
                <= config.max_sample_rate {
                return Ok(
                    AudioFormat::new(config.channels, INTERNAL_SAMPLE_RATE, config.sample_format),
                );
            }
        }
        i = i + 1;
    }
    let mut k: usize = 0;
    while k < supported.len()
        invariant
            k <= supported@.len(),
            exact == (|c: OutputConfig| matches_internal(c)),
            any == (|c: OutputConfig| writable(c.sample_format)),
            first_from(supported@, exact, 0) is None,
            first_from(supported@, any, 0) == first_from(supported@, any, k as int),
        decreases supported@.len() - k,
    {
        let config = supported[k];
        if is_writable(config.sample_format) {
            return Ok(
                AudioFormat::new(config.channels, config.max_sample_rate, config.sample_format),
            );
        }
        k = k + 1;
    }
    Err(OutputError::NoCompatibleFormat)
}

/// Samples in a few seconds of audio of this rate and channel count.
pub open spec fn buffered_samples(sample_rate: u32, channels: u16) -> int {
    sample_rate * channels * INTERNAL_BUFFER_SECONDS
}

/// How many samples the queue in front of a device is made for: enough in the
/// internal format and in the device's own.
pub open spec fn audio_buffer_capacity(device_format: AudioFormat) -> int {
    let internal = buffered_samples(INTERNAL_SAMPLE_RATE, INTERNAL_CHANNELS);
    let device = buffered_samples(device_format.sample_rate, device_format.channels);
    if internal >= device {
        internal
    } else {
        device
    }
}

/// The empty queue in front of a device, as its two ends.
pub fn create_audio_buffer(device_format: &AudioFormat) -> (ends: (SampleProducer, SampleConsumer))
    requires
        allocatable(audio_buffer_capacity(*device_format)),
    ensures
        producer_capacity(ends.0) == audio_buffer_capacity(*device_format),
        consumer_capacity(ends.1) == audio_buffer_capacity(*device_format),
        ends.0@ == Seq::<Sample>::empty(),
        ends.1@ == Seq::<Sample>::empty(),
        producer_queue(ends.0) == consumer_queue(ends.1),
{
    let capacity: usize = INTERNAL_SAMPLE_RATE as usize * INTERNAL_CHANNELS as usize
        * INTERNAL_BUFFER_SECONDS;
    let ghost frames = device_format.sample_rate * device_format.channels;
    assert(0 <= frames) by (nonlinear_arith)
        requires
            frames == device_format.sample_rate * device_format.channels,
    ;
    let device_capacity: usize = device_format.sample_rate as usize
        * device_format.channels as usize * INTERNAL_BUFFER_SECONDS;
    let larger: usize = if capacity >= device_capacity {
        capacity
    } else {
        device_capacity
    };
    SampleRing::new(larger).split()
}

/// Samples that have to be queued before playing starts.
pub open spec fn prebuffer_samples() -> int {
    INTERNAL_SAMPLE_RATE * INTERNAL_CHANNELS * PREBUFFER_MS / 1000
}

/// What a history has gained.
pub open spec fn new_items<T>(before: Seq<T>, after: Seq<T>) -> Seq<T> {
    after.skip(before.len() as int)
}

/// Most samples that one flush pops.
pub const FLUSH_LIMIT: u64 = 0xffff_ffff_ffff_ffff;

/// Whether popping went on until the queue was found empty, once, or to the
/// limit.
pub open spec fn runs_dry(taken: int, refusals: int) -> bool {
    ||| refusals == 1
    ||| refusals == 0 && taken == FLUSH_LIMIT
}

/// One poll of a device: what is before and after it, what was seen in the
/// queue, what was taken out of it, and whether the device plays.
#[verifier::ext_equal]
pub struct PollTurn {
    pub before: PrebufferView,
    pub flush: bool,
    /// How many samples were in the queue each time they were counted.
    pub counts: Seq<nat>,
    /// Whether the queue was empty each time this was asked.
    pub checks: Seq<bool>,
    /// How many samples were taken out and not played.
    pub taken: int,
    /// How often a sample was asked for and the queue was found empty.
    pub refusals: int,
    pub plays: bool,
    pub after: PrebufferView,
}

impl PollTurn {
    /// Whether the queue is flushed as it should be, before the last count.
    pub open spec fn flushes(self) -> bool {
        if !self.flush {
            &&& self.counts.len() == 1
            &&& self.taken == 0
            &&& self.refusals == 0
        } else if self.before.takes_singles {
            &&& self.counts.len() == 2
            &&& self.taken == self.counts[0]
            &&& self.refusals == 0
        } else {
            &&& self.counts.len() == 1
            &&& runs_dry(self.taken, self.refusals)
        }
    }

    /// Whether the poll goes as it should.
    pub open spec fn proper(self) -> bool {
        &&& self.flushes()
        &&& self.checks.len() == 1
        &&& self.plays == self.before.plays(self.flush, self.checks.last(), self.counts.last())
        &&& self.after == (PrebufferView { is_buffering: !self.plays, ..self.before })
    }

    /// How many samples the flush found in the queue from the start of the poll
    /// on, with those that came while it went on.
    pub open spec fn found_by_flush(self) -> int {
        if self.before.takes_singles {
            self.counts[0] as int
        } else {
            self.taken
        }
    }

    /// Whether nothing was added to the queue between the flush and the last
    /// count.
    pub open spec fn still(self) -> bool {
        self.found_by_flush() == self.taken + self.counts.last()
    }
}

/// Whether the device plays from the queue or is silent until enough samples
/// have come in.
#[derive(Debug)]
pub struct Prebuffer {
    is_buffering: bool,
    takes_singles: bool,
}

/// The mathematical value of a [`Prebuffer`].
#[verifier::ext_equal]
pub struct PrebufferView {
    /// Whether samples are being collected.
    pub is_buffering: bool,
    /// Whether the device takes single-precision samples. Then an empty queue
    /// makes it collect samples again, and a flush skips as many samples as it
    /// counts. For another device a flush goes on until the queue is empty.
    pub takes_singles: bool,
}

impl View for Prebuffer {
    type V = PrebufferView;

    closed spec fn view(&self) -> PrebufferView {
        PrebufferView {
            is_buffering: self.is_buffering,
            takes_singles: self.takes_singles,
        }
    }
}

impl PrebufferView {
    /// Whether samples are to be collected, before looking at how many there
    /// are.
    pub open spec fn wants_more(self, flushed: bool, empty: bool) -> bool {
        self.is_buffering || flushed || self.takes_singles && empty
    }

    /// Whether the device plays.
    pub open spec fn plays(self, flushed: bool, empty: bool, occupied: nat) -> bool {
        !self.wants_more(flushed, empty) || occupied >= prebuffer_samples()
    }
}

impl Prebuffer {
    /// The state of a device that has not played yet. A device that takes
    /// single-precision samples collects anew whenever it runs dry; the others
    /// do so only when they are flushed.
    pub fn new(sample_format: SampleFormat) -> (prebuffer: Self)
        ensures
            prebuffer@ == (PrebufferView {
                is_buffering: true,
                takes_singles: sample_format == SampleFormat::F32,
            }),
    {
        Prebuffer { is_buffering: true, takes_singles: sample_format == SampleFormat::F32 }
    }

    /// Decide whether the device plays, given whether the queue was just
    /// flushed, whether it is empty, and how many samples are in it.
    pub fn decide(&mut self, flushed: bool, empty: bool, occupied: usize) -> (plays: bool)
        ensures
            plays == old(self)@.plays(flushed, empty, occupied as nat),
            final(self)@ == (PrebufferView { is_buffering: !plays, ..old(self)@ }),
    {
        if flushed {
            self.is_buffering = true;
        }
        if self.takes_singles && !self.is_buffering && empty {
            self.is_buffering = true;
        }
        if self.is_buffering {
            let rate: usize = INTERNAL_SAMPLE_RATE as usize;
            let channels: usize = INTERNAL_CHANNELS as usize;
            assert(rate * channels == 96_000 && rate * channels * 300 == 28_800_000)
                by (nonlinear_arith)
                requires
                    rate == 48_000,
                    channels == 2,
            ;
            let needed: usize = rate * channels * PREBUFFER_MS / 1000;
            if occupied >= needed {
                self.is_buffering = false;
            }
        }
        !self.is_buffering
    }

    /// Look at the queue, empty it first if it is to be flushed, and decide
    /// whether the device plays. A flush plays none of the samples that it
    /// takes out; without one the queue is left alone. Whether the device plays
    /// follows from whether the queue was then seen to be empty and from how
    /// many samples were counted in it last.
    pub fn poll(&mut self, flush: bool, consumer: &mut SampleConsumer) -> (plays: bool)
        ensures
            (PollTurn {
                before: old(self)@,
                flush,
                counts: new_items(
                    consumer_looks(*old(consumer)),
                    consumer_looks(*final(consumer)),
                ),
                checks: new_items(
                    consumer_checks(*old(consumer)),
                    consumer_checks(*final(consumer)),
                ),
                taken: final(consumer)@.len() - old(consumer)@.len(),
                refusals: consumer_refusals(*final(consumer)) - consumer_refusals(*old(consumer)),
                plays,
                after: final(self)@,
            }).proper(),
            consumer_available(*final(consumer)) == consumer_looks(*final(consumer)).last(),
            old(consumer)@.is_prefix_of(final(consumer)@),
            !flush ==> final(consumer)@ == old(consumer)@,
            consumer_looks(*old(consumer)).is_prefix_of(consumer_looks(*final(consumer))),
            consumer_checks(*old(consumer)).is_prefix_of(consumer_checks(*final(consumer))),
            consumer_capacity(*final(consumer)) == consumer_capacity(*old(consumer)),
            consumer_queue(*final(consumer)) == consumer_queue(*old(consumer)),
            follows_queue(old(consumer)@, consumer_queue(*old(consumer))) ==> follows_queue(
                final(consumer)@,
                consumer_queue(*old(consumer)),
            ),
    {
        let ghost looks = consumer_looks(*consumer);
        let ghost checks = consumer_checks(*consumer);
        assert(consumer@ =~= consumer@.take(consumer@.len() as int));
        if flush {
            if self.takes_singles {
                let seen = consumer.occupied_len();
                consumer.skip(seen);
            } else {
                pop_until_empty(consumer);
            }
        }
        let empty = consumer.is_empty();
        let occupied = consumer.occupied_len();
        assert(looks =~= consumer_looks(*consumer).take(looks.len() as int));
        assert(checks =~= consumer_checks(*consumer).take(checks.len() as int));
        self.decide(flush, empty, occupied)
    }
}

/// Take samples out of the queue until it is found empty, or until more were
/// taken out than come in a lifetime.
fn pop_until_empty(consumer: &mut SampleConsumer)
    ensures
        runs_dry(
            final(consumer)@.len() - old(consumer)@.len(),
            consumer_refusals(*final(consumer)) - consumer_refusals(*old(consumer)),
        ),
        old(consumer)@.is_prefix_of(final(consumer)@),
        consumer_looks(*final(consumer)) == consumer_looks(*old(consumer)),
        consumer_checks(*final(consumer)) == consumer_checks(*old(consumer)),
        consumer_capacity(*final(consumer)) == consumer_capacity(*old(consumer)),
        consumer_queue(*final(consumer)) == consumer_queue(*old(consumer)),
        follows_queue(old(consumer)@, consumer_queue(*old(consumer))) ==> follows_queue(
            final(consumer)@,
            consumer_queue(*old(consumer)),
        ),
{
    let mut popped: u64 = 0;
    assert(consumer@ =~= consumer@.take(consumer@.len() as int));
    while popped < FLUSH_LIMIT
        invariant_except_break
            consumer_refusals(*consumer) == consumer_refusals(*old(consumer)),
        invariant
            popped <= FLUSH_LIMIT,
            consumer@.len() == old(consumer)@.len() + popped,
            old(consumer)@.is_prefix_of(consumer@),
            consumer_looks(*consumer) == consumer_looks(*old(consumer)),
            consumer_checks(*consumer) == consumer_checks(*old(consumer)),
            consumer_capacity(*consumer) == consumer_capacity(*old(consumer)),
            consumer_queue(*consumer) == consumer_queue(*old(consumer)),
            follows_queue(old(consumer)@, consumer_queue(*old(consumer))) ==> follows_queue(
                consumer@,
                consumer_queue(*old(consumer)),
            ),
        ensures
            runs_dry(
                popped as int,
                consumer_refusals(*consumer) - consumer_refusals(*old(consumer)),
            ),
        decreases FLUSH_LIMIT - popped,
    {
        match consumer.try_pop() {
            Some(_) => {
                popped = popped + 1;
                assert(old(consumer)@ =~= consumer@.take(old(consumer)@.len() as int));
            },
            None => {
                break;
            },
        }
    }
}

/// Make no sound.
pub fn fill_silence(output: &mut [Sample])
    ensures
        final(output)@ == Seq::new(old(output)@.len(), |i: int| SILENCE),
{
    let size: usize = output.len();
    for i in 0..size
        invariant
            size == output@.len(),
            size == old(output)@.len(),
            forall|k: int| 0 <= k < i ==> #[trigger] output@[k] == SILENCE,
    {
        output[i] = SILENCE;
    }
    assert(output@ =~= Seq::new(old(output)@.len(), |i: int| SILENCE));
}

/// Whether a track has come to its end: the decoder has nothing more, and the
/// device could not be given all that it asked for, so that nothing more will
/// be played. A rest that is too short to start playing stays unplayed.
pub fn track_is_over(eof: bool, starved: bool) -> (over: bool)
    ensures
        over == (eof && starved),
{
    eof && starved
}

/// After a flush nothing is played before enough samples have come in again.
pub proof fn law_flush_silences(prebuffer: PrebufferView, empty: bool, occupied: nat)
    requires
        occupied < prebuffer_samples(),
    ensures
        !prebuffer.plays(true, empty, occupied),
{
}

/// A flush of a queue to which nothing is added leaves it empty and the device
/// silent, and the device then collects samples, whatever its encoding is.
pub proof fn law_flush_empties_a_still_queue(turn: PollTurn)
    requires
        turn.proper(),
        turn.flush,
        turn.still(),
    ensures
        turn.counts.last() == 0,
        !turn.plays,
        turn.after.is_buffering,
{
}

/// What a device looks at when it is polled: whether the queue is flushed,
/// whether it is empty, and how many samples are in it.
pub struct Sight {
    pub flushed: bool,
    pub empty: bool,
    pub occupied: nat,
}

/// What the state of a device becomes over a sequence of polls.
pub open spec fn after_polls(prebuffer: PrebufferView, sights: Seq<Sight>) -> PrebufferView
    decreases sights.len(),
{
    if sights.len() == 0 {
        prebuffer
    } else {
        let before = after_polls(prebuffer, sights.drop_last());
        let sight = sights.last();
        let plays = before.plays(sight.flushed, sight.empty, sight.occupied);
        PrebufferView { is_buffering: !plays, ..before }
    }
}

/// A device that collects samples, as after a flush, is silent at every poll
/// until enough samples are there.
pub proof fn law_silent_until_enough(prebuffer: PrebufferView, sights: Seq<Sight>)
    requires
        prebuffer.is_buffering,
        forall|i: int| 0 <= i < sights.len() ==> (#[trigger] sights[i]).occupied
            < prebuffer_samples(),
    ensures
        after_polls(prebuffer, sights).is_buffering,
    decreases sights.len(),
{
    if sights.len() > 0 {
        let earlier = sights.drop_last();
        assert forall|i: int| 0 <= i < earlier.len() implies (#[trigger] earlier[i]).occupied
            < prebuffer_samples() by {
            assert(earlier[i] == sights[i]);
        }
        law_silent_until_enough(prebuffer, earlier);
        assert(sights[sights.len() - 1].occupied < prebuffer_samples());
    }
}

/// A device that plays goes on playing while the queue is neither flushed nor
/// empty, however little is in it.
pub proof fn law_playing_goes_on(prebuffer: PrebufferView, occupied: nat)
    requires
        !prebuffer.is_buffering,
    ensures
        prebuffer.plays(false, false, occupied),
{
}

/// A chosen format is one that the device offers and the player can write.
pub proof fn law_chosen_format_is_offered(supported: Seq<OutputConfig>)
    ensures
        best_format(supported) matches Some(format) ==> writable(format.sample_format) && exists|
            i: int,
        |
            0 <= i < supported.len() && #[trigger] supported[i].channels == format.channels
                && supported[i].sample_format == format.sample_format && (format.sample_rate
                == supported[i].max_sample_rate || supported[i].min_sample_rate
                <= format.sample_rate <= supported[i].max_sample_rate),
{
    lemma_first_from(supported, |c: OutputConfig| matches_internal(c), 0);
    lemma_first_from(supported, |c: OutputConfig| writable(c.sample_format), 0);
}

/// The internal format is chosen whenever the device offers it.
pub proof fn law_internal_format_is_preferred(supported: Seq<OutputConfig>, i: int)
    requires
        0 <= i < supported.len(),
        matches_internal(supported[i]),
    ensures
        best_format(supported) matches Some(format) && format.sample_rate == INTERNAL_SAMPLE_RATE
            && format.channels == INTERNAL_CHANNELS,
{
    lemma_first_from(supported, |c: OutputConfig| matches_internal(c), 0);
}

/// A device is refused only when it offers nothing that can be written.
pub proof fn law_refused_only_without_writable_format(supported: Seq<OutputConfig>)
    ensures
        best_format(supported) is None <==> forall|i: int|
            0 <= i < supported.len() ==> !writable(#[trigger] supported[i].sample_format),
{
    lemma_first_from(supported, |c: OutputConfig| matches_internal(c), 0);
    lemma_first_from(supported, |c: OutputConfig| writable(c.sample_format), 0);
}

proof fn lemma_first_from(
    configs: Seq<OutputConfig>,
    property: spec_fn(OutputConfig) -> bool,
    from: int,
)
    requires
        0 <= from,
    ensures
        match first_from(configs, property, from) {
            Some(i) => {
                &&& from <= i < configs.len()
                &&& property(configs[i])
                &&& forall|k: int| from <= k < i ==> !property(#[trigger] configs[k])
            },
            None => forall|k: int| from <= k < configs.len() ==> !property(#[trigger] configs[k]),
        },
    decreases configs.len() - from,
{
    if from < configs.len() && !property(configs[from]) {
        lemma_first_from(configs, property, from + 1);
    }
}

/// 300 ms of audio at 48 kHz in two channels.
pub proof fn law_prebuffer_is_three_hundred_milliseconds(samples: int)
    ensures
        samples >= prebuffer_samples() <==> samples * 1000 >= 48_000 * 2 * 300,
{
    assert(48_000 * 2 * 300 / 1000 == 28_800) by (nonlinear_arith);
    assert(prebuffer_samples() == 28_800);
}

/// A device plays whenever 300 ms are queued, whatever its state and encoding
/// are and whatever else was seen. The more is queued, the sooner it plays.
pub proof fn law_enough_is_played(
    prebuffer: PrebufferView,
    flushed: bool,
    empty: bool,
    occupied: nat,
    more: nat,
)
    ensures
        occupied * 1000 >= 48_000 * 2 * 300 ==> prebuffer.plays(flushed, empty, occupied),
        occupied <= more && prebuffer.plays(flushed, empty, occupied) ==> prebuffer.plays(
            flushed,
            empty,
            more,
        ),
{
    law_prebuffer_is_three_hundred_milliseconds(occupied as int);
}

/// With less than 300 ms queued, a device is silent if it collects samples or
/// was flushed, or if it takes single-precision samples and the queue was seen
/// empty; in every other case it plays on.
pub proof fn law_too_little_is_played_only_on(
    prebuffer: PrebufferView,
    flushed: bool,
    empty: bool,
    occupied: nat,
)
    requires
        occupied * 1000 < 48_000 * 2 * 300,
    ensures
        prebuffer.is_buffering ==> !prebuffer.plays(flushed, empty, occupied),
        flushed ==> !prebuffer.plays(flushed, empty, occupied),
        prebuffer.takes_singles && empty ==> !prebuffer.plays(flushed, empty, occupied),
        !prebuffer.is_buffering && !flushed && !empty ==> prebuffer.plays(
            flushed,
            empty,
            occupied,
        ),
        !prebuffer.is_buffering && !flushed && !prebuffer.takes_singles ==> prebuffer.plays(
            flushed,
            empty,
            occupied,
        ),
{
    law_prebuffer_is_three_hundred_milliseconds(occupied as int);
}

/// A poll that sees 300 ms in the queue plays. With less, a device that played
/// plays on, unless it is flushed, or takes singles and sees the queue empty; one
/// that collects samples stays silent. Afterwards the device collects
/// samples exactly if it does not play, and its encoding is the same. Without a
/// flush nothing leaves the queue. With one, as many samples leave it as were
/// counted first, or, for a device that takes no singles, it is found empty.
pub proof fn law_poll_does_what_it_sees(turn: PollTurn)
    requires
        turn.proper(),
    ensures
        turn.counts.len() > 0,
        turn.counts.last() * 1000 >= 48_000 * 2 * 300 ==> turn.plays,
        turn.counts.last() * 1000 < 48_000 * 2 * 300 && (turn.before.is_buffering || turn.flush)
            ==> !turn.plays,
        turn.counts.last() * 1000 < 48_000 * 2 * 300 && !turn.before.is_buffering && !turn.flush
            ==> turn.plays == !(turn.before.takes_singles && turn.checks.last()),
        turn.checks.len() == 1,
        !turn.flush || !turn.before.takes_singles ==> turn.counts.len() == 1,
        turn.after.is_buffering == !turn.plays,
        turn.after.takes_singles == turn.before.takes_singles,
        !turn.flush ==> turn.taken == 0 && turn.refusals == 0,
        turn.flush && turn.before.takes_singles ==> turn.counts.len() == 2 && turn.taken
            == turn.counts[0],
        turn.flush && !turn.before.takes_singles && turn.taken != 0xffff_ffff_ffff_ffff
            ==> turn.refusals == 1,
{
    law_prebuffer_is_three_hundred_milliseconds(turn.counts.last() as int);
}

/// A device with enough in its queue plays at every poll, however often it is
/// polled and whatever it did before.
pub proof fn law_plays_while_there_is_enough(prebuffer: PrebufferView, sights: Seq<Sight>)
    requires
        sights.len() > 0,
        sights.last().occupied * 1000 >= 48_000 * 2 * 300,
    ensures
        !after_polls(prebuffer, sights).is_buffering,
{
    law_prebuffer_is_three_hundred_milliseconds(sights.last().occupied as int);
}

/// What a history has gained, after what it held, is what it holds.
pub proof fn law_new_items_are_the_rest<T>(before: Seq<T>, after: Seq<T>)
    requires
        before.is_prefix_of(after),
    ensures
        before + new_items(before, after) == after,
{
    assert(before + new_items(before, after) =~= after);
}

/// The queue in front of a device holds four seconds in the internal format and
/// in the device's own, and is just as large as one of both.
pub proof fn law_queue_holds_four_seconds(format: AudioFormat)
    ensures
        audio_buffer_capacity(format) >= 48_000 * 2 * 4,
        audio_buffer_capacity(format) >= format.sample_rate * format.channels * 4,
        audio_buffer_capacity(format) == 48_000 * 2 * 4 || audio_buffer_capacity(format)
            == format.sample_rate * format.channels * 4,
{
}

/// Which encodings can be written.
pub open spec fn single_or_sixteen_bits(format: SampleFormat) -> bool {
    match format {
        SampleFormat::F32 => true,
        SampleFormat::I16 => true,
        SampleFormat::U16 => true,
        SampleFormat::Other => false,
    }
}

/// Whether a range offers 48 kHz in two channels in an encoding that can be
/// written.
pub open spec fn offers_internal(config: OutputConfig) -> bool {
    &&& single_or_sixteen_bits(config.sample_format)
    &&& config.channels == 2
    &&& config.min_sample_rate <= 48_000
    &&& 48_000 <= config.max_sample_rate
}

/// The first range that offers 48 kHz in two channels is used at that rate and
/// in its encoding, wherever it stands and whatever else is offered.
pub proof fn law_first_internal_range_is_used(supported: Seq<OutputConfig>, i: int)
    requires
        0 <= i < supported.len(),
        offers_internal(supported[i]),
        forall|k: int| 0 <= k < i ==> !offers_internal(#[trigger] supported[k]),
    ensures
        best_format(supported) matches Some(format) && format.channels == 2 && format.sample_rate
            == 48_000 && format.sample_format == supported[i].sample_format,
{
    let exact = |c: OutputConfig| matches_internal(c);
    lemma_first_from(supported, exact, 0);
    assert(exact(supported[i]));
    let found = first_from(supported, exact, 0);
    assert(found is Some);
    let at = found.unwrap();
    if at < i {
        assert(!offers_internal(supported[at]));
        assert(exact(supported[at]));
    }
    if at > i {
        assert(!exact(supported[i]));
    }
}

/// Without such a range the first one that can be written is used at its highest
/// rate, and in its channels and encoding.
pub proof fn law_first_writable_range_is_used_otherwise(supported: Seq<OutputConfig>, i: int)
    requires
        0 <= i < supported.len(),
        single_or_sixteen_bits(supported[i].sample_format),
        forall|k: int|
            0 <= k < i ==> !single_or_sixteen_bits((#[trigger] supported[k]).sample_format),
        forall|k: int| 0 <= k < supported.len() ==> !offers_internal(#[trigger] supported[k]),
    ensures
        best_format(supported) matches Some(format) && format.channels == supported[i].channels
            && format.sample_rate == supported[i].max_sample_rate && format.sample_format
            == supported[i].sample_format,
{
    let exact = |c: OutputConfig| matches_internal(c);
    let any = |c: OutputConfig| writable(c.sample_format);
    lemma_first_from(supported, exact, 0);
    lemma_first_from(supported, any, 0);
    if let Some(at) = first_from(supported, exact, 0) {
        assert(!offers_internal(supported[at]));
        assert(exact(supported[at]));
    }
    assert(any(supported[i]));
    let found = first_from(supported, any, 0);
    assert(found is Some);
    let at = found.unwrap();
    if at < i {
        assert(!single_or_sixteen_bits(supported[at].sample_format));
        assert(any(supported[at]));
    }
    if at > i {
        assert(!any(supported[i]));
    }
}

/// Without a range that can be written there is no format.
pub proof fn law_nothing_writable_is_refused(supported: Seq<OutputConfig>)
    requires
        forall|k: int|
            0 <= k < supported.len() ==> !single_or_sixteen_bits(
                (#[trigger] supported[k]).sample_format,
            ),
    ensures
        best_format(supported) is None,
{
    let exact = |c: OutputConfig| matches_internal(c);
    let any = |c: OutputConfig| writable(c.sample_format);
    lemma_first_from(supported, exact, 0);
    lemma_first_from(supported, any, 0);
    if let Some(at) = first_from(supported, exact, 0) {
        assert(!single_or_sixteen_bits(supported[at].sample_format));
        assert(exact(supported[at]));
    }
    if let Some(at) = first_from(supported, any, 0) {
        assert(!single_or_sixteen_bits(supported[at].sample_format));
        assert(any(supported[at]));
    }
}

} // verus!

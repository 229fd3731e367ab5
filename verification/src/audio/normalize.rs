//! Turning interleaved samples of one channel count into another.

use vstd::arithmetic::div_mod::{lemma_fundamental_div_mod, lemma_fundamental_div_mod_converse};
use vstd::prelude::*;

use super::{Sample, SILENCE};

verus! {

/// Interleaved samples of `input_ch` channels with `output_ch` channels
/// instead. One channel becomes two equal ones. Otherwise each whole frame
/// keeps its first channels, and silence stands for those it lacks; what is
/// left over at the end is dropped. Equal counts change nothing.
pub open spec fn normalized(samples: Seq<Sample>, input_ch: int, output_ch: int) -> Seq<Sample> {
    if input_ch == output_ch {
        samples
    } else if input_ch == 1 && output_ch == 2 {
        Seq::new(2 * samples.len(), |k: int| samples[k / 2])
    } else {
        Seq::new(
            (samples.len() as int / input_ch * output_ch) as nat,
            |k: int|
                if k % output_ch < input_ch {
                    samples[k / output_ch * input_ch + k % output_ch]
                } else {
                    SILENCE
                },
        )
    }
}

/// Append the samples to `out` with `output_ch` channels in place of
/// `input_ch`.
pub fn normalize_into(
    samples: &[Sample],
    input_ch: usize,
    output_ch: usize,
    out: &mut Vec<Sample>,
)
    requires
        input_ch > 0 || output_ch == 0,
    ensures
        final(out)@ == old(out)@ + normalized(samples@, input_ch as int, output_ch as int),
{
    let ghost whole = normalized(samples@, input_ch as int, output_ch as int);
    if input_ch == output_ch {
        out.extend_from_slice(samples);
        assert(out@ =~= old(out)@ + whole);
    } else if input_ch == 1 && output_ch == 2 {
        for i in 0..samples.len()
            invariant
                whole == normalized(samples@, 1, 2),
                out@ == old(out)@ + whole.take(2 * i as int),
        {
            out.push(samples[i]);
            out.push(samples[i]);
            assert(out@ =~= old(out)@ + whole.take(2 * (i + 1)));
        }
        assert(whole.take(2 * samples.len() as int) =~= whole);
    } else {
        let total: usize = samples.len();
        let frames: usize = total / input_ch;
        let mut base: usize = 0;
        proof {
            lemma_fundamental_div_mod(samples@.len() as int, input_ch as int);
            assert(input_ch * frames == frames * input_ch) by (nonlinear_arith);
            assert(0 * input_ch == 0 && 0 * output_ch == 0) by (nonlinear_arith);
            assert(old(out)@ + whole.take(0) =~= old(out)@);
        }
        for f in 0..frames
            invariant
                input_ch > 0,
                input_ch != output_ch,
                !(input_ch == 1 && output_ch == 2),
                total == samples@.len(),
                frames == total / input_ch,
                frames * input_ch <= total,
                whole == normalized(samples@, input_ch as int, output_ch as int),
                base == f * input_ch,
                out@ == old(out)@ + whole.take(f * output_ch),
        {
            assert(f * input_ch + input_ch <= frames * input_ch) by (nonlinear_arith)
                requires
                    f < frames,
            ;
            assert(f * output_ch + output_ch <= frames * output_ch) by (nonlinear_arith)
                requires
                    f < frames,
            ;
            assert(0 <= f * output_ch) by (nonlinear_arith);
            for j in 0..output_ch
                invariant
                    input_ch > 0,
                    input_ch != output_ch,
                    !(input_ch == 1 && output_ch == 2),
                    f < frames,
                    total == samples@.len(),
                    frames == total / input_ch,
                    base == f * input_ch,
                    base + input_ch <= total,
                    0 <= f * output_ch,
                    f * output_ch + output_ch <= frames * output_ch,
                    whole == normalized(samples@, input_ch as int, output_ch as int),
                    out@ == old(out)@ + whole.take(f * output_ch + j),
            {
                let ghost k = f * output_ch + j;
                proof {
                    lemma_fundamental_div_mod_converse(k, output_ch as int, f as int, j as int);
                }
                let sample: Sample = if j < input_ch {
                    samples[base + j]
                } else {
                    SILENCE
                };
                out.push(sample);
                assert(whole[k] == sample);
                assert(out@ =~= old(out)@ + whole.take(k + 1));
            }
            base = base + input_ch;
            assert(f * output_ch + output_ch == (f + 1) * output_ch) by (nonlinear_arith);
            assert(f * input_ch + input_ch == (f + 1) * input_ch) by (nonlinear_arith);
        }
        assert(whole.take(frames * output_ch) =~= whole);
    }
}

/// Equal channel counts change nothing.
pub proof fn law_same_layout_is_kept(samples: Seq<Sample>, channels: int)
    ensures
        normalized(samples, channels, channels) == samples,
{
}

/// The number of frames is kept: a changed layout has as many frames as the
/// input has whole ones.
pub proof fn law_frames_are_kept(samples: Seq<Sample>, input_ch: int, output_ch: int)
    requires
        0 < input_ch,
        0 < output_ch,
        input_ch != output_ch,
    ensures
        normalized(samples, input_ch, output_ch).len() == samples.len() as int / input_ch
            * output_ch,
{
    let total = samples.len() as int;
    assert(0 <= total / input_ch * output_ch) by (nonlinear_arith)
        requires
            0 <= total,
            0 < input_ch,
            0 < output_ch,
    ;
    if input_ch == 1 && output_ch == 2 {
        assert(total / input_ch * output_ch == 2 * total) by (nonlinear_arith)
            requires
                input_ch == 1,
                output_ch == 2,
        ;
    }
}

/// Channels that were added can be taken away again: going up and back down
/// gives back every whole frame.
pub proof fn law_widening_is_undone(samples: Seq<Sample>, input_ch: int, output_ch: int)
    requires
        0 < input_ch <= output_ch,
        samples.len() as int % input_ch == 0,
    ensures
        normalized(normalized(samples, input_ch, output_ch), output_ch, input_ch) == samples,
{
    if input_ch < output_ch {
        let wide = normalized(samples, input_ch, output_ch);
        let back = normalized(wide, output_ch, input_ch);
        let frames = samples.len() as int / input_ch;
        lemma_fundamental_div_mod(samples.len() as int, input_ch);
        assert(frames * input_ch == input_ch * frames) by (nonlinear_arith);
        law_frames_are_kept(samples, input_ch, output_ch);
        lemma_fundamental_div_mod_converse(wide.len() as int, output_ch, frames, 0);
        law_frames_are_kept(wide, output_ch, input_ch);
        assert forall|k: int| 0 <= k < samples.len() implies back[k] == samples[k] by {
            let frame = k / input_ch;
            let channel = k % input_ch;
            lemma_fundamental_div_mod(k, input_ch);
            assert(frame * input_ch == input_ch * frame) by (nonlinear_arith);
            assert(frame < frames) by (nonlinear_arith)
                requires
                    frame * input_ch <= k,
                    k < frames * input_ch,
                    0 < input_ch,
            ;
            assert(0 <= frame) by (nonlinear_arith)
                requires
                    frame == k / input_ch,
                    0 <= k,
                    0 < input_ch,
            ;
            let at = frame * output_ch + channel;
            assert(0 <= at < frames * output_ch) by (nonlinear_arith)
                requires
                    0 <= frame < frames,
                    0 <= channel < output_ch,
                    at == frame * output_ch + channel,
            ;
            lemma_fundamental_div_mod_converse(at, output_ch, frame, channel);
            assert(back[k] == wide[at]);
        }
        assert(back =~= samples);
    }
}

/// Whole frames can be laid out on their own: what follows them does not matter
/// to them, nor they to it.
pub proof fn law_frames_are_independent(
    first: Seq<Sample>,
    second: Seq<Sample>,
    input_ch: int,
    output_ch: int,
)
    requires
        0 < input_ch,
        0 <= output_ch,
        first.len() as int % input_ch == 0,
    ensures
        normalized(first + second, input_ch, output_ch) == normalized(first, input_ch, output_ch)
            + normalized(second, input_ch, output_ch),
{
    let whole = normalized(first + second, input_ch, output_ch);
    let left = normalized(first, input_ch, output_ch);
    let right = normalized(second, input_ch, output_ch);
    if input_ch != output_ch && !(input_ch == 1 && output_ch == 2) {
        let frames = first.len() as int / input_ch;
        let others = second.len() as int / input_ch;
        let rest = second.len() as int % input_ch;
        lemma_fundamental_div_mod(first.len() as int, input_ch);
        lemma_fundamental_div_mod(second.len() as int, input_ch);
        assert(0 <= frames && 0 <= others) by (nonlinear_arith)
            requires
                frames == first.len() as int / input_ch,
                others == second.len() as int / input_ch,
                0 < input_ch,
        ;
        assert((frames + others) * input_ch + rest == first.len() + second.len())
            by (nonlinear_arith)
            requires
                first.len() == input_ch * frames,
                second.len() == input_ch * others + rest,
        ;
        lemma_fundamental_div_mod_converse(
            (first + second).len() as int,
            input_ch,
            frames + others,
            rest,
        );
        assert((frames + others) * output_ch == frames * output_ch + others * output_ch)
            by (nonlinear_arith);
        assert(0 <= frames * output_ch && 0 <= others * output_ch) by (nonlinear_arith)
            requires
                0 <= frames,
                0 <= others,
                0 <= output_ch,
        ;
        assert forall|k: int| 0 <= k < whole.len() implies whole[k] == (left + right)[k] by {
            let frame = k / output_ch;
            let channel = k % output_ch;
            assert(output_ch > 0) by (nonlinear_arith)
                requires
                    0 <= k < (frames + others) * output_ch,
                    0 <= output_ch,
            ;
            lemma_fundamental_div_mod(k, output_ch);
            assert(0 <= frame) by (nonlinear_arith)
                requires
                    frame == k / output_ch,
                    0 <= k,
                    0 < output_ch,
            ;
            if k < frames * output_ch {
                assert(frame < frames) by (nonlinear_arith)
                    requires
                        output_ch * frame + channel == k,
                        0 <= channel,
                        k < frames * output_ch,
                        0 < output_ch,
                ;
                assert(frame * input_ch + input_ch <= first.len()) by (nonlinear_arith)
                    requires
                        frame < frames,
                        first.len() == input_ch * frames,
                        0 < input_ch,
                ;
                assert(0 <= frame * input_ch) by (nonlinear_arith)
                    requires
                        0 <= frame,
                        0 < input_ch,
                ;
            } else {
                let at = k - frames * output_ch;
                assert(at == (frame - frames) * output_ch + channel) by (nonlinear_arith)
                    requires
                        output_ch * frame + channel == k,
                        at == k - frames * output_ch,
                ;
                lemma_fundamental_div_mod_converse(at, output_ch, frame - frames, channel);
                assert(frame * input_ch == (frame - frames) * input_ch + first.len())
                    by (nonlinear_arith)
                    requires
                        first.len() == input_ch * frames,
                ;
                assert(frames <= frame < frames + others) by (nonlinear_arith)
                    requires
                        output_ch * frame + channel == k,
                        0 <= channel < output_ch,
                        frames * output_ch <= k < (frames + others) * output_ch,
                        0 < output_ch,
                ;
                assert(0 <= (frame - frames) * input_ch && (frame - frames) * input_ch + input_ch
                    <= second.len()) by (nonlinear_arith)
                    requires
                        frames <= frame < frames + others,
                        second.len() == input_ch * others + rest,
                        0 <= rest,
                        0 < input_ch,
                ;
            }
        }
    } else if input_ch == 1 && output_ch == 2 {
        assert forall|k: int| 0 <= k < whole.len() implies whole[k] == (left + right)[k] by {
            if k >= left.len() {
                assert((k - left.len()) / 2 == k / 2 - first.len());
            }
        }
    }
    assert(whole =~= left + right);
}

/// Every channel keeps its place: of each whole frame the first channels are
/// those of the input, and silence stands for those that it lacks. One channel
/// becomes two equal ones.
pub proof fn law_channels_keep_their_place(
    samples: Seq<Sample>,
    input_ch: int,
    output_ch: int,
    frame: int,
    channel: int,
)
    requires
        0 < input_ch,
        0 <= frame < samples.len() as int / input_ch,
        0 <= channel < output_ch,
    ensures
        normalized(samples, input_ch, output_ch)[frame * output_ch + channel] == if input_ch == 1
            && output_ch == 2 {
            samples[frame]
        } else if channel < input_ch {
            samples[frame * input_ch + channel]
        } else {
            0
        },
{
    let k = frame * output_ch + channel;
    let frames = samples.len() as int / input_ch;
    lemma_fundamental_div_mod_converse(k, output_ch, frame, channel);
    assert(0 <= k < frames * output_ch) by (nonlinear_arith)
        requires
            0 <= frame < frames,
            0 <= channel < output_ch,
            k == frame * output_ch + channel,
    ;
    if input_ch == 1 && output_ch == 2 {
        assert(k / 2 == frame);
        assert(frames == samples.len());
        assert(k < 2 * samples.len());
    } else if input_ch != output_ch {
        assert(normalized(samples, input_ch, output_ch).len() == frames * output_ch);
    }
}

/// The size of the output: as many frames as the input has whole ones, in the
/// channels of the output; all samples where nothing changes.
pub proof fn law_size_follows_the_frames(samples: Seq<Sample>, input_ch: int, output_ch: int)
    requires
        0 < input_ch,
        0 <= output_ch,
    ensures
        normalized(samples, input_ch, output_ch).len() == if input_ch == output_ch {
            samples.len() as int
        } else {
            samples.len() as int / input_ch * output_ch
        },
{
    if input_ch != output_ch {
        if output_ch > 0 {
            law_frames_are_kept(samples, input_ch, output_ch);
        } else {
            let frames = samples.len() as int / input_ch;
            assert(frames * output_ch == 0) by (nonlinear_arith)
                requires
                    output_ch == 0,
            ;
        }
    }
}

} // verus!

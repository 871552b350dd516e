//! Mapping between physical device channels and logical channels.
//!
//! An input frame with as many channels as there are logical channels maps
//! one-to-one by position; a mono input frame is broadcast to every logical
//! channel.  On the way out, as many output channels as logical channels map
//! one-to-one; a mono output frame carries only the first logical channel,
//! the rest having been consumed so the ring cursors keep advancing.  Every
//! other combination is a configuration error raised before a stream starts,
//! never inside a callback.

use vstd::prelude::*;

use crate::sample::Sample;

verus! {

/// A physical input channel count can feed the logical channels when the
/// counts agree (one-to-one) or a single input channel is broadcast.
pub open spec fn demux_supported(input: int, logical: int) -> bool {
    input >= 1 && logical >= 1 && (input == logical || input == 1)
}

/// The logical channels can feed a physical output channel count when the
/// counts agree (one-to-one) or a single output channel keeps the first
/// logical channel.
pub open spec fn mux_supported(output: int, logical: int) -> bool {
    output >= 1 && logical >= 1 && (output == logical || output == 1)
}

/// The input channel that logical channel `j` reads from: its own position,
/// or channel 0 of a mono input.
pub open spec fn demux_source(input: int, j: int) -> int {
    if input == 1 {
        0
    } else {
        j
    }
}

/// The logical channel that output channel `k` carries: its own position
/// when the counts agree, the first logical channel otherwise.
pub open spec fn mux_source(output: int, logical: int, k: int) -> int {
    if output == logical {
        k
    } else {
        0
    }
}

/// The per-logical-channel samples that one input frame spreads out to.
pub open spec fn spec_demux(frame: Seq<Sample>, input: int, logical: int) -> Seq<Sample> {
    Seq::new(logical as nat, |j: int| frame[demux_source(input, j)])
}

/// The output frame that the per-logical-channel samples gather into.
pub open spec fn spec_mux(logical_samples: Seq<Sample>, output: int) -> Seq<Sample> {
    Seq::new(
        output as nat,
        |k: int| logical_samples[mux_source(output, logical_samples.len() as int, k)],
    )
}

/// Spread one input frame onto the logical channels.
pub fn demux(frame: &Vec<Sample>, input_channels: usize, logical_channels: usize) -> (out: Vec<
    Sample,
>)
    requires
        demux_supported(input_channels as int, logical_channels as int),
        frame@.len() == input_channels,
    ensures
        out@ == spec_demux(frame@, input_channels as int, logical_channels as int),
{
    let mut out: Vec<Sample> = Vec::new();
    let mut j: usize = 0;
    while j < logical_channels
        invariant
            j <= logical_channels,
            out@.len() == j,
            demux_supported(input_channels as int, logical_channels as int),
            frame@.len() == input_channels,
            forall|i: int|
                0 <= i < j ==> out@[i] == frame@[demux_source(input_channels as int, i)],
        decreases logical_channels - j,
    {
        let src: usize = if input_channels == 1 {
            0
        } else {
            j
        };
        out.push(frame[src]);
        j = j + 1;
    }
    proof {
        assert(out@ =~= spec_demux(frame@, input_channels as int, logical_channels as int));
    }
    out
}

/// Gather the per-logical-channel samples into one output frame.
pub fn mux(logical_samples: &Vec<Sample>, output_channels: usize) -> (out: Vec<Sample>)
    requires
        mux_supported(output_channels as int, logical_samples@.len() as int),
    ensures
        out@ == spec_mux(logical_samples@, output_channels as int),
{
    let mut out: Vec<Sample> = Vec::new();
    let mut k: usize = 0;
    while k < output_channels
        invariant
            k <= output_channels,
            out@.len() == k,
            mux_supported(output_channels as int, logical_samples@.len() as int),
            forall|i: int|
                0 <= i < k ==> out@[i] == logical_samples@[mux_source(
                    output_channels as int,
                    logical_samples@.len() as int,
                    i,
                )],
        decreases output_channels - k,
    {
        let src: usize = if output_channels == logical_samples.len() {
            k
        } else {
            0
        };
        out.push(logical_samples[src]);
        k = k + 1;
    }
    proof {
        assert(out@ =~= spec_mux(logical_samples@, output_channels as int));
    }
    out
}

/// Channel-mapping law: one mono input sample is broadcast equally to both
/// logical channels of a stereo pair, and a mono output frame carries exactly
/// the first logical channel's sample.
pub proof fn lemma_mono_mapping(frame: Seq<Sample>, logical_samples: Seq<Sample>)
    requires
        frame.len() == 1,
        logical_samples.len() == 2,
    ensures
        spec_demux(frame, 1, 2) == seq![frame[0], frame[0]],
        spec_mux(logical_samples, 1) == seq![logical_samples[0]],
{
    assert(spec_demux(frame, 1, 2) =~= seq![frame[0], frame[0]]);
    assert(spec_mux(logical_samples, 1) =~= seq![logical_samples[0]]);
}

} // verus!

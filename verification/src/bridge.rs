//! The bridge state machine: configuration checking, start and stop.
//!
//! A `Bridge` is either stopped or running.  `start` validates the two
//! negotiated stream formats and the logical channel count before anything
//! else happens: every configuration failure is raised here, synchronously,
//! so that no failure path remains inside the time-constrained callbacks.  On
//! success the bridge creates one ring per logical channel and becomes their
//! sole owner; `stop` releases them and is idempotent.  The unverified device
//! layer drives the two callbacks through `capture` and `render` while the
//! bridge runs.

use vstd::prelude::*;

use crate::callbacks::capture_block;
use crate::callbacks::popped_or_silence;
use crate::callbacks::pushed_view;
use crate::callbacks::remaining_after;
use crate::callbacks::render_block;
use crate::callbacks::spec_dropped;
use crate::callbacks::wire_column;
use crate::callbacks::wire_in_range;
use crate::mapper::demux_source;
use crate::mapper::demux_supported;
use crate::mapper::mux_source;
use crate::mapper::mux_supported;
use crate::ring::ChannelRing;
use crate::sample::SampleKind;
use crate::sample::raw_of_norm;

verus! {

/// The format one device negotiated: sample rate, channel count and wire
/// sample representation.  Both counts are positive.
#[derive(Clone, Copy, PartialEq, Eq, Structural, Debug)]
pub struct StreamFormat {
    pub sample_rate: u32,
    pub channel_count: u16,
    pub sample_kind: SampleKind,
}

impl StreamFormat {
    /// A meaningful stream format has a positive rate and at least one channel.
    pub open spec fn wf(&self) -> bool {
        self.sample_rate >= 1 && self.channel_count >= 1
    }
}

/// Why a bridge refuses to start.  Each of these is fatal and synchronous:
/// the caller learns of it before any stream runs.
#[derive(Clone, Copy, PartialEq, Eq, Structural, Debug)]
pub enum ConfigError {
    /// The two devices negotiated different sample rates; no resampling is done.
    SampleRateMismatch,
    /// The two devices negotiated different wire sample representations.
    SampleKindMismatch,
    /// The input channel count cannot be mapped onto the logical channels.
    UnsupportedInputChannels,
    /// The logical channels cannot be mapped onto the output channel count.
    UnsupportedOutputChannels,
}

/// A bridge is either stopped or running; it moves between the two only
/// through `start` and `stop`.
#[derive(Clone, Copy, PartialEq, Eq, Structural, Debug)]
pub enum BridgeState {
    Stopped,
    Running,
}

/// Exactly when, and why, a configuration is rejected: a sample-rate or
/// sample-kind mismatch between the two sides, or a channel-count combination
/// the mapper does not support, checked in that order.
pub open spec fn spec_validate(input: StreamFormat, output: StreamFormat, logical: int) -> Result<
    (),
    ConfigError,
> {
    if input.sample_rate != output.sample_rate {
        Err(ConfigError::SampleRateMismatch)
    } else if input.sample_kind != output.sample_kind {
        Err(ConfigError::SampleKindMismatch)
    } else if !demux_supported(input.channel_count as int, logical) {
        Err(ConfigError::UnsupportedInputChannels)
    } else if !mux_supported(output.channel_count as int, logical) {
        Err(ConfigError::UnsupportedOutputChannels)
    } else {
        Ok(())
    }
}

/// Check a configuration, returning the first failure in the order that
/// `spec_validate` fixes, or nothing when the bridge may start with it.
pub fn validate_config(input: &StreamFormat, output: &StreamFormat, logical_channels: u16) -> (r:
    Result<(), ConfigError>)
    ensures
        r == spec_validate(*input, *output, logical_channels as int),
{
    if input.sample_rate != output.sample_rate {
        Err(ConfigError::SampleRateMismatch)
    } else if input.sample_kind != output.sample_kind {
        Err(ConfigError::SampleKindMismatch)
    } else if !(input.channel_count >= 1 && logical_channels >= 1 && (input.channel_count
        == logical_channels || input.channel_count == 1)) {
        Err(ConfigError::UnsupportedInputChannels)
    } else if !(output.channel_count >= 1 && (output.channel_count == logical_channels
        || output.channel_count == 1)) {
        Err(ConfigError::UnsupportedOutputChannels)
    } else {
        Ok(())
    }
}

/// The bridge: the sole owner of the per-logical-channel rings and of the
/// reconciled stream format, for the running lifetime of the two streams.
pub struct Bridge {
    state: BridgeState,
    rings: Vec<ChannelRing>,
    format: StreamFormat,
}

impl Bridge {
    /// Whether the bridge is stopped or running.
    pub closed spec fn spec_state(&self) -> BridgeState {
        self.state
    }

    /// The ring set: one ring per logical channel while running, none while
    /// stopped.
    pub closed spec fn spec_rings(&self) -> Seq<ChannelRing> {
        self.rings@
    }

    /// The reconciled format while running: the shared sample rate and kind,
    /// with the logical channel count.  Stale once stopped.
    pub closed spec fn spec_format(&self) -> StreamFormat {
        self.format
    }

    /// A stopped bridge has released its rings; a running bridge has one
    /// well-formed ring per logical channel.
    pub closed spec fn wf(&self) -> bool {
        &&& forall|j: int| 0 <= j < self.rings@.len() ==> (#[trigger] self.rings@[j]).wf()
        &&& self.state == BridgeState::Stopped ==> self.rings@.len() == 0
        &&& self.state == BridgeState::Running ==> self.rings@.len()
            == self.format.channel_count && self.format.channel_count >= 1
    }

    /// A fresh bridge, stopped, with no rings.
    pub fn new() -> (b: Bridge)
        ensures
            b.wf(),
            b.spec_state() == BridgeState::Stopped,
            b.spec_rings().len() == 0,
    {
        Bridge {
            state: BridgeState::Stopped,
            rings: Vec::new(),
            format: StreamFormat {
                sample_rate: 1,
                channel_count: 1,
                sample_kind: SampleKind::Float32,
            },
        }
    }

    /// The bridge's current state.
    pub fn state(&self) -> (s: BridgeState)
        ensures
            s == self.spec_state(),
    {
        self.state
    }

    /// The reconciled format (meaningful while running).
    pub fn format(&self) -> (f: StreamFormat)
        ensures
            f == self.spec_format(),
    {
        self.format
    }

    /// Start the bridge against two negotiated formats.  Exactly the
    /// configurations that `spec_validate` accepts start it: on success the
    /// bridge runs with one empty ring of the given capacity per logical
    /// channel; on failure it reports why and stays stopped, unchanged.
    pub fn start(
        &mut self,
        input: StreamFormat,
        output: StreamFormat,
        logical_channels: u16,
        ring_capacity: usize,
    ) -> (r: Result<(), ConfigError>)
        requires
            old(self).wf(),
            old(self).spec_state() == BridgeState::Stopped,
            ring_capacity >= 1,
        ensures
            final(self).wf(),
            r == spec_validate(input, output, logical_channels as int),
            r is Err ==> *final(self) == *old(self),
            r is Ok ==> {
                &&& final(self).spec_state() == BridgeState::Running
                &&& final(self).spec_format() == (StreamFormat {
                    sample_rate: input.sample_rate,
                    channel_count: logical_channels,
                    sample_kind: input.sample_kind,
                })
                &&& final(self).spec_rings().len() == logical_channels
                &&& forall|j: int|
                    0 <= j < logical_channels ==> (#[trigger] final(self).spec_rings()[j]).wf()
                        && final(self).spec_rings()[j]@ == Seq::<crate::sample::Sample>::empty()
                        && final(self).spec_rings()[j].spec_capacity() == ring_capacity
            },
    {
        match validate_config(&input, &output, logical_channels) {
            Err(e) => Err(e),
            Ok(()) => {
                let target: usize = logical_channels as usize;
                let mut rings: Vec<ChannelRing> = Vec::new();
                let mut j: usize = 0;
                while j < target
                    invariant
                        j <= target,
                        rings@.len() == j,
                        ring_capacity >= 1,
                        forall|k: int|
                            0 <= k < j ==> (#[trigger] rings@[k]).wf() && rings@[k]@ == Seq::<
                                crate::sample::Sample,
                            >::empty() && rings@[k].spec_capacity() == ring_capacity,
                    decreases target - j,
                {
                    rings.push(ChannelRing::new(ring_capacity));
                    j = j + 1;
                }
                self.state = BridgeState::Running;
                self.rings = rings;
                self.format = StreamFormat {
                    sample_rate: input.sample_rate,
                    channel_count: logical_channels,
                    sample_kind: input.sample_kind,
                };
                Ok(())
            },
        }
    }

    /// Stop the bridge and release the ring set.  Idempotent: stopping a
    /// stopped bridge is a no-op, not an error.  The unverified device layer
    /// halts both streams before calling this, so no callback runs against a
    /// released ring.
    pub fn stop(&mut self)
        ensures
            final(self).wf(),
            final(self).spec_state() == BridgeState::Stopped,
            final(self).spec_rings().len() == 0,
    {
        self.state = BridgeState::Stopped;
        self.rings = Vec::new();
    }

    /// The capture callback's entry point: feed one block of interleaved wire
    /// samples from the input device into the ring set.  Returns how many
    /// samples were dropped against full rings (overrun diagnostic).
    pub fn capture(&mut self, data: &Vec<i32>, input_channels: u16) -> (dropped: usize)
        requires
            old(self).wf(),
            old(self).spec_state() == BridgeState::Running,
            demux_supported(input_channels as int, old(self).spec_rings().len() as int),
            data@.len() as int % (input_channels as int) == 0,
            wire_in_range(data@, old(self).spec_format().sample_kind),
            (data@.len() as int / input_channels as int) * old(self).spec_rings().len()
                <= usize::MAX,
        ensures
            final(self).wf(),
            final(self).spec_state() == old(self).spec_state(),
            final(self).spec_format() == old(self).spec_format(),
            final(self).spec_rings().len() == old(self).spec_rings().len(),
            forall|j: int|
                0 <= j < old(self).spec_rings().len() ==> {
                    &&& (#[trigger] final(self).spec_rings()[j]).wf()
                    &&& final(self).spec_rings()[j].spec_capacity() == old(
                        self,
                    ).spec_rings()[j].spec_capacity()
                    &&& final(self).spec_rings()[j]@ == pushed_view(
                        old(self).spec_rings()[j]@,
                        wire_column(
                            data@,
                            input_channels as int,
                            demux_source(input_channels as int, j),
                            (data@.len() as int / input_channels as int) as nat,
                            old(self).spec_format().sample_kind,
                        ),
                        old(self).spec_rings()[j].spec_capacity(),
                    )
                },
            dropped == spec_dropped(
                old(self).spec_rings(),
                data@,
                input_channels as int,
                old(self).spec_format().sample_kind,
                old(self).spec_rings().len() as int,
            ),
    {
        let kind = self.format.sample_kind;
        capture_block(&mut self.rings, data, input_channels as usize, kind)
    }

    /// The render callback's entry point: fill one block of `frames` output
    /// frames, interleaved over `output_channels` channels, from the ring
    /// set, substituting silence on underrun.  The block is always complete.
    pub fn render(&mut self, frames: usize, output_channels: u16) -> (out: Vec<i32>)
        requires
            old(self).wf(),
            old(self).spec_state() == BridgeState::Running,
            mux_supported(output_channels as int, old(self).spec_rings().len() as int),
            (frames as int) * (output_channels as int) <= usize::MAX,
        ensures
            final(self).wf(),
            final(self).spec_state() == old(self).spec_state(),
            final(self).spec_format() == old(self).spec_format(),
            final(self).spec_rings().len() == old(self).spec_rings().len(),
            forall|j: int|
                0 <= j < old(self).spec_rings().len() ==> {
                    &&& (#[trigger] final(self).spec_rings()[j]).wf()
                    &&& final(self).spec_rings()[j].spec_capacity() == old(
                        self,
                    ).spec_rings()[j].spec_capacity()
                    &&& final(self).spec_rings()[j]@ == remaining_after(
                        old(self).spec_rings()[j]@,
                        frames as int,
                    )
                },
            out@.len() == (frames as int) * (output_channels as int),
            forall|i: int, k: int|
                0 <= i < frames && 0 <= k < output_channels ==> out@[i * (output_channels as int)
                    + k] == raw_of_norm(
                    popped_or_silence(
                        old(self).spec_rings()[mux_source(
                            output_channels as int,
                            old(self).spec_rings().len() as int,
                            k,
                        )]@,
                        i,
                    ).steps as int,
                    old(self).spec_format().sample_kind,
                ),
            forall|t: int|
                0 <= t < out@.len() ==> #[trigger] out@[t] == raw_of_norm(
                    popped_or_silence(
                        old(self).spec_rings()[mux_source(
                            output_channels as int,
                            old(self).spec_rings().len() as int,
                            t % (output_channels as int),
                        )]@,
                        t / (output_channels as int),
                    ).steps as int,
                    old(self).spec_format().sample_kind,
                ),
    {
        let kind = self.format.sample_kind;
        render_block(&mut self.rings, frames, output_channels as usize, kind)
    }
}

} // verus!

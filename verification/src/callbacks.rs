//! The per-block work of the two real-time callbacks.
//!
//! The capture side receives a block of interleaved wire samples, converts
//! each frame into the normalized domain, spreads it onto the logical
//! channels and pushes one sample per channel into that channel's ring,
//! dropping samples once a ring is full (overrun).  The render side pops one
//! sample per logical channel for every requested frame, substituting silence
//! where a ring runs empty (underrun), converts back to the wire
//! representation and fills every slot of the requested block.  Neither path
//! ever waits on the other.

use vstd::prelude::*;

use crate::mapper::demux_source;
use crate::mapper::demux_supported;
use crate::mapper::mux_source;
use crate::mapper::mux_supported;
use crate::ring::ChannelRing;
use crate::sample::Sample;
use crate::sample::SampleKind;
use crate::sample::norm_steps_of;
use crate::sample::raw_of_norm;
use crate::sample::from_normalized;
use crate::sample::to_normalized;

verus! {

/// Whether every wire sample of a block is representable in the negotiated
/// wire format: a 16-bit format only carries values of that width.
pub open spec fn wire_in_range(data: Seq<i32>, kind: SampleKind) -> bool {
    kind == SampleKind::Int16 ==> forall|i: int|
        0 <= i < data.len() ==> -0x8000 <= #[trigger] data[i] <= 0x7fff
}

/// How many of the samples `xs`, offered in order to a ring holding `q` with
/// capacity `cap`, are stored: all of them while there is room, and none once
/// the ring is full, since no pop runs during a capture block.
pub open spec fn stored_count(q: Seq<Sample>, xs: Seq<Sample>, cap: nat) -> int
    recommends
        q.len() <= cap,
{
    if xs.len() <= cap - q.len() {
        xs.len() as int
    } else {
        cap - q.len()
    }
}

/// The queue contents after the samples `xs` are offered in order to a ring
/// holding `q` with capacity `cap`: the stored prefix lands behind `q`, the
/// overrun remainder is dropped.
pub open spec fn pushed_view(q: Seq<Sample>, xs: Seq<Sample>, cap: nat) -> Seq<Sample> {
    q + xs.take(stored_count(q, xs, cap))
}

/// Offering one more sample extends the stored prefix exactly while the ring
/// has room.
proof fn lemma_pushed_view_step(q: Seq<Sample>, xs: Seq<Sample>, cap: nat, s: Sample)
    requires
        q.len() <= cap,
    ensures
        pushed_view(q, xs, cap).len() == q.len() + stored_count(q, xs, cap),
        0 <= stored_count(q, xs, cap) <= xs.len(),
        pushed_view(q, xs, cap).len() <= cap,
        pushed_view(q, xs, cap).len() < cap ==> pushed_view(q, xs.push(s), cap) == pushed_view(
            q,
            xs,
            cap,
        ).push(s),
        pushed_view(q, xs, cap).len() == cap ==> pushed_view(q, xs.push(s), cap) == pushed_view(
            q,
            xs,
            cap,
        ),
{
    let room = cap - q.len();
    if xs.len() < room {
        assert(xs.push(s).take(xs.len() as int + 1) =~= xs.push(s));
        assert(xs.take(xs.len() as int) =~= xs);
        assert(pushed_view(q, xs.push(s), cap) =~= pushed_view(q, xs, cap).push(s));
    } else {
        assert(xs.push(s).take(room as int) =~= xs.take(room as int));
        assert(pushed_view(q, xs.push(s), cap) =~= pushed_view(q, xs, cap));
    }
}

/// The length of the stored prefix, for callers of the capture step.
pub proof fn lemma_pushed_view_len(q: Seq<Sample>, xs: Seq<Sample>, cap: nat)
    requires
        q.len() <= cap,
    ensures
        pushed_view(q, xs, cap).len() == q.len() + stored_count(q, xs, cap),
        0 <= stored_count(q, xs, cap) <= xs.len(),
        pushed_view(q, xs, cap).len() <= cap,
{
    lemma_pushed_view_step(q, xs, cap, Sample::spec_silence());
}

/// The overrun policy drops samples only for want of room: a capture burst
/// that fits entirely is stored entirely, and the queue simply grows by the
/// offered samples.
pub proof fn lemma_pushed_view_all_fit(q: Seq<Sample>, xs: Seq<Sample>, cap: nat)
    requires
        q.len() + xs.len() <= cap,
    ensures
        pushed_view(q, xs, cap) == q + xs,
        stored_count(q, xs, cap) == xs.len(),
{
    assert(xs.take(xs.len() as int) =~= xs);
    assert(pushed_view(q, xs, cap) =~= q + xs);
}

/// The normalized samples that the wire block `data`, interleaved with
/// `input` channels per frame, delivers to the logical channel fed from
/// input channel `src`: one converted sample per frame.
pub open spec fn wire_column(
    data: Seq<i32>,
    input: int,
    src: int,
    frames: nat,
    kind: SampleKind,
) -> Seq<Sample> {
    Seq::new(frames, |f: int| Sample { steps: norm_steps_of(data[f * input + src] as int, kind) as i32 })
}

/// Convert and push one logical channel's share of a capture block into its
/// ring, frame by frame.  Returns how many samples were stored; the rest of
/// the block was dropped against a full ring.
pub fn capture_channel(
    ring: &mut ChannelRing,
    data: &Vec<i32>,
    input_channels: usize,
    src: usize,
    frames: usize,
    kind: SampleKind,
) -> (stored: usize)
    requires
        old(ring).wf(),
        input_channels >= 1,
        src < input_channels,
        data@.len() == frames * input_channels,
        wire_in_range(data@, kind),
    ensures
        final(ring).wf(),
        final(ring).spec_capacity() == old(ring).spec_capacity(),
        final(ring)@ == pushed_view(
            old(ring)@,
            wire_column(data@, input_channels as int, src as int, frames as nat, kind),
            old(ring).spec_capacity(),
        ),
        stored == final(ring)@.len() - old(ring)@.len(),
{
    let ghost q0 = old(ring)@;
    let ghost cap = old(ring).spec_capacity();
    proof {
        ring.lemma_occupancy_bounded();
        assert(wire_column(data@, input_channels as int, src as int, 0nat, kind) =~= Seq::<
            Sample,
        >::empty());
        assert(pushed_view(
            q0,
            wire_column(data@, input_channels as int, src as int, 0nat, kind),
            cap,
        ) =~= q0);
    }
    let dlen: usize = data.len();
    let mut f: usize = 0;
    let mut stored: usize = 0;
    while f < frames
        invariant
            ring.wf(),
            ring.spec_capacity() == cap,
            q0.len() <= cap,
            dlen == data@.len(),
            f <= frames,
            input_channels >= 1,
            src < input_channels,
            data@.len() == frames * input_channels,
            wire_in_range(data@, kind),
            ring@ == pushed_view(
                q0,
                wire_column(data@, input_channels as int, src as int, f as nat, kind),
                cap,
            ),
            stored == ring@.len() - q0.len(),
        decreases frames - f,
    {
        proof {
            assert((f as int) * (input_channels as int) + (src as int) < (frames as int) * (
            input_channels as int)) by (nonlinear_arith)
                requires
                    0 <= f < frames,
                    0 <= src < input_channels,
            ;
            assert((f as int) * (input_channels as int) + (src as int) < data@.len());
        }
        let idx: usize = f * input_channels + src;
        let raw: i32 = data[idx];
        let s = to_normalized(raw, kind);
        let ghost col = wire_column(data@, input_channels as int, src as int, f as nat, kind);
        let pushed = ring.try_push(s);
        if pushed {
            stored = stored + 1;
        }
        proof {
            lemma_pushed_view_step(q0, col, cap, s);
            assert(wire_column(data@, input_channels as int, src as int, (f + 1) as nat, kind)
                =~= col.push(s));
        }
        f = f + 1;
    }
    stored
}

/// Samples of a capture block that the rings had no room for, summed over
/// the first `upto` logical channels.
pub open spec fn spec_dropped(
    rings: Seq<ChannelRing>,
    data: Seq<i32>,
    input: int,
    kind: SampleKind,
    upto: int,
) -> int
    decreases upto,
{
    if upto <= 0 {
        0
    } else {
        let j = upto - 1;
        let frames = data.len() as int / input;
        let col = wire_column(data, input, demux_source(input, j), frames as nat, kind);
        spec_dropped(rings, data, input, kind, j) + (frames - stored_count(
            rings[j]@,
            col,
            rings[j].spec_capacity(),
        ))
    }
}

/// The capture callback's work for one delivered block: demultiplex every
/// frame onto the logical channels, convert each wire sample into the
/// normalized domain, and push it into that channel's ring.  Samples offered
/// to a full ring are dropped; the count of dropped samples is returned as a
/// non-blocking diagnostic instead of being reported from the hot path.
pub fn capture_block(
    rings: &mut Vec<ChannelRing>,
    data: &Vec<i32>,
    input_channels: usize,
    kind: SampleKind,
) -> (dropped: usize)
    requires
        demux_supported(input_channels as int, old(rings)@.len() as int),
        forall|j: int| 0 <= j < old(rings)@.len() ==> (#[trigger] old(rings)@[j]).wf(),
        data@.len() as int % (input_channels as int) == 0,
        wire_in_range(data@, kind),
        (data@.len() as int / input_channels as int) * old(rings)@.len() <= usize::MAX,
    ensures
        final(rings)@.len() == old(rings)@.len(),
        forall|j: int|
            0 <= j < old(rings)@.len() ==> {
                &&& (#[trigger] final(rings)@[j]).wf()
                &&& final(rings)@[j].spec_capacity() == old(rings)@[j].spec_capacity()
                &&& final(rings)@[j]@ == pushed_view(
                    old(rings)@[j]@,
                    wire_column(
                        data@,
                        input_channels as int,
                        demux_source(input_channels as int, j),
                        (data@.len() as int / input_channels as int) as nat,
                        kind,
                    ),
                    old(rings)@[j].spec_capacity(),
                )
            },
        dropped == spec_dropped(
            old(rings)@,
            data@,
            input_channels as int,
            kind,
            old(rings)@.len() as int,
        ),
{
    let frames: usize = data.len() / input_channels;
    proof {
        vstd::arithmetic::div_mod::lemma_fundamental_div_mod(
            data@.len() as int,
            input_channels as int,
        );
        assert(data@.len() as int == (input_channels as int) * (frames as int));
        assert((input_channels as int) * (frames as int) == (frames as int) * (
        input_channels as int)) by (nonlinear_arith);
        assert(data@.len() == frames * input_channels);
    }
    let n = rings.len();
    let mut dropped: usize = 0;
    let mut j: usize = 0;
    while j < n
        invariant
            rings@.len() == n,
            n == old(rings)@.len(),
            j <= n,
            demux_supported(input_channels as int, n as int),
            data@.len() as int % (input_channels as int) == 0,
            data@.len() == frames * input_channels,
            frames == data@.len() as int / input_channels as int,
            wire_in_range(data@, kind),
            (frames as int) * (n as int) <= usize::MAX,
            forall|k: int| 0 <= k < n ==> (#[trigger] old(rings)@[k]).wf(),
            forall|k: int| j <= k < n ==> rings@[k] == old(rings)@[k],
            forall|k: int|
                0 <= k < j ==> {
                    &&& (#[trigger] rings@[k]).wf()
                    &&& rings@[k].spec_capacity() == old(rings)@[k].spec_capacity()
                    &&& rings@[k]@ == pushed_view(
                        old(rings)@[k]@,
                        wire_column(
                            data@,
                            input_channels as int,
                            demux_source(input_channels as int, k),
                            frames as nat,
                            kind,
                        ),
                        old(rings)@[k].spec_capacity(),
                    )
                },
            dropped == spec_dropped(old(rings)@, data@, input_channels as int, kind, j as int),
            dropped <= (j as int) * (frames as int),
        decreases n - j,
    {
        let src: usize = if input_channels == 1 {
            0
        } else {
            j
        };
        let ghost col = wire_column(
            data@,
            input_channels as int,
            demux_source(input_channels as int, j as int),
            frames as nat,
            kind,
        );
        proof {
            old(rings)@[j as int].lemma_occupancy_bounded();
        }
        let stored = capture_channel(&mut rings[j], data, input_channels, src, frames, kind);
        proof {
            lemma_pushed_view_len(old(rings)@[j as int]@, col, old(rings)@[j as int].spec_capacity());
            assert(((j + 1) as int) * (frames as int) == (j as int) * (frames as int) + (
            frames as int)) by (nonlinear_arith);
            assert(((j + 1) as int) * (frames as int) <= (n as int) * (frames as int))
                by (nonlinear_arith)
                requires
                    0 <= j + 1 <= n,
                    0 <= frames,
            ;
        }
        let d: usize = frames - stored;
        dropped = dropped + d;
        j = j + 1;
    }
    dropped
}

/// What the render side reads at offset `i` of a channel's queue: the queued
/// sample, or silence once the queue has run out (underrun).
pub open spec fn popped_or_silence(q: Seq<Sample>, i: int) -> Sample {
    if 0 <= i < q.len() {
        q[i]
    } else {
        Sample::spec_silence()
    }
}

/// What a render pass of `frames` pops leaves in a channel's queue.
pub open spec fn remaining_after(q: Seq<Sample>, frames: int) -> Seq<Sample>
    recommends
        frames >= 0,
{
    if frames < q.len() {
        q.subrange(frames, q.len() as int)
    } else {
        Seq::empty()
    }
}

/// Pop one logical channel's share of a render block: `frames` samples,
/// oldest first, with silence substituted for every frame past the queued
/// contents.
pub fn pop_column(ring: &mut ChannelRing, frames: usize) -> (col: Vec<Sample>)
    requires
        old(ring).wf(),
    ensures
        final(ring).wf(),
        final(ring).spec_capacity() == old(ring).spec_capacity(),
        col@.len() == frames,
        forall|i: int| 0 <= i < frames ==> col@[i] == popped_or_silence(old(ring)@, i),
        final(ring)@ == remaining_after(old(ring)@, frames as int),
{
    let ghost q0 = old(ring)@;
    proof {
        assert(remaining_after(q0, 0) =~= q0);
    }
    let mut col: Vec<Sample> = Vec::new();
    let mut f: usize = 0;
    while f < frames
        invariant
            ring.wf(),
            ring.spec_capacity() == old(ring).spec_capacity(),
            f <= frames,
            col@.len() == f,
            forall|i: int| 0 <= i < f ==> col@[i] == popped_or_silence(q0, i),
            ring@ == remaining_after(q0, f as int),
        decreases frames - f,
    {
        let s = ring.pop_or_silence();
        proof {
            if (f as int) < q0.len() {
                assert(remaining_after(q0, (f + 1) as int) =~= remaining_after(q0, f as int)
                    .subrange(1, remaining_after(q0, f as int).len() as int));
            }
        }
        col.push(s);
        f = f + 1;
    }
    col
}

/// The render callback's work for one requested block: pop one sample per
/// logical channel for each of the `frames` frames, substituting silence on
/// underrun, convert back to the wire representation, and fill every slot of
/// the interleaved output block.  The block is always filled completely.
pub fn render_block(
    rings: &mut Vec<ChannelRing>,
    frames: usize,
    output_channels: usize,
    kind: SampleKind,
) -> (out: Vec<i32>)
    requires
        mux_supported(output_channels as int, old(rings)@.len() as int),
        forall|j: int| 0 <= j < old(rings)@.len() ==> (#[trigger] old(rings)@[j]).wf(),
        (frames as int) * (output_channels as int) <= usize::MAX,
    ensures
        final(rings)@.len() == old(rings)@.len(),
        forall|j: int|
            0 <= j < old(rings)@.len() ==> {
                &&& (#[trigger] final(rings)@[j]).wf()
                &&& final(rings)@[j].spec_capacity() == old(rings)@[j].spec_capacity()
                &&& final(rings)@[j]@ == remaining_after(old(rings)@[j]@, frames as int)
            },
        out@.len() == (frames as int) * (output_channels as int),
        forall|i: int, k: int|
            0 <= i < frames && 0 <= k < output_channels ==> out@[i * (output_channels as int) + k]
                == raw_of_norm(
                popped_or_silence(
                    old(rings)@[mux_source(
                        output_channels as int,
                        old(rings)@.len() as int,
                        k,
                    )]@,
                    i,
                ).steps as int,
                kind,
            ),
        forall|t: int|
            0 <= t < out@.len() ==> #[trigger] out@[t] == raw_of_norm(
                popped_or_silence(
                    old(rings)@[mux_source(
                        output_channels as int,
                        old(rings)@.len() as int,
                        t % (output_channels as int),
                    )]@,
                    t / (output_channels as int),
                ).steps as int,
                kind,
            ),
{
    let n = rings.len();
    let mut cols: Vec<Vec<Sample>> = Vec::new();
    let mut j: usize = 0;
    while j < n
        invariant
            rings@.len() == n,
            n == old(rings)@.len(),
            j <= n,
            cols@.len() == j,
            forall|k: int| 0 <= k < n ==> (#[trigger] old(rings)@[k]).wf(),
            forall|k: int| j <= k < n ==> rings@[k] == old(rings)@[k],
            forall|k: int|
                0 <= k < j ==> {
                    &&& (#[trigger] rings@[k]).wf()
                    &&& rings@[k].spec_capacity() == old(rings)@[k].spec_capacity()
                    &&& rings@[k]@ == remaining_after(old(rings)@[k]@, frames as int)
                },
            forall|k: int|
                0 <= k < j ==> (#[trigger] cols@[k])@.len() == frames && forall|i: int|
                    0 <= i < frames ==> cols@[k]@[i] == popped_or_silence(old(rings)@[k]@, i),
        decreases n - j,
    {
        let col = pop_column(&mut rings[j], frames);
        cols.push(col);
        j = j + 1;
    }
    let mut out: Vec<i32> = Vec::new();
    let mut i: usize = 0;
    while i < frames
        invariant
            rings@.len() == n,
            n == old(rings)@.len(),
            n >= 1,
            mux_supported(output_channels as int, n as int),
            i <= frames,
            (frames as int) * (output_channels as int) <= usize::MAX,
            cols@.len() == n,
            forall|k: int|
                0 <= k < n ==> (#[trigger] cols@[k])@.len() == frames && forall|fi: int|
                    0 <= fi < frames ==> cols@[k]@[fi] == popped_or_silence(old(rings)@[k]@, fi),
            out@.len() == (i as int) * (output_channels as int),
            forall|fi: int, k: int|
                0 <= fi < i && 0 <= k < output_channels ==> out@[fi * (output_channels as int) + k]
                    == raw_of_norm(
                    popped_or_silence(
                        old(rings)@[mux_source(output_channels as int, n as int, k)]@,
                        fi,
                    ).steps as int,
                    kind,
                ),
        decreases frames - i,
    {
        proof {
            assert((i as int) * (output_channels as int) + (output_channels as int) == ((i
                + 1) as int) * (output_channels as int)) by (nonlinear_arith);
            assert(((i + 1) as int) * (output_channels as int) <= (frames as int) * (
            output_channels as int)) by (nonlinear_arith)
                requires
                    0 <= i + 1 <= frames,
                    0 <= output_channels,
            ;
        }
        let mut k: usize = 0;
        while k < output_channels
            invariant
                rings@.len() == n,
                n == old(rings)@.len(),
                n >= 1,
                mux_supported(output_channels as int, n as int),
                i < frames,
                k <= output_channels,
                (i as int) * (output_channels as int) + (output_channels as int) <= usize::MAX,
                cols@.len() == n,
                forall|c: int|
                    0 <= c < n ==> (#[trigger] cols@[c])@.len() == frames && forall|fi: int|
                        0 <= fi < frames ==> cols@[c]@[fi] == popped_or_silence(
                            old(rings)@[c]@,
                            fi,
                        ),
                out@.len() == (i as int) * (output_channels as int) + k,
                forall|fi: int, c: int|
                    0 <= fi < i && 0 <= c < output_channels ==> out@[fi * (output_channels as int)
                        + c] == raw_of_norm(
                        popped_or_silence(
                            old(rings)@[mux_source(output_channels as int, n as int, c)]@,
                            fi,
                        ).steps as int,
                        kind,
                    ),
                forall|c: int|
                    0 <= c < k ==> out@[(i as int) * (output_channels as int) + c] == raw_of_norm(
                        popped_or_silence(
                            old(rings)@[mux_source(output_channels as int, n as int, c)]@,
                            i as int,
                        ).steps as int,
                        kind,
                    ),
            decreases output_channels - k,
        {
            let src: usize = if output_channels == n {
                k
            } else {
                0
            };
            let s: Sample = cols[src][i];
            let raw = from_normalized(s, kind);
            out.push(raw);
            proof {
                assert forall|fi: int, c: int|
                    0 <= fi < i && 0 <= c < output_channels implies #[trigger] out@[fi * (
                output_channels as int) + c] == raw_of_norm(
                    popped_or_silence(
                        old(rings)@[mux_source(output_channels as int, n as int, c)]@,
                        fi,
                    ).steps as int,
                    kind,
                ) by {
                    assert((fi + 1) * (output_channels as int) <= (i as int) * (
                    output_channels as int)) by (nonlinear_arith)
                        requires
                            0 <= fi + 1 <= i,
                            0 <= output_channels,
                    ;
                    assert((fi + 1) * (output_channels as int) == fi * (output_channels as int)
                        + (output_channels as int)) by (nonlinear_arith);
                    assert(fi * (output_channels as int) + c < (i as int) * (
                    output_channels as int));
                }
            }
            k = k + 1;
        }
        i = i + 1;
    }
    proof {
        let oc = output_channels as int;
        assert forall|t: int|
            0 <= t < out@.len() implies #[trigger] out@[t] == raw_of_norm(
            popped_or_silence(
                old(rings)@[mux_source(oc, old(rings)@.len() as int, t % oc)]@,
                t / oc,
            ).steps as int,
            kind,
        ) by {
            vstd::arithmetic::div_mod::lemma_fundamental_div_mod(t, oc);
            vstd::arithmetic::div_mod::lemma_mod_bound(t, oc);
            vstd::arithmetic::div_mod::lemma_div_pos_is_pos(t, oc);
            let fi = t / oc;
            let c = t % oc;
            assert(fi < frames) by (nonlinear_arith)
                requires
                    t < (frames as int) * oc,
                    t == oc * fi + c,
                    0 <= c,
                    oc >= 1,
            ;
            assert(fi * oc + c == t) by (nonlinear_arith)
                requires
                    t == oc * fi + c,
            ;
        }
    }
    out
}

} // verus!

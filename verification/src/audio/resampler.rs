//! Reducing interleaved input to mono frames and collecting them into the
//! blocks the resampler consumes.

use vstd::prelude::*;

use super::{concat, lemma_concat_append, CHUNK_SIZE, TARGET_SAMPLE_RATE};
use crate::config::ChannelMixMode;

verus! {

/// Largest block of input frames: 10 ms at 48 kHz.
pub const MAX_INPUT_FRAMES: usize = 480;

/// How input at a given rate and channel count is turned into 16 kHz mono.
#[derive(Clone, Copy, Debug, PartialEq, Eq, Structural)]
pub struct ResamplerPlan {
    /// Whether a sample-rate conversion is needed.
    pub needs_rate_conversion: bool,
    /// Interleaved channels of the input.
    pub input_channels: usize,
    /// Frames in one block handed to the rate converter: 10 ms of input.
    pub input_chunk_frames: usize,
    /// How channels are reduced to mono.
    pub mix_mode: ChannelMixMode,
}

/// Plans the conversion of input at `input_sample_rate` with
/// `input_channels` channels. Input that is already 16 kHz mono needs none
/// (`None`).
pub fn plan_resampling(input_sample_rate: u32, input_channels: usize, mix_mode: ChannelMixMode) -> (res:
    Option<ResamplerPlan>)
    ensures
        res is None <==> (input_sample_rate == TARGET_SAMPLE_RATE && input_channels == 1),
        res matches Some(p) ==> {
            &&& p.needs_rate_conversion == (input_sample_rate != TARGET_SAMPLE_RATE)
            &&& p.input_channels == input_channels
            &&& p.input_chunk_frames == input_sample_rate as int * 10 / 1000
            &&& p.mix_mode == mix_mode
        },
{
    if input_sample_rate == TARGET_SAMPLE_RATE && input_channels == 1 {
        return None;
    }
    let input_chunk_frames = (input_sample_rate as u64 * 10 / 1000) as usize;
    Some(
        ResamplerPlan {
            needs_rate_conversion: input_sample_rate != TARGET_SAMPLE_RATE,
            input_channels,
            input_chunk_frames,
            mix_mode,
        },
    )
}

/// Index, within a frame, of the channel a mode keeps (for modes other
/// than mixing): the first, or the second when there is one.
pub open spec fn kept_channel(channels: int, mode: ChannelMixMode) -> int {
    match mode {
        ChannelMixMode::SecondChannel => if channels >= 2 {
            1
        } else {
            0
        },
        _ => 0,
    }
}

/// The mono frames taken from interleaved `input`: all of it for mono
/// input; otherwise one sample per whole frame, from the kept channel.
pub open spec fn select_channel_spec<T>(input: Seq<T>, channels: int, mode: ChannelMixMode) -> Seq<T> {
    if channels == 1 {
        input
    } else {
        Seq::new(
            (input.len() as int / channels) as nat,
            |f: int| input[f * channels + kept_channel(channels, mode)],
        )
    }
}

/// What channel selection keeps: mono input whole; from input with two or
/// more channels, one sample per whole frame (`input.len() / channels`
/// samples), sample `f` being the frame's first sample, or its second when
/// the second channel is asked for.
pub proof fn lemma_channel_selection<T>(input: Seq<T>, channels: int, mode: ChannelMixMode)
    requires
        channels >= 1,
    ensures
        channels == 1 ==> select_channel_spec(input, channels, mode) == input,
        channels >= 2 ==> select_channel_spec(input, channels, mode).len() == (input.len() as int) / channels,
        channels >= 2 ==> forall|f: int|
            0 <= f < (input.len() as int) / channels ==> #[trigger] select_channel_spec(input, channels, mode)[f]
                == input[f * channels + if mode == ChannelMixMode::SecondChannel {
                1int
            } else {
                0int
            }],
{
}

/// Appends the mono frames of interleaved `input` to `output`. Mono input
/// is copied; otherwise the first or second channel of each whole frame is
/// kept. Mixing all channels is arithmetic on the samples, done by the
/// caller.
pub fn process_channels<T: Copy>(
    input: &[T],
    input_channels: usize,
    mix_mode: ChannelMixMode,
    output: &mut Vec<T>,
)
    requires
        input_channels >= 1,
        input_channels == 1 || mix_mode != ChannelMixMode::MixToMono,
    ensures
        final(output)@ == old(output)@ + select_channel_spec(
            input@,
            input_channels as int,
            mix_mode,
        ),
        input_channels == 1 ==> final(output)@ == old(output)@ + input@,
        input_channels >= 2 ==> final(output)@.len() == old(output)@.len() + (input@.len() as int)
            / (input_channels as int),
        input_channels >= 2 ==> forall|f: int|
            0 <= f < (input@.len() as int) / (input_channels as int) ==> #[trigger] final(output)@[old(
                output,
            )@.len() + f] == input@[f * input_channels + if mix_mode
                == ChannelMixMode::SecondChannel {
                1int
            } else {
                0int
            }],
{
    proof {
        lemma_channel_selection(input@, input_channels as int, mix_mode);
    }
    let ghost start = output@;
    if input_channels == 1 {
        let mut i: usize = 0;
        while i < input.len()
            invariant
                i <= input@.len(),
                output@ == start + input@.take(i as int),
            decreases input@.len() - i,
        {
            output.push(input[i]);
            i += 1;
            assert(output@ =~= start + input@.take(i as int));
        }
        assert(input@.take(input@.len() as int) =~= input@);
        return;
    }
    let frames = input.len() / input_channels;
    let offset: usize = match mix_mode {
        ChannelMixMode::SecondChannel => if input_channels >= 2 {
            1
        } else {
            0
        },
        _ => 0,
    };
    let ghost sel = select_channel_spec(input@, input_channels as int, mix_mode);
    let mut f: usize = 0;
    while f < frames
        invariant
            input_channels >= 2,
            frames == input@.len() as int / (input_channels as int),
            offset == kept_channel(input_channels as int, mix_mode),
            sel == select_channel_spec(input@, input_channels as int, mix_mode),
            f <= frames,
            output@ == start + sel.take(f as int),
        decreases frames - f,
    {
        proof {
            assert(f * input_channels + input_channels <= frames * input_channels) by (
            nonlinear_arith)
                requires
                    f < frames,
            ;
            assert(frames * input_channels <= input@.len()) by (nonlinear_arith)
                requires
                    frames == input@.len() as int / (input_channels as int),
                    input_channels >= 2,
            ;
        }
        assert(offset <= 1);
        assert((f * input_channels) as int + offset < input@.len());
        assert(input@.len() == input.len());
        let idx = f * input_channels + offset;
        output.push(input[idx]);
        f += 1;
        assert(output@ =~= start + sel.take(f as int));
    }
    assert(sel.take(frames as int) =~= sel);
}

/// One pass-through step of a frame queue: `frames` joined the `before`
/// frames; when a whole block was then waiting, the oldest block came `out`,
/// otherwise nothing did; `after` is what is left waiting.
pub open spec fn passes_block<T>(
    before: Seq<T>,
    frames: Seq<T>,
    block: nat,
    out: Seq<T>,
    after: Seq<T>,
) -> bool {
    let w = before + frames;
    if w.len() < block {
        out.len() == 0 && after == w
    } else {
        out == w.take(block as int) && after == w.skip(block as int)
    }
}

/// Number of non-empty pieces.
pub open spec fn filled<T>(pieces: Seq<Seq<T>>) -> nat
    decreases pieces.len(),
{
    if pieces.len() == 0 {
        0
    } else {
        filled(pieces.drop_last()) + if pieces.last().len() > 0 {
            1nat
        } else {
            0nat
        }
    }
}

/// Chaining pass-through steps from any waiting frames.
proof fn lemma_passthrough_chain<T>(
    inputs: Seq<Seq<T>>,
    outputs: Seq<Seq<T>>,
    waits: Seq<Seq<T>>,
    block: nat,
)
    requires
        block > 0,
        outputs.len() == inputs.len(),
        waits.len() == inputs.len() + 1,
        forall|i: int|
            0 <= i < inputs.len() ==> #[trigger] passes_block(
                waits[i],
                inputs[i],
                block,
                outputs[i],
                waits[i + 1],
            ),
    ensures
        forall|i: int|
            0 <= i < outputs.len() ==> (#[trigger] outputs[i]).len() == 0 || outputs[i].len()
                == block,
        concat(outputs) + waits.last() == waits[0] + concat(inputs),
        concat(outputs).len() == block * filled(outputs),
        (waits[0].len() < block && forall|i: int|
            0 <= i < inputs.len() ==> (#[trigger] inputs[i]).len() <= block) ==> waits.last().len()
            < block,
    decreases inputs.len(),
{
    let n = inputs.len() as int;
    if n == 0 {
        assert(concat(outputs) =~= Seq::<T>::empty());
        assert(waits.last() == waits[0]);
        assert(Seq::<T>::empty() + waits[0] =~= waits[0] + Seq::<T>::empty());
        assert(filled(outputs) == 0);
        assert(block * 0 == 0) by (nonlinear_arith);
    } else {
        let ins = inputs.drop_last();
        let outs = outputs.drop_last();
        let ws = waits.drop_last();
        assert forall|i: int| 0 <= i < ins.len() implies #[trigger] passes_block(
            ws[i],
            ins[i],
            block,
            outs[i],
            ws[i + 1],
        ) by {
            assert(passes_block(waits[i], inputs[i], block, outputs[i], waits[i + 1]));
        }
        lemma_passthrough_chain(ins, outs, ws, block);
        let o = outputs[n - 1];
        let x = inputs[n - 1];
        let p = waits[n - 1];
        let q = waits[n];
        assert(passes_block(p, x, block, o, q));
        assert(ws.last() == p);
        assert(ws[0] == waits[0]);
        assert(outputs.last() == o);
        assert(inputs.last() == x);
        assert(waits.last() == q);
        let c1 = concat(outs);
        let i1 = concat(ins);
        assert(concat(outputs) == c1 + o);
        assert(concat(inputs) == i1 + x);
        assert(c1 + p == waits[0] + i1);
        let w = p + x;
        assert(o + q =~= w) by {
            if w.len() >= block {
                assert(w.take(block as int) + w.skip(block as int) =~= w);
            }
        }
        assert((c1 + o) + q =~= c1 + (o + q));
        assert(c1 + (p + x) =~= (c1 + p) + x);
        assert((waits[0] + i1) + x =~= waits[0] + (i1 + x));
        assert(filled(outputs) == filled(outs) + if o.len() > 0 {
            1nat
        } else {
            0nat
        });
        assert(block * filled(outs) + o.len() == block * filled(outputs)) by (nonlinear_arith)
            requires
                o.len() == 0 || o.len() == block,
                filled(outputs) == filled(outs) + if o.len() > 0 {
                    1nat
                } else {
                    0nat
                },
        ;
        assert forall|i: int| 0 <= i < outputs.len() implies (#[trigger] outputs[i]).len() == 0
            || outputs[i].len() == block by {
            if i < n - 1 {
                assert(outputs[i] == outs[i]);
            }
        }
        if waits[0].len() < block && forall|i: int|
            0 <= i < inputs.len() ==> (#[trigger] inputs[i]).len() <= block {
            assert forall|i: int| 0 <= i < ins.len() implies (#[trigger] ins[i]).len() <= block by {
                assert(ins[i] == inputs[i]);
            }
            assert(x.len() <= block);
        }
    }
}

/// Across successive pass-through calls on one queue that starts empty,
/// the blocks handed out, taken together in order, are a prefix of all the
/// frames taken in: each call hands out nothing or exactly one block, no
/// frame is lost, duplicated or reordered, and the rest is still waiting.
/// When no call takes in more than a block, fewer than a block's worth is
/// ever left waiting, so every whole block of the input has come out.
pub proof fn lemma_successive_passthrough<T>(
    inputs: Seq<Seq<T>>,
    outputs: Seq<Seq<T>>,
    waits: Seq<Seq<T>>,
    block: nat,
)
    requires
        block > 0,
        outputs.len() == inputs.len(),
        waits.len() == inputs.len() + 1,
        waits[0].len() == 0,
        forall|i: int|
            0 <= i < inputs.len() ==> #[trigger] passes_block(
                waits[i],
                inputs[i],
                block,
                outputs[i],
                waits[i + 1],
            ),
    ensures
        forall|i: int|
            0 <= i < outputs.len() ==> (#[trigger] outputs[i]).len() == 0 || outputs[i].len()
                == block,
        concat(outputs).len() == block * filled(outputs),
        concat(outputs) == concat(inputs).take(concat(outputs).len() as int),
        waits.last() == concat(inputs).skip(concat(outputs).len() as int),
        (forall|i: int| 0 <= i < inputs.len() ==> (#[trigger] inputs[i]).len() <= block) ==> (
        waits.last().len() < block && filled(outputs) == concat(inputs).len() / block),
{
    lemma_passthrough_chain(inputs, outputs, waits, block);
    let all = concat(outputs);
    let total = concat(inputs);
    let q = waits.last();
    assert(waits[0] =~= Seq::<T>::empty());
    assert(waits[0] + total =~= total);
    assert(all + q == total);
    assert(total.take(all.len() as int) =~= all);
    assert(total.skip(all.len() as int) =~= q);
    if forall|i: int| 0 <= i < inputs.len() ==> (#[trigger] inputs[i]).len() <= block {
        assert(q.len() < block);
        assert(total.len() == filled(outputs) * block + q.len()) by (nonlinear_arith)
            requires
                total.len() == all.len() + q.len(),
                all.len() == block * filled(outputs),
        ;
        vstd::arithmetic::div_mod::lemma_fundamental_div_mod_converse_div(
            total.len() as int,
            block as int,
            filled(outputs) as int,
            q.len() as int,
        );
    }
}

/// Mono frames waiting to be converted, handed out in blocks.
pub struct FrameQueue<T> {
    frames: Vec<T>,
    chunk_frames: usize,
}

impl<T: Copy> FrameQueue<T> {
    /// The frames waiting, oldest first.
    pub closed spec fn waiting(&self) -> Seq<T> {
        self.frames@
    }

    /// Frames in one block.
    pub closed spec fn block(&self) -> nat {
        self.chunk_frames as nat
    }

    /// An empty queue handing out blocks of `chunk_frames` frames.
    pub fn new(chunk_frames: usize) -> (res: FrameQueue<T>)
        ensures
            res.waiting() == Seq::<T>::empty(),
            res.block() == chunk_frames,
    {
        FrameQueue { frames: Vec::new(), chunk_frames }
    }

    /// Number of frames waiting.
    pub fn len(&self) -> (res: usize)
        ensures
            res == self.waiting().len(),
    {
        self.frames.len()
    }

    /// Whether a whole block is waiting.
    pub fn has_block(&self) -> (res: bool)
        ensures
            res == (self.waiting().len() >= self.block()),
    {
        self.frames.len() >= self.chunk_frames
    }

    /// Appends frames at the back of the queue.
    pub fn push_frames(&mut self, frames: &[T])
        ensures
            final(self).waiting() == old(self).waiting() + frames@,
            final(self).block() == old(self).block(),
    {
        let ghost start = self.frames@;
        let mut i: usize = 0;
        while i < frames.len()
            invariant
                i <= frames@.len(),
                self.frames@ == start + frames@.take(i as int),
                self.chunk_frames == old(self).chunk_frames,
            decreases frames@.len() - i,
        {
            self.frames.push(frames[i]);
            i += 1;
            assert(self.frames@ =~= start + frames@.take(i as int));
        }
        assert(frames@.take(frames@.len() as int) =~= frames@);
    }

    /// Takes the oldest `n` frames out of the queue.
    fn take_front(&mut self, n: usize) -> (res: Vec<T>)
        requires
            n <= old(self).waiting().len(),
        ensures
            res@ == old(self).waiting().take(n as int),
            final(self).waiting() == old(self).waiting().skip(n as int),
            final(self).block() == old(self).block(),
    {
        let mut front = self.frames.split_off(n);
        std::mem::swap(&mut front, &mut self.frames);
        front
    }

    /// Takes the oldest block out of the queue.
    pub fn take_block(&mut self) -> (res: Vec<T>)
        requires
            old(self).waiting().len() >= old(self).block(),
        ensures
            res@ == old(self).waiting().take(old(self).block() as int),
            final(self).waiting() == old(self).waiting().skip(old(self).block() as int),
            final(self).block() == old(self).block(),
    {
        let n = self.chunk_frames;
        self.take_front(n)
    }

    /// Hands out frames that need no rate conversion: nothing while less
    /// than a block is waiting; otherwise the oldest block, which must fit
    /// in one output chunk (else the queue is left as it is and an error
    /// comes back).
    pub fn take_passthrough(&mut self) -> (res: Result<Vec<T>, ChunkOverflow>)
        ensures
            old(self).waiting().len() < old(self).block() ==> (res matches Ok(v) && v@.len() == 0)
                && final(self).waiting() == old(self).waiting(),
            old(self).waiting().len() >= old(self).block() && old(self).block() > CHUNK_SIZE ==> res
                == Err::<Vec<T>, ChunkOverflow>(ChunkOverflow { frames: old(self).block() as usize })
                && final(self).waiting() == old(self).waiting(),
            old(self).waiting().len() >= old(self).block() && old(self).block() <= CHUNK_SIZE ==> (
            res matches Ok(v) && v@ == old(self).waiting().take(old(self).block() as int))
                && final(self).waiting() == old(self).waiting().skip(old(self).block() as int),
            final(self).block() == old(self).block(),
    {
        if self.frames.len() < self.chunk_frames {
            return Ok(Vec::new());
        }
        let frames_to_take = self.chunk_frames;
        if frames_to_take > CHUNK_SIZE {
            return Err(ChunkOverflow { frames: frames_to_take });
        }
        Ok(self.take_front(frames_to_take))
    }

    /// Takes in one callback's mono frames when no rate conversion is
    /// needed: the frames are queued, then a block is handed out as by
    /// [`FrameQueue::take_passthrough`].
    pub fn push_and_take_passthrough(&mut self, frames: &[T]) -> (res: Result<Vec<T>, ChunkOverflow>)
        ensures
            res is Err <==> (old(self).waiting().len() + frames@.len() >= old(self).block()
                && old(self).block() > CHUNK_SIZE),
            res matches Err(e) ==> (e == (ChunkOverflow { frames: old(self).block() as usize }))
                && final(self).waiting() == old(self).waiting() + frames@,
            res matches Ok(v) ==> passes_block(
                old(self).waiting(),
                frames@,
                old(self).block(),
                v@,
                final(self).waiting(),
            ),
            final(self).block() == old(self).block(),
    {
        self.push_frames(frames);
        self.take_passthrough()
    }
}

/// A block of frames too large for one output chunk.
#[derive(Clone, Copy, Debug, PartialEq, Eq, Structural)]
pub struct ChunkOverflow {
    /// Frames in the block.
    pub frames: usize,
}

/// Whether a converted block fits in one output chunk.
pub fn fits_in_chunk(len: usize) -> (res: Result<(), ChunkOverflow>)
    ensures
        res is Ok <==> len <= CHUNK_SIZE,
        res matches Err(e) ==> e.frames == len,
{
    if len > CHUNK_SIZE {
        Err(ChunkOverflow { frames: len })
    } else {
        Ok(())
    }
}

} // verus!

//! The audio block cycle: acquire one block of interleaved stereo input from
//! the transfer channel, process it frame by frame, and submit it frame by
//! frame to the channel's output path.
//!
//! `AudioChannel` is the transfer channel: a DMA buffer for each direction,
//! split into two halves that the peripheral fills and drains in turn. The
//! peripheral's side (filling an input half, raising its flag, reading the
//! output) is exposed as methods so that the channel can be driven without
//! hardware.
use vstd::prelude::*;

use crate::config::BLOCK_SIZE_MAX;
use crate::num::{S24, lemma_word_round_trip};

verus! {

/// One stereo frame: (left, right).
pub type Frame = (S24, S24);

/// Why the channel refused an output frame.
#[derive(Debug, Clone, Copy, PartialEq, Eq)]
pub enum ChannelError {
    /// The output buffer has no room left after the current position.
    Full,
}

/// Frames `0..n` read from interleaved words starting at `start`: left from
/// the even word, right from the odd word that follows it.
pub open spec fn decode_frames(words: Seq<u32>, start: int, n: nat) -> Seq<Frame> {
    Seq::new(
        n,
        |k: int| (S24::of_word(words[start + 2 * k]), S24::of_word(words[start + 2 * k + 1])),
    )
}

/// The words of `frames` laid out interleaved: left, right, left, right, ...
pub open spec fn interleave(frames: Seq<Frame>) -> Seq<u32> {
    Seq::new(
        2 * frames.len(),
        |j: int|
            if j % 2 == 0 {
                frames[j / 2].0.word()
            } else {
                frames[j / 2].1.word()
            },
    )
}

/// `out` with the words at `start..start + words.len()` replaced by `words`.
pub open spec fn splice(out: Seq<u32>, start: int, words: Seq<u32>) -> Seq<u32> {
    out.subrange(0, start) + words + out.subrange(start + words.len(), out.len() as int)
}

/// The processing stage applied to each frame: identity pass-through.
pub open spec fn process_spec<T>(frame: (T, T)) -> (T, T) {
    frame
}

/// The processing stage: every frame leaves as it came, left stays left and
/// right stays right.
pub fn process_frame<T: Copy>(frame: (T, T)) -> (r: (T, T))
    ensures
        r == process_spec(frame),
        r.0 == frame.0,
        r.1 == frame.1,
{
    (frame.0, frame.1)
}

/// The state of a transfer channel.
pub ghost struct ChannelView {
    /// Frames per block.
    pub block_size: nat,
    /// The whole input DMA buffer: two halves of `2 * block_size` words.
    pub input: Seq<u32>,
    /// The whole output DMA buffer, laid out as the input.
    pub output: Seq<u32>,
    /// Where the half that software may read begins.
    pub input_index: nat,
    /// Where the next output frame goes.
    pub output_index: nat,
    /// The peripheral has finished the first half.
    pub half_transfer: bool,
    /// The peripheral has finished the second half.
    pub transfer_complete: bool,
}

impl ChannelView {
    /// Both buffers hold two halves of one block each; the input position is
    /// the start of a half; the output position is even and inside the
    /// buffer or at its end.
    pub open spec fn wf(self) -> bool {
        &&& 0 < self.block_size <= BLOCK_SIZE_MAX
        &&& self.input.len() == 2 * self.half_len()
        &&& self.output.len() == 2 * self.half_len()
        &&& (self.input_index == 0 || self.input_index == self.half_len())
        &&& self.output_index % 2 == 0
        &&& self.output_index <= self.output.len()
    }

    /// Words in one half.
    pub open spec fn half_len(self) -> nat {
        2 * self.block_size
    }

    /// Where the half that an acquire would hand out begins, if any.
    pub open spec fn ready_half(self) -> Option<nat> {
        if self.half_transfer {
            Some(0)
        } else if self.transfer_complete {
            Some(self.half_len())
        } else {
            None
        }
    }

    /// The state after an acquire that found `start` ready: the flag is
    /// cleared and both positions move to that half.
    pub open spec fn after_acquire(self, start: nat) -> ChannelView {
        ChannelView {
            input_index: start,
            output_index: start,
            half_transfer: false,
            transfer_complete: if self.half_transfer { self.transfer_complete } else { false },
            ..self
        }
    }
}

/// A double-buffered transfer channel for interleaved stereo samples.
pub struct AudioChannel {
    block_size: usize,
    input: Vec<u32>,
    output: Vec<u32>,
    input_index: usize,
    output_index: usize,
    half_transfer: bool,
    transfer_complete: bool,
}

impl View for AudioChannel {
    type V = ChannelView;

    closed spec fn view(&self) -> ChannelView {
        ChannelView {
            block_size: self.block_size as nat,
            input: self.input@,
            output: self.output@,
            input_index: self.input_index as nat,
            output_index: self.output_index as nat,
            half_transfer: self.half_transfer,
            transfer_complete: self.transfer_complete,
        }
    }
}

impl AudioChannel {
    /// The channel's state is well formed.
    pub open spec fn wf(&self) -> bool {
        self@.wf()
    }

    /// A channel for blocks of `block_size` frames, both buffers silent and
    /// no half ready.
    pub fn new(block_size: usize) -> (r: AudioChannel)
        requires
            0 < block_size <= BLOCK_SIZE_MAX,
        ensures
            r.wf(),
            r@.block_size == block_size,
            r@.input == Seq::new(4 * block_size as nat, |i: int| 0u32),
            r@.output == Seq::new(4 * block_size as nat, |i: int| 0u32),
            r@.input_index == 0,
            r@.output_index == 0,
            !r@.half_transfer,
            !r@.transfer_complete,
    {
        let input: Vec<u32> = vec![0u32; 4 * block_size];
        let output: Vec<u32> = vec![0u32; 4 * block_size];
        let r = AudioChannel {
            block_size,
            input,
            output,
            input_index: 0,
            output_index: 0,
            half_transfer: false,
            transfer_complete: false,
        };
        assert(r@.input =~= Seq::new(4 * block_size as nat, |i: int| 0u32));
        assert(r@.output =~= Seq::new(4 * block_size as nat, |i: int| 0u32));
        r
    }

    /// Frames per block.
    pub fn block_size(&self) -> (r: usize)
        ensures
            r == self@.block_size,
    {
        self.block_size
    }

    /// The output buffer as the peripheral would play it.
    pub fn output_words(&self) -> (r: Vec<u32>)
        ensures
            r@ == self@.output,
    {
        self.output.clone()
    }

    /// Peripheral side: the words of one half have arrived in the input
    /// buffer (the first half if `first`, else the second) and its flag is
    /// raised.
    pub fn receive_half(&mut self, first: bool, words: &Vec<u32>)
        requires
            old(self).wf(),
            words.len() == 2 * old(self)@.block_size,
        ensures
            final(self).wf(),
            ({
                let start: int = if first { 0 } else { 2 * old(self)@.block_size as int };
                &&& final(self)@ == (ChannelView {
                    input: splice(old(self)@.input, start, words@),
                    half_transfer: if first { true } else { old(self)@.half_transfer },
                    transfer_complete: if first { old(self)@.transfer_complete } else { true },
                    ..old(self)@
                })
            }),
    {
        let start: usize = if first { 0 } else { 2 * self.block_size };
        let n: usize = words.len();
        let mut j: usize = 0;
        while j < n
            invariant
                self.wf(),
                n == words.len() == 2 * self.block_size,
                start == 0 || start == 2 * self.block_size,
                j <= n,
                self@ == (ChannelView { input: self@.input, ..old(self)@ }),
                self@.input.len() == old(self)@.input.len(),
                forall|i: int|
                    0 <= i < self@.input.len() ==> #[trigger] self@.input[i] == if start <= i < start
                        + j { words@[i - start] } else { old(self)@.input[i] },
            decreases n - j,
        {
            self.input.set(start + j, words[j]);
            j = j + 1;
        }
        if first {
            self.half_transfer = true;
        } else {
            self.transfer_complete = true;
        }
        assert(self@.input =~= splice(old(self)@.input, start as int, words@));
    }

    /// Hands out the input half that the peripheral has finished, decoded
    /// into `dest` frame by frame, left then right. The first half wins when
    /// both are ready. The half's flag is cleared and the output position
    /// moves to the matching output half. Returns `false`, and changes
    /// nothing, when no half is ready.
    pub fn try_acquire_input_block(&mut self, dest: &mut Vec<Frame>) -> (r: bool)
        requires
            old(self).wf(),
            old(dest).len() == old(self)@.block_size,
        ensures
            final(self).wf(),
            r == old(self)@.ready_half() is Some,
            r ==> ({
                let start = old(self)@.ready_half()->Some_0;
                &&& final(self)@ == old(self)@.after_acquire(start)
                &&& final(dest)@ == decode_frames(old(self)@.input, start as int, old(self)@.block_size)
            }),
            !r ==> final(self)@ == old(self)@ && final(dest)@ == old(dest)@,
    {
        let start: usize;
        if self.half_transfer {
            self.half_transfer = false;
            start = 0;
        } else if self.transfer_complete {
            self.transfer_complete = false;
            start = 2 * self.block_size;
        } else {
            return false;
        }
        self.input_index = start;
        self.output_index = start;
        let n: usize = self.block_size;
        let mut k: usize = 0;
        while k < n
            invariant
                self.wf(),
                n == self.block_size,
                start == 0 || start == 2 * n,
                self@ == old(self)@.after_acquire(start as nat),
                dest.len() == n,
                k <= n,
                forall|i: int|
                    0 <= i < k ==> #[trigger] dest@[i] == decode_frames(self@.input, start as int, n as nat)[i],
            decreases n - k,
        {
            let left = S24::from(self.input[start + 2 * k]);
            let right = S24::from(self.input[start + 2 * k + 1]);
            dest.set(k, (left, right));
            k = k + 1;
        }
        assert(dest@ =~= decode_frames(self@.input, start as int, n as nat));
        true
    }

    /// Writes one frame at the output position, left then right, and moves
    /// the position past it. Refuses with `ChannelError::Full`, changing
    /// nothing, when the position is at the end of the output buffer.
    pub fn submit_output_frame(&mut self, frame: Frame) -> (r: Result<(), ChannelError>)
        requires
            old(self).wf(),
        ensures
            final(self).wf(),
            old(self)@.output_index < old(self)@.output.len() ==> {
                &&& r is Ok
                &&& final(self)@ == (ChannelView {
                    output: old(self)@.output.update(old(self)@.output_index as int, frame.0.word()).update(
                        old(self)@.output_index + 1int,
                        frame.1.word(),
                    ),
                    output_index: old(self)@.output_index + 2,
                    ..old(self)@
                })
            },
            old(self)@.output_index >= old(self)@.output.len() ==> r == Err::<(), ChannelError>(ChannelError::Full)
                && final(self)@ == old(self)@,
    {
        let i: usize = self.output_index;
        if i < self.output.len() {
            let left: u32 = u32::from(frame.0);
            let right: u32 = u32::from(frame.1);
            self.output.set(i, left);
            self.output.set(i + 1, right);
            self.output_index = i + 2;
            Ok(())
        } else {
            Err(ChannelError::Full)
        }
    }
} // impl AudioChannel

/// The state of `channel` after a full cycle on the half that starts at
/// `start`: acquired, and `frames` written into the matching output half.
pub open spec fn after_cycle(channel: ChannelView, start: nat, frames: Seq<Frame>) -> ChannelView {
    ChannelView {
        output: splice(channel.output, start as int, interleave(frames)),
        output_index: start + 2 * frames.len(),
        ..channel.after_acquire(start)
    }
}

/// One block cycle, run once per transfer-complete signal: acquire the ready
/// input half into `block`, pass every frame through the processing stage,
/// and submit the processed frames in order to the output half.
///
/// Returns `false` when no half was ready: then neither the block nor the
/// channel changes and nothing is submitted, and the caller reports the
/// missing data. Submission never fails, since acquiring frees exactly one
/// block of output room.
pub fn audio_handler(channel: &mut AudioChannel, block: &mut Vec<Frame>) -> (r: bool)
    requires
        old(channel).wf(),
        old(block).len() == old(channel)@.block_size,
    ensures
        final(channel).wf(),
        r == old(channel)@.ready_half() is Some,
        r ==> ({
            let start = old(channel)@.ready_half()->Some_0;
            let frames = decode_frames(old(channel)@.input, start as int, old(channel)@.block_size);
            &&& final(block)@ == frames
            &&& final(channel)@ == after_cycle(old(channel)@, start, frames)
        }),
        !r ==> final(channel)@ == old(channel)@ && final(block)@ == old(block)@,
{
    if !channel.try_acquire_input_block(block) {
        return false;
    }
    let ghost start: nat = old(channel)@.ready_half()->Some_0;
    let ghost acquired: ChannelView = channel@;
    let n: usize = block.len();
    let mut k: usize = 0;
    assert(interleave(block@.take(0)) =~= Seq::<u32>::empty());
    assert(splice(acquired.output, start as int, Seq::<u32>::empty()) =~= acquired.output);
    while k < n
        invariant
            channel.wf(),
            n == block.len() == channel@.block_size,
            start == 0 || start == 2 * n,
            k <= n,
            acquired.output.len() == 4 * n,
            channel@ == (ChannelView {
                output: splice(acquired.output, start as int, interleave(block@.take(k as int))),
                output_index: (start + 2 * k) as nat,
                ..acquired
            }),
        decreases n - k,
    {
        let frame = process_frame(block[k]);
        channel.submit_output_frame(frame).unwrap();
        proof {
            let prev = interleave(block@.take(k as int));
            let next = interleave(block@.take(k + 1));
            assert(next =~= prev.push(frame.0.word()).push(frame.1.word()));
            assert(splice(acquired.output, start as int, next) =~= splice(
                acquired.output,
                start as int,
                prev,
            ).update(start + 2 * k, frame.0.word()).update(start + 2 * k + 1, frame.1.word()));
        }
        k = k + 1;
    }
    assert(block@.take(n as int) =~= block@);
    true
}

/// Pass-through identity: decoding a half of interleaved words into frames
/// and writing those frames back out interleaved gives the same words, in
/// the same order.
pub proof fn lemma_pass_through(words: Seq<u32>, start: int, n: nat)
    requires
        0 <= start,
        start + 2 * n <= words.len(),
    ensures
        interleave(decode_frames(words, start, n)) == words.subrange(start, start + 2 * n),
{
    let frames = decode_frames(words, start, n);
    assert forall|j: int| 0 <= j < 2 * n implies #[trigger] interleave(frames)[j] == words[start + j] by {
        lemma_word_round_trip(words[start + j]);
    }
    assert(interleave(frames) =~= words.subrange(start, start + 2 * n));
}

/// Frame order: the words presented to the output path alternate left and
/// right, starting with left, frame after frame with none dropped or moved.
pub proof fn lemma_frame_order(frames: Seq<Frame>)
    ensures
        interleave(frames).len() == 2 * frames.len(),
        forall|k: int|
            0 <= k < frames.len() ==> {
                &&& #[trigger] interleave(frames)[2 * k] == frames[k].0.word()
                &&& interleave(frames)[2 * k + 1] == frames[k].1.word()
            },
{
    assert forall|k: int| 0 <= k < frames.len() implies {
        &&& #[trigger] interleave(frames)[2 * k] == frames[k].0.word()
        &&& interleave(frames)[2 * k + 1] == frames[k].1.word()
    } by {
        assert((2 * k) % 2 == 0 && (2 * k) / 2 == k);
        assert((2 * k + 1) % 2 == 1 && (2 * k + 1) / 2 == k);
    }
}


/// Pass-through identity over a whole cycle: when a half is ready, the
/// output half that the cycle fills holds exactly the words of the input
/// half it acquired, left and right in place; the rest of the output buffer
/// is untouched.
pub proof fn lemma_cycle_pass_through(channel: ChannelView)
    requires
        channel.wf(),
        channel.ready_half() is Some,
    ensures
        ({
            let start = channel.ready_half()->Some_0;
            let frames = decode_frames(channel.input, start as int, channel.block_size);
            let out = after_cycle(channel, start, frames).output;
            &&& out.len() == channel.output.len()
            &&& out.subrange(start as int, (start + channel.half_len()) as int) == channel.input.subrange(
                start as int,
                (start + channel.half_len()) as int,
            )
            &&& forall|i: int|
                0 <= i < out.len() && !(start <= i < start + channel.half_len()) ==> #[trigger] out[i]
                    == channel.output[i]
        }),
{
    let start = channel.ready_half()->Some_0;
    let n = channel.block_size;
    let frames = decode_frames(channel.input, start as int, n);
    lemma_pass_through(channel.input, start as int, n);
    let out = after_cycle(channel, start, frames).output;
    assert(out.subrange(start as int, (start + channel.half_len()) as int) =~= interleave(frames));
}

} // verus!

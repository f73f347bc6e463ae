//! Buffering PCM deliveries of any size into the fixed chunks a resampler
//! takes.
//!
//! A delivery is 16-bit stereo PCM at 44100 Hz, interleaved, of any
//! length: a delivery may end between the two samples of a stereo pair,
//! and the left sample then waits for its partner. The samples are split
//! by channel and wait until a chunk is full. Resampling works on
//! floating point and is done by the caller: the pipeline hands out the
//! chunks and the caller feeds what the resampler made of them to the
//! pipeline's encoder stage.

use crate::framing::blocks_after;
use crate::framing::copy_range;
use crate::framing::joined;
use crate::framing::left_channel;
use crate::framing::leftover;
use crate::framing::lemma_block_counts;
use crate::framing::lemma_blocks_of_concat;
use crate::framing::lemma_block_count_with_padding;
use crate::framing::lemma_channels_of_concat;
use crate::framing::lemma_delivery_sizes_do_not_matter;
use crate::framing::pad_with_silence;
use crate::framing::padded;
use crate::framing::rest_after;
use crate::framing::right_channel;
use crate::framing::unpaired;
use crate::framing::whole_blocks;
use crate::opus::abort_pages;
use crate::opus::aborted;
use crate::opus::can_still_end;
use crate::opus::OggOpusStreamer;
use crate::opus::OPUS_FRAME_SAMPLES;
use crate::opus::Phase;
use crate::opus::StreamView;
use vstd::arithmetic::div_mod::lemma_fundamental_div_mod_converse;
use vstd::prelude::*;

verus! {

/// Samples per channel in one resampler input chunk. Larger means more
/// latency, smaller more work.
pub const CHUNK_SIZE: usize = 960;

/// One resampler input chunk: `CHUNK_SIZE` samples of each channel.
pub struct StereoChunk {
    pub left: Vec<i16>,
    pub right: Vec<i16>,
}

/// Where a pipeline stands.
#[derive(Clone, Copy, Debug, PartialEq, Eq, Structural)]
pub enum PipelineState {
    /// Less than a chunk has arrived since the last chunk was handed out.
    Buffering,
    /// The last delivery filled at least one chunk.
    Draining,
    /// The remaining samples were handed out; the stream is to be ended.
    /// Nothing leads out of this state.
    Flushed,
}

/// What a pipeline is, seen from outside, apart from its encoder stage.
pub struct PipelineView {
    /// Samples of the left channel that wait for a chunk to fill.
    pub left: Seq<i16>,
    /// Samples of the right channel that wait for a chunk to fill.
    pub right: Seq<i16>,
    /// The left sample, if any, whose right sample has not arrived yet.
    pub pending: Seq<i16>,
    /// Where the pipeline stands.
    pub state: PipelineState,
}

/// Drives PCM towards the encoder stage: buffers deliveries across calls
/// and cuts them into resampler chunks without losing or reordering a
/// sample.
pub struct AudioPipeline {
    /// The stage that frames and muxes what the resampler returns.
    pub encoder: OggOpusStreamer,
    /// Samples of the left channel that wait for a chunk to fill.
    pub buffer_left: Vec<i16>,
    /// Samples of the right channel that wait for a chunk to fill.
    pub buffer_right: Vec<i16>,
    /// The left sample whose right sample has not arrived yet.
    pub pending: Option<i16>,
    /// Where the pipeline stands.
    pub state: PipelineState,
}

/// A sample that waits for its partner, as a run of samples.
pub open spec fn carried(pending: Option<i16>) -> Seq<i16> {
    match pending {
        Some(sample) => seq![sample],
        None => Seq::empty(),
    }
}

impl View for AudioPipeline {
    type V = PipelineView;

    open spec fn view(&self) -> PipelineView {
        PipelineView {
            left: self.buffer_left@,
            right: self.buffer_right@,
            pending: carried(self.pending),
            state: self.state,
        }
    }
}

/// The chunks that a delivery completes, given what waited of each channel
/// and the sample that waited for its partner.
pub open spec fn chunks_due(left: Seq<i16>, right: Seq<i16>, pending: Seq<i16>, pcm: Seq<i16>) -> Seq<
    (Seq<i16>, Seq<i16>),
> {
    whole_blocks(left + left_channel(pending + pcm), CHUNK_SIZE as int).zip_with(
        whole_blocks(right + right_channel(pending + pcm), CHUNK_SIZE as int),
    )
}

/// The contents of a run of chunks.
pub open spec fn chunk_contents(chunks: Seq<StereoChunk>) -> Seq<(Seq<i16>, Seq<i16>)> {
    Seq::new(chunks.len(), |i: int| (chunks[i].left@, chunks[i].right@))
}

/// As many samples of silence as `pending` holds samples.
pub open spec fn silence_for(pending: Seq<i16>) -> Seq<i16> {
    Seq::new(pending.len(), |i: int| 0i16)
}

/// Splits interleaved stereo samples and appends each channel to its
/// buffer. The sample that waited is the first to be paired; a sample
/// without its partner at the end waits in its turn.
fn deinterleave(
    left: &mut Vec<i16>,
    right: &mut Vec<i16>,
    pending: &mut Option<i16>,
    pcm: &[i16],
)
    ensures
        final(left)@ == old(left)@ + left_channel(carried(*old(pending)) + pcm@),
        final(right)@ == old(right)@ + right_channel(carried(*old(pending)) + pcm@),
        carried(*final(pending)) == unpaired(carried(*old(pending)) + pcm@),
{
    let ghost all = carried(*pending) + pcm@;
    let ghost waited = carried(*pending).len() as int;
    let len = pcm.len();
    let mut i: usize = 0;
    if len == 0 {
        proof {
            assert(all =~= carried(*pending));
            assert(left_channel(all) =~= Seq::<i16>::empty());
            assert(right_channel(all) =~= Seq::<i16>::empty());
            assert(unpaired(all) =~= carried(*pending));
            assert(left@ =~= old(left)@ + left_channel(all));
            assert(right@ =~= old(right)@ + right_channel(all));
        }
        return;
    }
    match *pending {
        Some(first) => {
            left.push(first);
            right.push(pcm[0]);
            i = 1;
            assert(left@ =~= old(left)@ + left_channel(all).take(1));
            assert(right@ =~= old(right)@ + right_channel(all).take(1));
        },
        None => {
            assert(left@ =~= old(left)@ + left_channel(all).take(0));
            assert(right@ =~= old(right)@ + right_channel(all).take(0));
        },
    }
    while len - i >= 2
        invariant
            i <= len,
            len == pcm@.len(),
            len <= usize::MAX,
            0 <= waited <= 1,
            all.len() == waited + len,
            forall|k: int| 0 <= k < len ==> all[waited + k] == #[trigger] pcm@[k],
            (waited + i) % 2 == 0,
            left@ == old(left)@ + left_channel(all).take((waited + i) / 2),
            right@ == old(right)@ + right_channel(all).take((waited + i) / 2),
        decreases len - i,
    {
        left.push(pcm[i]);
        right.push(pcm[i + 1]);
        i += 2;
        assert(left@ =~= old(left)@ + left_channel(all).take((waited + i) / 2));
        assert(right@ =~= old(right)@ + right_channel(all).take((waited + i) / 2));
    }
    if i < len {
        *pending = Some(pcm[i]);
        proof {
            assert(all.last() == pcm@[i as int]);
            assert(unpaired(all) =~= seq![pcm@[i as int]]);
        }
    } else {
        *pending = None;
        assert(unpaired(all) =~= Seq::<i16>::empty());
    }
    assert(left_channel(all).take((waited + i) / 2) =~= left_channel(all));
    assert(right_channel(all).take((waited + i) / 2) =~= right_channel(all));
}

impl AudioPipeline {
    /// The pipeline is consistent: both channels hold the same number of
    /// waiting samples, less than a chunk, and nothing waits once it is
    /// flushed; the encoder stage is consistent.
    pub open spec fn wf(&self) -> bool {
        &&& self.encoder.wf()
        &&& self.buffer_left@.len() == self.buffer_right@.len()
        &&& self.buffer_left@.len() < CHUNK_SIZE
        &&& self.state == PipelineState::Flushed ==> self.buffer_left@.len() == 0
            && self.pending is None
    }

    /// A pipeline around the given encoder stage, with nothing waiting.
    pub fn with_encoder(encoder: OggOpusStreamer) -> (p: Self)
        requires
            encoder.wf(),
        ensures
            p.wf(),
            p.encoder == encoder,
            p@ == (PipelineView {
                left: Seq::empty(),
                right: Seq::empty(),
                pending: Seq::empty(),
                state: PipelineState::Buffering,
            }),
    {
        AudioPipeline {
            encoder,
            buffer_left: Vec::new(),
            buffer_right: Vec::new(),
            pending: None,
            state: PipelineState::Buffering,
        }
    }

    /// A pipeline with a fresh encoder stage and nothing waiting.
    pub fn new() -> (p: Self)
        ensures
            p.wf(),
            p.encoder.wf(),
            p.encoder@ == (StreamView {
                packets: Seq::empty(),
                granule: 0,
                serial: p.encoder@.serial,
                buffered: Seq::empty(),
                phase: Phase::Fresh,
            }),
            p@ == (PipelineView {
                left: Seq::empty(),
                right: Seq::empty(),
                pending: Seq::empty(),
                state: PipelineState::Buffering,
            }),
    {
        Self::with_encoder(OggOpusStreamer::new())
    }

    /// Where the pipeline stands.
    pub fn state(&self) -> (s: PipelineState)
        ensures
            s == self@.state,
    {
        self.state
    }

    /// How many whole stereo pairs wait for a chunk to fill.
    pub fn buffered_len(&self) -> (n: usize)
        requires
            self.wf(),
        ensures
            n == self@.left.len(),
            n == self@.right.len(),
    {
        self.buffer_left.len()
    }

    /// Takes one delivery of interleaved stereo PCM, of any length, and
    /// hands out every resampler chunk that is now full, oldest first.
    /// What does not fill a chunk waits for the next delivery, and so does
    /// a last sample without its partner; no sample is lost and the order
    /// of samples and their channels are kept.
    ///
    /// A flushed pipeline stays flushed: it takes no delivery and hands out
    /// nothing.
    pub fn process(&mut self, pcm: &[i16]) -> (chunks: Vec<StereoChunk>)
        requires
            old(self).wf(),
        ensures
            final(self).wf(),
            final(self).encoder == old(self).encoder,
            old(self)@.state == PipelineState::Flushed ==> chunks@.len() == 0 && final(self)@
                == old(self)@,
            old(self)@.state != PipelineState::Flushed ==> {
                &&& chunk_contents(chunks@) == chunks_due(
                    old(self)@.left,
                    old(self)@.right,
                    old(self)@.pending,
                    pcm@,
                )
                &&& final(self)@.left == leftover(
                    old(self)@.left + left_channel(old(self)@.pending + pcm@),
                    CHUNK_SIZE as int,
                )
                &&& final(self)@.right == leftover(
                    old(self)@.right + right_channel(old(self)@.pending + pcm@),
                    CHUNK_SIZE as int,
                )
                &&& final(self)@.pending == unpaired(old(self)@.pending + pcm@)
                &&& final(self)@.state == if chunks@.len() > 0 {
                    PipelineState::Draining
                } else {
                    PipelineState::Buffering
                }
                &&& chunks@.len() == (old(self)@.left.len() + (old(self)@.pending.len()
                    + pcm@.len()) / 2) / 960
            },
            forall|i: int|
                0 <= i < chunks@.len() ==> (#[trigger] chunks@[i]).left@.len() == CHUNK_SIZE
                    && chunks@[i].right@.len() == CHUNK_SIZE,
    {
        if self.state == PipelineState::Flushed {
            return Vec::new();
        }
        deinterleave(&mut self.buffer_left, &mut self.buffer_right, &mut self.pending, pcm);
        let ghost all_left = self.buffer_left@;
        let ghost all_right = self.buffer_right@;
        let len = self.buffer_left.len();
        proof {
            lemma_block_counts(all_left, CHUNK_SIZE as int);
            lemma_block_counts(all_right, CHUNK_SIZE as int);
        }
        let mut chunks: Vec<StereoChunk> = Vec::new();
        let mut start: usize = 0;
        while len - start >= CHUNK_SIZE
            invariant
                len == all_left.len(),
                len == all_right.len(),
                self.buffer_left@ == all_left,
                self.buffer_right@ == all_right,
                self.encoder == old(self).encoder,
                carried(self.pending) == unpaired(old(self)@.pending + pcm@),
                start <= len,
                start == chunks@.len() * CHUNK_SIZE,
                forall|i: int|
                    0 <= i < chunks@.len() ==> (#[trigger] chunks@[i]).left@ == all_left.subrange(
                        i * CHUNK_SIZE,
                        i * CHUNK_SIZE + CHUNK_SIZE,
                    ) && chunks@[i].right@ == all_right.subrange(
                        i * CHUNK_SIZE,
                        i * CHUNK_SIZE + CHUNK_SIZE,
                    ),
            decreases len - start,
        {
            let left = copy_range(&self.buffer_left, start, start + CHUNK_SIZE);
            let right = copy_range(&self.buffer_right, start, start + CHUNK_SIZE);
            chunks.push(StereoChunk { left, right });
            start = start + CHUNK_SIZE;
        }
        let rest_left = copy_range(&self.buffer_left, start, len);
        let rest_right = copy_range(&self.buffer_right, start, len);
        proof {
            lemma_fundamental_div_mod_converse(
                len as int,
                CHUNK_SIZE as int,
                chunks@.len() as int,
                len - start,
            );
            assert(rest_left@ =~= leftover(all_left, CHUNK_SIZE as int));
            assert(rest_right@ =~= leftover(all_right, CHUNK_SIZE as int));
            assert(chunk_contents(chunks@) =~= chunks_due(
                old(self)@.left,
                old(self)@.right,
                old(self)@.pending,
                pcm@,
            ));
        }
        self.buffer_left = rest_left;
        self.buffer_right = rest_right;
        self.state = if chunks.len() > 0 {
            PipelineState::Draining
        } else {
            PipelineState::Buffering
        };
        chunks
    }

    /// Hands out what still waits as one last chunk, both channels padded
    /// with silence; nothing where nothing waits. A left sample that still
    /// waits for its partner is kept and paired with silence. The caller
    /// then ends the stream at the encoder stage.
    pub fn flush(&mut self) -> (chunk: Option<StereoChunk>)
        requires
            old(self).wf(),
        ensures
            final(self).wf(),
            final(self).encoder == old(self).encoder,
            final(self)@ == (PipelineView {
                left: Seq::empty(),
                right: Seq::empty(),
                pending: Seq::empty(),
                state: PipelineState::Flushed,
            }),
            old(self)@.left.len() + old(self)@.pending.len() == 0 ==> chunk is None,
            old(self)@.left.len() + old(self)@.pending.len() > 0 ==> {
                &&& chunk is Some
                &&& chunk->0.left@ == padded(
                    old(self)@.left + old(self)@.pending,
                    CHUNK_SIZE as int,
                )
                &&& chunk->0.right@ == padded(
                    old(self)@.right + silence_for(old(self)@.pending),
                    CHUNK_SIZE as int,
                )
                &&& chunk->0.left@.len() == CHUNK_SIZE
                &&& chunk->0.right@.len() == CHUNK_SIZE
            },
    {
        self.state = PipelineState::Flushed;
        match self.pending {
            Some(sample) => {
                self.buffer_left.push(sample);
                self.buffer_right.push(0);
                self.pending = None;
                assert(self.buffer_left@ =~= old(self)@.left + old(self)@.pending);
                assert(self.buffer_right@ =~= old(self)@.right + silence_for(old(self)@.pending));
            },
            None => {
                assert(self.buffer_left@ =~= old(self)@.left + old(self)@.pending);
                assert(self.buffer_right@ =~= old(self)@.right + silence_for(old(self)@.pending));
            },
        }
        if self.buffer_left.len() == 0 {
            assert(self.buffer_left@ =~= Seq::<i16>::empty());
            assert(self.buffer_right@ =~= Seq::<i16>::empty());
            return None;
        }
        let left = pad_with_silence(&self.buffer_left, CHUNK_SIZE);
        let right = pad_with_silence(&self.buffer_right, CHUNK_SIZE);
        self.buffer_left = Vec::new();
        self.buffer_right = Vec::new();
        Some(StereoChunk { left, right })
    }

    /// Gives up a stream that cannot go on: every sample that waits, here
    /// and at the encoder stage, is dropped, the pipeline is flushed, and
    /// the encoder stage ends the stream as well as can still be done.
    /// Returns the pages that remain to be sent, if any.
    pub fn abort(&mut self) -> (bytes: Vec<u8>)
        requires
            old(self).wf(),
        ensures
            final(self).wf(),
            final(self)@ == (PipelineView {
                left: Seq::empty(),
                right: Seq::empty(),
                pending: Seq::empty(),
                state: PipelineState::Flushed,
            }),
            final(self).encoder@ == aborted(old(self).encoder@),
            bytes@ == abort_pages(old(self).encoder@),
            bytes@.len() > 0 <==> can_still_end(old(self).encoder@),
    {
        self.buffer_left = Vec::new();
        self.buffer_right = Vec::new();
        self.pending = None;
        self.state = PipelineState::Flushed;
        self.encoder.abort()
    }
}

/// Chunking invariance. Two deliveries, wherever the cut between them
/// falls, complete the same chunks, and leave the same samples waiting, as
/// the two delivered as one.
pub proof fn lemma_chunking_invariance(
    left: Seq<i16>,
    right: Seq<i16>,
    pending: Seq<i16>,
    a: Seq<i16>,
    b: Seq<i16>,
)
    requires
        left.len() == right.len(),
    ensures
        chunks_due(left, right, pending, a + b) == chunks_due(left, right, pending, a)
            + chunks_due(
            leftover(left + left_channel(pending + a), CHUNK_SIZE as int),
            leftover(right + right_channel(pending + a), CHUNK_SIZE as int),
            unpaired(pending + a),
            b,
        ),
        leftover(left + left_channel(pending + (a + b)), CHUNK_SIZE as int) == leftover(
            leftover(left + left_channel(pending + a), CHUNK_SIZE as int) + left_channel(
                unpaired(pending + a) + b,
            ),
            CHUNK_SIZE as int,
        ),
        leftover(right + right_channel(pending + (a + b)), CHUNK_SIZE as int) == leftover(
            leftover(right + right_channel(pending + a), CHUNK_SIZE as int) + right_channel(
                unpaired(pending + a) + b,
            ),
            CHUNK_SIZE as int,
        ),
        unpaired(pending + (a + b)) == unpaired(unpaired(pending + a) + b),
{
    let n = CHUNK_SIZE as int;
    let first = pending + a;
    let carry = unpaired(first) + b;
    assert(pending + (a + b) =~= first + b);
    lemma_channels_of_concat(first, b);
    let la = left + left_channel(first);
    let ra = right + right_channel(first);
    lemma_blocks_of_concat(la, left_channel(carry), n);
    lemma_blocks_of_concat(ra, right_channel(carry), n);
    assert(la + left_channel(carry) =~= left + left_channel(first + b));
    assert(ra + right_channel(carry) =~= right + right_channel(first + b));
    lemma_block_counts(la, n);
    lemma_block_counts(ra, n);
    lemma_block_counts(leftover(la, n) + left_channel(carry), n);
    lemma_block_counts(leftover(ra, n) + right_channel(carry), n);
    lemma_block_counts(left + left_channel(first + b), n);
    lemma_block_counts(right + right_channel(first + b), n);
    assert(chunks_due(left, right, pending, a + b) =~= chunks_due(left, right, pending, a)
        + chunks_due(leftover(la, n), leftover(ra, n), unpaired(first), b));
}

/// What waits of the left channel after a run of deliveries.
pub open spec fn left_after(
    left: Seq<i16>,
    pending: Seq<i16>,
    deliveries: Seq<Seq<i16>>,
) -> Seq<i16>
    decreases deliveries.len(),
{
    if deliveries.len() == 0 {
        left
    } else {
        leftover(
            left_after(left, pending, deliveries.drop_last()) + left_channel(
                pending_after(pending, deliveries.drop_last()) + deliveries.last(),
            ),
            CHUNK_SIZE as int,
        )
    }
}

/// What waits of the right channel after a run of deliveries.
pub open spec fn right_after(
    right: Seq<i16>,
    pending: Seq<i16>,
    deliveries: Seq<Seq<i16>>,
) -> Seq<i16>
    decreases deliveries.len(),
{
    if deliveries.len() == 0 {
        right
    } else {
        leftover(
            right_after(right, pending, deliveries.drop_last()) + right_channel(
                pending_after(pending, deliveries.drop_last()) + deliveries.last(),
            ),
            CHUNK_SIZE as int,
        )
    }
}

/// The sample that waits for its partner after a run of deliveries.
pub open spec fn pending_after(pending: Seq<i16>, deliveries: Seq<Seq<i16>>) -> Seq<i16>
    decreases deliveries.len(),
{
    if deliveries.len() == 0 {
        pending
    } else {
        unpaired(pending_after(pending, deliveries.drop_last()) + deliveries.last())
    }
}

/// The chunks handed out over a run of deliveries, one `process` each.
pub open spec fn chunks_over(
    left: Seq<i16>,
    right: Seq<i16>,
    pending: Seq<i16>,
    deliveries: Seq<Seq<i16>>,
) -> Seq<(Seq<i16>, Seq<i16>)>
    decreases deliveries.len(),
{
    if deliveries.len() == 0 {
        Seq::empty()
    } else {
        chunks_over(left, right, pending, deliveries.drop_last()) + chunks_due(
            left_after(left, pending, deliveries.drop_last()),
            right_after(right, pending, deliveries.drop_last()),
            pending_after(pending, deliveries.drop_last()),
            deliveries.last(),
        )
    }
}

/// Chunking invariance, for any number of deliveries of any sizes. However
/// a stream of samples is cut into deliveries, the chunks handed out over
/// all of them, and the samples left waiting, are those of the whole
/// stream delivered at once.
pub proof fn lemma_chunking_invariance_all(
    left: Seq<i16>,
    right: Seq<i16>,
    pending: Seq<i16>,
    deliveries: Seq<Seq<i16>>,
)
    requires
        left.len() == right.len(),
        left.len() < CHUNK_SIZE,
        pending.len() <= 1,
    ensures
        chunks_over(left, right, pending, deliveries) == chunks_due(
            left,
            right,
            pending,
            joined(deliveries),
        ),
        left_after(left, pending, deliveries) == leftover(
            left + left_channel(pending + joined(deliveries)),
            CHUNK_SIZE as int,
        ),
        right_after(right, pending, deliveries) == leftover(
            right + right_channel(pending + joined(deliveries)),
            CHUNK_SIZE as int,
        ),
        pending_after(pending, deliveries) == unpaired(pending + joined(deliveries)),
    decreases deliveries.len(),
{
    let n = CHUNK_SIZE as int;
    if deliveries.len() == 0 {
        let none = Seq::<i16>::empty();
        assert(pending + none =~= pending);
        assert(left_channel(pending) =~= none);
        assert(right_channel(pending) =~= none);
        assert(left + none =~= left);
        assert(right + none =~= right);
        assert(unpaired(pending) =~= pending);
        lemma_block_counts(left, n);
        lemma_block_counts(right, n);
        assert(leftover(left, n) =~= left);
        assert(leftover(right, n) =~= right);
        assert(chunks_due(left, right, pending, none) =~= Seq::<(Seq<i16>, Seq<i16>)>::empty());
    } else {
        let front = deliveries.drop_last();
        let last = deliveries.last();
        lemma_chunking_invariance_all(left, right, pending, front);
        lemma_chunking_invariance(left, right, pending, joined(front), last);
    }
}

/// The last chunk of a stream: what waits at the flush, padded with
/// silence; none where nothing waits.
pub open spec fn last_chunk(left: Seq<i16>, right: Seq<i16>, pending: Seq<i16>) -> Seq<
    (Seq<i16>, Seq<i16>),
> {
    if left.len() + pending.len() == 0 {
        Seq::empty()
    } else {
        seq![
            (
                padded(left + pending, CHUNK_SIZE as int),
                padded(right + silence_for(pending), CHUNK_SIZE as int),
            ),
        ]
    }
}

/// Every chunk a fresh pipeline hands to the resampler over a stream: the
/// chunks of its deliveries, one `process` each, and the chunk of the
/// `flush` that follows them.
pub open spec fn stream_chunks(deliveries: Seq<Seq<i16>>) -> Seq<(Seq<i16>, Seq<i16>)> {
    let none = Seq::<i16>::empty();
    chunks_over(none, none, none, deliveries) + last_chunk(
        left_after(none, none, deliveries),
        right_after(none, none, deliveries),
        pending_after(none, deliveries),
    )
}

/// What a resampler returns, chunk by chunk, over a run of chunks. The
/// resampler keeps state, so what it returns for a chunk, interleaved, is
/// a function of that chunk and all before it: `resample` takes the run of
/// chunks up to and including the newest.
pub open spec fn resampled(
    chunks: Seq<(Seq<i16>, Seq<i16>)>,
    resample: spec_fn(Seq<(Seq<i16>, Seq<i16>)>) -> Seq<i16>,
) -> Seq<Seq<i16>> {
    Seq::new(chunks.len(), |i: int| resample(chunks.take(i + 1)))
}

/// Every frame the encoder stage hands to the encoder over a stream: the
/// frames of what the resampler returned, one `encode_chunk` for each
/// chunk, and the frame of the `flush` that follows them.
pub open spec fn stream_frames(
    deliveries: Seq<Seq<i16>>,
    resample: spec_fn(Seq<(Seq<i16>, Seq<i16>)>) -> Seq<i16>,
) -> Seq<Seq<i16>> {
    let fed = resampled(stream_chunks(deliveries), resample);
    let rest = rest_after(Seq::empty(), fed, OPUS_FRAME_SAMPLES as int);
    blocks_after(Seq::empty(), fed, OPUS_FRAME_SAMPLES as int) + if rest.len() > 0 {
        seq![padded(rest, OPUS_FRAME_SAMPLES as int)]
    } else {
        Seq::empty()
    }
}

/// However a stream of samples is cut into deliveries, the resampler is
/// handed the same chunks, the last one included: those of the whole
/// stream delivered at once.
pub proof fn lemma_stream_chunks(deliveries: Seq<Seq<i16>>)
    ensures
        stream_chunks(deliveries) == stream_chunks(seq![joined(deliveries)]),
        stream_chunks(deliveries).len() == ((joined(deliveries).len() + 1) / 2 + 959) / 960,
{
    let none = Seq::<i16>::empty();
    let n = CHUNK_SIZE as int;
    let all = joined(deliveries);
    let once = seq![all];
    lemma_chunking_invariance_all(none, none, none, deliveries);
    assert(once.drop_last() =~= Seq::<Seq<i16>>::empty());
    assert(once.last() == all);
    assert(joined(once.drop_last()) =~= none);
    assert(joined(once) =~= all);
    lemma_chunking_invariance_all(none, none, none, once);
    // The count: whole chunks of the left channel, and one more for what
    // waits, the lone sample included.
    let left = none + left_channel(none + all);
    let right = none + right_channel(none + all);
    assert(none + all =~= all);
    assert(left =~= left_channel(all));
    assert(right =~= right_channel(all));
    lemma_block_counts(left, n);
    lemma_block_counts(right, n);
    let pairs = all.len() as int / 2;
    assert(left.len() == pairs);
    assert(chunks_due(none, none, none, all).len() == pairs / n);
    let waiting = leftover(left, n).len() + unpaired(all).len();
    assert(leftover(left, n).len() == pairs % n);
    assert(unpaired(all).len() == all.len() as int % 2);
    assert(stream_chunks(deliveries).len() == pairs / n + if waiting > 0 {
        1int
    } else {
        0int
    });
}

/// Chunking invariance of the whole stream. Two ways of cutting the same
/// samples into deliveries hand the same chunks to the resampler and so,
/// whatever the resampler makes of them, the same frames to the encoder:
/// the two streams carry the same number of audio packets and end at the
/// same granule position.
pub proof fn lemma_same_stream_however_cut(
    first: Seq<Seq<i16>>,
    second: Seq<Seq<i16>>,
    resample: spec_fn(Seq<(Seq<i16>, Seq<i16>)>) -> Seq<i16>,
)
    requires
        joined(first) == joined(second),
    ensures
        stream_chunks(first) == stream_chunks(second),
        stream_frames(first, resample) == stream_frames(second, resample),
        960 * stream_frames(first, resample).len() == 960 * stream_frames(second, resample).len(),
{
    lemma_stream_chunks(first);
    lemma_stream_chunks(second);
}

/// How many audio packets a stream carries: the samples the resampler
/// returned in all, divided by the samples of a frame, rounded up. Every
/// frame handed to the encoder is a full frame.
pub proof fn lemma_stream_frame_count(
    deliveries: Seq<Seq<i16>>,
    resample: spec_fn(Seq<(Seq<i16>, Seq<i16>)>) -> Seq<i16>,
)
    ensures
        stream_frames(deliveries, resample).len() == (joined(
            resampled(stream_chunks(deliveries), resample),
        ).len() + 1919) / 1920,
        forall|i: int|
            0 <= i < stream_frames(deliveries, resample).len() ==> (#[trigger] stream_frames(
                deliveries,
                resample,
            )[i]).len() == OPUS_FRAME_SAMPLES,
{
    let n = OPUS_FRAME_SAMPLES as int;
    let none = Seq::<i16>::empty();
    let fed = resampled(stream_chunks(deliveries), resample);
    let all = joined(fed);
    lemma_delivery_sizes_do_not_matter(none, fed, n);
    assert(none + all =~= all);
    lemma_block_counts(all, n);
    lemma_block_count_with_padding(all, n);
    let frames = stream_frames(deliveries, resample);
    assert forall|i: int| 0 <= i < frames.len() implies (#[trigger] frames[i]).len()
        == OPUS_FRAME_SAMPLES by {
        if i < whole_blocks(all, n).len() {
            assert(frames[i] == whole_blocks(all, n)[i]);
        }
    }
}

} // verus!

//! Framing encoder input and muxing encoder output into an Ogg/Opus stream.

use crate::framing::contents;
use crate::framing::leftover;
use crate::framing::lemma_block_counts;
use crate::framing::pad_with_silence;
use crate::framing::padded;
use crate::framing::take_blocks;
use crate::framing::whole_blocks;
use crate::headers::opus_head;
use crate::headers::opus_head_packet;
use crate::headers::opus_tags;
use crate::headers::opus_tags_packet;
use crate::headers::push_all;
use crate::headers::vendor_bytes;
use crate::headers::vendor_name;
use crate::pages::lemma_pages_for_concat;
use crate::pages::lemma_pages_for_none;
use crate::pages::lemma_pages_for_push;
use crate::pages::new_writer;
use crate::pages::packet;
use crate::pages::page_bytes;
use crate::pages::pages_for;
use crate::pages::pending_bytes;
use crate::pages::take_bytes;
use crate::pages::write_packet;
use crate::pages::written_packets;
use crate::pages::PacketEnd;
use crate::pages::PacketRecord;
use crate::pages::PageWriter;
use vstd::prelude::*;

verus! {

/// Samples per channel in one encoder frame: 20 ms at 48 kHz.
pub const OPUS_FRAME_SIZE: u64 = 960;

/// Interleaved stereo samples in one encoder frame.
pub const OPUS_FRAME_SAMPLES: usize = 1920;

/// The largest packet the muxer takes; well above what the encoder emits.
pub const MAX_PACKET_SIZE: usize = 4000;

/// The most packets one stream may carry. The container numbers its pages
/// in 32 bits and a packet closes at most two pages.
pub const PACKET_LIMIT: u32 = 0x7fff_0000;

/// Why the muxer did not write.
#[derive(Clone, Copy, Debug, PartialEq, Eq, Structural)]
pub enum StreamError {
    /// The call does not fit the stream's phase: headers come first and
    /// once, audio only between the headers and the end.
    OutOfOrder,
    /// A packet is longer than `MAX_PACKET_SIZE`.
    PacketTooLarge,
    /// The stream would carry more than `PACKET_LIMIT` packets.
    StreamTooLong,
    /// The page writer reported a failure. That is what `io_outcome` makes
    /// of such a report; a writer over memory, as the streamer's is, gives
    /// none.
    Io,
}

/// Where a stream stands.
#[derive(Clone, Copy, Debug, PartialEq, Eq, Structural)]
pub enum Phase {
    /// Nothing written yet.
    Fresh,
    /// Headers written, end not yet.
    Streaming,
    /// The last packet written ends the stream.
    Finished,
}

/// The identification header as the muxer writes it: a page of its own, at
/// granule position 0.
pub open spec fn head_record(serial: u32) -> PacketRecord {
    packet(opus_head(), serial, PacketEnd::EndPage, 0)
}

/// The comment header as the muxer writes it: a page of its own, at granule
/// position 0.
pub open spec fn tags_record(serial: u32) -> PacketRecord {
    packet(opus_tags(vendor_name()), serial, PacketEnd::EndPage, 0)
}

/// The records of a run of audio packets written from granule position
/// `start` on: each one frame further than the one before.
pub open spec fn audio_records(payloads: Seq<Seq<u8>>, serial: u32, start: u64) -> Seq<
    PacketRecord,
> {
    Seq::new(
        payloads.len(),
        |i: int| packet(payloads[i], serial, PacketEnd::Normal, (start + 960 * (i + 1)) as u64),
    )
}

/// The record of the packet that ends a stream standing at `granule`: the
/// last frame, one frame further, or an empty packet where it stands.
pub open spec fn end_record(last: Option<Seq<u8>>, serial: u32, granule: u64) -> PacketRecord {
    match last {
        Some(data) => packet(data, serial, PacketEnd::EndStream, (granule + 960) as u64),
        None => packet(Seq::empty(), serial, PacketEnd::EndStream, granule),
    }
}

/// The payloads of a batch of packets.
pub open spec fn payloads(batch: Seq<Vec<u8>>) -> Seq<Seq<u8>> {
    Seq::new(batch.len(), |i: int| batch[i]@)
}

/// The payload of an optional packet.
pub open spec fn payload(last: Option<Vec<u8>>) -> Option<Seq<u8>> {
    match last {
        Some(data) => Some(data@),
        None => None,
    }
}

/// An optional packet is at most `MAX_PACKET_SIZE` bytes long.
pub open spec fn fits(last: Option<Seq<u8>>) -> bool {
    last matches Some(data) ==> data.len() <= MAX_PACKET_SIZE
}

/// Ending fits the stream's phase: a stream that takes audio may be ended
/// with a last frame or without; one that is ended already only without;
/// one without headers not at all.
pub open spec fn ends_in_order(phase: Phase, last: Option<Seq<u8>>) -> bool {
    match phase {
        Phase::Fresh => false,
        Phase::Streaming => true,
        Phase::Finished => last is None,
    }
}

/// A stream that was aborted can still be given its end: it has sent its
/// headers, is not ended yet and has room for one packet.
pub open spec fn can_still_end(view: StreamView) -> bool {
    view.phase == Phase::Streaming && view.packets.len() < PACKET_LIMIT
}

/// What a stream is after it was aborted.
pub open spec fn aborted(view: StreamView) -> StreamView {
    if can_still_end(view) {
        StreamView {
            packets: view.packets.push(end_record(None, view.serial, view.granule)),
            buffered: Seq::empty(),
            phase: Phase::Finished,
            ..view
        }
    } else {
        StreamView { buffered: Seq::empty(), ..view }
    }
}

/// The pages that leave when a stream is aborted.
pub open spec fn abort_pages(view: StreamView) -> Seq<u8> {
    if can_still_end(view) {
        page_bytes(view.packets, end_record(None, view.serial, view.granule))
    } else {
        Seq::empty()
    }
}

/// Every packet of the batch is at most `MAX_PACKET_SIZE` bytes long.
pub open spec fn all_fit(batch: Seq<Seq<u8>>) -> bool {
    forall|i: int| 0 <= i < batch.len() ==> (#[trigger] batch[i]).len() <= MAX_PACKET_SIZE
}

/// Packet `i` stands where its predecessor stood or one frame further.
pub open spec fn steps_at_most_a_frame(packets: Seq<PacketRecord>, i: int) -> bool {
    ||| packets[i].granule == packets[i - 1].granule
    ||| packets[i].granule == packets[i - 1].granule + 960
}

/// Packet `i` stands exactly one frame further than its predecessor.
pub open spec fn steps_a_frame(packets: Seq<PacketRecord>, i: int) -> bool {
    packets[i].granule == packets[i - 1].granule + 960
}

/// What holds of the packets of a stream at every moment.
///
/// All carry the stream's serial number. The identification header comes
/// first and the comment header second, both at granule position 0; then
/// audio packets, the k-th at position 960 * k; then, once the stream is
/// ended, the packet that ended it, which stands where its predecessor
/// stood or one frame further, and after it nothing but empty packets
/// marked as the end, where it stands. The stream's own position is that
/// of its last packet.
#[verifier::opaque]
pub open spec fn well_formed_stream(
    packets: Seq<PacketRecord>,
    serial: u32,
    phase: Phase,
    granule: u64,
) -> bool {
    &&& forall|i: int| 0 <= i < packets.len() ==> (#[trigger] packets[i]).serial == serial
    &&& granule <= 960 * packets.len()
    &&& (phase == Phase::Fresh <==> packets.len() == 0)
    &&& packets.len() == 0 ==> granule == 0
    &&& packets.len() > 0 ==> {
        &&& packets.len() >= 2
        &&& packets[0] == head_record(serial)
        &&& packets[1] == tags_record(serial)
        &&& packets.last().granule == granule
        &&& (phase == Phase::Finished <==> packets.last().end == PacketEnd::EndStream)
        &&& forall|i: int|
            2 <= i < packets.len() ==> (#[trigger] packets[i]).end != PacketEnd::EndPage
        &&& forall|i: int|
            2 <= i < packets.len() && (#[trigger] packets[i]).end == PacketEnd::Normal
                ==> packets[i].granule == 960 * (i - 1)
        &&& forall|i: int|
            2 <= i < packets.len() && packets[i].end == PacketEnd::EndStream
                ==> #[trigger] steps_at_most_a_frame(packets, i)
        &&& forall|i: int, j: int|
            2 <= i < j < packets.len() && (#[trigger] packets[i]).end == PacketEnd::EndStream
                ==> #[trigger] packets[j] == packet(
                Seq::empty(),
                serial,
                PacketEnd::EndStream,
                packets[i].granule,
            )
    }
}

/// What a stream is, seen from outside.
pub struct StreamView {
    /// Every packet handed to the container so far, oldest first.
    pub packets: Seq<PacketRecord>,
    /// The granule position: samples per channel written so far.
    pub granule: u64,
    /// The serial number of the logical bitstream.
    pub serial: u32,
    /// Samples waiting for a frame to fill.
    pub buffered: Seq<i16>,
    /// Where the stream stands.
    pub phase: Phase,
}

/// Frames PCM for an Opus encoder and muxes the encoder's packets into a
/// valid, incrementally delivered Ogg/Opus byte stream.
///
/// The encoder itself works outside: `encode_chunk` and `flush` hand out
/// the frames it has to encode, `write_packets` and `finish` take what it
/// made of them.
pub struct OggOpusStreamer {
    ogg_writer: PageWriter,
    granule_pos: u64,
    serial: u32,
    buffer: Vec<i16>,
    written: u32,
    phase: Phase,
}

impl View for OggOpusStreamer {
    type V = StreamView;

    closed spec fn view(&self) -> StreamView {
        StreamView {
            packets: written_packets(self.ogg_writer),
            granule: self.granule_pos,
            serial: self.serial,
            buffered: self.buffer@,
            phase: self.phase,
        }
    }
}

/// `rand::random::<u32>()`: a number drawn by chance, so nothing is said of
/// it.
#[verifier::external_body]
fn random_serial() -> (serial: u32) {
    rand::random::<u32>()
}

/// What a report of the page writer means for the stream: success is
/// success, and a failure of the writer, whatever it was, is the loss of
/// the stream.
pub fn io_outcome(report: Result<(), std::io::Error>) -> (r: Result<(), StreamError>)
    ensures
        r is Ok <==> report is Ok,
        r is Err ==> r == Err::<(), StreamError>(StreamError::Io),
{
    match report {
        Ok(()) => Ok(()),
        Err(_) => Err(StreamError::Io),
    }
}

/// A copy of `src`.
fn copy_bytes(src: &[u8]) -> (out: Vec<u8>)
    ensures
        out@ == src@,
{
    let mut out: Vec<u8> = Vec::new();
    push_all(&mut out, src);
    out
}

/// Appends the samples of `src` to `out`.
fn push_samples(out: &mut Vec<i16>, src: &[i16])
    ensures
        final(out)@ == old(out)@ + src@,
{
    let mut i: usize = 0;
    while i < src.len()
        invariant
            i <= src.len(),
            out@ == old(out)@ + src@.take(i as int),
        decreases src.len() - i,
    {
        out.push(src[i]);
        i += 1;
        assert(out@ =~= old(out)@ + src@.take(i as int));
    }
    assert(src@.take(src.len() as int) =~= src@);
}

/// Whether every packet of `batch` is at most `MAX_PACKET_SIZE` bytes long.
pub fn batch_fits(batch: &Vec<Vec<u8>>) -> (fits: bool)
    ensures
        fits == all_fit(payloads(batch@)),
{
    let mut i: usize = 0;
    while i < batch.len()
        invariant
            i <= batch.len(),
            forall|k: int| 0 <= k < i ==> (#[trigger] payloads(batch@)[k]).len() <= MAX_PACKET_SIZE,
        decreases batch.len() - i,
    {
        if batch[i].len() > MAX_PACKET_SIZE {
            assert(payloads(batch@)[i as int].len() > MAX_PACKET_SIZE);
            return false;
        }
        i += 1;
    }
    true
}

/// A fresh stream has no packets and stands at 0, and the other way round.
proof fn lemma_fresh(packets: Seq<PacketRecord>, serial: u32, phase: Phase, granule: u64)
    ensures
        well_formed_stream(Seq::empty(), serial, Phase::Fresh, 0),
        well_formed_stream(packets, serial, phase, granule) ==> (phase == Phase::Fresh
            <==> packets.len() == 0),
        well_formed_stream(packets, serial, phase, granule) && packets.len() == 0 ==> granule
            == 0,
        well_formed_stream(packets, serial, phase, granule) ==> granule <= 960 * packets.len(),
{
    reveal(well_formed_stream);
}

/// A stream that takes audio holds the two headers and audio packets only,
/// and stands one frame further for each of them.
pub proof fn lemma_streaming(packets: Seq<PacketRecord>, serial: u32, granule: u64)
    requires
        well_formed_stream(packets, serial, Phase::Streaming, granule),
    ensures
        packets.len() >= 2,
        granule == 960 * (packets.len() - 2),
        forall|i: int| 2 <= i < packets.len() ==> (#[trigger] packets[i]).end == PacketEnd::Normal,
{
    reveal(well_formed_stream);
    let last = packets.len() - 1;
    assert forall|i: int| 2 <= i < packets.len() implies (#[trigger] packets[i]).end
        == PacketEnd::Normal by {
        if packets[i].end == PacketEnd::EndStream {
            if i < last {
                assert(packets[last].end == PacketEnd::EndStream);
            }
        }
    }
    if packets.len() > 2 {
        assert(packets[last].end == PacketEnd::Normal);
    }
}

/// Once anything is written, the identification header is the first packet
/// and the comment header the second, each closing its own page at granule
/// position 0, whatever came after.
pub proof fn lemma_headers_first(
    packets: Seq<PacketRecord>,
    serial: u32,
    phase: Phase,
    granule: u64,
)
    requires
        well_formed_stream(packets, serial, phase, granule),
        phase != Phase::Fresh,
    ensures
        packets.len() >= 2,
        packets[0] == head_record(serial),
        packets[1] == tags_record(serial),
        forall|i: int| 2 <= i < packets.len() ==> (#[trigger] packets[i]).end != PacketEnd::EndPage,
{
    reveal(well_formed_stream);
}

/// Granule positions never go back, and every audio packet stands exactly
/// one frame, 960 samples, further than the packet before it.
pub proof fn lemma_granule_steps(
    packets: Seq<PacketRecord>,
    serial: u32,
    phase: Phase,
    granule: u64,
)
    requires
        well_formed_stream(packets, serial, phase, granule),
    ensures
        forall|i: int, j: int|
            0 <= i <= j < packets.len() ==> (#[trigger] packets[i]).granule <= (
            #[trigger] packets[j]).granule,
        forall|i: int|
            2 <= i < packets.len() && packets[i].end == PacketEnd::Normal
                ==> #[trigger] steps_a_frame(packets, i),
{
    assert forall|i: int|
        2 <= i < packets.len() && packets[i].end
            == PacketEnd::Normal implies #[trigger] steps_a_frame(packets, i) by {
        lemma_audio_step(packets, serial, phase, granule, i);
    }
    assert forall|i: int, j: int| 0 <= i <= j < packets.len() implies (#[trigger] packets[i]).granule
        <= (#[trigger] packets[j]).granule by {
        lemma_granule_rises(packets, serial, phase, granule, i, j);
    }
}

/// The audio packet at `i` stands one frame further than its predecessor.
proof fn lemma_audio_step(
    packets: Seq<PacketRecord>,
    serial: u32,
    phase: Phase,
    granule: u64,
    i: int,
)
    requires
        well_formed_stream(packets, serial, phase, granule),
        2 <= i < packets.len(),
        packets[i].end == PacketEnd::Normal,
    ensures
        steps_a_frame(packets, i),
{
    reveal(well_formed_stream);
    if i > 2 {
        if packets[i - 1].end == PacketEnd::EndStream {
            assert(packets[i].end == PacketEnd::EndStream);
        }
        assert(packets[i - 1].end == PacketEnd::Normal);
    }
}

/// From packet `i` to a later packet `j` the granule position does not fall.
proof fn lemma_granule_rises(
    packets: Seq<PacketRecord>,
    serial: u32,
    phase: Phase,
    granule: u64,
    i: int,
    j: int,
)
    requires
        well_formed_stream(packets, serial, phase, granule),
        0 <= i <= j < packets.len(),
    ensures
        packets[i].granule <= packets[j].granule,
    decreases j - i,
{
    reveal(well_formed_stream);
    if i < j {
        lemma_granule_rises(packets, serial, phase, granule, i, j - 1);
        if j >= 2 {
            if packets[j].end == PacketEnd::EndStream {
                assert(steps_at_most_a_frame(packets, j));
            } else {
                lemma_audio_step(packets, serial, phase, granule, j);
            }
        }
    }
}

/// Ending a stream that takes audio leaves exactly one packet marked as the
/// end, and it is the last, whether it carries a padded frame or nothing.
pub proof fn lemma_one_end_marker(
    packets: Seq<PacketRecord>,
    serial: u32,
    granule: u64,
    last: Option<Seq<u8>>,
)
    requires
        well_formed_stream(packets, serial, Phase::Streaming, granule),
    ensures
        forall|i: int|
            0 <= i <= packets.len() ==> ((#[trigger] packets.push(
                end_record(last, serial, granule),
            )[i]).end == PacketEnd::EndStream <==> i == packets.len()),
{
    lemma_streaming(packets, serial, granule);
    reveal(well_formed_stream);
    let all = packets.push(end_record(last, serial, granule));
    assert forall|i: int| 0 <= i <= packets.len() implies ((#[trigger] all[i]).end
        == PacketEnd::EndStream <==> i == packets.len()) by {
        if i < packets.len() {
            assert(all[i] == packets[i]);
            if i >= 2 {
                assert(packets[i].end == PacketEnd::Normal);
            }
        }
    }
}

/// How the encoder's packets are batched does not matter: two batches
/// written one after the other are recorded, and make the same bytes leave,
/// as the two written as one.
pub proof fn lemma_batches_join(
    before: Seq<PacketRecord>,
    first: Seq<Seq<u8>>,
    second: Seq<Seq<u8>>,
    serial: u32,
    start: u64,
)
    requires
        start + 960 * (first.len() + second.len()) <= u64::MAX,
    ensures
        audio_records(first + second, serial, start) == audio_records(first, serial, start)
            + audio_records(second, serial, (start + 960 * first.len()) as u64),
        pages_for(before, audio_records(first + second, serial, start)) == pages_for(
            before,
            audio_records(first, serial, start),
        ) + pages_for(
            before + audio_records(first, serial, start),
            audio_records(second, serial, (start + 960 * first.len()) as u64),
        ),
{
    let one = audio_records(first, serial, start);
    let two = audio_records(second, serial, (start + 960 * first.len()) as u64);
    assert(audio_records(first + second, serial, start) =~= one + two);
    lemma_pages_for_concat(before, one, two);
}

/// The packets an encoder makes of frames, one for each, in their order.
pub open spec fn encoded(frames: Seq<Seq<i16>>, encode: spec_fn(Seq<i16>) -> Seq<u8>) -> Seq<
    Seq<u8>,
> {
    Seq::new(frames.len(), |j: int| encode(frames[j]))
}

/// One packet per frame. When the frames that `encode_chunk` hands out
/// for `pcm` are encoded and written, as many packets are recorded as
/// frames were full; the j-th encodes the j-th run of 1920 samples of
/// what waited followed by `pcm` and stands j frames further than the
/// stream stood; what is left waits.
pub proof fn lemma_one_packet_per_frame(
    waiting: Seq<i16>,
    pcm: Seq<i16>,
    serial: u32,
    granule: u64,
    encode: spec_fn(Seq<i16>) -> Seq<u8>,
)
    requires
        granule + 960 * ((waiting.len() + pcm.len()) / 1920) <= u64::MAX,
    ensures
        ({
            let all = waiting + pcm;
            let frames = whole_blocks(all, OPUS_FRAME_SAMPLES as int);
            let records = audio_records(encoded(frames, encode), serial, granule);
            &&& records.len() == all.len() / 1920
            &&& forall|j: int|
                0 <= j < records.len() ==> #[trigger] records[j] == packet(
                    encode(all.subrange(1920 * j, 1920 * j + 1920)),
                    serial,
                    PacketEnd::Normal,
                    (granule + 960 * (j + 1)) as u64,
                )
            &&& leftover(all, OPUS_FRAME_SAMPLES as int) == all.skip(1920 * (all.len() as int / 1920))
            &&& leftover(all, OPUS_FRAME_SAMPLES as int).len() == all.len() % 1920
        }),
{
    let all = waiting + pcm;
    lemma_block_counts(all, OPUS_FRAME_SAMPLES as int);
    let frames = whole_blocks(all, OPUS_FRAME_SAMPLES as int);
    let records = audio_records(encoded(frames, encode), serial, granule);
    assert forall|j: int| 0 <= j < records.len() implies #[trigger] records[j] == packet(
        encode(all.subrange(1920 * j, 1920 * j + 1920)),
        serial,
        PacketEnd::Normal,
        (granule + 960 * (j + 1)) as u64,
    ) by {
        assert(frames[j] == all.subrange(j * 1920, j * 1920 + 1920));
    }
}

/// The end of a stream. Where samples wait at the flush, one frame is
/// encoded, the waiting samples padded with silence, and its packet is
/// the one marked as the end, one frame further. Where nothing waits, no
/// frame is encoded and the packet marked as the end is empty and stands
/// where the stream stood.
pub proof fn lemma_last_packet(
    waiting: Seq<i16>,
    serial: u32,
    granule: u64,
    encode: spec_fn(Seq<i16>) -> Seq<u8>,
)
    requires
        waiting.len() < OPUS_FRAME_SAMPLES,
        granule + 960 <= u64::MAX,
    ensures
        waiting.len() > 0 ==> padded(waiting, OPUS_FRAME_SAMPLES as int).len()
            == OPUS_FRAME_SAMPLES && end_record(
            Some(encode(padded(waiting, OPUS_FRAME_SAMPLES as int))),
            serial,
            granule,
        ) == packet(
            encode(padded(waiting, OPUS_FRAME_SAMPLES as int)),
            serial,
            PacketEnd::EndStream,
            (granule + 960) as u64,
        ),
        waiting.len() == 0 ==> end_record(None, serial, granule) == packet(
            Seq::empty(),
            serial,
            PacketEnd::EndStream,
            granule,
        ),
{
}

/// Audio packets written to a stream that takes audio leave it well formed,
/// one frame further for each.
proof fn lemma_append_audio(
    packets: Seq<PacketRecord>,
    serial: u32,
    granule: u64,
    batch: Seq<Seq<u8>>,
)
    requires
        well_formed_stream(packets, serial, Phase::Streaming, granule),
        granule + 960 * batch.len() <= u64::MAX,
    ensures
        well_formed_stream(
            packets + audio_records(batch, serial, granule),
            serial,
            Phase::Streaming,
            (granule + 960 * batch.len()) as u64,
        ),
{
    lemma_streaming(packets, serial, granule);
    reveal(well_formed_stream);
    let records = audio_records(batch, serial, granule);
    let all = packets + records;
    assert forall|i: int| 2 <= i < all.len() implies (#[trigger] all[i]).end
        == PacketEnd::Normal && all[i].granule == 960 * (i - 1) by {
        if i >= packets.len() {
            assert(all[i] == records[i - packets.len()]);
        }
    }
    assert(all[0] == packets[0]);
    assert(all[1] == packets[1]);
    if batch.len() == 0 {
        assert(all =~= packets);
    }
}

/// The packet that ends a stream leaves it well formed.
proof fn lemma_append_end(
    packets: Seq<PacketRecord>,
    serial: u32,
    phase: Phase,
    granule: u64,
    last: Option<Seq<u8>>,
)
    requires
        well_formed_stream(packets, serial, phase, granule),
        ends_in_order(phase, last),
        granule + 960 <= u64::MAX,
    ensures
        well_formed_stream(
            packets.push(end_record(last, serial, granule)),
            serial,
            Phase::Finished,
            end_record(last, serial, granule).granule,
        ),
{
    reveal(well_formed_stream);
    let added = end_record(last, serial, granule);
    let all = packets.push(added);
    let n = packets.len() as int;
    assert(all[0] == packets[0]);
    assert(all[1] == packets[1]);
    assert(all[n] == added);
    assert forall|i: int| 2 <= i < all.len() && all[i].end == PacketEnd::EndStream implies #[trigger] steps_at_most_a_frame(
        all,
        i,
    ) by {
        if i < n {
            assert(all[i] == packets[i]);
            assert(all[i - 1] == packets[i - 1]);
            assert(steps_at_most_a_frame(packets, i));
        } else {
            assert(all[i - 1] == packets[n - 1]);
        }
    }
    assert forall|i: int, j: int|
        2 <= i < j < all.len() && (#[trigger] all[i]).end
            == PacketEnd::EndStream implies #[trigger] all[j] == packet(
        Seq::empty(),
        serial,
        PacketEnd::EndStream,
        all[i].granule,
    ) by {
        assert(all[i] == packets[i]);
        if j < n {
            assert(all[j] == packets[j]);
        } else {
            // An end packet at `i` means the stream was ended: the packet
            // added is an empty one where the last packet stands.
            if i < n - 1 {
                assert(packets[n - 1] == packet(
                    Seq::empty(),
                    serial,
                    PacketEnd::EndStream,
                    packets[i].granule,
                ));
            }
            assert(packets[n - 1].end == PacketEnd::EndStream);
            assert(phase == Phase::Finished);
            assert(last is None);
        }
    }
}

/// The two header packets make a well-formed stream, and what the writer
/// put out for them is what the batch of the two puts out.
proof fn lemma_header_pages(
    serial: u32,
    before: Seq<PacketRecord>,
    after: Seq<PacketRecord>,
    bytes: Seq<u8>,
)
    requires
        before.len() == 0,
        after == before.push(head_record(serial)).push(tags_record(serial)),
        bytes == Seq::<u8>::empty() + page_bytes(before, head_record(serial)) + page_bytes(
            before.push(head_record(serial)),
            tags_record(serial),
        ),
    ensures
        after == seq![head_record(serial), tags_record(serial)],
        bytes == pages_for(Seq::empty(), seq![head_record(serial), tags_record(serial)]),
        well_formed_stream(after, serial, Phase::Streaming, 0),
{
    reveal(well_formed_stream);
    let empty = Seq::<PacketRecord>::empty();
    let head = head_record(serial);
    let tags = tags_record(serial);
    assert(before =~= empty);
    assert(after =~= seq![head, tags]);
    lemma_pages_for_none(empty);
    lemma_pages_for_push(empty, empty, head);
    lemma_pages_for_push(empty, empty.push(head), tags);
    assert(empty + empty =~= empty);
    assert(empty + empty.push(head) =~= empty.push(head));
    assert(empty.push(head).push(tags) =~= seq![head, tags]);
    assert(bytes =~= page_bytes(empty, head) + page_bytes(empty.push(head), tags));
}

impl OggOpusStreamer {
    /// The stream is consistent: nothing waits in the writer, less than a
    /// frame waits in the buffer, and the packets are those of a
    /// well-formed stream within the packet limit.
    pub closed spec fn wf(&self) -> bool {
        &&& pending_bytes(self.ogg_writer) == Seq::<u8>::empty()
        &&& self.written == self@.packets.len()
        &&& self.written <= PACKET_LIMIT
        &&& self.buffer@.len() < OPUS_FRAME_SAMPLES
        &&& well_formed_stream(self@.packets, self.serial, self.phase, self.granule_pos)
    }

    /// What `wf` means for the view.
    pub proof fn lemma_wf(&self)
        requires
            self.wf(),
        ensures
            well_formed_stream(self@.packets, self@.serial, self@.phase, self@.granule),
            self@.packets.len() <= PACKET_LIMIT,
            self@.buffered.len() < OPUS_FRAME_SAMPLES,
    {
    }

    /// A fresh stream with the given serial number.
    pub fn with_serial(serial: u32) -> (s: Self)
        ensures
            s.wf(),
            s@ == (StreamView {
                packets: Seq::empty(),
                granule: 0,
                serial,
                buffered: Seq::empty(),
                phase: Phase::Fresh,
            }),
    {
        proof {
            lemma_fresh(Seq::empty(), serial, Phase::Fresh, 0);
        }
        OggOpusStreamer {
            ogg_writer: new_writer(),
            granule_pos: 0,
            serial,
            buffer: Vec::new(),
            written: 0,
            phase: Phase::Fresh,
        }
    }

    /// A fresh stream with a serial number drawn by chance.
    pub fn new() -> (s: Self)
        ensures
            s.wf(),
            s@ == (StreamView {
                packets: Seq::empty(),
                granule: 0,
                serial: s@.serial,
                buffered: Seq::empty(),
                phase: Phase::Fresh,
            }),
    {
        Self::with_serial(random_serial())
    }

    /// The granule position: samples per channel written so far.
    pub fn granule_pos(&self) -> (g: u64)
        ensures
            g == self@.granule,
    {
        self.granule_pos
    }

    /// The serial number of the logical bitstream.
    pub fn serial(&self) -> (n: u32)
        ensures
            n == self@.serial,
    {
        self.serial
    }

    /// Where the stream stands.
    pub fn phase(&self) -> (p: Phase)
        ensures
            p == self@.phase,
    {
        self.phase
    }

    /// How many packets were handed to the container so far.
    pub fn packet_count(&self) -> (n: u32)
        requires
            self.wf(),
        ensures
            n == self@.packets.len(),
    {
        self.written
    }

    /// How many samples wait for a frame to fill.
    pub fn buffered_len(&self) -> (n: usize)
        ensures
            n == self@.buffered.len(),
    {
        self.buffer.len()
    }

    /// Takes PCM in, interleaved, and hands out every frame that is now
    /// full for the encoder to encode, oldest first. What does not fill a
    /// frame waits for the next call.
    pub fn encode_chunk(&mut self, pcm: &[i16]) -> (frames: Vec<Vec<i16>>)
        requires
            old(self).wf(),
        ensures
            final(self).wf(),
            contents(frames@) == whole_blocks(
                old(self)@.buffered + pcm@,
                OPUS_FRAME_SAMPLES as int,
            ),
            final(self)@ == (StreamView {
                buffered: leftover(old(self)@.buffered + pcm@, OPUS_FRAME_SAMPLES as int),
                ..old(self)@
            }),
            forall|i: int|
                0 <= i < frames@.len() ==> (#[trigger] frames@[i])@.len() == OPUS_FRAME_SAMPLES,
            frames@.len() == (old(self)@.buffered.len() + pcm@.len()) / 1920,
    {
        push_samples(&mut self.buffer, pcm);
        let frames = take_blocks(&mut self.buffer, OPUS_FRAME_SAMPLES);
        proof {
            let all = old(self)@.buffered + pcm@;
            lemma_block_counts(all, OPUS_FRAME_SAMPLES as int);
            assert forall|i: int| 0 <= i < frames@.len() implies (#[trigger] frames@[i])@.len()
                == OPUS_FRAME_SAMPLES by {
                assert(contents(frames@)[i] == frames@[i]@);
            }
        }
        frames
    }

    /// Takes the packets the encoder made of the frames handed out, in that
    /// order, writes each one frame further than the one before, and
    /// returns the pages that are now complete.
    ///
    /// The batch is written if the stream takes audio, every packet is at
    /// most `MAX_PACKET_SIZE` bytes long and the packet limit holds; else
    /// nothing is written and the stream is left as it was.
    pub fn write_packets(&mut self, batch: &Vec<Vec<u8>>) -> (r: Result<Vec<u8>, StreamError>)
        requires
            old(self).wf(),
        ensures
            r is Ok <==> old(self)@.phase == Phase::Streaming && all_fit(payloads(batch@))
                && old(self)@.packets.len() + batch@.len() <= PACKET_LIMIT,
            match r {
                Ok(bytes) => {
                    &&& final(self).wf()
                    &&& final(self)@ == (StreamView {
                        packets: old(self)@.packets + audio_records(
                            payloads(batch@),
                            old(self)@.serial,
                            old(self)@.granule,
                        ),
                        granule: (old(self)@.granule + 960 * batch@.len()) as u64,
                        ..old(self)@
                    })
                    &&& old(self)@.granule + 960 * batch@.len() <= u64::MAX
                    &&& bytes@ == pages_for(
                        old(self)@.packets,
                        audio_records(payloads(batch@), old(self)@.serial, old(self)@.granule),
                    )
                },
                Err(e) => {
                    &&& e == StreamError::OutOfOrder <==> old(self)@.phase != Phase::Streaming
                    &&& e == StreamError::PacketTooLarge <==> old(self)@.phase == Phase::Streaming
                        && !all_fit(payloads(batch@))
                    &&& e == StreamError::StreamTooLong <==> old(self)@.phase == Phase::Streaming
                        && all_fit(payloads(batch@)) && old(self)@.packets.len() + batch@.len()
                        > PACKET_LIMIT
                    &&& *final(self) == *old(self)
                },
            },
    {
        if self.phase != Phase::Streaming {
            return Err(StreamError::OutOfOrder);
        }
        if !batch_fits(batch) {
            return Err(StreamError::PacketTooLarge);
        }
        let n = batch.len();
        if n > (PACKET_LIMIT - self.written) as usize {
            return Err(StreamError::StreamTooLong);
        }
        let ghost before = self@.packets;
        let ghost g0 = self.granule_pos;
        let ghost w0 = self.written;
        let ghost records = audio_records(payloads(batch@), self.serial, self.granule_pos);
        proof {
            lemma_fresh(before, self.serial, self.phase, g0);
            lemma_pages_for_none(before);
            assert(before + records.take(0) =~= before);
        }
        let mut i: usize = 0;
        while i < n
            invariant
                0 <= i <= n,
                n == batch@.len(),
                self.serial == old(self).serial,
                self.phase == Phase::Streaming,
                self.buffer == old(self).buffer,
                self.written == w0 + i,
                w0 + n <= PACKET_LIMIT,
                self.granule_pos == g0 + 960 * i,
                g0 <= 960 * w0,
                before.len() == w0,
                before == old(self)@.packets,
                old(self)@.phase == Phase::Streaming,
                records == audio_records(payloads(batch@), self.serial, g0),
                written_packets(self.ogg_writer) == before + records.take(i as int),
                pending_bytes(self.ogg_writer) == pages_for(before, records.take(i as int)),
                all_fit(payloads(batch@)),
            decreases n - i,
        {
            let data = copy_bytes(batch[i].as_slice());
            assert(data@ == payloads(batch@)[i as int]);
            let granule = self.granule_pos + OPUS_FRAME_SIZE;
            let report = write_packet(
                &mut self.ogg_writer,
                data,
                self.serial,
                PacketEnd::Normal,
                granule,
            );
            match io_outcome(report) {
                Ok(()) => {},
                Err(e) => {
                    return Err(e);
                },
            }
            proof {
                let done = records.take(i as int);
                assert(records[i as int] == packet(
                    payloads(batch@)[i as int],
                    self.serial,
                    PacketEnd::Normal,
                    granule,
                ));
                assert(done.push(records[i as int]) =~= records.take(i + 1));
                assert((before + done).push(records[i as int]) =~= before + records.take(i + 1));
                lemma_pages_for_push(before, done, records[i as int]);
            }
            self.granule_pos = granule;
            self.written = self.written + 1;
            i += 1;
        }
        let bytes = take_bytes(&mut self.ogg_writer);
        proof {
            assert(records.take(n as int) =~= records);
            lemma_append_audio(before, self.serial, g0, payloads(batch@));
        }
        Ok(bytes)
    }

    /// Hands out what still waits in the buffer as one last frame, padded
    /// with silence, for the encoder to encode; nothing where nothing
    /// waits.
    pub fn flush(&mut self) -> (frame: Option<Vec<i16>>)
        requires
            old(self).wf(),
        ensures
            final(self).wf(),
            final(self)@ == (StreamView { buffered: Seq::empty(), ..old(self)@ }),
            old(self)@.buffered.len() == 0 ==> frame is None,
            old(self)@.buffered.len() > 0 ==> frame is Some && frame->0@ == padded(
                old(self)@.buffered,
                OPUS_FRAME_SAMPLES as int,
            ) && frame->0@.len() == OPUS_FRAME_SAMPLES,
    {
        if self.buffer.len() == 0 {
            assert(self@.buffered =~= Seq::<i16>::empty());
            return None;
        }
        let frame = pad_with_silence(&self.buffer, OPUS_FRAME_SAMPLES);
        self.buffer = Vec::new();
        Some(frame)
    }

    /// Ends the stream: writes the packet made of the last frame, one frame
    /// further, or, where there was none, an empty packet where the stream
    /// stands; either is marked as the end. Returns the remaining pages.
    ///
    /// A stream that is ended already takes an empty end packet once more,
    /// but no further frame. A stream without headers is not ended, nor
    /// one whose last packet is too long or that has reached the packet
    /// limit; such a stream is left as it was.
    pub fn finish(&mut self, last: Option<Vec<u8>>) -> (r: Result<Vec<u8>, StreamError>)
        requires
            old(self).wf(),
        ensures
            r is Ok <==> ends_in_order(old(self)@.phase, payload(last)) && fits(payload(last))
                && old(self)@.packets.len() < PACKET_LIMIT,
            match r {
                Ok(bytes) => {
                    &&& final(self).wf()
                    &&& final(self)@ == (StreamView {
                        packets: old(self)@.packets.push(
                            end_record(payload(last), old(self)@.serial, old(self)@.granule),
                        ),
                        granule: end_record(
                            payload(last),
                            old(self)@.serial,
                            old(self)@.granule,
                        ).granule,
                        phase: Phase::Finished,
                        ..old(self)@
                    })
                    &&& old(self)@.granule + 960 <= u64::MAX
                    &&& bytes@ == page_bytes(
                        old(self)@.packets,
                        end_record(payload(last), old(self)@.serial, old(self)@.granule),
                    )
                    &&& bytes@.len() > 0
                },
                Err(e) => {
                    &&& e == StreamError::OutOfOrder <==> !ends_in_order(
                        old(self)@.phase,
                        payload(last),
                    )
                    &&& e == StreamError::PacketTooLarge <==> ends_in_order(
                        old(self)@.phase,
                        payload(last),
                    ) && !fits(payload(last))
                    &&& e == StreamError::StreamTooLong <==> ends_in_order(
                        old(self)@.phase,
                        payload(last),
                    ) && fits(payload(last)) && old(self)@.packets.len() >= PACKET_LIMIT
                    &&& *final(self) == *old(self)
                },
            },
    {
        let in_order = match self.phase {
            Phase::Fresh => false,
            Phase::Streaming => true,
            Phase::Finished => last.is_none(),
        };
        if !in_order {
            return Err(StreamError::OutOfOrder);
        }
        let ghost before = self@.packets;
        let ghost g0 = self.granule_pos;
        let ghost record = end_record(payload(last), self.serial, self.granule_pos);
        proof {
            lemma_fresh(before, self.serial, self.phase, g0);
            lemma_append_end(before, self.serial, self.phase, g0, payload(last));
        }
        let (data, granule) = match last {
            Some(data) => {
                if data.len() > MAX_PACKET_SIZE {
                    return Err(StreamError::PacketTooLarge);
                }
                (data, self.granule_pos + OPUS_FRAME_SIZE)
            },
            None => (Vec::new(), self.granule_pos),
        };
        if self.written >= PACKET_LIMIT {
            return Err(StreamError::StreamTooLong);
        }
        assert(packet(data@, self.serial, PacketEnd::EndStream, granule) == record);
        let report = write_packet(
            &mut self.ogg_writer,
            data,
            self.serial,
            PacketEnd::EndStream,
            granule,
        );
        match io_outcome(report) {
            Ok(()) => {},
            Err(e) => {
                return Err(e);
            },
        }
        self.granule_pos = granule;
        self.written = self.written + 1;
        self.phase = Phase::Finished;
        let bytes = take_bytes(&mut self.ogg_writer);
        Ok(bytes)
    }

    /// Ends a stream that cannot go on, as well as can still be done. What
    /// waits in the buffer is dropped. A stream that has sent its headers
    /// and is not ended yet gets an empty end packet where it stands, and
    /// the pages that remain are returned; any other stream is left as it
    /// is and nothing is returned.
    pub fn abort(&mut self) -> (bytes: Vec<u8>)
        requires
            old(self).wf(),
        ensures
            final(self).wf(),
            final(self)@ == aborted(old(self)@),
            bytes@ == abort_pages(old(self)@),
            bytes@.len() > 0 <==> can_still_end(old(self)@),
    {
        self.buffer = Vec::new();
        if self.phase != Phase::Streaming {
            return Vec::new();
        }
        match self.finish(None) {
            Ok(bytes) => bytes,
            Err(_) => Vec::new(),
        }
    }

    /// Writes the identification header and the comment header, each on a
    /// page of its own at granule position 0, and returns the two pages.
    ///
    /// A fresh stream takes the headers; any other refuses them and is left
    /// as it was.
    pub fn header_bytes(&mut self) -> (r: Result<Vec<u8>, StreamError>)
        requires
            old(self).wf(),
        ensures
            r is Ok <==> old(self)@.phase == Phase::Fresh,
            match r {
                Ok(bytes) => {
                    &&& final(self).wf()
                    &&& final(self)@ == (StreamView {
                        packets: seq![head_record(old(self)@.serial), tags_record(old(self)@.serial)],
                        phase: Phase::Streaming,
                        ..old(self)@
                    })
                    &&& bytes@ == pages_for(
                        Seq::empty(),
                        seq![head_record(old(self)@.serial), tags_record(old(self)@.serial)],
                    )
                    &&& bytes@.len() > 0
                },
                Err(e) => {
                    &&& e == StreamError::OutOfOrder
                    &&& *final(self) == *old(self)
                },
            },
    {
        if self.phase != Phase::Fresh {
            return Err(StreamError::OutOfOrder);
        }
        let ghost serial = self.serial;
        proof {
            lemma_fresh(self@.packets, self.serial, self.phase, self.granule_pos);
        }
        let head = opus_head_packet();
        let report = write_packet(&mut self.ogg_writer, head, self.serial, PacketEnd::EndPage, 0);
        match io_outcome(report) {
            Ok(()) => {},
            Err(e) => {
                return Err(e);
            },
        }
        let vendor = vendor_bytes();
        let tags = opus_tags_packet(vendor.as_slice());
        let report = write_packet(&mut self.ogg_writer, tags, self.serial, PacketEnd::EndPage, 0);
        match io_outcome(report) {
            Ok(()) => {},
            Err(e) => {
                return Err(e);
            },
        }
        self.written = 2;
        self.phase = Phase::Streaming;
        let bytes = take_bytes(&mut self.ogg_writer);
        proof {
            lemma_header_pages(serial, old(self)@.packets, self@.packets, bytes@);
        }
        Ok(bytes)
    }
}

} // verus!

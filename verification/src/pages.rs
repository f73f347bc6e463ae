//! The seam between this crate and the `ogg` crate's page writer.
//!
//! The writer itself is not verified. What is taken on trust about it is
//! said here, item by item, over three names: the packets a writer has
//! been handed, the bytes it holds ready, and the bytes a packet makes it
//! put out.

use ogg::writing::PacketWriteEndInfo;
use ogg::writing::PacketWriter;
use vstd::prelude::*;

verus! {

/// How a packet closes what came before it.
#[derive(Clone, Copy, PartialEq, Eq, Structural, Debug)]
pub enum PacketEnd {
    /// An ordinary packet; pages fill up on their own.
    Normal,
    /// The page is closed right after this packet.
    EndPage,
    /// The logical bitstream ends with this packet.
    EndStream,
}

/// One packet as it was handed to the page writer.
pub struct PacketRecord {
    pub data: Seq<u8>,
    pub serial: u32,
    pub end: PacketEnd,
    pub granule: u64,
}

/// Builds a record from its four parts.
pub open spec fn packet(data: Seq<u8>, serial: u32, end: PacketEnd, granule: u64) -> PacketRecord {
    PacketRecord { data, serial, end, granule }
}

/// The `ogg` crate's `PacketWriter`, writing into a buffer in memory. Its
/// type is bounded by `std::io::Write`, which cannot be declared here, so
/// the writer is kept behind this struct and reached only through the
/// functions below.
#[verifier::external_body]
pub struct PageWriter {
    inner: PacketWriter<'static, Vec<u8>>,
}

/// `std::io::Error`, which the writer reports failures with. It is only
/// carried through.
#[verifier::external_type_specification]
#[verifier::external_body]
pub struct ExIoError(std::io::Error);

/// The packets handed to a writer since it was made, oldest first.
pub uninterp spec fn written_packets(w: PageWriter) -> Seq<PacketRecord>;

/// The bytes a writer has put out and nobody has collected yet.
pub uninterp spec fn pending_bytes(w: PageWriter) -> Seq<u8>;

/// The bytes of the pages that `PacketWriter::write_packet` puts out when it
/// is handed `next` after `before`.
pub uninterp spec fn page_bytes(before: Seq<PacketRecord>, next: PacketRecord) -> Seq<u8>;

/// `PacketWriter::new` over an empty buffer: no packet seen, no byte put
/// out.
#[verifier::external_body]
pub(crate) fn new_writer() -> (w: PageWriter)
    ensures
        written_packets(w) == Seq::<PacketRecord>::empty(),
        pending_bytes(w) == Seq::<u8>::empty(),
{
    PageWriter { inner: PacketWriter::new(Vec::new()) }
}

/// `PacketWriter::write_packet`. The packet joins the writer's history and
/// the pages it completes, if any, follow the bytes already waiting; which
/// bytes these are depends on the packets written so far and on this one,
/// and on nothing else.
///
/// A packet that closes its page or the stream makes at least that page
/// leave, so bytes are put out.
///
/// The call reports success: the writer's only steps that can fail are
/// writes, and it writes to nothing but a page header it builds in memory
/// and the buffer it was made over, which takes whatever is appended.
///
/// The writer numbers its pages in a `u32` and one call closes at most two
/// pages while a packet stays under 255 segments, hence the two bounds.
#[verifier::external_body]
pub(crate) fn write_packet(
    w: &mut PageWriter,
    data: Vec<u8>,
    serial: u32,
    end: PacketEnd,
    granule: u64,
) -> (r: Result<(), std::io::Error>)
    requires
        data@.len() < 64770,
        written_packets(*old(w)).len() < 0x7fff_fff0,
    ensures
        r is Ok,
        written_packets(*final(w)) == written_packets(*old(w)).push(
            packet(data@, serial, end, granule),
        ),
        pending_bytes(*final(w)) == pending_bytes(*old(w)) + page_bytes(
            written_packets(*old(w)),
            packet(data@, serial, end, granule),
        ),
        end != PacketEnd::Normal ==> pending_bytes(*final(w)).len() > pending_bytes(*old(w)).len(),
{
    let inf = match end {
        PacketEnd::Normal => PacketWriteEndInfo::NormalPacket,
        PacketEnd::EndPage => PacketWriteEndInfo::EndPage,
        PacketEnd::EndStream => PacketWriteEndInfo::EndStream,
    };
    w.inner.write_packet(data, serial, inf, granule)
}

/// `PacketWriter::inner_mut`, to take the buffer's contents: hands out every
/// byte that was waiting and leaves none; the history is untouched.
#[verifier::external_body]
pub(crate) fn take_bytes(w: &mut PageWriter) -> (bytes: Vec<u8>)
    ensures
        bytes@ == pending_bytes(*old(w)),
        pending_bytes(*final(w)) == Seq::<u8>::empty(),
        written_packets(*final(w)) == written_packets(*old(w)),
{
    std::mem::take(w.inner.inner_mut())
}

/// The bytes put out while `batch` is written, packet by packet, by a
/// writer that has seen `before`.
pub open spec fn pages_for(before: Seq<PacketRecord>, batch: Seq<PacketRecord>) -> Seq<u8>
    decreases batch.len(),
{
    if batch.len() == 0 {
        Seq::empty()
    } else {
        pages_for(before, batch.drop_last()) + page_bytes(
            before + batch.drop_last(),
            batch.last(),
        )
    }
}

/// Writing one packet more puts out what the batch put out, then the pages
/// of that packet.
pub proof fn lemma_pages_for_push(
    before: Seq<PacketRecord>,
    batch: Seq<PacketRecord>,
    next: PacketRecord,
)
    ensures
        pages_for(before, batch.push(next)) == pages_for(before, batch) + page_bytes(
            before + batch,
            next,
        ),
{
    assert(batch.push(next).drop_last() =~= batch);
}

/// What two batches put out one after the other is what the two put out
/// as one batch.
pub proof fn lemma_pages_for_concat(
    before: Seq<PacketRecord>,
    first: Seq<PacketRecord>,
    second: Seq<PacketRecord>,
)
    ensures
        pages_for(before, first + second) == pages_for(before, first) + pages_for(
            before + first,
            second,
        ),
    decreases second.len(),
{
    if second.len() == 0 {
        assert(first + second =~= first);
    } else {
        let front = second.drop_last();
        lemma_pages_for_concat(before, first, front);
        assert((first + second).drop_last() =~= first + front);
        assert((first + second).last() == second.last());
        assert(before + (first + front) =~= (before + first) + front);
    }
}

/// An empty batch puts out nothing.
pub proof fn lemma_pages_for_none(before: Seq<PacketRecord>)
    ensures
        pages_for(before, Seq::empty()) == Seq::<u8>::empty(),
{
}

} // verus!

//! The two packets that open every Ogg/Opus stream.
//!
//! Their layout is fixed by the container format, byte for byte, so each is
//! built by hand and its contract gives every byte.

use vstd::prelude::*;

verus! {

/// Samples a decoder drops at the start to make up for the encoder's delay.
pub const OPUS_PRE_SKIP: u16 = 312;

/// The rate the encoder runs at, in samples per second.
pub const OPUS_SAMPLE_RATE: u32 = 48000;

/// The number of channels in the stream.
pub const OPUS_CHANNELS: u8 = 2;

/// The two bytes of `x`, low byte first.
pub open spec fn le16(x: u16) -> Seq<u8> {
    seq![(x % 256) as u8, (x / 256) as u8]
}

/// The four bytes of `x`, low byte first.
pub open spec fn le32(x: u32) -> Seq<u8> {
    seq![
        (x % 256) as u8,
        (x / 256 % 256) as u8,
        (x / 65536 % 256) as u8,
        (x / 16777216) as u8,
    ]
}

/// The tag `OpusHead`.
pub open spec fn head_magic() -> Seq<u8> {
    seq![0x4fu8, 0x70u8, 0x75u8, 0x73u8, 0x48u8, 0x65u8, 0x61u8, 0x64u8]
}

/// The tag `OpusTags`.
pub open spec fn tags_magic() -> Seq<u8> {
    seq![0x4fu8, 0x70u8, 0x75u8, 0x73u8, 0x54u8, 0x61u8, 0x67u8, 0x73u8]
}

/// The name this library gives as the stream's vendor: `spotisub`.
pub open spec fn vendor_name() -> Seq<u8> {
    seq![0x73u8, 0x70u8, 0x6fu8, 0x74u8, 0x69u8, 0x73u8, 0x75u8, 0x62u8]
}

/// The identification header: tag, version 1, two channels, pre-skip, the
/// input rate (for information only), no output gain, mapping family 0.
#[verifier::opaque]
pub open spec fn opus_head() -> Seq<u8> {
    head_magic() + seq![1u8, OPUS_CHANNELS] + le16(OPUS_PRE_SKIP) + le32(OPUS_SAMPLE_RATE) + le16(
        0,
    ) + seq![0u8]
}

/// The comment header for a vendor string and no user comments.
#[verifier::opaque]
pub open spec fn opus_tags(vendor: Seq<u8>) -> Seq<u8> {
    tags_magic() + le32(vendor.len() as u32) + vendor + le32(0)
}

/// The identification header, written out: nineteen bytes that never change.
pub proof fn lemma_opus_head_bytes()
    ensures
        opus_head() == seq![
            0x4fu8, 0x70u8, 0x75u8, 0x73u8, 0x48u8, 0x65u8, 0x61u8, 0x64u8,
            1u8, 2u8, 0x38u8, 0x01u8, 0x80u8, 0xbbu8, 0u8, 0u8, 0u8, 0u8, 0u8,
        ],
{
    reveal(opus_head);
    assert(opus_head() =~= seq![
        0x4fu8, 0x70u8, 0x75u8, 0x73u8, 0x48u8, 0x65u8, 0x61u8, 0x64u8,
        1u8, 2u8, 0x38u8, 0x01u8, 0x80u8, 0xbbu8, 0u8, 0u8, 0u8, 0u8, 0u8,
    ]);
}

/// The comment header this library writes, written out.
pub proof fn lemma_opus_tags_bytes()
    ensures
        opus_tags(vendor_name()) == seq![
            0x4fu8, 0x70u8, 0x75u8, 0x73u8, 0x54u8, 0x61u8, 0x67u8, 0x73u8,
            8u8, 0u8, 0u8, 0u8,
            0x73u8, 0x70u8, 0x6fu8, 0x74u8, 0x69u8, 0x73u8, 0x75u8, 0x62u8,
            0u8, 0u8, 0u8, 0u8,
        ],
{
    reveal(opus_tags);
    assert(opus_tags(vendor_name()) =~= seq![
        0x4fu8, 0x70u8, 0x75u8, 0x73u8, 0x54u8, 0x61u8, 0x67u8, 0x73u8,
        8u8, 0u8, 0u8, 0u8,
        0x73u8, 0x70u8, 0x6fu8, 0x74u8, 0x69u8, 0x73u8, 0x75u8, 0x62u8,
        0u8, 0u8, 0u8, 0u8,
    ]);
}

/// Appends the two bytes of `x` to `out`, low byte first.
pub fn push_le16(out: &mut Vec<u8>, x: u16)
    ensures
        final(out)@ == old(out)@ + le16(x),
{
    out.push((x % 256) as u8);
    out.push((x / 256) as u8);
    assert(out@ =~= old(out)@ + le16(x));
}

/// Appends the four bytes of `x` to `out`, low byte first.
pub fn push_le32(out: &mut Vec<u8>, x: u32)
    ensures
        final(out)@ == old(out)@ + le32(x),
{
    out.push((x % 256) as u8);
    out.push((x / 256 % 256) as u8);
    out.push((x / 65536 % 256) as u8);
    out.push((x / 16777216) as u8);
    assert(out@ =~= old(out)@ + le32(x));
}

/// Appends the bytes of `src` to `out`.
pub fn push_all(out: &mut Vec<u8>, src: &[u8])
    ensures
        final(out)@ == old(out)@ + src@,
{
    let mut i: usize = 0;
    while i < src.len()
        invariant
            i <= src.len(),
            out@ == old(out)@ + src@.take(i as int),
        decreases src.len() - i,
    {
        out.push(src[i]);
        i += 1;
        assert(out@ =~= old(out)@ + src@.take(i as int));
    }
    assert(src@.take(src.len() as int) =~= src@);
}

/// The vendor string as bytes.
pub fn vendor_bytes() -> (out: Vec<u8>)
    ensures
        out@ == vendor_name(),
{
    let mut out: Vec<u8> = Vec::new();
    out.push(0x73);
    out.push(0x70);
    out.push(0x6f);
    out.push(0x74);
    out.push(0x69);
    out.push(0x73);
    out.push(0x75);
    out.push(0x62);
    assert(out@ =~= vendor_name());
    out
}

/// Builds the identification header.
pub fn opus_head_packet() -> (out: Vec<u8>)
    ensures
        out@ == opus_head(),
        out@.len() == 19,
{
    reveal(opus_head);
    let mut out: Vec<u8> = Vec::new();
    out.push(0x4f);
    out.push(0x70);
    out.push(0x75);
    out.push(0x73);
    out.push(0x48);
    out.push(0x65);
    out.push(0x61);
    out.push(0x64);
    assert(out@ =~= head_magic());
    out.push(1);
    out.push(OPUS_CHANNELS);
    push_le16(&mut out, OPUS_PRE_SKIP);
    push_le32(&mut out, OPUS_SAMPLE_RATE);
    push_le16(&mut out, 0);
    out.push(0);
    assert(out@ =~= opus_head());
    out
}

/// Builds the comment header for `vendor`, with an empty list of comments.
pub fn opus_tags_packet(vendor: &[u8]) -> (out: Vec<u8>)
    requires
        vendor@.len() <= u32::MAX,
    ensures
        out@ == opus_tags(vendor@),
        out@.len() == vendor@.len() + 16,
{
    reveal(opus_tags);
    let mut out: Vec<u8> = Vec::new();
    out.push(0x4f);
    out.push(0x70);
    out.push(0x75);
    out.push(0x73);
    out.push(0x54);
    out.push(0x61);
    out.push(0x67);
    out.push(0x73);
    assert(out@ =~= tags_magic());
    push_le32(&mut out, vendor.len() as u32);
    push_all(&mut out, vendor);
    push_le32(&mut out, 0);
    assert(out@ =~= opus_tags(vendor@));
    out
}

} // verus!

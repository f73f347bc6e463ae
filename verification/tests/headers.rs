use spotisub::headers::opus_head_packet;
use spotisub::headers::opus_tags_packet;
use spotisub::headers::vendor_bytes;

#[test]
fn identification_header_is_pinned_byte_for_byte() {
    let head = opus_head_packet();
    let mut expected: Vec<u8> = Vec::new();
    expected.extend_from_slice(b"OpusHead");
    expected.push(1);
    expected.push(2);
    expected.extend_from_slice(&312u16.to_le_bytes());
    expected.extend_from_slice(&48000u32.to_le_bytes());
    expected.extend_from_slice(&0i16.to_le_bytes());
    expected.push(0);
    assert_eq!(head, expected);
    assert_eq!(
        head,
        vec![0x4f, 0x70, 0x75, 0x73, 0x48, 0x65, 0x61, 0x64, 1, 2, 0x38, 0x01, 0x80, 0xbb, 0, 0, 0, 0, 0]
    );
}

#[test]
fn comment_header_names_the_vendor_and_no_comments() {
    let vendor = vendor_bytes();
    assert_eq!(vendor, b"spotisub".to_vec());
    let tags = opus_tags_packet(&vendor);
    let mut expected: Vec<u8> = Vec::new();
    expected.extend_from_slice(b"OpusTags");
    expected.extend_from_slice(&8u32.to_le_bytes());
    expected.extend_from_slice(b"spotisub");
    expected.extend_from_slice(&0u32.to_le_bytes());
    assert_eq!(tags, expected);
}

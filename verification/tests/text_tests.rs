use dbk64::device::MockDevice;
use dbk64::Error;
use dbk64::DBK64;

fn client_with(responses: Vec<Result<Vec<u8>, u32>>) -> DBK64<MockDevice> {
    DBK64 { device: MockDevice::new(responses), process_id: 7 }
}

#[test]
fn text_is_truncated_at_the_first_zero_byte() {
    let mut raw = b"abc\0garbage-bytes-after-null".to_vec();
    raw.resize(32, 0xFF);
    let mut dbk = client_with(vec![Ok(raw)]);
    assert_eq!(dbk.read_utf8(0x1000, 32).unwrap(), "abc");
}

#[test]
fn text_without_a_terminator_is_taken_whole() {
    let mut dbk = client_with(vec![Ok(b"hello".to_vec())]);
    assert_eq!(dbk.read_utf8(0x1000, 5).unwrap(), "hello");
}

#[test]
fn multi_byte_sequences_decode_as_utf8() {
    // Two bytes of input become one character: the decode is not an
    // identity on the raw bytes.
    let mut dbk = client_with(vec![Ok(vec![0xC3, 0xA9, 0x00, 0xFF])]);
    let s = dbk.read_utf8(0x1000, 4).unwrap();
    assert_eq!(s, "\u{e9}");
    assert_eq!(s.chars().count(), 1);
}

#[test]
fn invalid_utf8_is_a_decode_error_not_a_substitution() {
    let mut dbk = client_with(vec![Ok(vec![0xFF, 0xFE, 0x41])]);
    assert_eq!(dbk.read_utf8(0x1000, 3), Err(Error::Utf8Decode));
}

#[test]
fn a_leading_zero_byte_decodes_to_the_empty_string() {
    let mut dbk = client_with(vec![Ok(vec![0x00, 0x41, 0x42])]);
    assert_eq!(dbk.read_utf8(0x1000, 3).unwrap(), "");
}

#[test]
fn a_failed_read_surfaces_before_decoding() {
    let mut dbk = client_with(vec![Err(31)]);
    assert_eq!(dbk.read_utf8(0x1000, 16), Err(Error::Ioctl(31)));
}

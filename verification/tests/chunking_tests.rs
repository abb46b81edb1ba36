use dbk64::chunking::MAX_READ_CHUNK;
use dbk64::chunking::MAX_WRITE_CHUNK;
use dbk64::codec::MAX_WRITE_REQUEST_SIZE;
use dbk64::codec::WRITE_HEADER_SIZE;
use dbk64::device::MockDevice;
use dbk64::DBK64;

fn client_with(responses: Vec<Result<Vec<u8>, u32>>, pid: u64) -> DBK64<MockDevice> {
    DBK64 { device: MockDevice::new(responses), process_id: pid }
}

#[test]
fn chunk_limits_are_the_protocol_limits() {
    assert_eq!(MAX_READ_CHUNK, 65535);
    assert_eq!(MAX_WRITE_CHUNK, 256);
    assert!(WRITE_HEADER_SIZE + MAX_WRITE_CHUNK <= MAX_WRITE_REQUEST_SIZE);
}

#[test]
fn read_round_trip_across_chunk_boundary() {
    // A 65536-byte buffer split into 65535 + 1 and reassembled in order.
    let first: Vec<u8> = (0..65535u32).map(|i| (i % 251) as u8).collect();
    let second: Vec<u8> = vec![0x5A];
    let mut dbk = client_with(vec![Ok(first.clone()), Ok(second.clone())], 10);
    let got = dbk.read_raw(0x4000, 65536).unwrap();
    let mut expected = first;
    expected.extend_from_slice(&second);
    assert_eq!(got, expected);
}

#[test]
fn read_of_65535_bytes_issues_one_request() {
    let mut dbk = client_with(vec![Ok(vec![1u8; 65535])], 10);
    let got = dbk.read_raw(0, 65535).unwrap();
    assert_eq!(got.len(), 65535);
    assert_eq!(dbk.device.served, 1);
}

#[test]
fn read_of_65536_bytes_issues_two_requests() {
    let mut dbk = client_with(vec![Ok(vec![1u8; 65535]), Ok(vec![2u8])], 10);
    let got = dbk.read_raw(0, 65536).unwrap();
    assert_eq!(got.len(), 65536);
    assert_eq!(got[65535], 2);
    assert_eq!(dbk.device.served, 2);
}

#[test]
fn write_is_split_into_requests_under_the_buffer_bound() {
    // The mock refuses any request buffer over 512 bytes, like the driver
    // would: a 600-byte write must therefore go out as several small calls.
    let data = vec![0xA5u8; 600];
    let mut dbk = client_with(vec![Ok(vec![]), Ok(vec![]), Ok(vec![])], 10);
    dbk.write_raw(0x5000, &data).unwrap();
    assert_eq!(dbk.device.served, 3);
}

#[test]
fn empty_read_and_write_issue_no_request() {
    let mut dbk = client_with(vec![], 10);
    assert_eq!(dbk.read_raw(0x100, 0).unwrap(), Vec::<u8>::new());
    dbk.write_raw(0x100, &[]).unwrap();
    assert_eq!(dbk.device.served, 0);
}

use dbk64::client::section_base_address_offsets;
use dbk64::device::MockDevice;
use dbk64::DBK64;

fn le8(v: u64) -> Vec<u8> {
    v.to_le_bytes().to_vec()
}

fn open_response() -> Vec<u8> {
    let mut raw = vec![0u8; 16];
    raw[0..8].copy_from_slice(&0xFFFF800000000001u64.to_le_bytes());
    raw
}

#[test]
fn offset_table_is_kept_verbatim_and_in_order() {
    let offsets = section_base_address_offsets();
    assert_eq!(offsets, vec![0x0520, 0x03C8, 0x03C0, 0x03B0, 0x0270, 0x01D0, 0x01F8]);
}

#[test]
fn resolver_returns_the_first_nonzero_candidate() {
    // Zero for the first six offsets, a nonzero value at offset index 6.
    let v: u64 = 0x00007FF600000000;
    let mut script: Vec<Result<Vec<u8>, u32>> = vec![Ok(le8(0x1000))];
    for _ in 0..6 {
        script.push(Ok(le8(0)));
    }
    script.push(Ok(le8(v)));
    let mut dbk = DBK64 { device: MockDevice::new(script), process_id: 4242 };
    assert_eq!(dbk.get_base_address(), Some(v));
    assert_eq!(dbk.device.served, 8);
}

#[test]
fn resolver_reports_not_found_when_every_candidate_is_zero() {
    let mut script: Vec<Result<Vec<u8>, u32>> = vec![Ok(le8(0x1000))];
    for _ in 0..7 {
        script.push(Ok(le8(0)));
    }
    let mut dbk = DBK64 { device: MockDevice::new(script), process_id: 4242 };
    assert_eq!(dbk.get_base_address(), None);
    assert_eq!(dbk.device.served, 8);
}

#[test]
fn resolver_reports_not_found_when_the_kernel_object_is_unresolved() {
    let mut dbk = DBK64 { device: MockDevice::new(vec![Err(5)]), process_id: 4242 };
    assert_eq!(dbk.get_base_address(), None);
    assert_eq!(dbk.device.served, 1);
}

#[test]
fn resolver_reports_not_found_when_a_candidate_read_fails() {
    let script: Vec<Result<Vec<u8>, u32>> = vec![Ok(le8(0x1000)), Ok(le8(0)), Err(31)];
    let mut dbk = DBK64 { device: MockDevice::new(script), process_id: 4242 };
    assert_eq!(dbk.get_base_address(), None);
    assert_eq!(dbk.device.served, 3);
}

#[test]
fn end_to_end_session_resolves_the_base_address() {
    // Open a session for pid 4242, resolve the kernel object to 0x1000,
    // find zero at the first two offsets and the base at the third.
    let base: u64 = 0x7FFE00000000;
    let script: Vec<Result<Vec<u8>, u32>> = vec![
        Ok(open_response()),
        Ok(le8(0x1000)),
        Ok(le8(0)),
        Ok(le8(0)),
        Ok(le8(base)),
    ];
    let mut dbk = DBK64::open(MockDevice::new(script), 4242).unwrap();
    assert_eq!(dbk.get_base_address(), Some(base));
    assert_eq!(dbk.device.served, 5);
}

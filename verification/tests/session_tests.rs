use dbk64::device::MockDevice;
use dbk64::Error;
use dbk64::DBK64;

fn open_response(handle: u64, special: u8) -> Vec<u8> {
    let mut raw = vec![0u8; 16];
    raw[0..8].copy_from_slice(&handle.to_le_bytes());
    raw[8] = special;
    raw
}

#[test]
fn pid_zero_is_rejected_without_a_device_call() {
    let mut dbk = DBK64 { device: MockDevice::new(vec![Ok(open_response(9, 0))]), process_id: 7 };
    let r = dbk.openprocess(0);
    assert_eq!(r, Err(Error::ProcessNotFound));
    assert_eq!(dbk.device.served, 0);
}

#[test]
fn open_with_pid_zero_returns_not_found() {
    let r = DBK64::open(MockDevice::new(vec![]), 0);
    assert!(matches!(r, Err(Error::ProcessNotFound)));
}

#[test]
fn open_performs_the_openprocess_handshake() {
    let dbk = DBK64::open(MockDevice::new(vec![Ok(open_response(0xFFFF800000000042, 1))]), 4242)
        .unwrap();
    assert_eq!(dbk.process_id, 4242);
    assert_eq!(dbk.device.served, 1);
}

#[test]
fn open_surfaces_a_driver_refusal_as_not_found() {
    let r = DBK64::open(MockDevice::new(vec![Err(5)]), 4242);
    assert!(matches!(r, Err(Error::ProcessNotFound)));
}

#[test]
fn openprocess_decodes_handle_and_flag() {
    let mut dbk = DBK64 {
        device: MockDevice::new(vec![Ok(open_response(0xAABBCCDD, 1))]),
        process_id: 7,
    };
    let out = dbk.openprocess(7).unwrap();
    assert_eq!(out.processhandle, 0xAABBCCDD);
    assert_eq!(out.special, 1);
}

#[test]
fn getpeprocess_decodes_the_kernel_object_pointer() {
    let mut dbk = DBK64 {
        device: MockDevice::new(vec![Ok(0xFFFFA00000001000u64.to_le_bytes().to_vec())]),
        process_id: 7,
    };
    assert_eq!(dbk.getpeprocess(7).unwrap(), 0xFFFFA00000001000);
}

#[test]
fn getpeprocess_surfaces_a_driver_failure_as_not_found() {
    let mut dbk = DBK64 { device: MockDevice::new(vec![Err(31)]), process_id: 7 };
    assert_eq!(dbk.getpeprocess(7), Err(Error::ProcessNotFound));
}

#[test]
fn oversized_single_read_is_a_size_limit_error() {
    let mut dbk = DBK64 { device: MockDevice::new(vec![]), process_id: 7 };
    let r = dbk.readmemory(7, 0x1000, 65536);
    assert_eq!(r, Err(Error::SizeLimitExceeded));
    assert_eq!(dbk.device.served, 0);
}

#[test]
fn oversized_single_write_is_a_size_limit_error() {
    let mut dbk = DBK64 { device: MockDevice::new(vec![]), process_id: 7 };
    let data = vec![0u8; 495];
    let r = dbk.writememory(7, 0x1000, &data);
    assert_eq!(r, Err(Error::SizeLimitExceeded));
    assert_eq!(dbk.device.served, 0);
}

#[test]
fn largest_legal_single_write_goes_through() {
    let mut dbk = DBK64 { device: MockDevice::new(vec![Ok(vec![])]), process_id: 7 };
    let data = vec![0u8; 494];
    dbk.writememory(7, 0x1000, &data).unwrap();
    assert_eq!(dbk.device.served, 1);
}

#[test]
fn a_failed_device_call_surfaces_the_os_code() {
    let mut dbk = DBK64 { device: MockDevice::new(vec![Err(1117)]), process_id: 7 };
    assert_eq!(dbk.read_raw(0x1000, 16), Err(Error::Ioctl(1117)));
}

#[test]
fn a_mid_sequence_read_failure_returns_no_bytes() {
    let mut dbk = DBK64 {
        device: MockDevice::new(vec![Ok(vec![7u8; 65535]), Err(31)]),
        process_id: 7,
    };
    assert_eq!(dbk.read_raw(0, 70000), Err(Error::Ioctl(31)));
    assert_eq!(dbk.device.served, 2);
}

#[test]
fn read_raw_into_keeps_the_buffer_on_failure() {
    let mut dbk = DBK64 { device: MockDevice::new(vec![Err(6)]), process_id: 7 };
    let mut buffer = vec![0xEEu8; 4];
    assert_eq!(dbk.read_raw_into(0x1000, &mut buffer), Err(Error::Ioctl(6)));
    assert_eq!(buffer, vec![0xEE; 4]);
}

#[test]
fn typed_read_fails_cleanly_when_the_raw_read_fails() {
    let mut dbk = DBK64 { device: MockDevice::new(vec![Err(31)]), process_id: 7 };
    let r: Result<u64, Error> = dbk.read(0x1000);
    assert_eq!(r, Err(Error::Ioctl(31)));
}

#[test]
fn typed_read_into_keeps_the_old_value_on_failure() {
    let mut dbk = DBK64 { device: MockDevice::new(vec![Err(31)]), process_id: 7 };
    let mut value: u64 = 0xCAFEF00D;
    assert_eq!(dbk.read_into(0x1000, &mut value), Err(Error::Ioctl(31)));
    assert_eq!(value, 0xCAFEF00D);
}

#[test]
fn typed_read_decodes_little_endian() {
    let mut dbk = DBK64 {
        device: MockDevice::new(vec![Ok(0x1122334455667788u64.to_le_bytes().to_vec())]),
        process_id: 7,
    };
    let r: u64 = dbk.read(0x1000).unwrap();
    assert_eq!(r, 0x1122334455667788);
}

#[test]
fn typed_write_sends_the_byte_image() {
    // One in-bounds request; the mock accepts it and the call succeeds.
    let mut dbk = DBK64 { device: MockDevice::new(vec![Ok(vec![])]), process_id: 7 };
    dbk.write(0x1000, &0xDEADBEEFu32).unwrap();
    assert_eq!(dbk.device.served, 1);
}

#[test]
fn error_values_compare_by_variant_and_code() {
    assert_eq!(Error::DeviceOpen(2), Error::DeviceOpen(2));
    assert_ne!(Error::DeviceOpen(2), Error::DeviceOpen(5));
    assert_ne!(Error::Ioctl(2), Error::DeviceOpen(2));
    assert_ne!(Error::ProcessNotFound, Error::SizeLimitExceeded);
}

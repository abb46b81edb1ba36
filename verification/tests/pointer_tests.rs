use dbk64::device::MockDevice;
use dbk64::types::PlainData;
use dbk64::Pointer;
use dbk64::DBK64;

#[test]
fn a_pointer_is_its_raw_address_with_a_tag() {
    let p: Pointer<u64> = Pointer::from(0x7FFE00001000);
    assert_eq!(p.inner, 0x7FFE00001000);
    let q: Pointer<u32> = Pointer::new(3);
    assert_eq!(q.inner, 3);
    assert_eq!(p.clone(), p);
}

#[test]
fn pointers_compare_by_address() {
    let a: Pointer<u64> = Pointer::from(1);
    let b: Pointer<u64> = Pointer::from(1);
    let c: Pointer<u64> = Pointer::from(2);
    assert_eq!(a, b);
    assert_ne!(a, c);
    assert!(a < c);
}

#[test]
fn plain_data_round_trips_through_its_byte_image() {
    let bytes = 0xDEADBEEFCAFEF00Du64.encode();
    assert_eq!(bytes, 0xDEADBEEFCAFEF00Du64.to_le_bytes().to_vec());
    assert_eq!(u64::decode(&bytes), 0xDEADBEEFCAFEF00D);
    assert_eq!(u32::decode(&0x11223344u32.encode()), 0x11223344);
    assert_eq!(u16::decode(&0xA55Au16.encode()), 0xA55A);
    assert_eq!(u8::decode(&0x7Fu8.encode()), 0x7F);
    assert_eq!(<u64 as PlainData>::byte_size(), 8);
}

#[test]
fn read_pointer_reads_at_the_tagged_address() {
    let mut dbk = DBK64 {
        device: MockDevice::new(vec![Ok(0x1234u64.to_le_bytes().to_vec())]),
        process_id: 7,
    };
    let p: Pointer<u64> = Pointer::from(0x1000);
    assert_eq!(dbk.read_pointer(p).unwrap(), 0x1234);
}

#[test]
fn read_pointer_into_fills_the_target() {
    let mut dbk = DBK64 {
        device: MockDevice::new(vec![Ok(0x77u64.to_le_bytes().to_vec())]),
        process_id: 7,
    };
    let p: Pointer<u64> = Pointer::from(0x1000);
    let mut value: u64 = 0;
    dbk.read_pointer_into(p, &mut value).unwrap();
    assert_eq!(value, 0x77);
}

#[test]
fn write_pointer_writes_at_the_tagged_address() {
    let mut dbk = DBK64 { device: MockDevice::new(vec![Ok(vec![])]), process_id: 7 };
    let p: Pointer<u64> = Pointer::from(0x1000);
    dbk.write_pointer(p, &0x55AAu64).unwrap();
    assert_eq!(dbk.device.served, 1);
}

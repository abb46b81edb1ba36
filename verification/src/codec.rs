//! Wire codec: the numeric device-control command codes and the fixed-layout
//! request and response records of the driver ABI.
//!
//! Field order, field width and byte order are part of the wire contract.
//! Every record is stated as an explicit little-endian byte sequence, so the
//! layout does not depend on the host language's struct layout rules.

use vstd::bytes::*;
use vstd::prelude::*;

verus! {

/// Access-rights bit: the caller may read from the device.
pub const FILE_READ_ACCESS: u32 = 0x0001;

/// Access-rights bit: the caller may write to the device.
pub const FILE_WRITE_ACCESS: u32 = 0x0002;

/// Read and write access, required by every command of this protocol.
pub const FILE_RW_ACCESS: u32 = FILE_READ_ACCESS | FILE_WRITE_ACCESS;

/// Transfer method: the driver copies data through its own staging buffer.
pub const METHOD_BUFFERED: u32 = 0;

/// Device category of the driver's device object.
pub const FILE_DEVICE_UNKNOWN: u32 = 0x0022;

/// The formula every command code of the protocol is derived from.
pub open spec fn spec_ctl_code(function: u32) -> u32 {
    (FILE_DEVICE_UNKNOWN << 16) | (function << 2) | METHOD_BUFFERED | (FILE_RW_ACCESS << 14)
}

/// Command code: read target-process memory.
pub const IOCTL_CE_READMEMORY: u32 = (FILE_DEVICE_UNKNOWN << 16) | (0x0800 << 2)
    | METHOD_BUFFERED | (FILE_RW_ACCESS << 14);

/// Command code: write target-process memory.
pub const IOCTL_CE_WRITEMEMORY: u32 = (FILE_DEVICE_UNKNOWN << 16) | (0x0801 << 2)
    | METHOD_BUFFERED | (FILE_RW_ACCESS << 14);

/// Command code: register a target process with the driver.
pub const IOCTL_CE_OPENPROCESS: u32 = (FILE_DEVICE_UNKNOWN << 16) | (0x0802 << 2)
    | METHOD_BUFFERED | (FILE_RW_ACCESS << 14);

/// Command code: resolve a process id to its opaque kernel object pointer.
pub const IOCTL_CE_GETPEPROCESS: u32 = (FILE_DEVICE_UNKNOWN << 16) | (0x0805 << 2)
    | METHOD_BUFFERED | (FILE_RW_ACCESS << 14);

/// The four command codes come out of the single derivation formula, at the
/// exact numeric values the driver expects.
pub proof fn lemma_ioctl_codes()
    ensures
        IOCTL_CE_READMEMORY == spec_ctl_code(0x0800),
        IOCTL_CE_WRITEMEMORY == spec_ctl_code(0x0801),
        IOCTL_CE_OPENPROCESS == spec_ctl_code(0x0802),
        IOCTL_CE_GETPEPROCESS == spec_ctl_code(0x0805),
        IOCTL_CE_READMEMORY == 0x0022E000,
        IOCTL_CE_WRITEMEMORY == 0x0022E004,
        IOCTL_CE_OPENPROCESS == 0x0022E008,
        IOCTL_CE_GETPEPROCESS == 0x0022E014,
{
    assert(FILE_RW_ACCESS == 0x0003u32) by {
        assert(0x0001u32 | 0x0002u32 == 0x0003u32) by (bit_vector);
    }
    assert((0x0022u32 << 16) | (0x0800u32 << 2) | 0u32 | (0x0003u32 << 14) == 0x0022E000u32)
        by (bit_vector);
    assert((0x0022u32 << 16) | (0x0801u32 << 2) | 0u32 | (0x0003u32 << 14) == 0x0022E004u32)
        by (bit_vector);
    assert((0x0022u32 << 16) | (0x0802u32 << 2) | 0u32 | (0x0003u32 << 14) == 0x0022E008u32)
        by (bit_vector);
    assert((0x0022u32 << 16) | (0x0805u32 << 2) | 0u32 | (0x0003u32 << 14) == 0x0022E014u32)
        by (bit_vector);
}

/// Size of an encoded read request: two naturally aligned 8-byte fields, one
/// 2-byte field, and six bytes of tail padding.
pub const READ_REQUEST_SIZE: usize = 24;

/// Size of an encoded write request header: byte-packed, no padding, because
/// the payload follows immediately in the same buffer.
pub const WRITE_HEADER_SIZE: usize = 18;

/// Hard bound on one whole write request buffer: header plus payload.
pub const MAX_WRITE_REQUEST_SIZE: usize = 512;

/// Size of an encoded open-process response: an 8-byte handle, a 1-byte flag,
/// and seven bytes of tail padding.
pub const OPEN_PROCESS_RESPONSE_SIZE: usize = 16;

/// Request record of the read-memory command.
pub struct ReadMemoryInput {
    pub processid: u64,
    pub startaddress: u64,
    pub bytestoread: u16,
}

impl ReadMemoryInput {
    /// The exact bytes of this record on the wire: little-endian fields in
    /// declaration order, then zeroed tail padding up to natural alignment.
    pub open spec fn spec_encode(self) -> Seq<u8> {
        spec_u64_to_le_bytes(self.processid) + spec_u64_to_le_bytes(self.startaddress)
            + spec_u16_to_le_bytes(self.bytestoread) + seq![0u8, 0u8, 0u8, 0u8, 0u8, 0u8]
    }

    /// Builds the transmit buffer of one read-memory request.
    pub fn encode(&self) -> (out: Vec<u8>)
        ensures
            out@ == self.spec_encode(),
            out@.len() == READ_REQUEST_SIZE,
    {
        proof {
            lemma_auto_spec_u64_to_from_le_bytes();
            lemma_auto_spec_u16_to_from_le_bytes();
        }
        let mut out = u64_to_le_bytes(self.processid);
        let mut addr = u64_to_le_bytes(self.startaddress);
        out.append(&mut addr);
        let mut count = u16_to_le_bytes(self.bytestoread);
        out.append(&mut count);
        out.push(0);
        out.push(0);
        out.push(0);
        out.push(0);
        out.push(0);
        out.push(0);
        proof {
            assert(out@ =~= self.spec_encode());
        }
        out
    }
}

/// Request record of the write-memory command. Byte-packed: the payload bytes
/// are appended immediately after these eighteen bytes.
pub struct WriteMemoryInput {
    pub processid: u64,
    pub startaddress: u64,
    pub bytestowrite: u16,
}

impl WriteMemoryInput {
    /// The exact bytes of this header on the wire: little-endian fields in
    /// declaration order, with no padding.
    pub open spec fn spec_encode(self) -> Seq<u8> {
        spec_u64_to_le_bytes(self.processid) + spec_u64_to_le_bytes(self.startaddress)
            + spec_u16_to_le_bytes(self.bytestowrite)
    }

    /// Builds the header part of one write-memory request.
    pub fn encode(&self) -> (out: Vec<u8>)
        ensures
            out@ == self.spec_encode(),
            out@.len() == WRITE_HEADER_SIZE,
    {
        proof {
            lemma_auto_spec_u64_to_from_le_bytes();
            lemma_auto_spec_u16_to_from_le_bytes();
        }
        let mut out = u64_to_le_bytes(self.processid);
        let mut addr = u64_to_le_bytes(self.startaddress);
        out.append(&mut addr);
        let mut count = u16_to_le_bytes(self.bytestowrite);
        out.append(&mut count);
        out
    }
}

/// The whole transmit buffer of one write-memory request: the packed header
/// followed by the payload bytes.
pub open spec fn spec_write_request_bytes(processid: u64, startaddress: u64, payload: Seq<u8>) -> Seq<u8> {
    WriteMemoryInput { processid, startaddress, bytestowrite: payload.len() as u16 }.spec_encode()
        + payload
}

/// Packs one write-memory request: header, then payload, in one buffer.
pub fn encode_write_request(processid: u64, startaddress: u64, payload: &[u8]) -> (out: Vec<u8>)
    requires
        payload@.len() <= u16::MAX,
    ensures
        out@ == spec_write_request_bytes(processid, startaddress, payload@),
        out@.len() == WRITE_HEADER_SIZE + payload@.len(),
{
    let header = WriteMemoryInput {
        processid,
        startaddress,
        bytestowrite: payload.len() as u16,
    };
    let mut out = header.encode();
    let mut i: usize = 0;
    while i < payload.len()
        invariant
            i <= payload@.len(),
            out@ == header.spec_encode() + payload@.subrange(0, i as int),
        decreases payload@.len() - i,
    {
        out.push(payload[i]);
        i = i + 1;
        proof {
            assert(payload@.subrange(0, i as int)
                =~= payload@.subrange(0, i as int - 1).push(payload@[i as int - 1]));
        }
    }
    proof {
        assert(payload@.subrange(0, payload@.len() as int) =~= payload@);
    }
    out
}

/// Response record of the open-process command.
#[derive(Clone, Copy, Debug, PartialEq, Eq, Structural)]
pub struct OpenProcessOutput {
    /// Opaque driver-side handle to the opened process; never dereferenced.
    pub processhandle: u64,
    /// Driver-specific flag byte accompanying the handle.
    pub special: u8,
}

impl OpenProcessOutput {
    /// Reads the record out of the driver's response buffer: a little-endian
    /// 8-byte handle, then the flag byte; the tail padding is ignored.
    pub fn decode(bytes: &Vec<u8>) -> (r: OpenProcessOutput)
        requires
            bytes@.len() == OPEN_PROCESS_RESPONSE_SIZE,
        ensures
            r.processhandle == spec_u64_from_le_bytes(bytes@.subrange(0, 8)),
            r.special == bytes@[8],
    {
        let handle_bytes = vstd::slice::slice_subrange(bytes.as_slice(), 0, 8);
        let processhandle = u64_from_le_bytes(handle_bytes);
        let special = bytes[8];
        OpenProcessOutput { processhandle, special }
    }
}

} // verus!

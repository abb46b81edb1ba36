//! The client proper: a driver session bound to one target process, with
//! chunked raw transfers, typed access, and the base-address heuristic.

use crate::chunking::MAX_READ_CHUNK;
use crate::chunking::MAX_WRITE_CHUNK;
use crate::codec::spec_write_request_bytes;
use crate::codec::encode_write_request;
use crate::codec::OpenProcessOutput;
use crate::codec::ReadMemoryInput;
use crate::codec::IOCTL_CE_GETPEPROCESS;
use crate::codec::IOCTL_CE_OPENPROCESS;
use crate::codec::IOCTL_CE_READMEMORY;
use crate::codec::IOCTL_CE_WRITEMEMORY;
use crate::codec::MAX_WRITE_REQUEST_SIZE;
use crate::codec::OPEN_PROCESS_RESPONSE_SIZE;
use crate::codec::WRITE_HEADER_SIZE;
use crate::device::Device;
use crate::text::nul_prefix;
use crate::text::string_from_utf8;
use crate::text::truncate_at_nul;
use crate::types::PlainData;
use crate::types::Pointer;
use crate::Error;
use vstd::bytes::*;
use vstd::prelude::*;
use vstd::utf8::decode_utf8;
use vstd::utf8::valid_utf8;

verus! {

/// The bytes of one read-memory request for `count` bytes at `addr`.
pub open spec fn spec_read_request(pid: u64, addr: u64, count: u16) -> Seq<u8> {
    ReadMemoryInput { processid: pid, startaddress: addr, bytestoread: count }.spec_encode()
}

/// What the chunked read of `len` bytes at `addr` does to a device and what
/// it yields: one read-memory request per chunk of at most
/// [`MAX_READ_CHUNK`] bytes, in ascending address order, stopping at the
/// first failure; on success, the chunk answers concatenated in order.
pub open spec fn spec_read_chunks<D: Device>(d: D, pid: u64, addr: int, len: nat) -> (D, Result<
    Seq<u8>,
    u32,
>)
    decreases len,
{
    if len == 0 {
        (d, Ok(Seq::empty()))
    } else {
        let chunk: nat = if len <= MAX_READ_CHUNK as nat {
            len
        } else {
            MAX_READ_CHUNK as nat
        };
        let input = spec_read_request(pid, addr as u64, chunk as u16);
        let d1 = d.post(IOCTL_CE_READMEMORY, input, chunk);
        match d.answer(IOCTL_CE_READMEMORY, input, chunk) {
            Err(e) => (d1, Err(e)),
            Ok(bytes) => {
                let (d2, rest) = spec_read_chunks(d1, pid, addr + chunk, (len - chunk) as nat);
                match rest {
                    Err(e) => (d2, Err(e)),
                    Ok(tail) => (d2, Ok(bytes + tail)),
                }
            },
        }
    }
}

/// What the chunked write of `data` at `addr` does to a device: one
/// write-memory request per chunk of at most [`MAX_WRITE_CHUNK`] payload
/// bytes, in ascending address order, stopping at the first failure.
pub open spec fn spec_write_chunks<D: Device>(d: D, pid: u64, addr: int, data: Seq<u8>) -> (D, Result<
    (),
    u32,
>)
    decreases data.len(),
{
    if data.len() == 0 {
        (d, Ok(()))
    } else {
        let chunk: nat = if data.len() <= MAX_WRITE_CHUNK as nat {
            data.len()
        } else {
            MAX_WRITE_CHUNK as nat
        };
        let input = spec_write_request_bytes(pid, addr as u64, data.take(chunk as int));
        let d1 = d.post(IOCTL_CE_WRITEMEMORY, input, 0);
        match d.answer(IOCTL_CE_WRITEMEMORY, input, 0) {
            Err(e) => (d1, Err(e)),
            Ok(_) => spec_write_chunks(d1, pid, addr + chunk, data.skip(chunk as int)),
        }
    }
}

/// The ordered offset table of the base-address heuristic: candidate
/// locations of the image base inside the OS's internal process object,
/// one per known OS-version layout, in priority order. The table is
/// version-dependent and deliberately kept verbatim.
pub open spec fn spec_base_offsets() -> Seq<u64> {
    seq![0x0520u64, 0x03C8u64, 0x03C0u64, 0x03B0u64, 0x0270u64, 0x01D0u64, 0x01F8u64]
}

/// The offset table, in the order the heuristic must try it.
pub fn section_base_address_offsets() -> (r: Vec<u64>)
    ensures
        r@ == spec_base_offsets(),
{
    let mut v: Vec<u64> = Vec::new();
    v.push(0x0520);
    v.push(0x03C8);
    v.push(0x03C0);
    v.push(0x03B0);
    v.push(0x0270);
    v.push(0x01D0);
    v.push(0x01F8);
    proof {
        assert(v@ =~= spec_base_offsets());
    }
    v
}

/// What the base-address search does to a device and what it finds: for each
/// offset in order, one 8-byte read at kernel object + offset (the sum wraps
/// like the machine's address arithmetic); the first value above zero wins;
/// a failed read, or a table walked to its end, resolves to nothing.
pub open spec fn spec_resolve_base<D: Device>(
    d: D,
    pid: u64,
    e_process: u64,
    offsets: Seq<u64>,
) -> (D, Option<u64>)
    decreases offsets.len(),
{
    if offsets.len() == 0 {
        (d, None)
    } else {
        let addr = vstd::wrapping::u64_specs::wrapping_add(e_process, offsets[0]);
        let input = spec_read_request(pid, addr, 8);
        let d1 = d.post(IOCTL_CE_READMEMORY, input, 8);
        match d.answer(IOCTL_CE_READMEMORY, input, 8) {
            Err(_) => (d1, None),
            Ok(bytes) => {
                let v = spec_u64_from_le_bytes(bytes);
                if v > 0 {
                    (d1, Some(v))
                } else {
                    spec_resolve_base(d1, pid, e_process, offsets.drop_first())
                }
            },
        }
    }
}

/// A session with the driver for one target process: the device channel and
/// the nonzero 64-bit process id the requests are issued for.
pub struct DBK64<D: Device> {
    /// The channel to the driver's device object.
    pub device: D,
    /// The target process id.
    pub process_id: u64,
}

impl<D: Device> DBK64<D> {
    /// Opens a session: binds the device to the process id and registers the
    /// process with the driver. A zero id (also one that truncates to zero in
    /// the 4-byte wire field) is rejected at once, without a device call.
    pub fn open(device: D, process_id: u64) -> (r: Result<DBK64<D>, Error>)
        ensures
            process_id as u32 == 0 ==> r == Err::<DBK64<D>, Error>(Error::ProcessNotFound),
            process_id as u32 != 0 ==> ({
                let input = spec_u32_to_le_bytes(process_id as u32);
                match (
                    r,
                    device.answer(IOCTL_CE_OPENPROCESS, input, OPEN_PROCESS_RESPONSE_SIZE as nat),
                ) {
                    (Ok(dbk), Ok(_)) => dbk.process_id == process_id && dbk.device == device.post(
                        IOCTL_CE_OPENPROCESS,
                        input,
                        OPEN_PROCESS_RESPONSE_SIZE as nat,
                    ),
                    (Err(e), Err(_)) => e == Error::ProcessNotFound,
                    _ => false,
                }
            }),
    {
        let mut dbk = DBK64 { device, process_id };
        match dbk.openprocess(process_id as u32) {
            Ok(_) => Ok(dbk),
            Err(e) => Err(e),
        }
    }

    /// Registers the target process with the driver. A zero id is rejected
    /// deterministically, before any device call; a driver-side refusal
    /// surfaces as [`Error::ProcessNotFound`].
    pub fn openprocess(&mut self, process_id: u32) -> (r: Result<OpenProcessOutput, Error>)
        ensures
            final(self).process_id == old(self).process_id,
            process_id == 0 ==> r == Err::<OpenProcessOutput, Error>(Error::ProcessNotFound)
                && *final(self) == *old(self),
            process_id != 0 ==> ({
                let input = spec_u32_to_le_bytes(process_id);
                &&& final(self).device == old(self).device.post(
                    IOCTL_CE_OPENPROCESS,
                    input,
                    OPEN_PROCESS_RESPONSE_SIZE as nat,
                )
                &&& match (
                    r,
                    old(self).device.answer(
                        IOCTL_CE_OPENPROCESS,
                        input,
                        OPEN_PROCESS_RESPONSE_SIZE as nat,
                    ),
                ) {
                    (Ok(out), Ok(bytes)) => out.processhandle == spec_u64_from_le_bytes(
                        bytes.subrange(0, 8),
                    ) && out.special == bytes[8],
                    (Err(e), Err(_)) => e == Error::ProcessNotFound,
                    _ => false,
                }
            }),
    {
        if process_id == 0 {
            return Err(Error::ProcessNotFound);
        }
        let input = u32_to_le_bytes(process_id);
        match self.device.control(IOCTL_CE_OPENPROCESS, &input, OPEN_PROCESS_RESPONSE_SIZE) {
            Ok(bytes) => Ok(OpenProcessOutput::decode(&bytes)),
            Err(_) => Err(Error::ProcessNotFound),
        }
    }

    /// Resolves the process id to the driver's opaque kernel object pointer.
    /// A driver-side refusal surfaces as [`Error::ProcessNotFound`].
    pub fn getpeprocess(&mut self, processid: u32) -> (r: Result<u64, Error>)
        ensures
            final(self).process_id == old(self).process_id,
            ({
                let input = spec_u32_to_le_bytes(processid);
                &&& final(self).device == old(self).device.post(IOCTL_CE_GETPEPROCESS, input, 8)
                &&& match (r, old(self).device.answer(IOCTL_CE_GETPEPROCESS, input, 8)) {
                    (Ok(v), Ok(bytes)) => v == spec_u64_from_le_bytes(bytes),
                    (Err(e), Err(_)) => e == Error::ProcessNotFound,
                    _ => false,
                }
            }),
    {
        let input = u32_to_le_bytes(processid);
        match self.device.control(IOCTL_CE_GETPEPROCESS, &input, 8) {
            Ok(bytes) => Ok(u64_from_le_bytes(bytes.as_slice())),
            Err(_) => Err(Error::ProcessNotFound),
        }
    }

    /// Issues one read-memory request: at most [`MAX_READ_CHUNK`] bytes in
    /// one device call. A larger length is a client-side defect and comes
    /// back as [`Error::SizeLimitExceeded`] without touching the device.
    pub fn readmemory(&mut self, processid: u64, startaddress: u64, length: usize) -> (r: Result<
        Vec<u8>,
        Error,
    >)
        ensures
            final(self).process_id == old(self).process_id,
            length > MAX_READ_CHUNK ==> r == Err::<Vec<u8>, Error>(Error::SizeLimitExceeded)
                && *final(self) == *old(self),
            length <= MAX_READ_CHUNK ==> ({
                let input = spec_read_request(processid, startaddress, length as u16);
                &&& final(self).device == old(self).device.post(
                    IOCTL_CE_READMEMORY,
                    input,
                    length as nat,
                )
                &&& match (r, old(self).device.answer(IOCTL_CE_READMEMORY, input, length as nat)) {
                    (Ok(v), Ok(bytes)) => v@ == bytes && v@.len() == length,
                    (Err(e), Err(c)) => e == Error::Ioctl(c),
                    _ => false,
                }
            }),
    {
        if length > MAX_READ_CHUNK {
            return Err(Error::SizeLimitExceeded);
        }
        let request = ReadMemoryInput {
            processid,
            startaddress,
            bytestoread: length as u16,
        };
        let input = request.encode();
        match self.device.control(IOCTL_CE_READMEMORY, &input, length) {
            Ok(bytes) => Ok(bytes),
            Err(code) => Err(Error::Ioctl(code)),
        }
    }

    /// Issues one write-memory request: the packed header and the payload in
    /// one transmit buffer of at most [`MAX_WRITE_REQUEST_SIZE`] bytes. A
    /// larger payload is a client-side defect and comes back as
    /// [`Error::SizeLimitExceeded`] without touching the device.
    pub fn writememory(&mut self, processid: u64, startaddress: u64, bytestowrite: &[u8]) -> (r:
        Result<(), Error>)
        ensures
            final(self).process_id == old(self).process_id,
            WRITE_HEADER_SIZE + bytestowrite@.len() > MAX_WRITE_REQUEST_SIZE ==> r == Err::<
                (),
                Error,
            >(Error::SizeLimitExceeded) && *final(self) == *old(self),
            WRITE_HEADER_SIZE + bytestowrite@.len() <= MAX_WRITE_REQUEST_SIZE ==> ({
                let input = spec_write_request_bytes(processid, startaddress, bytestowrite@);
                &&& final(self).device == old(self).device.post(IOCTL_CE_WRITEMEMORY, input, 0)
                &&& match (r, old(self).device.answer(IOCTL_CE_WRITEMEMORY, input, 0)) {
                    (Ok(_), Ok(_)) => true,
                    (Err(e), Err(c)) => e == Error::Ioctl(c),
                    _ => false,
                }
            }),
    {
        if bytestowrite.len() > MAX_WRITE_REQUEST_SIZE - WRITE_HEADER_SIZE {
            return Err(Error::SizeLimitExceeded);
        }
        let input = encode_write_request(processid, startaddress, bytestowrite);
        match self.device.control(IOCTL_CE_WRITEMEMORY, &input, 0) {
            Ok(_) => Ok(()),
            Err(code) => Err(Error::Ioctl(code)),
        }
    }

    /// Reads `length` bytes at `address` out of the target process, splitting
    /// the transfer into driver-legal chunks in ascending address order. No
    /// partial result: a mid-sequence failure returns the error alone.
    #[verifier::loop_isolation(false)]
    pub fn read_raw(&mut self, address: u64, length: usize) -> (r: Result<Vec<u8>, Error>)
        requires
            address as int + length as int <= u64::MAX as int + 1,
        ensures
            final(self).process_id == old(self).process_id,
            ({
                let (d2, res) = spec_read_chunks(
                    old(self).device,
                    old(self).process_id,
                    address as int,
                    length as nat,
                );
                &&& final(self).device == d2
                &&& match (r, res) {
                    (Ok(v), Ok(bytes)) => v@ == bytes && v@.len() == length,
                    (Err(e), Err(c)) => e == Error::Ioctl(c),
                    _ => false,
                }
            }),
    {
        let pid = self.process_id;
        let ghost d0 = self.device;
        let mut out: Vec<u8> = Vec::new();
        let mut done: usize = 0;
        proof {
            let (d2, rest) = spec_read_chunks(d0, pid, address as int, length as nat);
            if rest is Ok {
                assert(Seq::<u8>::empty() + rest->Ok_0 =~= rest->Ok_0);
            }
        }
        while done < length
            invariant
                done <= length,
                self.process_id == pid,
                address as int + length as int <= u64::MAX as int + 1,
                out@.len() == done,
                spec_read_chunks(d0, pid, address as int, length as nat) == ({
                    let (d2, rest) = spec_read_chunks(
                        self.device,
                        pid,
                        address as int + done,
                        (length - done) as nat,
                    );
                    (
                        d2,
                        match rest {
                            Ok(t) => Ok::<Seq<u8>, u32>(out@ + t),
                            Err(e) => Err::<Seq<u8>, u32>(e),
                        },
                    )
                }),
            decreases length - done,
        {
            let remaining = length - done;
            let chunk = if remaining <= MAX_READ_CHUNK {
                remaining
            } else {
                MAX_READ_CHUNK
            };
            let chunk_addr = address + done as u64;
            let ghost dpre = self.device;
            match self.readmemory(pid, chunk_addr, chunk) {
                Err(e) => {
                    proof {
                        assert(spec_read_chunks(dpre, pid, address as int + done, (length
                            - done) as nat) == (
                            dpre.post(
                                IOCTL_CE_READMEMORY,
                                spec_read_request(pid, chunk_addr, chunk as u16),
                                chunk as nat,
                            ),
                            Err::<Seq<u8>, u32>(
                                dpre.answer(
                                    IOCTL_CE_READMEMORY,
                                    spec_read_request(pid, chunk_addr, chunk as u16),
                                    chunk as nat,
                                )->Err_0,
                            ),
                        ));
                    }
                    return Err(e);
                },
                Ok(mut v) => {
                    proof {
                        let input = spec_read_request(pid, chunk_addr, chunk as u16);
                        let d1 = dpre.post(IOCTL_CE_READMEMORY, input, chunk as nat);
                        assert(spec_read_chunks(dpre, pid, address as int + done, (length
                            - done) as nat) == ({
                            let (d2, rest) = spec_read_chunks(
                                d1,
                                pid,
                                address as int + done + chunk,
                                (length - done - chunk) as nat,
                            );
                            (
                                d2,
                                match rest {
                                    Ok(t) => Ok::<Seq<u8>, u32>(v@ + t),
                                    Err(e) => Err::<Seq<u8>, u32>(e),
                                },
                            )
                        }));
                    }
                    let ghost v_pre = v@;
                    let ghost out_pre = out@;
                    out.append(&mut v);
                    done = done + chunk;
                    proof {
                        let (d2, rest) = spec_read_chunks(
                            self.device,
                            pid,
                            address as int + done,
                            (length - done) as nat,
                        );
                        if rest is Ok {
                            assert(out@ + rest->Ok_0 =~= out_pre + (v_pre + rest->Ok_0));
                        }
                    }
                },
            }
        }
        proof {
            let (d2, rest) = spec_read_chunks(self.device, pid, address as int + done, 0);
            assert(rest == Ok::<Seq<u8>, u32>(Seq::<u8>::empty()));
            assert(out@ + Seq::<u8>::empty() =~= out@);
        }
        Ok(out)
    }

    /// Fills `buffer` with `buffer.len()` bytes read at `address`. On
    /// failure the error is returned alone and `buffer` keeps its old
    /// contents: no partial result.
    pub fn read_raw_into(&mut self, address: u64, buffer: &mut Vec<u8>) -> (r: Result<(), Error>)
        requires
            address as int + old(buffer)@.len() <= u64::MAX as int + 1,
        ensures
            final(self).process_id == old(self).process_id,
            ({
                let (d2, res) = spec_read_chunks(
                    old(self).device,
                    old(self).process_id,
                    address as int,
                    old(buffer)@.len(),
                );
                &&& final(self).device == d2
                &&& match (r, res) {
                    (Ok(_), Ok(bytes)) => final(buffer)@ == bytes,
                    (Err(e), Err(c)) => e == Error::Ioctl(c) && final(buffer)@ == old(buffer)@,
                    _ => false,
                }
            }),
    {
        let len = buffer.len();
        match self.read_raw(address, len) {
            Ok(v) => {
                *buffer = v;
                Ok(())
            },
            Err(e) => Err(e),
        }
    }

    /// Reads one plain-data `T` at `address`. The value is handed out only
    /// when the whole raw read succeeded; on failure the caller gets the
    /// error alone, never a partially filled value.
    pub fn read<T: PlainData>(&mut self, address: u64) -> (r: Result<T, Error>)
        requires
            address as int + T::size_spec() <= u64::MAX as int + 1,
        ensures
            final(self).process_id == old(self).process_id,
            ({
                let (d2, res) = spec_read_chunks(
                    old(self).device,
                    old(self).process_id,
                    address as int,
                    T::size_spec(),
                );
                &&& final(self).device == d2
                &&& match (r, res) {
                    (Ok(t), Ok(bytes)) => t.bytes_spec() == bytes,
                    (Err(e), Err(c)) => e == Error::Ioctl(c),
                    _ => false,
                }
            }),
    {
        let n = T::byte_size();
        match self.read_raw(address, n) {
            Ok(bytes) => Ok(T::decode(&bytes)),
            Err(e) => Err(e),
        }
    }

    /// Reads one plain-data `T` at `address` into `out`. On failure `out`
    /// keeps its old value: no partially written result.
    pub fn read_into<T: PlainData>(&mut self, address: u64, out: &mut T) -> (r: Result<(), Error>)
        requires
            address as int + T::size_spec() <= u64::MAX as int + 1,
        ensures
            final(self).process_id == old(self).process_id,
            ({
                let (d2, res) = spec_read_chunks(
                    old(self).device,
                    old(self).process_id,
                    address as int,
                    T::size_spec(),
                );
                &&& final(self).device == d2
                &&& match (r, res) {
                    (Ok(_), Ok(bytes)) => final(out).bytes_spec() == bytes,
                    (Err(e), Err(c)) => e == Error::Ioctl(c) && *final(out) == *old(out),
                    _ => false,
                }
            }),
    {
        match self.read::<T>(address) {
            Ok(v) => {
                *out = v;
                Ok(())
            },
            Err(e) => Err(e),
        }
    }

    /// Reads the `T` a typed remote pointer refers to.
    pub fn read_pointer<T: PlainData>(&mut self, pointer: Pointer<T>) -> (r: Result<T, Error>)
        requires
            pointer.inner as int + T::size_spec() <= u64::MAX as int + 1,
        ensures
            final(self).process_id == old(self).process_id,
            ({
                let (d2, res) = spec_read_chunks(
                    old(self).device,
                    old(self).process_id,
                    pointer.inner as int,
                    T::size_spec(),
                );
                &&& final(self).device == d2
                &&& match (r, res) {
                    (Ok(t), Ok(bytes)) => t.bytes_spec() == bytes,
                    (Err(e), Err(c)) => e == Error::Ioctl(c),
                    _ => false,
                }
            }),
    {
        self.read::<T>(pointer.inner)
    }

    /// Reads the `T` a typed remote pointer refers to into `out`; on failure
    /// `out` keeps its old value.
    pub fn read_pointer_into<T: PlainData>(&mut self, pointer: Pointer<T>, out: &mut T) -> (r:
        Result<(), Error>)
        requires
            pointer.inner as int + T::size_spec() <= u64::MAX as int + 1,
        ensures
            final(self).process_id == old(self).process_id,
            ({
                let (d2, res) = spec_read_chunks(
                    old(self).device,
                    old(self).process_id,
                    pointer.inner as int,
                    T::size_spec(),
                );
                &&& final(self).device == d2
                &&& match (r, res) {
                    (Ok(_), Ok(bytes)) => final(out).bytes_spec() == bytes,
                    (Err(e), Err(c)) => e == Error::Ioctl(c) && *final(out) == *old(out),
                    _ => false,
                }
            }),
    {
        self.read_into::<T>(pointer.inner, out)
    }

    /// Reads up to `max_length` bytes at `address`, truncates at the first
    /// zero byte, and decodes the rest strictly as UTF-8: invalid bytes are
    /// an error, never substituted.
    pub fn read_utf8(&mut self, address: u64, max_length: usize) -> (r: Result<String, Error>)
        requires
            address as int + max_length as int <= u64::MAX as int + 1,
        ensures
            final(self).process_id == old(self).process_id,
            ({
                let (d2, res) = spec_read_chunks(
                    old(self).device,
                    old(self).process_id,
                    address as int,
                    max_length as nat,
                );
                &&& final(self).device == d2
                &&& match (r, res) {
                    (Ok(s), Ok(bytes)) => valid_utf8(nul_prefix(bytes)) && s@ == decode_utf8(
                        nul_prefix(bytes),
                    ),
                    (Err(e), Ok(bytes)) => e == Error::Utf8Decode && !valid_utf8(nul_prefix(bytes)),
                    (Err(e), Err(c)) => e == Error::Ioctl(c),
                    _ => false,
                }
            }),
    {
        match self.read_raw(address, max_length) {
            Ok(buffer) => {
                let text = truncate_at_nul(&buffer);
                string_from_utf8(text)
            },
            Err(e) => Err(e),
        }
    }

    /// Writes `data` at `address` in the target process, splitting the
    /// transfer into driver-legal chunks in ascending address order. Chunks
    /// already sent before a mid-sequence failure are not rolled back.
    #[verifier::loop_isolation(false)]
    pub fn write_raw(&mut self, address: u64, data: &[u8]) -> (r: Result<(), Error>)
        requires
            address as int + data@.len() <= u64::MAX as int + 1,
        ensures
            final(self).process_id == old(self).process_id,
            ({
                let (d2, res) = spec_write_chunks(
                    old(self).device,
                    old(self).process_id,
                    address as int,
                    data@,
                );
                &&& final(self).device == d2
                &&& match (r, res) {
                    (Ok(_), Ok(_)) => true,
                    (Err(e), Err(c)) => e == Error::Ioctl(c),
                    _ => false,
                }
            }),
    {
        let pid = self.process_id;
        let ghost d0 = self.device;
        let mut done: usize = 0;
        proof {
            assert(data@.skip(0) =~= data@);
        }
        while done < data.len()
            invariant
                done <= data@.len(),
                self.process_id == pid,
                address as int + data@.len() <= u64::MAX as int + 1,
                spec_write_chunks(d0, pid, address as int, data@) == spec_write_chunks(
                    self.device,
                    pid,
                    address as int + done,
                    data@.skip(done as int),
                ),
            decreases data@.len() - done,
        {
            let remaining = data.len() - done;
            let chunk = if remaining <= MAX_WRITE_CHUNK {
                remaining
            } else {
                MAX_WRITE_CHUNK
            };
            let chunk_addr = address + done as u64;
            let piece = vstd::slice::slice_subrange(data, done, done + chunk);
            let ghost dpre = self.device;
            proof {
                assert(data@.skip(done as int).take(chunk as int) =~= piece@);
            }
            match self.writememory(pid, chunk_addr, piece) {
                Err(e) => {
                    proof {
                        let rest = data@.skip(done as int);
                        assert(spec_write_chunks(dpre, pid, address as int + done, rest).1
                            is Err);
                    }
                    return Err(e);
                },
                Ok(_) => {
                    proof {
                        let rest = data@.skip(done as int);
                        assert(rest.skip(chunk as int) =~= data@.skip(done as int + chunk as int));
                    }
                    done = done + chunk;
                },
            }
        }
        proof {
            assert(data@.skip(done as int) =~= Seq::<u8>::empty());
        }
        Ok(())
    }

    /// Writes the exact byte image of one plain-data `T` at `address`.
    pub fn write<T: PlainData>(&mut self, address: u64, data: &T) -> (r: Result<(), Error>)
        requires
            address as int + T::size_spec() <= u64::MAX as int + 1,
        ensures
            final(self).process_id == old(self).process_id,
            ({
                let (d2, res) = spec_write_chunks(
                    old(self).device,
                    old(self).process_id,
                    address as int,
                    data.bytes_spec(),
                );
                &&& final(self).device == d2
                &&& match (r, res) {
                    (Ok(_), Ok(_)) => true,
                    (Err(e), Err(c)) => e == Error::Ioctl(c),
                    _ => false,
                }
            }),
    {
        proof {
            data.lemma_bytes_len();
        }
        let bytes = data.encode();
        self.write_raw(address, bytes.as_slice())
    }

    /// Writes the byte image of `data` where a typed remote pointer refers.
    pub fn write_pointer<T: PlainData>(&mut self, pointer: Pointer<T>, data: &T) -> (r: Result<
        (),
        Error,
    >)
        requires
            pointer.inner as int + T::size_spec() <= u64::MAX as int + 1,
        ensures
            final(self).process_id == old(self).process_id,
            ({
                let (d2, res) = spec_write_chunks(
                    old(self).device,
                    old(self).process_id,
                    pointer.inner as int,
                    data.bytes_spec(),
                );
                &&& final(self).device == d2
                &&& match (r, res) {
                    (Ok(_), Ok(_)) => true,
                    (Err(e), Err(c)) => e == Error::Ioctl(c),
                    _ => false,
                }
            }),
    {
        self.write::<T>(pointer.inner, data)
    }

    /// The base-address heuristic: resolves the kernel object pointer, then
    /// tries the offset table in priority order with one 8-byte read each,
    /// returning the first value above zero. "Not found" — the pointer could
    /// not be resolved, a read failed, or every candidate was zero — is a
    /// normal empty result, not an error.
    #[verifier::loop_isolation(false)]
    pub fn get_base_address(&mut self) -> (r: Option<u64>)
        ensures
            final(self).process_id == old(self).process_id,
            ({
                let pid32 = old(self).process_id as u32;
                let input = spec_u32_to_le_bytes(pid32);
                let d1 = old(self).device.post(IOCTL_CE_GETPEPROCESS, input, 8);
                match old(self).device.answer(IOCTL_CE_GETPEPROCESS, input, 8) {
                    Err(_) => final(self).device == d1 && r is None,
                    Ok(bytes) => ({
                        let (d2, res) = spec_resolve_base(
                            d1,
                            old(self).process_id,
                            spec_u64_from_le_bytes(bytes),
                            spec_base_offsets(),
                        );
                        final(self).device == d2 && r == res
                    }),
                }
            }),
    {
        let pid = self.process_id;
        let e_process = match self.getpeprocess(pid as u32) {
            Ok(v) => v,
            Err(_) => {
                return None;
            },
        };
        let offsets = section_base_address_offsets();
        let ghost d_start = self.device;
        let mut i: usize = 0;
        proof {
            assert(spec_base_offsets().skip(0) =~= spec_base_offsets());
        }
        while i < offsets.len()
            invariant
                i <= offsets@.len(),
                offsets@ == spec_base_offsets(),
                self.process_id == pid,
                spec_resolve_base(d_start, pid, e_process, spec_base_offsets())
                    == spec_resolve_base(
                    self.device,
                    pid,
                    e_process,
                    spec_base_offsets().skip(i as int),
                ),
            decreases offsets@.len() - i,
        {
            let off = offsets[i];
            let addr = e_process.wrapping_add(off);
            let ghost dpre = self.device;
            proof {
                assert(spec_base_offsets().skip(i as int)[0] == spec_base_offsets()[i as int]);
            }
            match self.readmemory(pid, addr, 8) {
                Err(_) => {
                    return None;
                },
                Ok(bytes) => {
                    let value = u64_from_le_bytes(bytes.as_slice());
                    if value > 0 {
                        return Some(value);
                    }
                    proof {
                        assert(spec_base_offsets().skip(i as int).drop_first()
                            =~= spec_base_offsets().skip(i as int + 1));
                    }
                    i = i + 1;
                },
            }
        }
        proof {
            assert(spec_base_offsets().skip(i as int).len() == 0);
        }
        None
    }
}

} // verus!

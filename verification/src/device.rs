//! The device channel interface, and a scripted in-memory device for tests.
//!
//! The driver's device object is an external collaborator: this crate only
//! states the interface to it. A device is a deterministic responder, modelled
//! by two spec functions: `answer` says what one control request returns, and
//! `post` says what state the device is in afterwards. Everything the client
//! proves holds for every implementation that meets [`Device::control`]'s
//! contract.

use vstd::prelude::*;

verus! {

/// OS error code the scripted device answers with once its script is spent.
pub const MOCK_SCRIPT_EXHAUSTED: u32 = 31;

/// OS error code the scripted device answers with when a request buffer is
/// larger than the driver's bound allows.
pub const MOCK_REQUEST_TOO_LARGE: u32 = 87;

/// A synchronous, blocking channel to the driver's device object.
///
/// `post` and `answer` are the implementation's own model of itself; the one
/// obligation is that `control` behaves as the two describe.
pub trait Device: Sized {
    /// The device state after it has handled one control request. An
    /// implementation that does not model itself leaves the default, about
    /// which nothing is known.
    open spec fn post(&self, code: u32, input: Seq<u8>, output_len: nat) -> Self {
        vstd::pervasive::arbitrary()
    }

    /// What one control request returns: `output_len` output bytes, or an
    /// OS error code. An implementation that does not model itself leaves
    /// the default, about which nothing is known.
    open spec fn answer(&self, code: u32, input: Seq<u8>, output_len: nat) -> Result<Seq<u8>, u32> {
        vstd::pervasive::arbitrary()
    }

    /// Issues one device control call and blocks until the device answers.
    /// The driver enforces all request-level length validation on its side.
    fn control(&mut self, code: u32, input: &Vec<u8>, output_len: usize) -> (r: Result<
        Vec<u8>,
        u32,
    >)
        ensures
            *final(self) == old(self).post(code, input@, output_len as nat),
            match r {
                Ok(out) => old(self).answer(code, input@, output_len as nat)
                    == Ok::<Seq<u8>, u32>(out@) && out@.len() == output_len as nat,
                Err(e) => old(self).answer(code, input@, output_len as nat)
                    == Err::<Seq<u8>, u32>(e),
            },
    ;
}

/// The first `len` bytes of `bytes`, zero-filled past its end: how a driver's
/// staging buffer of size `len` comes back to the caller.
pub open spec fn fit_to_len(bytes: Seq<u8>, len: nat) -> Seq<u8> {
    Seq::new(len, |i: int| if i < bytes.len() { bytes[i] } else { 0u8 })
}

/// An in-memory device that answers control requests from a fixed script,
/// in order. It stands in for the driver in tests: response `i` of the
/// script answers the `i`-th request.
pub struct MockDevice {
    /// The scripted answers: output bytes (fitted to the requested output
    /// size) or an OS error code, one per expected request.
    pub responses: Vec<Result<Vec<u8>, u32>>,
    /// How many control requests the device has answered so far.
    pub served: u64,
}

impl MockDevice {
    /// A device that will answer with the given script.
    pub fn new(responses: Vec<Result<Vec<u8>, u32>>) -> (r: MockDevice)
        ensures
            r.responses == responses,
            r.served == 0u64,
    {
        MockDevice { responses, served: 0 }
    }
}

impl Device for MockDevice {
    /// Answering a request consumes one script entry.
    open spec fn post(&self, code: u32, input: Seq<u8>, output_len: nat) -> MockDevice {
        MockDevice {
            responses: self.responses,
            served: vstd::wrapping::u64_specs::wrapping_add(self.served, 1),
        }
    }

    /// The next scripted answer: an error once the script is spent, an error
    /// for a request buffer over the driver's bound, else the scripted entry
    /// fitted to the requested output size.
    open spec fn answer(&self, code: u32, input: Seq<u8>, output_len: nat) -> Result<Seq<u8>, u32> {
        if input.len() > crate::codec::MAX_WRITE_REQUEST_SIZE {
            Err(MOCK_REQUEST_TOO_LARGE)
        } else if self.served < self.responses@.len() {
            match self.responses@[self.served as int] {
                Ok(bytes) => Ok(fit_to_len(bytes@, output_len)),
                Err(code) => Err(code),
            }
        } else {
            Err(MOCK_SCRIPT_EXHAUSTED)
        }
    }

    #[verifier::loop_isolation(false)]
    fn control(&mut self, code: u32, input: &Vec<u8>, output_len: usize) -> (r: Result<
        Vec<u8>,
        u32,
    >) {
        let idx = self.served;
        self.served = self.served.wrapping_add(1);
        if input.len() > crate::codec::MAX_WRITE_REQUEST_SIZE {
            return Err(MOCK_REQUEST_TOO_LARGE);
        }
        if idx >= self.responses.len() as u64 {
            return Err(MOCK_SCRIPT_EXHAUSTED);
        }
        match &self.responses[idx as usize] {
            Err(code) => Err(*code),
            Ok(bytes) => {
                let mut out: Vec<u8> = Vec::new();
                let mut i: usize = 0;
                proof {
                    assert(out@ =~= fit_to_len(bytes@, 0));
                }
                while i < output_len
                    invariant
                        i <= output_len,
                        out@ == fit_to_len(bytes@, i as nat),
                    decreases output_len - i,
                {
                    if i < bytes.len() {
                        out.push(bytes[i]);
                    } else {
                        out.push(0);
                    }
                    i = i + 1;
                    proof {
                        assert(out@ =~= fit_to_len(bytes@, i as nat));
                    }
                }
                Ok(out)
            },
        }
    }
}

} // verus!

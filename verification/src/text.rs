//! Text marshalling: zero-terminated buffers read out of a target process,
//! decoded strictly as UTF-8 (no lossy fallback).

use crate::Error;
use vstd::prelude::*;
use vstd::utf8::decode_utf8;
use vstd::utf8::valid_utf8;

verus! {

/// The prefix of `bytes` before its first zero byte; all of `bytes` when no
/// zero occurs.
pub open spec fn nul_prefix(bytes: Seq<u8>) -> Seq<u8> {
    match bytes.index_of_first(0u8) {
        Some(i) => bytes.take(i),
        None => bytes,
    }
}

/// Cuts a buffer at its first zero byte: what remains is the prefix before
/// the terminator, or the whole buffer when none occurs.
pub fn truncate_at_nul(buffer: &Vec<u8>) -> (out: Vec<u8>)
    ensures
        out@ == nul_prefix(buffer@),
{
    let mut out: Vec<u8> = Vec::new();
    let mut i: usize = 0;
    while i < buffer.len()
        invariant
            i <= buffer@.len(),
            out@ == buffer@.take(i as int),
            forall|j: int| 0 <= j < i ==> buffer@[j] != 0u8,
        decreases buffer@.len() - i,
    {
        let b = buffer[i];
        if b == 0 {
            proof {
                buffer@.index_of_first_ensures(0u8);
                match buffer@.index_of_first(0u8) {
                    Some(k) => {
                        assert(!(k < i as int));
                        assert(!(k > i as int)) by {
                            if k > i as int {
                                assert(buffer@[i as int] != 0u8);
                            }
                        }
                    },
                    None => {
                        assert(buffer@[i as int] != 0u8);
                    },
                }
                assert(out@ == nul_prefix(buffer@));
            }
            return out;
        }
        out.push(b);
        i = i + 1;
        proof {
            assert(out@ =~= buffer@.take(i as int));
        }
    }
    proof {
        buffer@.index_of_first_ensures(0u8);
        match buffer@.index_of_first(0u8) {
            Some(k) => {
                assert(buffer@[k] != 0u8);
            },
            None => {
            },
        }
        assert(out@ =~= buffer@);
    }
    out
}

/// Relies on `String::from_utf8`: it returns the string decoded from the
/// bytes exactly when they are valid UTF-8, and rejects them otherwise.
#[verifier::external_body]
pub(crate) fn string_from_utf8(bytes: Vec<u8>) -> (r: Result<String, Error>)
    ensures
        match r {
            Ok(s) => valid_utf8(bytes@) && s@ == decode_utf8(bytes@),
            Err(e) => !valid_utf8(bytes@) && e == Error::Utf8Decode,
        },
{
    match String::from_utf8(bytes) {
        Ok(s) => Ok(s),
        Err(_) => Err(Error::Utf8Decode),
    }
}

} // verus!

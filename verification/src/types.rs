//! Value types of the client: the phantom-typed remote pointer, and the
//! plain-data marshalling interface typed access is built on.

use core::marker::PhantomData;
use vstd::bytes::*;
use vstd::prelude::*;

verus! {

/// An opaque 64-bit address in the target process, tagged with the logical
/// type stored there. The tag exists only to pick the right marshalling size;
/// the pointer carries no ownership and is never dereferenced locally.
#[derive(Debug, Hash, PartialEq, Eq, PartialOrd, Ord)]
pub struct Pointer<T> {
    /// The raw remote address.
    pub inner: u64,
    /// Compile-time-only tag; no runtime content.
    pub phantom_data: PhantomData<T>,
}

impl<T> Clone for Pointer<T> {
    /// A pointer clones to the same address and tag.
    fn clone(&self) -> (r: Pointer<T>)
        ensures
            r == *self,
    {
        Pointer { inner: self.inner, phantom_data: PhantomData }
    }
}

impl<T> Pointer<T> {
    /// Tags a raw remote address.
    pub fn new(address: u64) -> (r: Pointer<T>)
        ensures
            r.inner == address,
    {
        Pointer { inner: address, phantom_data: PhantomData }
    }
}

impl<T> From<u64> for Pointer<T> {
    fn from(address: u64) -> (r: Pointer<T>)
        ensures
            r.inner == address,
    {
        Pointer { inner: address, phantom_data: PhantomData }
    }
}

impl<T> vstd::std_specs::convert::FromSpecImpl<u64> for Pointer<T> {
    open spec fn obeys_from_spec() -> bool {
        true
    }

    open spec fn from_spec(address: u64) -> Pointer<T> {
        Pointer { inner: address, phantom_data: PhantomData }
    }
}

/// A plain-data value: its little-endian byte image alone carries its whole
/// state, so it can be moved to and from target memory byte for byte.
pub trait PlainData: Sized {
    /// The width of the byte image.
    spec fn size_spec() -> nat;

    /// The little-endian byte image of this value.
    spec fn bytes_spec(&self) -> Seq<u8>;

    /// The byte image always has the declared width, which is positive.
    proof fn lemma_bytes_len(&self)
        ensures
            self.bytes_spec().len() == Self::size_spec(),
            Self::size_spec() > 0,
    ;

    /// Two values with the same byte image are the same value.
    proof fn lemma_bytes_injective(&self, other: &Self)
        requires
            self.bytes_spec() == other.bytes_spec(),
        ensures
            self == other,
    ;

    /// The width of the byte image, as a buffer size.
    fn byte_size() -> (n: usize)
        ensures
            n as nat == Self::size_spec(),
            n > 0,
    ;

    /// Marshals the value into its byte image.
    fn encode(&self) -> (out: Vec<u8>)
        ensures
            out@ == self.bytes_spec(),
    ;

    /// Unmarshals a value from its byte image.
    fn decode(bytes: &Vec<u8>) -> (r: Self)
        requires
            bytes@.len() == Self::size_spec(),
        ensures
            r.bytes_spec() == bytes@,
    ;
}

impl PlainData for u8 {
    open spec fn size_spec() -> nat {
        1
    }

    open spec fn bytes_spec(&self) -> Seq<u8> {
        seq![*self]
    }

    proof fn lemma_bytes_len(&self) {
    }

    proof fn lemma_bytes_injective(&self, other: &u8) {
        assert(*self == self.bytes_spec()[0]);
        assert(*other == other.bytes_spec()[0]);
    }

    fn byte_size() -> (n: usize) {
        1
    }

    fn encode(&self) -> (out: Vec<u8>) {
        let mut out: Vec<u8> = Vec::new();
        out.push(*self);
        proof {
            assert(out@ =~= self.bytes_spec());
        }
        out
    }

    fn decode(bytes: &Vec<u8>) -> (r: u8) {
        let r = bytes[0];
        proof {
            assert(r.bytes_spec() =~= bytes@);
        }
        r
    }
}

impl PlainData for u16 {
    open spec fn size_spec() -> nat {
        2
    }

    open spec fn bytes_spec(&self) -> Seq<u8> {
        spec_u16_to_le_bytes(*self)
    }

    proof fn lemma_bytes_len(&self) {
        lemma_auto_spec_u16_to_from_le_bytes();
    }

    proof fn lemma_bytes_injective(&self, other: &u16) {
        lemma_auto_spec_u16_to_from_le_bytes();
        assert(spec_u16_to_le_bytes(*self).len() == 2);
        assert(spec_u16_to_le_bytes(*other).len() == 2);
        assert(*self == spec_u16_from_le_bytes(spec_u16_to_le_bytes(*self)));
        assert(*other == spec_u16_from_le_bytes(spec_u16_to_le_bytes(*other)));
    }

    fn byte_size() -> (n: usize) {
        2
    }

    fn encode(&self) -> (out: Vec<u8>) {
        u16_to_le_bytes(*self)
    }

    fn decode(bytes: &Vec<u8>) -> (r: u16) {
        proof {
            lemma_auto_spec_u16_to_from_le_bytes();
        }
        u16_from_le_bytes(bytes.as_slice())
    }
}

impl PlainData for u32 {
    open spec fn size_spec() -> nat {
        4
    }

    open spec fn bytes_spec(&self) -> Seq<u8> {
        spec_u32_to_le_bytes(*self)
    }

    proof fn lemma_bytes_len(&self) {
        lemma_auto_spec_u32_to_from_le_bytes();
    }

    proof fn lemma_bytes_injective(&self, other: &u32) {
        lemma_auto_spec_u32_to_from_le_bytes();
        assert(spec_u32_to_le_bytes(*self).len() == 4);
        assert(spec_u32_to_le_bytes(*other).len() == 4);
        assert(*self == spec_u32_from_le_bytes(spec_u32_to_le_bytes(*self)));
        assert(*other == spec_u32_from_le_bytes(spec_u32_to_le_bytes(*other)));
    }

    fn byte_size() -> (n: usize) {
        4
    }

    fn encode(&self) -> (out: Vec<u8>) {
        u32_to_le_bytes(*self)
    }

    fn decode(bytes: &Vec<u8>) -> (r: u32) {
        proof {
            lemma_auto_spec_u32_to_from_le_bytes();
        }
        u32_from_le_bytes(bytes.as_slice())
    }
}

impl PlainData for u64 {
    open spec fn size_spec() -> nat {
        8
    }

    open spec fn bytes_spec(&self) -> Seq<u8> {
        spec_u64_to_le_bytes(*self)
    }

    proof fn lemma_bytes_len(&self) {
        lemma_auto_spec_u64_to_from_le_bytes();
    }

    proof fn lemma_bytes_injective(&self, other: &u64) {
        lemma_auto_spec_u64_to_from_le_bytes();
        assert(spec_u64_to_le_bytes(*self).len() == 8);
        assert(spec_u64_to_le_bytes(*other).len() == 8);
        assert(*self == spec_u64_from_le_bytes(spec_u64_to_le_bytes(*self)));
        assert(*other == spec_u64_from_le_bytes(spec_u64_to_le_bytes(*other)));
    }

    fn byte_size() -> (n: usize) {
        8
    }

    fn encode(&self) -> (out: Vec<u8>) {
        u64_to_le_bytes(*self)
    }

    fn decode(bytes: &Vec<u8>) -> (r: u64) {
        proof {
            lemma_auto_spec_u64_to_from_le_bytes();
        }
        u64_from_le_bytes(bytes.as_slice())
    }
}

impl<T> PlainData for Pointer<T> {
    open spec fn size_spec() -> nat {
        8
    }

    open spec fn bytes_spec(&self) -> Seq<u8> {
        spec_u64_to_le_bytes(self.inner)
    }

    proof fn lemma_bytes_len(&self) {
        lemma_auto_spec_u64_to_from_le_bytes();
    }

    proof fn lemma_bytes_injective(&self, other: &Pointer<T>) {
        lemma_auto_spec_u64_to_from_le_bytes();
        assert(spec_u64_to_le_bytes(self.inner).len() == 8);
        assert(spec_u64_to_le_bytes(other.inner).len() == 8);
        assert(self.inner == spec_u64_from_le_bytes(spec_u64_to_le_bytes(self.inner)));
        assert(other.inner == spec_u64_from_le_bytes(spec_u64_to_le_bytes(other.inner)));
    }

    fn byte_size() -> (n: usize) {
        8
    }

    fn encode(&self) -> (out: Vec<u8>) {
        u64_to_le_bytes(self.inner)
    }

    fn decode(bytes: &Vec<u8>) -> (r: Pointer<T>) {
        proof {
            lemma_auto_spec_u64_to_from_le_bytes();
        }
        Pointer::new(u64_from_le_bytes(bytes.as_slice()))
    }
}

} // verus!

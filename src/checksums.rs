//! Byte buffers carried together with their CRC-32C checksum.
use vstd::prelude::*;

verus! {

/// The CRC-32C (Castagnoli) checksum of a byte string.
pub uninterp spec fn crc32c_of(data: Seq<u8>) -> u32;

/// Relies on crc32c::crc32c: the CRC-32C checksum of `data`.
#[verifier::external_body]
fn crc32c(data: &[u8]) -> (r: u32)
    ensures
        r == crc32c_of(data@),
{
    crc32c::crc32c(data)
}

/// A buffer whose stored checksum does not match its content.
#[derive(Clone, Copy, Debug, PartialEq, Eq)]
pub enum IntegrityError {
    /// The stored checksum, then the one computed from the content.
    ChecksumMismatch(u32, u32),
}

/// Bytes paired with a checksum over them.
#[derive(Clone, Debug, PartialEq, Eq)]
pub struct ChecksummedBytes {
    data: Vec<u8>,
    checksum: u32,
}

impl ChecksummedBytes {
    pub closed spec fn data_view(&self) -> Seq<u8> {
        self.data@
    }

    pub closed spec fn checksum_view(&self) -> u32 {
        self.checksum
    }

    /// The stored checksum is the one of the content.
    pub open spec fn is_valid(&self) -> bool {
        self.checksum_view() == crc32c_of(self.data_view())
    }

    /// Wraps `data` with a freshly computed checksum.
    pub fn new(data: Vec<u8>) -> (r: ChecksummedBytes)
        ensures
            r.data_view() == data@,
            r.checksum_view() == crc32c_of(data@),
    {
        let checksum = crc32c(data.as_slice());
        ChecksummedBytes { data, checksum }
    }

    /// Pairs `data` with a checksum computed elsewhere, unchecked.
    pub fn new_from_inner_data(data: Vec<u8>, checksum: u32) -> (r: ChecksummedBytes)
        ensures
            r.data_view() == data@,
            r.checksum_view() == checksum,
    {
        ChecksummedBytes { data, checksum }
    }

    pub fn len(&self) -> (r: usize)
        ensures
            r == self.data_view().len(),
    {
        self.data.len()
    }

    /// Recomputes the checksum of the content and compares it with the stored one.
    pub fn validate(&self) -> (r: Result<(), IntegrityError>)
        ensures
            r is Ok <==> self.is_valid(),
            r matches Err(IntegrityError::ChecksumMismatch(stored, computed)) ==> stored
                == self.checksum_view() && computed == crc32c_of(self.data_view()),
    {
        let computed = crc32c(self.data.as_slice());
        if computed == self.checksum {
            Ok(())
        } else {
            Err(IntegrityError::ChecksumMismatch(self.checksum, computed))
        }
    }

    /// Splits into content and checksum, after checking that they agree.
    pub fn into_inner(self) -> (r: Result<(Vec<u8>, u32), IntegrityError>)
        ensures
            r is Ok <==> self.is_valid(),
            r matches Ok((d, c)) ==> d@ == self.data_view() && c == self.checksum_view(),
    {
        match self.validate() {
            Ok(()) => Ok((self.data, self.checksum)),
            Err(e) => Err(e),
        }
    }
}

} // verus!

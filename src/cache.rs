//! A block cache in a shared object store, one object per block.
use vstd::prelude::*;

use crate::checksums::{crc32c_of, ChecksummedBytes};
use crate::error::{DataCacheError, DataCacheResult};
use crate::keys::{block_key, derive_block_key, derive_prefix, namespace_prefix};
use crate::object::ObjectId;
use crate::reader::{concat_bodies, in_order, lemma_reassemble_in_order, reassemble, BlockRead};

verus! {

/// A cache of fixed-size blocks kept in an object store bucket, shareable by
/// every instance that derives the same namespace. `Client` is the store's
/// client, carried for the caller that performs the reads and uploads.
pub struct ExpressDataCache<Client> {
    client: Client,
    bucket_name: String,
    prefix: String,
    block_size: u64,
}

/// `block_offset` is where block `block_idx` starts.
pub open spec fn offset_matches(block_idx: u64, block_offset: u64, block_size: u64) -> bool {
    block_offset as int == block_idx as int * block_size as int
}

impl<Client> ExpressDataCache<Client> {
    pub closed spec fn spec_block_size(&self) -> u64 {
        self.block_size
    }

    pub closed spec fn spec_prefix(&self) -> Seq<char> {
        self.prefix@
    }

    pub closed spec fn spec_bucket_name(&self) -> Seq<char> {
        self.bucket_name@
    }

    /// Creates a cache whose namespace is derived from the format tag,
    /// `block_size` and `source_description`.
    pub fn new(bucket_name: &str, client: Client, source_description: &str, block_size: u64) -> (r: Self)
        ensures
            r.spec_block_size() == block_size,
            r.spec_prefix() == namespace_prefix(source_description@, block_size),
            r.spec_bucket_name() == bucket_name@,
    {
        let prefix = derive_prefix(source_description, block_size);
        ExpressDataCache { client, bucket_name: bucket_name.to_owned(), prefix, block_size }
    }

    pub fn client(&self) -> &Client {
        &self.client
    }

    pub fn bucket_name(&self) -> (r: &str)
        ensures
            r@ == self.spec_bucket_name(),
    {
        self.bucket_name.as_str()
    }

    pub fn prefix(&self) -> (r: &str)
        ensures
            r@ == self.spec_prefix(),
    {
        self.prefix.as_str()
    }

    /// The block size given at construction.
    pub fn block_size(&self) -> (r: u64)
        ensures
            r == self.spec_block_size(),
    {
        self.block_size
    }

    /// Checks that `block_offset` is where block `block_idx` starts, then names
    /// the object that holds the block. Reads and writes of a block both go
    /// through here.
    pub fn block_object_key(&self, cache_key: &ObjectId, block_idx: u64, block_offset: u64) -> (r:
        DataCacheResult<String>)
        ensures
            offset_matches(block_idx, block_offset, self.spec_block_size()) ==> (r matches Ok(k)
                && k@ == block_key(self.spec_prefix(), *cache_key, block_idx)),
            !offset_matches(block_idx, block_offset, self.spec_block_size()) ==> r == Err::<
                String,
                DataCacheError,
            >(DataCacheError::InvalidBlockOffset),
    {
        match block_idx.checked_mul(self.block_size) {
            Some(start) if start == block_offset => Ok(
                derive_block_key(self.prefix.as_str(), cache_key, block_idx),
            ),
            _ => Err(DataCacheError::InvalidBlockOffset),
        }
    }

    /// A read of one block, with nothing received yet.
    pub fn begin_read(&self) -> (r: BlockRead)
        ensures
            r.received() == Seq::<u8>::empty(),
            r.window_step() == self.spec_block_size(),
    {
        BlockRead::new(self.block_size)
    }

    /// The bytes to upload for a block, taken out of `bytes` once its checksum
    /// has been checked.
    pub fn upload_payload(&self, bytes: ChecksummedBytes) -> (r: DataCacheResult<Vec<u8>>)
        ensures
            bytes.is_valid() ==> (r matches Ok(d) && d@ == bytes.data_view()),
            !bytes.is_valid() ==> r == Err::<Vec<u8>, DataCacheError>(
                DataCacheError::InvalidBlockContent,
            ),
    {
        match bytes.into_inner() {
            Ok((data, _checksum)) => Ok(data),
            Err(_) => Err(DataCacheError::InvalidBlockContent),
        }
    }
}

/// Blocks round-trip: the payload uploaded for a valid buffer, read back from
/// the same block object in any in-order division into chunks, reassembles to
/// the same bytes, and the checksum computed on them is the one written.
pub proof fn lemma_put_get_round_trip(written: ChecksummedBytes, chunks: Seq<(u64, Seq<u8>)>)
    requires
        written.is_valid(),
        in_order(chunks, 0),
        concat_bodies(chunks) == written.data_view(),
    ensures
        reassemble(Seq::<u8>::empty(), chunks) == Some(written.data_view()),
        crc32c_of(written.data_view()) == written.checksum_view(),
{
    lemma_reassemble_in_order(Seq::<u8>::empty(), chunks);
    assert(Seq::<u8>::empty() + concat_bodies(chunks) =~= written.data_view());
}

} // verus!

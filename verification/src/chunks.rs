//! Chunk model: deterministic partition of file content into fixed-size
//! chunks, with a per-chunk digest and a whole-file digest collected in a
//! manifest.
use vstd::prelude::*;
use vstd::math::{max, min};
use vstd::pervasive::VecAdditionalExecFns;
use vstd::slice::{slice_subrange, slice_to_vec};
use crate::hashing::{digest_of, sha256_hex};

verus! {

/// Size in bytes of every chunk but possibly the last.
pub const CHUNK_SIZE: usize = 1024 * 1024;

/// Number of chunks that `len` bytes occupy at chunk size `csize`: the least
/// count whose chunks cover the whole content. Empty content has no chunks.
pub open spec fn num_chunks(len: int, csize: int) -> int
    recommends
        len >= 0,
        csize >= 1,
{
    if len % csize == 0 {
        len / csize
    } else {
        len / csize + 1
    }
}

/// The bytes of chunk `i` of `data` at chunk size `csize`: one chunk size
/// starting at `i * csize`, shorter for the final chunk, empty past the end.
pub open spec fn chunk_of(data: Seq<u8>, csize: int, i: int) -> Seq<u8> {
    if i < 0 || csize < 1 || i * csize >= data.len() {
        Seq::empty()
    } else {
        data.subrange(i * csize, min((i + 1) * csize, data.len() as int))
    }
}

/// A chunk index is in range exactly when its start lies inside the content.
pub proof fn lemma_chunk_index_in_range(len: int, csize: int, i: int)
    requires
        len >= 0,
        csize >= 1,
        i >= 0,
    ensures
        i * csize < len <==> i < num_chunks(len, csize),
{
    let q = len / csize;
    let r = len % csize;
    vstd::arithmetic::div_mod::lemma_fundamental_div_mod(len, csize);
    vstd::arithmetic::div_mod::lemma_mod_bound(len, csize);
    assert(len == q * csize + r);
    if r == 0 {
        if i < q {
            assert(i * csize <= (q - 1) * csize) by (nonlinear_arith)
                requires i <= q - 1 && csize >= 1;
            assert((q - 1) * csize == q * csize - csize) by (nonlinear_arith);
        } else {
            assert(i * csize >= q * csize) by (nonlinear_arith)
                requires i >= q && csize >= 1;
        }
    } else {
        if i < q + 1 {
            assert(i * csize <= q * csize) by (nonlinear_arith)
                requires i <= q && csize >= 1;
        } else {
            assert(i * csize >= (q + 1) * csize) by (nonlinear_arith)
                requires i >= q + 1 && csize >= 1;
            assert((q + 1) * csize == q * csize + csize) by (nonlinear_arith);
        }
    }
}

/// A file never has more chunks than bytes.
pub proof fn lemma_num_chunks_le_len(len: int, csize: int)
    requires
        len >= 0,
        csize >= 1,
    ensures
        0 <= num_chunks(len, csize) <= len,
{
    let n = num_chunks(len, csize);
    vstd::arithmetic::div_mod::lemma_fundamental_div_mod(len, csize);
    vstd::arithmetic::div_mod::lemma_mod_bound(len, csize);
    if n > len {
        lemma_chunk_index_in_range(len, csize, len);
        assert(len * csize < len);
        assert(len * csize >= len) by (nonlinear_arith)
            requires len >= 0 && csize >= 1;
    }
    if n < 0 {
        assert(len / csize >= 0) by (nonlinear_arith)
            requires len >= 0 && csize >= 1;
    }
}

/// Byte length of chunk `i` of content of length `len` at chunk size `csize`:
/// it depends on the content's length alone.
pub open spec fn chunk_len(len: int, csize: int, i: int) -> int {
    if i < 0 || csize < 1 || i * csize >= len {
        0
    } else {
        min((i + 1) * csize, len) - i * csize
    }
}

/// `data` with `bytes` written at `offset`: any gap before `offset` is
/// zero-filled, bytes outside the written range keep their value, and the
/// content grows exactly as far as the write reaches.
pub open spec fn write_at(data: Seq<u8>, offset: int, bytes: Seq<u8>) -> Seq<u8>
    recommends
        offset >= 0,
{
    Seq::new(
        max(data.len() as int, offset + bytes.len()) as nat,
        |k: int|
            if offset <= k && k < offset + bytes.len() {
                bytes[k - offset]
            } else if k < data.len() {
                data[k]
            } else {
                0u8
            },
    )
}

/// The first `n` chunks of `data`, concatenated in index order.
pub open spec fn concat_chunks(data: Seq<u8>, csize: int, n: int) -> Seq<u8>
    decreases n,
{
    if n <= 0 {
        Seq::empty()
    } else {
        concat_chunks(data, csize, n - 1) + chunk_of(data, csize, n - 1)
    }
}

/// Concatenating the first `n` chunks yields exactly the content covered by
/// their byte ranges.
pub proof fn lemma_concat_chunks_prefix(data: Seq<u8>, csize: int, n: int)
    requires
        csize >= 1,
        n >= 0,
    ensures
        concat_chunks(data, csize, n) == data.subrange(0, min(n * csize, data.len() as int)),
    decreases n,
{
    let len = data.len() as int;
    if n == 0 {
        assert(n * csize == 0) by (nonlinear_arith)
            requires n == 0;
        assert(concat_chunks(data, csize, n) =~= data.subrange(0, min(n * csize, len)));
    } else {
        lemma_concat_chunks_prefix(data, csize, n - 1);
        assert((n - 1) * csize >= 0) by (nonlinear_arith)
            requires n >= 1 && csize >= 1;
        assert(n * csize == (n - 1) * csize + csize) by (nonlinear_arith);
        if (n - 1) * csize >= len {
            assert(chunk_of(data, csize, n - 1) =~= Seq::empty());
            assert(concat_chunks(data, csize, n) =~= data.subrange(0, min(n * csize, len)));
        } else {
            assert(concat_chunks(data, csize, n - 1) == data.subrange(0, (n - 1) * csize));
            assert(concat_chunks(data, csize, n) =~= data.subrange(0, min(n * csize, len)));
        }
    }
}

/// Law: reading every chunk in index order and concatenating the results
/// reproduces the original content, byte for byte.
pub proof fn lemma_chunks_reassemble(data: Seq<u8>, csize: int)
    requires
        csize >= 1,
    ensures
        concat_chunks(data, csize, num_chunks(data.len() as int, csize)) == data,
{
    let len = data.len() as int;
    let n = num_chunks(len, csize);
    lemma_num_chunks_le_len(len, csize);
    lemma_chunk_index_in_range(len, csize, n);
    lemma_concat_chunks_prefix(data, csize, n);
    assert(data.subrange(0, len) =~= data);
}

/// One fixed-size slice of a file: its ordinal position, its byte length
/// (shorter only for the final chunk), and the digest of exactly its bytes.
#[derive(Debug)]
pub struct ChunkInfo {
    pub index: u32,
    pub size: u64,
    pub hash: String,
}

/// Mathematical image of a `ChunkInfo`.
#[verifier::ext_equal]
pub struct ChunkInfoView {
    pub index: int,
    pub size: int,
    pub hash: Seq<char>,
}

impl View for ChunkInfo {
    type V = ChunkInfoView;

    open spec fn view(&self) -> ChunkInfoView {
        ChunkInfoView { index: self.index as int, size: self.size as int, hash: self.hash@ }
    }
}

impl Clone for ChunkInfo {
    fn clone(&self) -> (r: Self)
        ensures
            r@ == self@,
    {
        ChunkInfo { index: self.index, size: self.size, hash: self.hash.clone() }
    }
}

/// Manifest for one file transfer: the name presented to the peer, the total
/// size, the whole-file digest, and the dense, index-ordered chunk list.
#[derive(Debug)]
pub struct FileMetadata {
    pub name: String,
    pub size: u64,
    pub hash: String,
    pub chunks: Vec<ChunkInfo>,
}

/// Mathematical image of a `FileMetadata`.
#[verifier::ext_equal]
pub struct FileMetadataView {
    pub name: Seq<char>,
    pub size: int,
    pub hash: Seq<char>,
    pub chunks: Seq<ChunkInfoView>,
}

impl View for FileMetadata {
    type V = FileMetadataView;

    open spec fn view(&self) -> FileMetadataView {
        FileMetadataView {
            name: self.name@,
            size: self.size as int,
            hash: self.hash@,
            chunks: self.chunks@.map_values(|c: ChunkInfo| c@),
        }
    }
}

impl Clone for FileMetadata {
    fn clone(&self) -> (r: Self)
        ensures
            r@ == self@,
    {
        let mut chunks: Vec<ChunkInfo> = Vec::new();
        let mut i: usize = 0;
        while i < self.chunks.len()
            invariant
                i <= self.chunks@.len(),
                chunks@.len() == i as int,
                forall|k: int| 0 <= k < i as int ==> #[trigger] chunks@[k]@ == self.chunks@[k]@,
            decreases self.chunks@.len() - i,
        {
            chunks.push(self.chunks[i].clone());
            i = i + 1;
        }
        let r = FileMetadata {
            name: self.name.clone(),
            size: self.size,
            hash: self.hash.clone(),
            chunks,
        };
        proof {
            assert(r@.chunks =~= self@.chunks);
            assert(r@ =~= self@);
        }
        r
    }
}

/// Chunk `i` of the manifest records position `i`, the exact length of chunk
/// `i` of the content, and the digest of exactly those bytes.
pub open spec fn chunk_info_matches(c: ChunkInfoView, data: Seq<u8>, csize: int, i: int) -> bool {
    &&& c.index == i
    &&& c.size == chunk_of(data, csize, i).len()
    &&& c.hash == digest_of(chunk_of(data, csize, i))
}

/// The chunk list is dense from 0, covers the whole content, and every entry
/// carries the digest of its own bytes.
pub open spec fn chunks_match(chunks: Seq<ChunkInfoView>, data: Seq<u8>, csize: int) -> bool {
    &&& chunks.len() == num_chunks(data.len() as int, csize)
    &&& forall|i: int|
        0 <= i < chunks.len() ==> chunk_info_matches(#[trigger] chunks[i], data, csize, i)
}

/// The manifest describes exactly this content under this name: total size,
/// whole-file digest, and a matching chunk list.
pub open spec fn metadata_matches(
    meta: FileMetadataView,
    name: Seq<char>,
    data: Seq<u8>,
    csize: int,
) -> bool {
    &&& meta.name == name
    &&& meta.size == data.len()
    &&& meta.hash == digest_of(data)
    &&& chunks_match(meta.chunks, data, csize)
}

/// Law: for every chunk index of a well-formed manifest, the digest of the
/// bytes that chunk holds equals the `hash` recorded for it.
pub proof fn lemma_read_chunk_digest(
    meta: FileMetadataView,
    name: Seq<char>,
    data: Seq<u8>,
    csize: int,
    i: int,
)
    requires
        csize >= 1,
        metadata_matches(meta, name, data, csize),
        0 <= i < meta.chunks.len(),
    ensures
        digest_of(chunk_of(data, csize, i)) == meta.chunks[i].hash,
{
}

/// Law: for a well-formed manifest, the digest over the concatenation of all
/// chunks equals the manifest's whole-file hash.
pub proof fn lemma_concat_chunks_digest(
    meta: FileMetadataView,
    name: Seq<char>,
    data: Seq<u8>,
    csize: int,
)
    requires
        csize >= 1,
        metadata_matches(meta, name, data, csize),
    ensures
        digest_of(concat_chunks(data, csize, meta.chunks.len() as int)) == meta.hash,
{
    lemma_chunks_reassemble(data, csize);
}

/// One side's access to the content of one file transfer: the sender fills it
/// with the source content and reads chunks out; the receiver starts it empty
/// and writes verified chunks in at their offsets.
pub struct FileTransfer {
    name: String,
    data: Vec<u8>,
    chunk_size: usize,
    metadata: Option<FileMetadata>,
    progress: u64,
}

/// Mathematical image of a `FileTransfer`.
#[verifier::ext_equal]
pub struct FileTransferView {
    pub name: Seq<char>,
    pub data: Seq<u8>,
    pub chunk_size: int,
    pub metadata: Option<FileMetadataView>,
    pub progress: int,
}

impl View for FileTransfer {
    type V = FileTransferView;

    closed spec fn view(&self) -> FileTransferView {
        FileTransferView {
            name: self.name@,
            data: self.data@,
            chunk_size: self.chunk_size as int,
            metadata: match self.metadata {
                Some(m) => Some(m@),
                None => None,
            },
            progress: self.progress as int,
        }
    }
}

impl FileTransfer {
    /// Machine limits every method maintains. This in-memory model holds the
    /// whole content in one vector and does its offset arithmetic in `u32`
    /// range, so it caps the content at `u32::MAX` bytes; callers that feed it
    /// from disk must test a file's length against that cap first. The chunk
    /// size is positive and within the same range, and the progress signal
    /// never exceeds the content length.
    pub open spec fn wf(&self) -> bool {
        &&& 1 <= self@.chunk_size <= u32::MAX as int
        &&& self@.data.len() <= u32::MAX as int
        &&& 0 <= self@.progress <= self@.data.len()
    }

    /// Sets up a transfer over `data` under the default chunk size.
    pub fn new(name: String, data: Vec<u8>) -> (r: Self)
        requires
            data@.len() <= u32::MAX as int,
        ensures
            r.wf(),
            r@.name == name@,
            r@.data == data@,
            r@.chunk_size == CHUNK_SIZE as int,
            r@.metadata is None,
            r@.progress == 0,
    {
        FileTransfer { name, data, chunk_size: CHUNK_SIZE, metadata: None, progress: 0 }
    }

    /// Sets up a transfer over `data` with an explicit chunk size.
    pub fn with_chunk_size(name: String, data: Vec<u8>, chunk_size: usize) -> (r: Self)
        requires
            data@.len() <= u32::MAX as int,
            1 <= chunk_size as int <= u32::MAX as int,
        ensures
            r.wf(),
            r@.name == name@,
            r@.data == data@,
            r@.chunk_size == chunk_size as int,
            r@.metadata is None,
            r@.progress == 0,
    {
        FileTransfer { name, data, chunk_size, metadata: None, progress: 0 }
    }

    /// The content as reassembled or held so far.
    pub fn content(&self) -> (r: &Vec<u8>)
        ensures
            r@ == self@.data,
    {
        &self.data
    }

    /// The configured chunk size.
    pub fn chunk_size(&self) -> (r: usize)
        ensures
            r as int == self@.chunk_size,
    {
        self.chunk_size
    }

    /// The base name presented to the peer.
    pub fn name(&self) -> (r: &String)
        ensures
            r@ == self@.name,
    {
        &self.name
    }

    /// The monotone byte-count progress signal.
    pub fn progress(&self) -> (r: u64)
        ensures
            r as int == self@.progress,
    {
        self.progress
    }

    /// The manifest built by `prepare_metadata`, if any.
    pub fn get_metadata(&self) -> (r: Option<&FileMetadata>)
        ensures
            r is Some <==> self@.metadata is Some,
            r matches Some(m) ==> self@.metadata == Some(m@),
    {
        self.metadata.as_ref()
    }

    /// Splits the content into chunks, hashes each chunk and the whole file,
    /// and returns the manifest, keeping a copy for later verification.
    pub fn prepare_metadata(&mut self) -> (r: FileMetadata)
        requires
            old(self).wf(),
        ensures
            final(self).wf(),
            metadata_matches(r@, old(self)@.name, old(self)@.data, old(self)@.chunk_size),
            final(self)@ == (FileTransferView { metadata: Some(r@), ..old(self)@ }),
    {
        let len = self.data.len();
        let csize = self.chunk_size;
        let ghost data = self.data@;
        let mut chunks: Vec<ChunkInfo> = Vec::new();
        let mut index: u32 = 0;
        let mut pos: usize = 0;
        while pos < len
            invariant
                self.wf(),
                data == self@.data,
                len == data.len(),
                csize == self@.chunk_size,
                pos as int == min(index as int * csize as int, len as int),
                index as int <= num_chunks(len as int, csize as int),
                chunks@.len() == index as int,
                forall|k: int|
                    0 <= k < index as int ==> chunk_info_matches(
                        #[trigger] chunks@[k]@,
                        data,
                        csize as int,
                        k,
                    ),
            decreases len - pos,
        {
            proof {
                lemma_num_chunks_le_len(len as int, csize as int);
                lemma_chunk_index_in_range(len as int, csize as int, index as int);
                assert((index as int + 1) * csize as int == index as int * csize as int
                    + csize as int) by (nonlinear_arith);
            }
            let end = if len - pos > csize {
                pos + csize
            } else {
                len
            };
            let piece = slice_subrange(self.data.as_slice(), pos, end);
            let hash = sha256_hex(piece);
            chunks.push(ChunkInfo { index, size: (end - pos) as u64, hash });
            index = index + 1;
            pos = end;
        }
        proof {
            lemma_num_chunks_le_len(len as int, csize as int);
            lemma_chunk_index_in_range(len as int, csize as int, index as int);
        }
        let file_hash = sha256_hex(self.data.as_slice());
        let meta = FileMetadata {
            name: self.name.clone(),
            size: len as u64,
            hash: file_hash,
            chunks,
        };
        proof {
            let cs = meta@.chunks;
            assert forall|k: int| 0 <= k < cs.len() implies chunk_info_matches(
                #[trigger] cs[k],
                data,
                csize as int,
                k,
            ) by {
                assert(cs[k] == meta.chunks@[k]@);
            }
        }
        let copy = meta.clone();
        self.metadata = Some(copy);
        meta
    }

    /// The bytes of chunk `chunk_index`: one chunk size starting at
    /// `chunk_index * chunk_size`, shorter for the final chunk, and empty once
    /// past the end of the content.
    pub fn read_chunk(&mut self, chunk_index: u32) -> (r: Vec<u8>)
        requires
            old(self).wf(),
        ensures
            final(self).wf(),
            r@ == chunk_of(old(self)@.data, old(self)@.chunk_size, chunk_index as int),
            final(self)@.progress == min(
                old(self)@.progress + r@.len(),
                old(self)@.data.len() as int,
            ),
            old(self)@.progress <= final(self)@.progress,
            final(self)@ == (FileTransferView { progress: final(self)@.progress, ..old(self)@ }),
    {
        let len = self.data.len();
        let csize = self.chunk_size;
        proof {
            assert((chunk_index as int) * (csize as int) <= (u32::MAX as int) * (
            u32::MAX as int)) by (nonlinear_arith)
                requires
                    0 <= chunk_index as int <= u32::MAX as int,
                    0 <= csize as int <= u32::MAX as int,
            ;
        }
        let offset64: u64 = (chunk_index as u64) * (csize as u64);
        if offset64 >= len as u64 {
            return Vec::new();
        }
        let offset = offset64 as usize;
        proof {
            assert((chunk_index as int + 1) * (csize as int) == (chunk_index as int) * (
            csize as int) + csize as int) by (nonlinear_arith);
        }
        let end = if len - offset > csize {
            offset + csize
        } else {
            len
        };
        let piece = slice_subrange(self.data.as_slice(), offset, end);
        let out = slice_to_vec(piece);
        let inc = out.len() as u64;
        let total = len as u64;
        self.progress = if self.progress + inc > total {
            total
        } else {
            self.progress + inc
        };
        out
    }

    /// Writes the bytes of chunk `chunk_index` at its offset, zero-filling any
    /// gap before it and leaving every byte outside the written range as it
    /// was: writes never erase previously written chunks.
    pub fn write_chunk(&mut self, chunk_index: u32, data: Vec<u8>)
        requires
            old(self).wf(),
            (chunk_index as int) * old(self)@.chunk_size + data@.len() <= u32::MAX as int,
        ensures
            final(self).wf(),
            final(self)@.data == write_at(
                old(self)@.data,
                (chunk_index as int) * old(self)@.chunk_size,
                data@,
            ),
            final(self)@.data.len() == max(
                old(self)@.data.len() as int,
                (chunk_index as int) * old(self)@.chunk_size + data@.len(),
            ),
            forall|k: int|
                (chunk_index as int) * old(self)@.chunk_size <= k < (chunk_index as int) * old(
                    self,
                )@.chunk_size + data@.len() ==> final(self)@.data[k] == data@[k - (
                chunk_index as int) * old(self)@.chunk_size],
            forall|k: int|
                0 <= k < (chunk_index as int) * old(self)@.chunk_size ==> final(self)@.data[k]
                    == (if k < old(self)@.data.len() {
                    old(self)@.data[k]
                } else {
                    0u8
                }),
            forall|k: int|
                (chunk_index as int) * old(self)@.chunk_size + data@.len() <= k < old(
                    self,
                )@.data.len() ==> final(self)@.data[k] == old(self)@.data[k],
            final(self)@.progress == min(
                old(self)@.progress + data@.len(),
                final(self)@.data.len() as int,
            ),
            old(self)@.progress <= final(self)@.progress,
            final(self)@.name == old(self)@.name,
            final(self)@.chunk_size == old(self)@.chunk_size,
            final(self)@.metadata == old(self)@.metadata,
    {
        let csize = self.chunk_size;
        proof {
            vstd::arithmetic::mul::lemma_mul_nonnegative(chunk_index as int, csize as int);
        }
        let offset = (chunk_index as usize) * csize;
        let ghost old_len = self@.data.len() as int;
        while self.data.len() < offset
            invariant
                old(self).wf(),
                offset as int <= u32::MAX as int,
                csize == self@.chunk_size,
                old_len == old(self)@.data.len(),
                old_len <= self@.data.len() <= max(old_len, offset as int),
                forall|k: int| 0 <= k < old_len ==> self@.data[k] == old(self)@.data[k],
                forall|k: int|
                    old_len <= k < self@.data.len() ==> self@.data[k] == 0u8,
                self@.name == old(self)@.name,
                self@.chunk_size == old(self)@.chunk_size,
                self@.metadata == old(self)@.metadata,
                self@.progress == old(self)@.progress,
            decreases offset - self@.data.len(),
        {
            self.data.push(0u8);
        }
        let ghost padded = self@.data;
        let mut j: usize = 0;
        while j < data.len()
            invariant
                old(self).wf(),
                offset as int + data@.len() <= u32::MAX as int,
                csize == self@.chunk_size,
                old_len == old(self)@.data.len(),
                padded.len() == max(old_len, offset as int),
                forall|k: int| 0 <= k < old_len ==> padded[k] == old(self)@.data[k],
                forall|k: int| old_len <= k < padded.len() ==> padded[k] == 0u8,
                j <= data@.len(),
                self@.data.len() == max(padded.len() as int, offset as int + j as int),
                forall|k: int| 0 <= k < offset as int ==> self@.data[k] == padded[k],
                forall|k: int|
                    offset as int <= k < offset as int + j as int ==> self@.data[k] == data@[k
                        - offset as int],
                forall|k: int|
                    offset as int + j as int <= k < padded.len() ==> self@.data[k] == padded[k],
                self@.name == old(self)@.name,
                self@.chunk_size == old(self)@.chunk_size,
                self@.metadata == old(self)@.metadata,
                self@.progress == old(self)@.progress,
            decreases data@.len() - j,
        {
            if offset + j < self.data.len() {
                self.data.set(offset + j, data[j]);
            } else {
                self.data.push(data[j]);
            }
            j = j + 1;
        }
        let inc = data.len() as u64;
        let total = self.data.len() as u64;
        self.progress = if self.progress + inc > total {
            total
        } else {
            self.progress + inc
        };
        proof {
            let off = (chunk_index as int) * old(self)@.chunk_size;
            assert(off == offset as int);
            assert forall|k: int| 0 <= k < off implies self@.data[k] == (if k < old(
                self,
            )@.data.len() {
                old(self)@.data[k]
            } else {
                0u8
            }) by {
                assert(self@.data[k] == padded[k]);
                if old_len <= k {
                    assert(padded[k] == 0u8);
                }
            }
            assert(self@.data =~= write_at(old(self)@.data, off, data@));
        }
    }
}

/// Whether `data` hashes to exactly the digest the manifest records for this
/// chunk: the receiver's per-chunk integrity check.
pub fn chunk_matches(data: &[u8], info: &ChunkInfo) -> (r: bool)
    ensures
        r == (digest_of(data@) == info@.hash),
{
    let h = sha256_hex(data);
    h == info.hash
}

} // verus!

//! Transfer state machine: the transport-independent command vocabulary and
//! the sender and receiver flows that drive one file transfer to completion,
//! modelled as explicit event handlers so any transport can carry them.
use vstd::prelude::*;
use vstd::math::min;
use vstd::string::StrSliceExecFns;
use vstd::pervasive::VecAdditionalExecFns;
use crate::chunks::{
    chunk_len, chunk_matches, chunk_of, lemma_chunk_index_in_range, lemma_num_chunks_le_len,
    metadata_matches, num_chunks, write_at, FileMetadata, FileMetadataView, FileTransfer,
};
use crate::errors::DropError;
use crate::hashing::{digest_of, sha256_hex};

verus! {

/// One wire message of the transfer protocol; exactly one variant per message.
#[derive(Debug)]
pub enum TransferCommand {
    /// Opens a transfer by announcing the manifest.
    StartTransfer(FileMetadata),
    /// Asks the sender for one chunk by index.
    RequestChunk(u32),
    /// Delivers the bytes of one chunk.
    SendChunk(u32, Vec<u8>),
    /// Announces that every requested chunk has been delivered.
    Complete,
    /// Aborts the transfer from either side.
    Error(String),
}

/// The capability every concrete transport implements: run the sender flow,
/// run the receiver flow, or tear the channel down. The state machine below is
/// the payload such transports carry, not a concrete implementation.
pub trait TransferProtocol {
    /// Runs the full sender flow over the transport's channel.
    fn send_file(&mut self, path: String) -> Result<(), DropError>;

    /// Runs the full receiver flow, writing into the destination.
    fn receive_file(&mut self, path: String) -> Result<(), DropError>;

    /// Tears the underlying channel down; a repeated call must not panic.
    fn cancel(&mut self) -> Result<(), DropError>;
}

/// Progress of one transfer endpoint.
#[derive(Debug, Clone, Copy, PartialEq, Eq, Structural)]
pub enum TransferState {
    Idle,
    AwaitingMetadata,
    Transferring,
    Completed,
    Errored,
}

/// What the receiver answers for one delivered chunk.
#[derive(Debug, Clone, Copy, PartialEq, Eq, Structural)]
pub enum ChunkReceipt {
    /// The chunk verified against the manifest and was written at its offset.
    Stored,
    /// The chunk's index was already verified; the delivery was ignored.
    AlreadyVerified,
    /// The chunk failed verification and should be requested again.
    RetryRequested,
}

/// Bound on verification failures per chunk before the transfer fails.
pub const MAX_CHUNK_RETRIES: u8 = 3;

/// A file name is safe to use as a destination-relative name: non-empty, free
/// of path separators, and not a dot or dot-dot component.
pub open spec fn safe_name(s: Seq<char>) -> bool {
    &&& s.len() > 0
    &&& !s.contains('/')
    &&& !s.contains('\\')
    &&& s != seq!['.']
    &&& s != seq!['.', '.']
}

/// Whether `name` may be used as a destination-relative file name.
pub fn is_safe_name(name: &str) -> (r: bool)
    ensures
        r == safe_name(name@),
{
    let n = name.unicode_len();
    if n == 0 {
        return false;
    }
    let mut i: usize = 0;
    while i < n
        invariant
            n == name@.len(),
            i <= n,
            forall|j: int| 0 <= j < i as int ==> name@[j] != '/' && name@[j] != '\\',
        decreases n - i,
    {
        let c = name.get_char(i);
        if c == '/' || c == '\\' {
            return false;
        }
        i = i + 1;
    }
    if n == 1 && name.get_char(0) == '.' {
        proof {
            assert(name@ =~= seq!['.']);
        }
        return false;
    }
    if n == 2 && name.get_char(0) == '.' && name.get_char(1) == '.' {
        proof {
            assert(name@ =~= seq!['.', '.']);
        }
        return false;
    }
    proof {
        assert(!name@.contains('/')) by {
            if name@.contains('/') {
                let j = choose|j: int| 0 <= j < name@.len() && name@[j] == '/';
            }
        }
        assert(!name@.contains('\\')) by {
            if name@.contains('\\') {
                let j = choose|j: int| 0 <= j < name@.len() && name@[j] == '\\';
            }
        }
        if name@ =~= seq!['.'] {
            assert(name@[0] == '.');
        }
        if name@ =~= seq!['.', '.'] {
            assert(name@[0] == '.' && name@[1] == '.');
        }
    }
    true
}

/// A manifest is internally consistent for chunk size `csize`: the total size
/// fits the in-memory model's `u32` offset arithmetic (a machine limit of this
/// model, not of the wire format), the chunk list is dense from 0 and exactly
/// covers the content, and each entry's length is the one its position forces.
pub open spec fn meta_consistent(m: FileMetadataView, csize: int) -> bool {
    &&& 0 <= m.size <= u32::MAX as int
    &&& m.chunks.len() == num_chunks(m.size, csize)
    &&& forall|i: int|
        0 <= i < m.chunks.len() ==> (#[trigger] m.chunks[i]).index == i && m.chunks[i].size
            == chunk_len(m.size, csize, i)
}

/// Checks that a received manifest is internally consistent for `chunk_size`,
/// so that every chunk it announces can be placed by index arithmetic.
pub fn validate_metadata(meta: &FileMetadata, chunk_size: usize) -> (r: bool)
    requires
        1 <= chunk_size as int <= u32::MAX as int,
    ensures
        r == meta_consistent(meta@, chunk_size as int),
{
    if meta.size > u32::MAX as u64 {
        return false;
    }
    let csize = chunk_size as u64;
    let expected: u64 = if meta.size % csize == 0 {
        meta.size / csize
    } else {
        meta.size / csize + 1
    };
    proof {
        lemma_num_chunks_le_len(meta@.size, chunk_size as int);
    }
    if meta.chunks.len() as u64 != expected {
        return false;
    }
    let n = meta.chunks.len();
    let mut i: usize = 0;
    while i < n
        invariant
            1 <= chunk_size as int <= u32::MAX as int,
            csize == chunk_size as u64,
            0 <= meta@.size <= u32::MAX as int,
            n == meta@.chunks.len(),
            n as int == num_chunks(meta@.size, chunk_size as int),
            n <= u32::MAX as usize,
            i <= n,
            forall|k: int|
                0 <= k < i as int ==> (#[trigger] meta@.chunks[k]).index == k
                    && meta@.chunks[k].size == chunk_len(meta@.size, chunk_size as int, k),
        decreases n - i,
    {
        proof {
            lemma_chunk_index_in_range(meta@.size, chunk_size as int, i as int);
            assert((i as int + 1) * (chunk_size as int) == i as int * (chunk_size as int)
                + chunk_size as int) by (nonlinear_arith);
            assert(i as int * (chunk_size as int) <= (u32::MAX as int) * (u32::MAX as int))
                by (nonlinear_arith)
                requires
                    0 <= i as int <= u32::MAX as int,
                    0 <= chunk_size as int <= u32::MAX as int,
            ;
        }
        let info = &meta.chunks[i];
        let start: u64 = (i as u64) * csize;
        let expected_len: u64 = if start >= meta.size {
            0
        } else if meta.size - start > csize {
            csize
        } else {
            meta.size - start
        };
        proof {
            assert(meta@.chunks[i as int] == meta.chunks@[i as int]@);
            assert(chunk_len(meta@.size, chunk_size as int, i as int) == expected_len as int);
        }
        if info.index as usize != i {
            return false;
        }
        if info.size != expected_len {
            return false;
        }
        i = i + 1;
    }
    true
}

/// The delivered bytes are exactly the chunk the manifest announced at this
/// index: the advertised length and the advertised digest.
pub open spec fn chunk_good(m: FileMetadataView, index: int, bytes: Seq<u8>) -> bool {
    &&& bytes.len() == m.chunks[index].size
    &&& digest_of(bytes) == m.chunks[index].hash
}

/// Law: a manifest built over some content describes content whose chunk list
/// is internally consistent, so the receiver's validation accepts it for the
/// same chunk size.
pub proof fn lemma_prepared_manifest_is_consistent(
    meta: FileMetadataView,
    name: Seq<char>,
    data: Seq<u8>,
    csize: int,
)
    requires
        csize >= 1,
        data.len() <= u32::MAX as int,
        metadata_matches(meta, name, data, csize),
    ensures
        meta_consistent(meta, csize),
{
    assert forall|i: int| 0 <= i < meta.chunks.len() implies (#[trigger] meta.chunks[i]).index
        == i && meta.chunks[i].size == chunk_len(meta.size, csize, i) by {
        assert(i * csize >= 0) by (nonlinear_arith)
            requires i >= 0 && csize >= 1;
        assert((i + 1) * csize == i * csize + csize) by (nonlinear_arith);
        assert(chunk_of(data, csize, i).len() == chunk_len(data.len() as int, csize, i));
    }
}

/// Law: a chunk read faithfully from the content a manifest was built over
/// always verifies against that manifest, so an honest sender's deliveries
/// are stored, never retried.
pub proof fn lemma_honest_chunk_verifies(
    meta: FileMetadataView,
    name: Seq<char>,
    data: Seq<u8>,
    csize: int,
    i: int,
)
    requires
        csize >= 1,
        metadata_matches(meta, name, data, csize),
        0 <= i < meta.chunks.len(),
    ensures
        chunk_good(meta, i, chunk_of(data, csize, i)),
{
}

/// The receiving endpoint of one transfer: it consumes the sender's commands,
/// verifies every chunk against the manifest, reassembles the content at chunk
/// offsets, and verifies the whole file on completion.
pub struct Receiver {
    /// Where this endpoint stands in the transfer.
    pub state: TransferState,
    /// The manifest announced by the sender, once accepted.
    pub metadata: Option<FileMetadata>,
    /// The destination content being reassembled.
    pub transfer: FileTransfer,
    /// Per chunk: whether a verified copy has been written.
    pub verified: Vec<bool>,
    /// Per chunk: how many deliveries failed verification so far.
    pub retries: Vec<u8>,
}

impl Receiver {
    /// Well-formedness every handler preserves: the underlying transfer is
    /// well-formed, and once a manifest is held the bookkeeping vectors track
    /// its chunk list, which is consistent for the configured chunk size.
    pub open spec fn wf(&self) -> bool {
        &&& self.transfer.wf()
        &&& self.state is Transferring ==> self.metadata is Some
        &&& match self.metadata {
            Some(m) => {
                &&& meta_consistent(m@, self.transfer@.chunk_size)
                &&& self.verified@.len() == m@.chunks.len()
                &&& self.retries@.len() == m@.chunks.len()
            },
            None => self.verified@.len() == 0 && self.retries@.len() == 0,
        }
    }

    /// A receiver awaiting a manifest, with an empty destination.
    pub fn new(chunk_size: usize) -> (r: Self)
        requires
            1 <= chunk_size as int <= u32::MAX as int,
        ensures
            r.wf(),
            r.state is AwaitingMetadata,
            r.metadata is None,
            r.transfer@.data.len() == 0,
            r.transfer@.chunk_size == chunk_size as int,
    {
        Receiver {
            state: TransferState::AwaitingMetadata,
            metadata: None,
            transfer: FileTransfer::with_chunk_size(String::new(), Vec::new(), chunk_size),
            verified: Vec::new(),
            retries: Vec::new(),
        }
    }

    /// Accepts a `StartTransfer` manifest: the name must be safe to use as a
    /// destination-relative file name and the manifest internally consistent;
    /// acceptance moves the receiver to `Transferring` with no chunk verified.
    pub fn on_start(&mut self, meta: FileMetadata) -> (r: Result<(), DropError>)
        requires
            old(self).wf(),
        ensures
            final(self).wf(),
            r is Ok <==> old(self).state is AwaitingMetadata && safe_name(meta@.name)
                && meta_consistent(meta@, old(self).transfer@.chunk_size),
            r matches Err(e) ==> e is ProtocolViolation && *final(self) == *old(self),
            r is Ok ==> {
                &&& final(self).state is Transferring
                &&& final(self).metadata matches Some(m) && m@ == meta@
                &&& final(self).verified@.len() == meta@.chunks.len()
                &&& forall|k: int|
                    0 <= k < meta@.chunks.len() ==> !(#[trigger] final(self).verified@[k])
                &&& forall|k: int|
                    0 <= k < meta@.chunks.len() ==> (#[trigger] final(self).retries@[k]) == 0u8
                &&& final(self).transfer@ == old(self).transfer@
            },
    {
        if !(self.state == TransferState::AwaitingMetadata) {
            return Err(DropError::ProtocolViolation("transfer already underway".to_owned()));
        }
        if !is_safe_name(meta.name.as_str()) {
            return Err(DropError::ProtocolViolation("unsafe destination name".to_owned()));
        }
        if !validate_metadata(&meta, self.transfer.chunk_size()) {
            return Err(DropError::ProtocolViolation("inconsistent manifest".to_owned()));
        }
        let n = meta.chunks.len();
        let mut verified: Vec<bool> = Vec::new();
        let mut retries: Vec<u8> = Vec::new();
        let mut i: usize = 0;
        while i < n
            invariant
                i <= n,
                verified@.len() == i as int,
                retries@.len() == i as int,
                forall|k: int| 0 <= k < i as int ==> !(#[trigger] verified@[k]),
                forall|k: int| 0 <= k < i as int ==> (#[trigger] retries@[k]) == 0u8,
            decreases n - i,
        {
            verified.push(false);
            retries.push(0);
            i = i + 1;
        }
        self.metadata = Some(meta);
        self.verified = verified;
        self.retries = retries;
        self.state = TransferState::Transferring;
        Ok(())
    }

    /// Consumes one `SendChunk` delivery. A chunk that matches the manifest is
    /// written at its offset and marked verified; re-delivery for a verified
    /// index changes nothing; a mismatch is counted and asked again up to
    /// `MAX_CHUNK_RETRIES` times before the transfer fails for integrity.
    pub fn on_send_chunk(&mut self, index: u32, bytes: Vec<u8>) -> (r: Result<
        ChunkReceipt,
        DropError,
    >)
        requires
            old(self).wf(),
        ensures
            final(self).wf(),
            !(old(self).state is Transferring) || !(old(self).metadata matches Some(m)
                && (index as int) < m@.chunks.len()) ==> (r matches Err(e)
                && e is ProtocolViolation) && *final(self) == *old(self),
            old(self).state is Transferring && (old(self).metadata matches Some(m) && (
            index as int) < m@.chunks.len()) ==> {
                let mv = old(self).metadata->Some_0@;
                &&& old(self).verified@[index as int] ==> r == Ok::<ChunkReceipt, DropError>(ChunkReceipt::AlreadyVerified)
                    && *final(self) == *old(self)
                &&& !old(self).verified@[index as int] && chunk_good(mv, index as int, bytes@)
                    ==> r == Ok::<ChunkReceipt, DropError>(ChunkReceipt::Stored) && final(self).verified@ == old(
                    self,
                ).verified@.update(index as int, true) && final(self).transfer@.data == write_at(
                    old(self).transfer@.data,
                    (index as int) * old(self).transfer@.chunk_size,
                    bytes@,
                ) && final(self).state is Transferring && final(self).metadata == old(
                    self,
                ).metadata && final(self).retries@ == old(self).retries@ && final(self).transfer@.name == old(self).transfer@.name && final(self).transfer@.chunk_size
                    == old(self).transfer@.chunk_size && final(self).transfer@.metadata == old(
                    self,
                ).transfer@.metadata && final(self).transfer@.progress == min(
                    old(self).transfer@.progress + bytes@.len(),
                    final(self).transfer@.data.len() as int,
                ) && old(self).transfer@.progress <= final(self).transfer@.progress
                &&& !old(self).verified@[index as int] && !chunk_good(mv, index as int, bytes@)
                    && old(self).retries@[index as int] < MAX_CHUNK_RETRIES ==> r == Ok::<ChunkReceipt, DropError>(ChunkReceipt::RetryRequested) && final(self).retries@ == old(self).retries@.update(
                    index as int,
                    (old(self).retries@[index as int] + 1) as u8,
                ) && final(self).state is Transferring && final(self).metadata == old(
                    self,
                ).metadata && final(self).verified@ == old(self).verified@ && final(self).transfer@ == old(self).transfer@
                &&& !old(self).verified@[index as int] && !chunk_good(mv, index as int, bytes@)
                    && old(self).retries@[index as int] >= MAX_CHUNK_RETRIES ==> (r matches Err(e)
                    && e is IntegrityFailure) && final(self).state is Errored && final(self).metadata == old(self).metadata && final(self).verified@ == old(self).verified@
                    && final(self).retries@ == old(self).retries@ && final(self).transfer@ == old(
                    self,
                ).transfer@
            },
    {
        if !(self.state == TransferState::Transferring) {
            return Err(DropError::ProtocolViolation("no transfer underway".to_owned()));
        }
        let idx = index as usize;
        let good: bool;
        match &self.metadata {
            Some(m) => {
                if idx >= m.chunks.len() {
                    return Err(
                        DropError::ProtocolViolation("chunk index out of range".to_owned()),
                    );
                }
                let info = &m.chunks[idx];
                good = bytes.len() as u64 == info.size && chunk_matches(bytes.as_slice(), info);
            },
            None => {
                return Err(DropError::ProtocolViolation("no manifest".to_owned()));
            },
        }
        proof {
            let mv = old(self).metadata->Some_0@;
            assert(mv.chunks[index as int] == old(self).metadata->Some_0.chunks@[index as int]@);
        }
        if self.verified[idx] {
            return Ok(ChunkReceipt::AlreadyVerified);
        }
        if good {
            proof {
                let m = old(self).metadata->Some_0@;
                let csize = old(self).transfer@.chunk_size;
                lemma_chunk_index_in_range(m.size, csize, index as int);
                assert((index as int + 1) * csize == (index as int) * csize + csize)
                    by (nonlinear_arith);
                assert(m.chunks[index as int].size == chunk_len(m.size, csize, index as int));
                assert((index as int) * csize + bytes@.len() <= m.size);
            }
            self.transfer.write_chunk(index, bytes);
            self.verified.set(idx, true);
            Ok(ChunkReceipt::Stored)
        } else {
            let attempts = self.retries[idx];
            if attempts < MAX_CHUNK_RETRIES {
                self.retries.set(idx, attempts + 1);
                Ok(ChunkReceipt::RetryRequested)
            } else {
                self.state = TransferState::Errored;
                Err(
                    DropError::IntegrityFailure(
                        "chunk failed verification after retries".to_owned(),
                    ),
                )
            }
        }
    }

    /// Consumes the sender's `Complete`: verifies the reassembled content
    /// against the manifest's whole-file digest, completing on a match and
    /// failing terminally for integrity on a mismatch.
    pub fn on_complete(&mut self) -> (r: Result<(), DropError>)
        requires
            old(self).wf(),
        ensures
            final(self).wf(),
            !(old(self).state is Transferring) ==> (r matches Err(e) && e is ProtocolViolation)
                && *final(self) == *old(self),
            old(self).state is Transferring ==> {
                let mv = old(self).metadata->Some_0@;
                &&& (r is Ok <==> digest_of(old(self).transfer@.data) == mv.hash)
                &&& r is Ok ==> final(self).state is Completed
                &&& r matches Err(e) ==> e is IntegrityFailure && final(self).state is Errored
                &&& final(self).metadata == old(self).metadata
                &&& final(self).transfer@ == old(self).transfer@
                &&& final(self).verified@ == old(self).verified@
                &&& final(self).retries@ == old(self).retries@
            },
    {
        if !(self.state == TransferState::Transferring) {
            return Err(DropError::ProtocolViolation("no transfer underway".to_owned()));
        }
        let whole = sha256_hex(self.transfer.content().as_slice());
        let ok: bool;
        match &self.metadata {
            Some(m) => {
                ok = whole == m.hash;
            },
            None => {
                return Err(DropError::ProtocolViolation("no manifest".to_owned()));
            },
        }
        if ok {
            self.state = TransferState::Completed;
            Ok(())
        } else {
            self.state = TransferState::Errored;
            Err(DropError::IntegrityFailure("whole-file digest mismatch".to_owned()))
        }
    }

    /// Consumes a peer `Error`: any non-terminal transfer is forced to
    /// `Errored`; a finished one keeps its outcome.
    pub fn on_error(&mut self)
        requires
            old(self).wf(),
        ensures
            final(self).wf(),
            old(self).state is Completed || old(self).state is Errored ==> *final(self) == *old(self),
            !(old(self).state is Completed) && !(old(self).state is Errored) ==> final(self).state is Errored && final(self).metadata == old(self).metadata && final(self).transfer@ == old(self).transfer@ && final(self).verified@ == old(self).verified@
                && final(self).retries@ == old(self).retries@,
    {
        if self.state == TransferState::Completed || self.state == TransferState::Errored {
            return ;
        }
        self.state = TransferState::Errored;
    }

    /// Cancels the transfer: a non-terminal transfer is left `Errored`, never
    /// silently in `Transferring`; cancelling a finished transfer changes
    /// nothing and reports the channel already closed.
    pub fn cancel(&mut self) -> (r: Result<(), DropError>)
        requires
            old(self).wf(),
        ensures
            final(self).wf(),
            old(self).state is Completed || old(self).state is Errored ==> (r matches Err(e)
                && e is TransportFailure) && *final(self) == *old(self),
            !(old(self).state is Completed) && !(old(self).state is Errored) ==> r is Ok && final(self).state is Errored && final(self).metadata == old(self).metadata && final(self).transfer@ == old(self).transfer@ && final(self).verified@ == old(self).verified@
                && final(self).retries@ == old(self).retries@,
    {
        if self.state == TransferState::Completed || self.state == TransferState::Errored {
            return Err(DropError::TransportFailure("already closed".to_owned()));
        }
        self.state = TransferState::Errored;
        Ok(())
    }

    /// The indices still lacking a verified chunk, in increasing order: the
    /// requests the receiver should issue next.
    pub fn pending_requests(&self) -> (r: Vec<u32>)
        requires
            self.wf(),
        ensures
            forall|k: int|
                0 <= k < r@.len() ==> (#[trigger] r@[k]) < self.verified@.len()
                    && !self.verified@[r@[k] as int],
            forall|k1: int, k2: int| 0 <= k1 < k2 < r@.len() ==> r@[k1] < r@[k2],
            forall|i: int|
                0 <= i < self.verified@.len() && !self.verified@[i] ==> r@.contains(i as u32),
    {
        let n = self.verified.len();
        proof {
            if self.metadata is Some {
                lemma_num_chunks_le_len(self.metadata->Some_0@.size, self.transfer@.chunk_size);
                assert(self.verified@.len() <= u32::MAX as int);
            } else {
                assert(self.verified@.len() == 0);
            }
        }
        let mut out: Vec<u32> = Vec::new();
        let mut i: usize = 0;
        while i < n
            invariant
                n == self.verified@.len(),
                n <= u32::MAX as usize,
                i <= n,
                forall|k: int|
                    0 <= k < out@.len() ==> (#[trigger] out@[k]) < i as u32 && !self.verified@[
                        out@[k] as int
                    ],
                forall|k1: int, k2: int| 0 <= k1 < k2 < out@.len() ==> out@[k1] < out@[k2],
                forall|j: int| 0 <= j < i as int && !self.verified@[j] ==> out@.contains(j as u32),
            decreases n - i,
        {
            if !self.verified[i] {
                let ghost before = out@;
                out.push(i as u32);
                proof {
                    broadcast use vstd::seq_lib::lemma_seq_contains_after_push;

                    assert(out@ == before.push(i as u32));
                    assert forall|j: int|
                        0 <= j < (i + 1) as int && !self.verified@[j] implies out@.contains(
                        j as u32,
                    ) by {
                        if j < i as int {
                            assert(before.contains(j as u32));
                        } else {
                            assert(out@[out@.len() - 1] == j as u32);
                        }
                    }
                }
            }
            i = i + 1;
        }
        out
    }

    /// Whether every chunk of the manifest has been verified and written.
    pub fn is_complete(&self) -> (r: bool)
        ensures
            r == (forall|i: int| 0 <= i < self.verified@.len() ==> self.verified@[i]),
    {
        let n = self.verified.len();
        let mut i: usize = 0;
        while i < n
            invariant
                n == self.verified@.len(),
                i <= n,
                forall|j: int| 0 <= j < i as int ==> self.verified@[j],
            decreases n - i,
        {
            if !self.verified[i] {
                return false;
            }
            i = i + 1;
        }
        true
    }
}

/// The sending endpoint of one transfer: it owns the source content, opens the
/// transfer with the manifest, answers chunk requests, and closes it.
pub struct Sender {
    /// Where this endpoint stands in the transfer.
    pub state: TransferState,
    /// The source content and its manifest bookkeeping.
    pub transfer: FileTransfer,
}

impl Sender {
    /// Well-formedness every handler preserves.
    pub open spec fn wf(&self) -> bool {
        self.transfer.wf()
    }

    /// A sender over prepared content, ready to open the transfer.
    pub fn new(transfer: FileTransfer) -> (r: Self)
        requires
            transfer.wf(),
        ensures
            r.wf(),
            r.state is Idle,
            r.transfer@ == transfer@,
    {
        Sender { state: TransferState::Idle, transfer }
    }

    /// Opens the transfer: builds the manifest over the source content and
    /// emits `StartTransfer` carrying it.
    pub fn start(&mut self) -> (r: Result<TransferCommand, DropError>)
        requires
            old(self).wf(),
        ensures
            final(self).wf(),
            !(old(self).state is Idle) ==> (r matches Err(e) && e is ProtocolViolation) && *final(self) == *old(self),
            old(self).state is Idle ==> (r matches Ok(cmd) && (cmd matches
                TransferCommand::StartTransfer(m) && metadata_matches(
                m@,
                old(self).transfer@.name,
                old(self).transfer@.data,
                old(self).transfer@.chunk_size,
            ) && final(self).transfer@.metadata == Some(m@)) && final(self).state is Transferring && final(self).transfer@.data == old(self).transfer@.data
                && final(self).transfer@.name == old(self).transfer@.name && final(self).transfer@.chunk_size == old(self).transfer@.chunk_size && final(self).transfer@.progress == old(self).transfer@.progress),
    {
        if !(self.state == TransferState::Idle) {
            return Err(DropError::ProtocolViolation("transfer already opened".to_owned()));
        }
        let meta = self.transfer.prepare_metadata();
        self.state = TransferState::Transferring;
        Ok(TransferCommand::StartTransfer(meta))
    }

    /// Answers one `RequestChunk` with the `SendChunk` holding exactly that
    /// chunk's bytes; past-the-end indices yield an empty delivery.
    pub fn on_request(&mut self, index: u32) -> (r: Result<TransferCommand, DropError>)
        requires
            old(self).wf(),
        ensures
            final(self).wf(),
            !(old(self).state is Transferring) ==> (r matches Err(e) && e is ProtocolViolation)
                && *final(self) == *old(self),
            old(self).state is Transferring ==> (r matches Ok(cmd) && (cmd matches
                TransferCommand::SendChunk(i, b) && i == index && b@ == chunk_of(
                old(self).transfer@.data,
                old(self).transfer@.chunk_size,
                index as int,
            ) && final(self).transfer@.progress == min(
                old(self).transfer@.progress + b@.len(),
                old(self).transfer@.data.len() as int,
            ) && old(self).transfer@.progress <= final(self).transfer@.progress) && final(self).state is Transferring && final(self).transfer@.data == old(self).transfer@.data
                && final(self).transfer@.name == old(self).transfer@.name && final(self).transfer@.chunk_size == old(self).transfer@.chunk_size && final(self).transfer@.metadata == old(self).transfer@.metadata),
    {
        if !(self.state == TransferState::Transferring) {
            return Err(DropError::ProtocolViolation("no transfer underway".to_owned()));
        }
        let bytes = self.transfer.read_chunk(index);
        Ok(TransferCommand::SendChunk(index, bytes))
    }

    /// Closes the transfer once the peer has verified every chunk, emitting
    /// `Complete`.
    pub fn finish(&mut self) -> (r: Result<TransferCommand, DropError>)
        requires
            old(self).wf(),
        ensures
            final(self).wf(),
            !(old(self).state is Transferring) ==> (r matches Err(e) && e is ProtocolViolation)
                && *final(self) == *old(self),
            old(self).state is Transferring ==> (r matches Ok(cmd) && cmd is Complete && final(self).state is Completed && final(self).transfer@ == old(self).transfer@),
    {
        if !(self.state == TransferState::Transferring) {
            return Err(DropError::ProtocolViolation("no transfer underway".to_owned()));
        }
        self.state = TransferState::Completed;
        Ok(TransferCommand::Complete)
    }

    /// Aborts the transfer from this side, emitting `Error` with the message;
    /// the sender is left `Errored`.
    pub fn abort(&mut self, message: String) -> (r: TransferCommand)
        requires
            old(self).wf(),
        ensures
            final(self).wf(),
            r matches TransferCommand::Error(s) && s@ == message@,
            final(self).state is Errored,
            final(self).transfer@ == old(self).transfer@,
    {
        self.state = TransferState::Errored;
        TransferCommand::Error(message)
    }

    /// Cancels the transfer: a non-terminal transfer is left `Errored`;
    /// cancelling a finished one changes nothing and reports it closed.
    pub fn cancel(&mut self) -> (r: Result<(), DropError>)
        requires
            old(self).wf(),
        ensures
            final(self).wf(),
            old(self).state is Completed || old(self).state is Errored ==> (r matches Err(e)
                && e is TransportFailure) && *final(self) == *old(self),
            !(old(self).state is Completed) && !(old(self).state is Errored) ==> r is Ok && final(self).state is Errored && final(self).transfer@ == old(self).transfer@,
    {
        if self.state == TransferState::Completed || self.state == TransferState::Errored {
            return Err(DropError::TransportFailure("already closed".to_owned()));
        }
        self.state = TransferState::Errored;
        Ok(())
    }
}

} // verus!

//! The bookkeeping of a batch transfer: the declared files, their total size,
//! the answer to an offer, and how far each file has come.

use vstd::prelude::*;
use crate::framing::ACCEPT_BYTE;

verus! {

/// Port of the transfer channel.
pub const FILE_TRANSFER_PORT: u16 = 5001;

/// The largest chunk read or written at once: one mebibyte.
pub const CHUNK_LEN: usize = 1048576;

/// One file of a batch, as its header declares it. `size` is authoritative:
/// exactly that many bytes of the file follow on the channel.
#[derive(Debug)]
pub struct FileMetadata {
    pub name: String,
    pub size: u64,
}

impl Clone for FileMetadata {
    fn clone(&self) -> (r: FileMetadata)
        ensures
            r == *self,
    {
        FileMetadata { name: self.name.clone(), size: self.size }
    }
}

/// How a transfer failed.
#[derive(Debug, Clone, Copy, PartialEq, Eq, Structural)]
pub enum TransferError {
    /// The recipient answered the offer with no.
    Rejected,
    /// The connection closed before a file's declared bytes had all come.
    ConnectionAborted,
    /// A local file ended before the size that was declared for it.
    FileEndedEarly,
    /// The declared sizes of a batch add up past the largest `u64`.
    SizeOverflow,
}

impl TransferError {
    pub open spec fn spec_message(self) -> Seq<char> {
        match self {
            TransferError::Rejected => "File transfer rejected by recipient"@,
            TransferError::ConnectionAborted => "Connection closed prematurely"@,
            TransferError::FileEndedEarly => "File ended before its declared size"@,
            TransferError::SizeOverflow => "Declared file sizes overflow"@,
        }
    }

    /// A sentence that says what went wrong.
    pub fn message(&self) -> (r: String)
        ensures
            r@ == self.spec_message(),
    {
        match self {
            TransferError::Rejected => "File transfer rejected by recipient".to_string(),
            TransferError::ConnectionAborted => "Connection closed prematurely".to_string(),
            TransferError::FileEndedEarly => "File ended before its declared size".to_string(),
            TransferError::SizeOverflow => "Declared file sizes overflow".to_string(),
        }
    }
}

/// The sum of the declared sizes of `files`.
pub open spec fn sum_sizes(files: Seq<FileMetadata>) -> nat
    decreases files.len(),
{
    if files.len() == 0 {
        0
    } else {
        sum_sizes(files.drop_last()) + files.last().size as nat
    }
}

/// The total size of a batch, or `SizeOverflow` when it does not fit a `u64`.
pub fn total_size(files: &Vec<FileMetadata>) -> (r: Result<u64, TransferError>)
    ensures
        sum_sizes(files@) <= u64::MAX ==> r == Ok::<u64, TransferError>(sum_sizes(files@) as u64),
        sum_sizes(files@) > u64::MAX ==> r == Err::<u64, TransferError>(TransferError::SizeOverflow),
{
    let mut total: u64 = 0;
    let mut i: usize = 0;
    while i < files.len()
        invariant
            i <= files@.len(),
            total == sum_sizes(files@.subrange(0, i as int)),
        decreases files@.len() - i,
    {
        assert(files@.subrange(0, i + 1).drop_last() =~= files@.subrange(0, i as int));
        if files[i].size > u64::MAX - total {
            proof {
                lemma_sum_sizes_prefix(files@, i + 1);
            }
            return Err(TransferError::SizeOverflow);
        }
        total = total + files[i].size;
        i = i + 1;
    }
    assert(files@.subrange(0, i as int) =~= files@);
    Ok(total)
}

/// A prefix of a batch declares no more than the whole batch.
proof fn lemma_sum_sizes_prefix(files: Seq<FileMetadata>, k: int)
    requires
        0 <= k <= files.len(),
    ensures
        sum_sizes(files.subrange(0, k)) <= sum_sizes(files),
    decreases files.len(),
{
    if k < files.len() {
        assert(files.drop_last().subrange(0, k) =~= files.subrange(0, k));
        lemma_sum_sizes_prefix(files.drop_last(), k);
    } else {
        assert(files.subrange(0, k) =~= files);
    }
}

/// What the receiver's answer to an offer means: go on on acceptance, else
/// the batch is rejected.
pub fn check_answer(answer: u8) -> (r: Result<(), TransferError>)
    ensures
        answer == ACCEPT_BYTE ==> r is Ok,
        answer != ACCEPT_BYTE ==> r == Err::<(), TransferError>(TransferError::Rejected),
{
    if answer == ACCEPT_BYTE {
        Ok(())
    } else {
        Err(TransferError::Rejected)
    }
}

/// How far one file of a batch has come, sent or received. The count of
/// bytes moved never passes the declared size.
pub struct FileProgress {
    size: u64,
    done: u64,
}

impl FileProgress {
    pub closed spec fn spec_size(&self) -> u64 {
        self.size
    }

    pub closed spec fn spec_done(&self) -> u64 {
        self.done
    }

    pub open spec fn wf(&self) -> bool {
        self.spec_done() <= self.spec_size()
    }

    /// A file of `size` declared bytes, none moved yet.
    pub fn new(size: u64) -> (r: FileProgress)
        ensures
            r.wf(),
            r.spec_size() == size,
            r.spec_done() == 0,
    {
        FileProgress { size, done: 0 }
    }

    /// The declared size.
    pub fn size(&self) -> (r: u64)
        ensures
            r == self.spec_size(),
    {
        self.size
    }

    /// The bytes moved so far.
    pub fn done(&self) -> (r: u64)
        ensures
            r == self.spec_done(),
    {
        self.done
    }

    /// Whether every declared byte has been moved. A file of no bytes is
    /// complete from the start, so it gives no progress step.
    pub fn is_complete(&self) -> (r: bool)
        requires
            self.wf(),
        ensures
            r == (self.spec_done() == self.spec_size()),
    {
        self.done == self.size
    }

    /// How many bytes to move next with a buffer of `buffer_len` bytes: never
    /// past the declared size.
    pub fn chunk_len(&self, buffer_len: usize) -> (r: usize)
        requires
            self.wf(),
        ensures
            r == (if buffer_len as int <= self.spec_size() - self.spec_done() {
                buffer_len as int
            } else {
                self.spec_size() - self.spec_done()
            }),
    {
        let remaining = self.size - self.done;
        if buffer_len as u64 <= remaining {
            buffer_len
        } else {
            remaining as usize
        }
    }

    /// Records a chunk of `n` bytes and returns the bytes moved so far with
    /// the declared size, whose ratio is the completion. A chunk of no bytes
    /// before completion means the stream ended early: `None`, and nothing
    /// changes.
    pub fn record(&mut self, n: usize) -> (r: Option<(u64, u64)>)
        requires
            old(self).wf(),
            n <= old(self).spec_size() - old(self).spec_done(),
        ensures
            final(self).wf(),
            final(self).spec_size() == old(self).spec_size(),
            n == 0 ==> r is None && final(self).spec_done() == old(self).spec_done(),
            n > 0 ==> final(self).spec_done() == old(self).spec_done() + n && r == Some(
                (final(self).spec_done(), final(self).spec_size()),
            ),
    {
        if n == 0 {
            return None;
        }
        self.done = self.done + n as u64;
        Some((self.done, self.size))
    }
}

/// What the driver of a batch does next.
#[derive(Debug, Clone, Copy, PartialEq, Eq, Structural)]
pub enum BatchStep {
    /// Open (on the receiver: create or truncate) the file at this index.
    Open(usize),
    /// Move at most `max` bytes of the file at index `file`.
    Transfer { file: usize, max: usize },
    /// Every declared byte of this file has moved: report it complete.
    Close(usize),
    /// Every file of the batch is complete.
    Finished,
}

/// The walk through a batch, one file after the other: no byte of a file
/// moves before every byte of the files before it has.
pub struct BatchProgress {
    sizes: Vec<u64>,
    index: usize,
    opened: bool,
    current: FileProgress,
}

impl BatchProgress {
    pub closed spec fn spec_sizes(&self) -> Seq<u64> {
        self.sizes@
    }

    /// The index of the file at hand; the number of files once finished.
    pub closed spec fn spec_index(&self) -> nat {
        self.index as nat
    }

    pub closed spec fn spec_opened(&self) -> bool {
        self.opened
    }

    /// The bytes of the file at hand moved so far.
    pub closed spec fn spec_done(&self) -> nat {
        self.current.spec_done() as nat
    }

    pub closed spec fn wf(&self) -> bool {
        &&& self.index <= self.sizes@.len()
        &&& self.current.wf()
        &&& self.index < self.sizes@.len() ==> self.current.spec_size() == self.sizes@[self.index as int]
        &&& self.index == self.sizes@.len() ==> self.current.spec_done() == 0 && !self.opened
    }

    /// The step that the state calls for.
    pub open spec fn spec_step(&self, buffer_len: usize) -> BatchStep {
        if self.spec_index() >= self.spec_sizes().len() {
            BatchStep::Finished
        } else if !self.spec_opened() {
            BatchStep::Open(self.spec_index() as usize)
        } else if self.spec_done() < self.spec_sizes()[self.spec_index() as int] {
            let left = self.spec_sizes()[self.spec_index() as int] - self.spec_done();
            BatchStep::Transfer {
                file: self.spec_index() as usize,
                max: if buffer_len as int <= left { buffer_len } else { left as usize },
            }
        } else {
            BatchStep::Close(self.spec_index() as usize)
        }
    }

    /// The walk through files of the declared sizes, before the first one.
    pub fn new(files: &Vec<FileMetadata>) -> (r: BatchProgress)
        ensures
            r.wf(),
            r.spec_sizes() == files@.map_values(|f: FileMetadata| f.size),
            r.spec_index() == 0,
            !r.spec_opened(),
            r.spec_done() == 0,
    {
        let mut sizes: Vec<u64> = Vec::new();
        let mut i: usize = 0;
        while i < files.len()
            invariant
                i <= files@.len(),
                sizes@ == files@.subrange(0, i as int).map_values(|f: FileMetadata| f.size),
            decreases files@.len() - i,
        {
            sizes.push(files[i].size);
            i = i + 1;
            assert(sizes@ =~= files@.subrange(0, i as int).map_values(|f: FileMetadata| f.size));
        }
        assert(files@.subrange(0, i as int) =~= files@);
        let first = if sizes.len() > 0 { sizes[0] } else { 0 };
        BatchProgress { sizes, index: 0, opened: false, current: FileProgress::new(first) }
    }

    /// What to do next, moving at most `buffer_len` bytes at once.
    pub fn next_step(&self, buffer_len: usize) -> (r: BatchStep)
        requires
            self.wf(),
        ensures
            r == self.spec_step(buffer_len),
    {
        if self.index >= self.sizes.len() {
            BatchStep::Finished
        } else if !self.opened {
            BatchStep::Open(self.index)
        } else if !self.current.is_complete() {
            BatchStep::Transfer { file: self.index, max: self.current.chunk_len(buffer_len) }
        } else {
            BatchStep::Close(self.index)
        }
    }

    /// The file at hand has been opened.
    pub fn opened(&mut self)
        requires
            old(self).wf(),
            old(self).spec_index() < old(self).spec_sizes().len(),
            !old(self).spec_opened(),
        ensures
            final(self).wf(),
            final(self).spec_sizes() == old(self).spec_sizes(),
            final(self).spec_index() == old(self).spec_index(),
            final(self).spec_opened(),
            final(self).spec_done() == old(self).spec_done(),
    {
        self.opened = true;
    }

    /// Records `n` bytes of the file at hand and returns the bytes moved so
    /// far with the file's declared size; `None` when no byte came, which
    /// means the stream ended early.
    pub fn record(&mut self, n: usize) -> (r: Option<(u64, u64)>)
        requires
            old(self).wf(),
            old(self).spec_index() < old(self).spec_sizes().len(),
            old(self).spec_opened(),
            n <= old(self).spec_sizes()[old(self).spec_index() as int] - old(self).spec_done(),
        ensures
            final(self).wf(),
            final(self).spec_sizes() == old(self).spec_sizes(),
            final(self).spec_index() == old(self).spec_index(),
            final(self).spec_opened(),
            n == 0 ==> r is None && final(self).spec_done() == old(self).spec_done(),
            n > 0 ==> final(self).spec_done() == old(self).spec_done() + n && r == Some(
                (
                    final(self).spec_done() as u64,
                    final(self).spec_sizes()[final(self).spec_index() as int],
                ),
            ),
    {
        self.current.record(n)
    }

    /// A file of no bytes is closed as soon as it is opened: it gives no
    /// transfer step, so no progress report and no division by its size.
    pub proof fn lemma_empty_file_has_no_chunks(&self, buffer_len: usize)
        requires
            self.wf(),
            self.spec_index() < self.spec_sizes().len(),
            self.spec_sizes()[self.spec_index() as int] == 0,
            self.spec_opened(),
        ensures
            self.spec_step(buffer_len) == BatchStep::Close(self.spec_index() as usize),
    {
    }

    /// The file at hand is complete; go on to the next one.
    pub fn closed(&mut self)
        requires
            old(self).wf(),
            old(self).spec_index() < old(self).spec_sizes().len(),
            old(self).spec_opened(),
            old(self).spec_done() == old(self).spec_sizes()[old(self).spec_index() as int],
        ensures
            final(self).wf(),
            final(self).spec_sizes() == old(self).spec_sizes(),
            final(self).spec_index() == old(self).spec_index() + 1,
            !final(self).spec_opened(),
            final(self).spec_done() == 0,
    {
        let count = self.sizes.len();
        assert(self.index < count);
        self.index = self.index + 1;
        self.opened = false;
        let next = if self.index < self.sizes.len() { self.sizes[self.index] } else { 0 };
        self.current = FileProgress::new(next);
    }
}

} // verus!

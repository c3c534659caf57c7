//! Raw image file for virtio-blk: its geometry, and the progress of one transfer.
//!
//! The file itself is read and written elsewhere. A transfer says what to ask the file for next
//! and takes the answer.
use vstd::prelude::*;

use super::SECTOR;

verus! {

broadcast use vstd::group_vstd_default;

/// Why a transfer was refused or cut short.
#[derive(Debug, Clone, Copy, PartialEq, Eq, Structural)]
pub enum TransferError {
    /// A read that does not end inside the image.
    ReadPastEnd,
    /// A write that does not end inside the image.
    WritePastEnd,
    /// A write to a read-only image.
    ReadOnly,
    /// The file took no more bytes.
    ShortWrite,
}

/// Geometry of the host file behind one virtio-blk device.
#[derive(Debug, Clone, Copy, PartialEq, Eq, Structural)]
pub struct FileBackend {
    bytes: u64,
    read_only: bool,
}

/// The `len` bytes of `content` at `offset`. Bytes that the file does not have read as zero.
pub open spec fn file_range(content: Seq<u8>, offset: int, len: nat) -> Seq<u8> {
    Seq::new(
        len,
        |i: int|
            if 0 <= offset + i < content.len() {
                content[offset + i]
            } else {
                0
            },
    )
}

impl FileBackend {
    /// Usable bytes of the image.
    pub closed spec fn size(&self) -> u64 {
        self.bytes
    }

    /// The image takes no writes.
    pub closed spec fn is_read_only(&self) -> bool {
        self.read_only
    }

    /// The image holds whole sectors.
    pub open spec fn wf(&self) -> bool {
        self.size() % SECTOR == 0
    }

    /// Image size in sectors.
    pub open spec fn sectors(&self) -> u64 {
        self.size() / SECTOR
    }

    /// An image of `len` bytes. Capacity is the file length rounded down to a sector.
    pub fn new(len: u64, read_only: bool) -> (b: Self)
        ensures
            b.wf(),
            b.size() == len - len % SECTOR,
            b.is_read_only() == read_only,
    {
        FileBackend { bytes: len - len % SECTOR, read_only }
    }

    /// Image size in 512-byte sectors.
    pub fn capacity(&self) -> (n: u64)
        ensures
            n == self.sectors(),
    {
        self.bytes / SECTOR
    }

    /// Whether the image takes no writes.
    pub fn read_only(&self) -> (b: bool)
        ensures
            b == self.is_read_only(),
    {
        self.read_only
    }

    /// Begin to read `len` bytes at byte `offset`.
    pub fn read_at(&self, len: usize, offset: u64) -> (r: Result<ReadAt, TransferError>)
        ensures
            r is Ok <==> offset + len <= self.size(),
            r matches Ok(t) ==> t.wf() && t.begun(len as nat, offset),
            r matches Err(e) ==> e == TransferError::ReadPastEnd,
    {
        if offset > self.bytes || len as u64 > self.bytes - offset {
            return Err(TransferError::ReadPastEnd);
        }
        Ok(ReadAt { offset, len, buf: Vec::new() })
    }

    /// Begin to write `data` at byte `offset`. Does not read-modify-write the file.
    pub fn write_at(&self, data: Vec<u8>, offset: u64) -> (r: Result<WriteAt, TransferError>)
        ensures
            r is Ok <==> !self.is_read_only() && offset + data@.len() <= self.size(),
            r matches Ok(t) ==> t.wf() && t.begun(data@, offset),
            r matches Err(TransferError::ReadOnly) <==> self.is_read_only(),
            r matches Err(TransferError::WritePastEnd) <==> !self.is_read_only() && offset
                + data@.len() > self.size(),
    {
        if self.read_only {
            return Err(TransferError::ReadOnly);
        }
        if offset > self.bytes || data.len() as u64 > self.bytes - offset {
            return Err(TransferError::WritePastEnd);
        }
        Ok(WriteAt { offset, data, done: 0 })
    }
}

/// A read in progress.
#[derive(Debug)]
pub struct ReadAt {
    offset: u64,
    len: usize,
    buf: Vec<u8>,
}

impl ReadAt {
    /// First byte of the transfer in the file.
    pub closed spec fn start(&self) -> u64 {
        self.offset
    }

    /// How many bytes were asked for.
    pub closed spec fn total(&self) -> nat {
        self.len as nat
    }

    /// Bytes read so far.
    pub closed spec fn got(&self) -> Seq<u8> {
        self.buf@
    }

    /// The transfer stays in the address space, and holds no more than was asked for.
    pub open spec fn wf(&self) -> bool {
        &&& self.start() + self.total() <= u64::MAX
        &&& self.total() <= usize::MAX
        &&& self.got().len() <= self.total()
    }

    /// Nothing was read yet of the `len` bytes at `offset`.
    pub open spec fn begun(&self, len: nat, offset: u64) -> bool {
        self.start() == offset && self.total() == len && self.got() == Seq::<u8>::empty()
    }

    /// Everything that was asked for is there.
    pub open spec fn complete(&self) -> bool {
        self.got().len() == self.total()
    }

    /// What was read so far is what a file with `content` holds there.
    pub open spec fn agrees_with(&self, content: Seq<u8>) -> bool {
        self.got() == file_range(content, self.start() as int, self.got().len())
    }

    /// Where to read next, and how much, unless the transfer is complete.
    pub fn next(&self) -> (r: Option<(u64, usize)>)
        requires
            self.wf(),
        ensures
            r is None <==> self.complete(),
            r matches Some((at, n)) ==> at == self.start() + self.got().len() && n == self.total()
                - self.got().len(),
    {
        if self.buf.len() >= self.len {
            return None;
        }
        Some((self.offset + self.buf.len() as u64, self.len - self.buf.len()))
    }

    /// Take what the file gave. Nothing means that the file ends: sparse holes become zeros.
    pub fn feed(&mut self, chunk: &[u8])
        requires
            old(self).wf(),
            !old(self).complete(),
            chunk@.len() <= old(self).total() - old(self).got().len(),
        ensures
            final(self).wf(),
            final(self).start() == old(self).start(),
            final(self).total() == old(self).total(),
            chunk@.len() > 0 ==> final(self).got() == old(self).got() + chunk@,
            chunk@.len() == 0 ==> final(self).got() == old(self).got() + Seq::new(
                (old(self).total() - old(self).got().len()) as nat,
                |i: int| 0u8,
            ),
    {
        if chunk.len() == 0 {
            while self.buf.len() < self.len
                invariant
                    self.buf@.len() <= self.len,
                    self.offset == old(self).offset,
                    self.len == old(self).len,
                    old(self).buf@.len() <= self.buf@.len(),
                    self.buf@ == old(self).buf@ + Seq::new(
                        (self.buf@.len() - old(self).buf@.len()) as nat,
                        |i: int| 0u8,
                    ),
                decreases self.len - self.buf@.len(),
            {
                self.buf.push(0);
            }
            return;
        }
        let mut i: usize = 0;
        while i < chunk.len()
            invariant
                i <= chunk@.len(),
                self.offset == old(self).offset,
                self.len == old(self).len,
                self.buf@ == old(self).buf@ + chunk@.subrange(0, i as int),
            decreases chunk@.len() - i,
        {
            self.buf.push(chunk[i]);
            i = i + 1;
        }
        assert(chunk@.subrange(0, i as int) =~= chunk@);
    }

    /// The bytes of a complete transfer.
    pub fn into_bytes(self) -> (buf: Vec<u8>)
        ensures
            buf@ == self.got(),
    {
        self.buf
    }
}

/// A write in progress.
#[derive(Debug)]
pub struct WriteAt {
    offset: u64,
    data: Vec<u8>,
    done: usize,
}

impl WriteAt {
    /// First byte of the transfer in the file.
    pub closed spec fn start(&self) -> u64 {
        self.offset
    }

    /// The bytes to write.
    pub closed spec fn bytes(&self) -> Seq<u8> {
        self.data@
    }

    /// How many of them the file took.
    pub closed spec fn taken(&self) -> nat {
        self.done as nat
    }

    /// The transfer stays in the address space.
    pub open spec fn wf(&self) -> bool {
        self.start() + self.bytes().len() <= u64::MAX && self.taken() <= self.bytes().len()
    }

    /// Nothing of `data` was written at `offset` yet.
    pub open spec fn begun(&self, data: Seq<u8>, offset: u64) -> bool {
        self.start() == offset && self.bytes() == data && self.taken() == 0
    }

    /// The file took everything.
    pub open spec fn complete(&self) -> bool {
        self.taken() == self.bytes().len()
    }

    /// Where to write next, and what, unless the transfer is complete.
    pub fn next(&self) -> (r: Option<(u64, &[u8])>)
        requires
            self.wf(),
        ensures
            r is None <==> self.complete(),
            r matches Some((at, rest)) ==> at == self.start() + self.taken() && rest@
                == self.bytes().subrange(self.taken() as int, self.bytes().len() as int),
    {
        if self.done >= self.data.len() {
            return None;
        }
        let (_, rest) = self.data.as_slice().split_at(self.done);
        Some((self.offset + self.done as u64, rest))
    }

    /// The file took `n` more bytes. A file that takes none fails the write.
    pub fn wrote(&mut self, n: usize) -> (r: Result<(), TransferError>)
        requires
            old(self).wf(),
            n <= old(self).bytes().len() - old(self).taken(),
        ensures
            final(self).wf(),
            final(self).start() == old(self).start(),
            final(self).bytes() == old(self).bytes(),
            final(self).taken() == old(self).taken() + n,
            r == (if n == 0 {
                Err::<(), TransferError>(TransferError::ShortWrite)
            } else {
                Ok(())
            }),
    {
        if n == 0 {
            return Err(TransferError::ShortWrite);
        }
        let all: usize = self.data.len();
        assert(self.done + n <= all);
        self.done = self.done + n;
        Ok(())
    }
}

/// A read that was fed from a file agrees with the file. Each answer is a run of the file at the
/// place that was asked for; an empty one means that the file ends there.
pub proof fn law_read_agrees_with_the_file(
    before: ReadAt,
    after: ReadAt,
    content: Seq<u8>,
    chunk: Seq<u8>,
)
    requires
        before.wf(),
        before.agrees_with(content),
        after.start() == before.start(),
        after.total() == before.total(),
        chunk.len() > 0 ==> {
            let at = before.start() + before.got().len();
            &&& at + chunk.len() <= content.len()
            &&& chunk == content.subrange(at, at + chunk.len())
            &&& after.got() == before.got() + chunk
        },
        chunk.len() == 0 ==> {
            &&& content.len() <= before.start() + before.got().len()
            &&& after.got() == before.got() + Seq::new(
                (before.total() - before.got().len()) as nat,
                |i: int| 0u8,
            )
        },
    ensures
        after.agrees_with(content),
{
    let want = file_range(content, after.start() as int, after.got().len());
    let had = file_range(content, before.start() as int, before.got().len());
    assert forall|i: int| 0 <= i < want.len() implies after.got()[i] == want[i] by {
        if i < before.got().len() {
            assert(after.got()[i] == had[i]);
        } else if chunk.len() > 0 {
            assert(after.got()[i] == chunk[i - before.got().len()]);
        }
    }
    assert(after.got() =~= want);
}

} // verus!

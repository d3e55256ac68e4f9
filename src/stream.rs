//! A pull-based streamer that hands out a file's bytes in chunks and never
//! emits more than the length recorded when the file was opened.
//!
//! The caller asks [`FileStream::read_size`] how much to read, performs the
//! read, and hands what it got to [`FileStream::accept`], which returns the
//! chunk to send or `None` once the stream has ended.
use vstd::prelude::*;
use crate::conditional::FileMetadata;

verus! {

#[verifier::external_type_specification]
#[verifier::external_body]
pub struct ExBytes(bytes::Bytes);

/// The bytes that a `Bytes` buffer holds.
pub uninterp spec fn bytes_content(b: bytes::Bytes) -> Seq<u8>;

pub assume_specification[ bytes::Bytes::len ](b: &bytes::Bytes) -> (r: usize)
    ensures
        r == bytes_content(*b).len(),
;

pub assume_specification[ bytes::Bytes::truncate ](b: &mut bytes::Bytes, len: usize)
    ensures
        bytes_content(*final(b)) == if len < bytes_content(*old(b)).len() {
            bytes_content(*old(b)).take(len as int)
        } else {
            bytes_content(*old(b))
        },
;

/// The read buffer size used where the file system gives no block size.
pub const DEFAULT_BLOCK_SIZE: usize = 8192;

pub open spec fn min_nat(a: nat, b: nat) -> nat {
    if a <= b {
        a
    } else {
        b
    }
}

/// The chunk size for a file: its block size (or the default), but never more
/// than its length.
pub open spec fn buf_size_of(meta: FileMetadata) -> nat {
    let block = match meta.block_size {
        Some(b) => b as nat,
        None => DEFAULT_BLOCK_SIZE as nat,
    };
    min_nat(block, meta.len as nat)
}

/// The chunk size for a file: its block size, or 8192 bytes where that is not
/// known, but never more than the file's length.
pub fn optimal_buf_size(meta: &FileMetadata) -> (r: usize)
    ensures
        r as nat == buf_size_of(*meta),
{
    let block = match meta.block_size {
        Some(b) => b,
        None => DEFAULT_BLOCK_SIZE,
    };
    if (block as u64) <= meta.len {
        block
    } else {
        meta.len as usize
    }
}

/// The lengths of the chunks that [`FileStream::accept`] emits when
/// `remaining` bytes are still owed and successive reads return `reads` bytes.
pub open spec fn emitted(remaining: nat, reads: Seq<nat>) -> Seq<nat>
    decreases reads.len(),
{
    if remaining == 0 || reads.len() == 0 || reads[0] == 0 {
        Seq::empty()
    } else {
        let c = min_nat(reads[0], remaining);
        seq![c] + emitted((remaining - c) as nat, reads.drop_first())
    }
}

pub open spec fn total(s: Seq<nat>) -> nat
    decreases s.len(),
{
    if s.len() == 0 {
        0
    } else {
        s[0] + total(s.drop_first())
    }
}

/// The per-response state of a streamed file.
pub struct FileStream {
    remaining: u64,
    chunk_size: usize,
    ended: bool,
}

impl FileStream {
    /// Bytes still owed.
    pub closed spec fn remaining(&self) -> nat {
        self.remaining as nat
    }

    /// The most that one read asks for.
    pub closed spec fn chunk_size(&self) -> nat {
        self.chunk_size as nat
    }

    /// Whether a read found the end of the file before all was sent.
    pub closed spec fn ended(&self) -> bool {
        self.ended
    }

    /// Whether more chunks can come.
    pub open spec fn active(&self) -> bool {
        self.remaining() > 0 && !self.ended()
    }

    /// A stream owing `len` bytes that reads `chunk_size` bytes at a time.
    pub fn new(chunk_size: usize, len: u64) -> (r: FileStream)
        ensures
            r.remaining() == len,
            r.chunk_size() == chunk_size,
            !r.ended(),
    {
        FileStream { remaining: len, chunk_size, ended: false }
    }

    /// How many bytes to read next, or `None` once the stream has ended.
    pub fn read_size(&self) -> (r: Option<usize>)
        ensures
            r == if self.active() {
                Some(self.chunk_size() as usize)
            } else {
                None
            },
    {
        if self.remaining > 0 && !self.ended {
            Some(self.chunk_size)
        } else {
            None
        }
    }

    /// Bytes still owed.
    pub fn remaining_len(&self) -> (r: u64)
        ensures
            r == self.remaining(),
    {
        self.remaining
    }

    /// Takes the bytes that one read returned and gives the chunk to emit. An
    /// empty read ends the stream early; a read past the owed length is cut to
    /// it. Nothing is emitted once the stream has ended.
    pub fn accept(&mut self, data: bytes::Bytes) -> (r: Option<bytes::Bytes>)
        ensures
            final(self).chunk_size() == old(self).chunk_size(),
            !old(self).active() ==> r is None && *final(self) == *old(self),
            old(self).active() && bytes_content(data).len() == 0 ==> r is None
                && final(self).ended() && final(self).remaining() == old(self).remaining(),
            old(self).active() && bytes_content(data).len() > 0 ==> {
                let c = min_nat(bytes_content(data).len(), old(self).remaining());
                &&& r matches Some(chunk)
                &&& bytes_content(chunk) == bytes_content(data).take(c as int)
                &&& final(self).remaining() == old(self).remaining() - c
                &&& !final(self).ended()
            },
    {
        if self.remaining == 0 || self.ended {
            return None;
        }
        let n = data.len();
        if n == 0 {
            self.ended = true;
            return None;
        }
        let mut chunk = data;
        if n as u64 > self.remaining {
            chunk.truncate(self.remaining as usize);
            self.remaining = 0;
        } else {
            self.remaining = self.remaining - n as u64;
            assert(bytes_content(data).take(n as int) =~= bytes_content(data));
        }
        Some(chunk)
    }
}

/// Whatever the chunk size, the chunks of a file that reads back `file_len`
/// bytes before an empty read add up to the lesser of that length and the
/// length owed, and none is longer than the chunk size.
pub proof fn lemma_stream_length(len: nat, chunk: nat, reads: Seq<nat>, file_len: nat)
    requires
        reads.len() >= 1,
        reads.last() == 0,
        forall|i: int| 0 <= i < reads.len() - 1 ==> 1 <= #[trigger] reads[i] <= chunk,
        total(reads.drop_last()) == file_len,
    ensures
        total(emitted(len, reads)) == min_nat(file_len, len),
        forall|i: int| 0 <= i < emitted(len, reads).len() ==> #[trigger] emitted(len, reads)[i] <= chunk,
    decreases reads.len(),
{
    let e = emitted(len, reads);
    if len == 0 {
    } else if reads[0] == 0 {
        if reads.len() > 1 {
            assert(1 <= reads[0]);
        }
        assert(reads.drop_last() =~= Seq::<nat>::empty());
    } else {
        assert(reads.len() > 1);
        let r0 = reads[0];
        let c = min_nat(r0, len);
        let rest = reads.drop_first();
        assert(rest.drop_last() =~= reads.drop_last().drop_first());
        assert forall|i: int| 0 <= i < rest.len() - 1 implies 1 <= #[trigger] rest[i] <= chunk by {
            assert(rest[i] == reads[i + 1]);
        }
        assert(rest.last() == reads.last());
        assert(reads.drop_last()[0] == r0);
        lemma_stream_length((len - c) as nat, chunk, rest, (file_len - r0) as nat);
        let tail = emitted((len - c) as nat, rest);
        assert(e == seq![c] + tail);
        assert((seq![c] + tail).drop_first() =~= tail);
        assert forall|i: int| 0 <= i < e.len() implies #[trigger] e[i] <= chunk by {
            if i > 0 {
                assert(e[i] == tail[i - 1]);
            }
        }
    }
}

} // verus!

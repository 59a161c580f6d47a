//! The buffer between a blocking byte source and a coder that may stop at
//! any byte: what has been read and not yet taken, when to read more, when
//! to flush, and when a `read` is over. The source and the coder stay
//! outside; they are told what to do and report what happened.

use vstd::prelude::*;

verus! {

use crate::buffer::alloc_cell;
use crate::interface::CoderResult;

/// Size of the buffer where the caller asks for none.
pub const DEFAULT_BUFFER_SIZE: usize = 4096;

/// The unread bytes are moved to the front once less than this much room
/// is left behind the read cursor.
pub const COMPACTION_MARGIN: usize = 256;

/// What a read from the source gave.
#[derive(Clone, Copy, Debug, PartialEq, Eq, Structural)]
pub enum ReadEvent {
    /// The read was interrupted and gave nothing.
    Interrupted,
    /// The read failed.
    Failed,
    /// This many bytes were put behind the bytes already in the buffer;
    /// none means that the source is at its end.
    Data(usize),
}

/// How one round of a `read` ended.
#[derive(Clone, Copy, Debug, PartialEq, Eq, Structural)]
pub enum ReadVerdict {
    /// Go on with another round; `needs_input` says whether the buffer
    /// ran empty.
    Continue { needs_input: bool },
    /// Hand out the failure of the source that was kept back until the
    /// bytes before it were used up.
    ReadError,
    /// The coder found its input invalid.
    InvalidData,
    /// Everything was read, coded and flushed.
    Finished,
}

/// Cursors and flags of the buffer.
pub struct GenReader {
    pub input_buffer: Vec<u8>,
    /// Start of the bytes not yet taken by the coder.
    pub input_offset: usize,
    /// End of the bytes read from the source.
    pub input_len: usize,
    pub input_eof: bool,
    pub has_flushed: bool,
    /// A failure of the source waits to be handed out.
    pub read_error: bool,
}

impl GenReader {
    /// The cursors lie in the buffer, the read cursor not behind the other.
    pub open spec fn wf(&self) -> bool {
        self.input_offset <= self.input_len <= self.input_buffer.len()
    }

    /// The bytes read from the source and not yet taken by the coder.
    pub open spec fn unread(&self) -> Seq<u8> {
        self.input_buffer@.subrange(self.input_offset as int, self.input_len as int)
    }

    /// Whether `copy_to_front` moves the unread bytes: the read cursor has
    /// less than `COMPACTION_MARGIN` bytes of room behind it and the unread
    /// bytes are fewer than the bytes before them.
    pub open spec fn compacts(&self) -> bool {
        self.input_offset != self.input_buffer.len() && self.input_buffer.len() - self.input_offset
            < COMPACTION_MARGIN && self.input_len - self.input_offset < self.input_offset
    }

    /// An empty reader over `buffer`. A coder that needs no flush counts
    /// as flushed from the start.
    pub fn new(buffer: Vec<u8>, needs_flush: bool) -> (r: Self)
        ensures
            r.wf(),
            r.input_buffer == buffer,
            r.input_offset == 0,
            r.input_len == 0,
            !r.input_eof,
            r.has_flushed == !needs_flush,
            !r.read_error,
    {
        GenReader {
            input_buffer: buffer,
            input_offset: 0,
            input_len: 0,
            input_eof: false,
            has_flushed: !needs_flush,
            read_error: false,
        }
    }

    /// Makes room behind the unread bytes where that is cheap: with the
    /// read cursor at the end of the buffer both cursors go back to the
    /// start, and where `compacts` holds the unread bytes move to the
    /// front. The unread bytes stay what they were.
    pub fn copy_to_front(&mut self)
        requires
            old(self).wf(),
        ensures
            final(self).wf(),
            final(self).unread() == old(self).unread(),
            final(self).input_buffer.len() == old(self).input_buffer.len(),
            final(self).input_eof == old(self).input_eof,
            final(self).has_flushed == old(self).has_flushed,
            final(self).read_error == old(self).read_error,
            old(self).input_offset == old(self).input_buffer.len() ==> {
                &&& final(self).input_offset == 0
                &&& final(self).input_len == 0
                &&& final(self).input_buffer@ == old(self).input_buffer@
            },
            old(self).compacts() ==> {
                &&& final(self).input_offset == 0
                &&& final(self).input_len == old(self).input_len - old(self).input_offset
                &&& final(self).input_buffer@ == old(self).unread() + old(self).input_buffer@.skip(
                    old(self).input_len - old(self).input_offset,
                )
            },
            old(self).input_offset != old(self).input_buffer.len() && !old(self).compacts() ==> {
                &&& final(self).input_offset == old(self).input_offset
                &&& final(self).input_len == old(self).input_len
                &&& final(self).input_buffer@ == old(self).input_buffer@
            },
    {
        let avail_in = self.input_len - self.input_offset;
        if self.input_offset == self.input_buffer.len() {
            self.input_offset = 0;
            self.input_len = 0;
            assert(self.unread() =~= old(self).unread());
        } else if self.input_buffer.len() - self.input_offset < COMPACTION_MARGIN && avail_in
            < self.input_offset {
            let offset = self.input_offset;
            let mut i: usize = 0;
            while i < avail_in
                invariant
                    i <= avail_in < offset,
                    offset + avail_in <= self.input_buffer.len(),
                    self.input_buffer.len() == old(self).input_buffer.len(),
                    self.input_offset == old(self).input_offset,
                    self.input_len == old(self).input_len,
                    self.input_eof == old(self).input_eof,
                    self.has_flushed == old(self).has_flushed,
                    self.read_error == old(self).read_error,
                    offset == old(self).input_offset,
                    avail_in == old(self).input_len - old(self).input_offset,
                    forall|j: int| 0 <= j < i ==> self.input_buffer@[j] == old(self).input_buffer@[offset + j],
                    forall|j: int| i <= j < self.input_buffer.len() ==> self.input_buffer@[j] == old(self).input_buffer@[j],
                decreases avail_in - i,
            {
                let byte = self.input_buffer[offset + i];
                self.input_buffer.set(i, byte);
                i += 1;
            }
            self.input_len -= self.input_offset;
            self.input_offset = 0;
            assert(self.unread() =~= old(self).unread());
            assert(self.input_buffer@ =~= old(self).unread() + old(self).input_buffer@.skip(
                self.input_len as int,
            ));
        }
    }
}

impl GenReader {
    /// Whether a round of a `read` is due: nothing has been put out yet,
    /// and more input can still come or the buffer has not run empty.
    pub fn should_continue(&self, output_offset: usize, needs_input: bool) -> (r: bool)
        ensures
            r == (output_offset == 0 && (!needs_input || !self.input_eof)),
    {
        output_offset == 0 && (!needs_input || !self.input_eof)
    }

    /// Whether the round starts with a read from the source into the room
    /// behind `input_len`: there is such room and the source is not at its
    /// end.
    pub fn wants_input(&self) -> (r: bool)
        ensures
            r == (self.input_len < self.input_buffer.len() && !self.input_eof),
    {
        self.input_len < self.input_buffer.len() && !self.input_eof
    }

    /// Number of unread bytes.
    pub fn avail_in(&self) -> (r: usize)
        requires
            self.wf(),
        ensures
            r == self.input_len - self.input_offset,
            r == self.unread().len(),
    {
        self.input_len - self.input_offset
    }

    /// Takes in what the read from the source gave. The result says
    /// whether the round goes on to the coder: it does not after an
    /// interrupted read, which is tried again. A failure is kept back and
    /// ends the input, as does a read of no bytes; bytes that came extend
    /// the unread bytes and clear `needs_input`.
    pub fn filled(&mut self, event: ReadEvent, needs_input: &mut bool) -> (proceed: bool)
        requires
            old(self).wf(),
            event matches ReadEvent::Data(size) ==> size <= old(self).input_buffer.len() - old(
                self,
            ).input_len,
        ensures
            final(self).wf(),
            proceed == (event != ReadEvent::Interrupted),
            final(self).input_buffer == old(self).input_buffer,
            final(self).input_offset == old(self).input_offset,
            final(self).has_flushed == old(self).has_flushed,
            final(self).input_len == (match event {
                ReadEvent::Data(size) => (old(self).input_len + size) as usize,
                _ => old(self).input_len,
            }),
            final(self).input_eof == (match event {
                ReadEvent::Failed => true,
                ReadEvent::Data(size) => size == 0 || old(self).input_eof,
                ReadEvent::Interrupted => old(self).input_eof,
            }),
            final(self).read_error == (event == ReadEvent::Failed || old(self).read_error),
            *final(needs_input) == (match event {
                ReadEvent::Data(size) => size == 0 && *old(needs_input),
                _ => *old(needs_input),
            }),
    {
        match event {
            ReadEvent::Interrupted => {
                return false;
            },
            ReadEvent::Failed => {
                self.read_error = true;
                self.input_eof = true;
            },
            ReadEvent::Data(size) => {
                if size == 0 {
                    self.input_eof = true;
                } else {
                    *needs_input = false;
                    self.input_len += size;
                }
            },
        }
        true
    }

    /// Whether the coder is to flush rather than to take input: no unread
    /// bytes are left. The flush is then on record.
    pub fn must_close(&mut self) -> (r: bool)
        requires
            old(self).wf(),
        ensures
            r == (old(self).input_len == old(self).input_offset),
            *final(self) == (GenReader { has_flushed: r || old(self).has_flushed, ..*old(self) }),
    {
        if self.input_len - self.input_offset == 0 {
            self.has_flushed = true;
            true
        } else {
            false
        }
    }
}

impl GenReader {
    /// The verdict on a round in which the coder moved the read cursor to
    /// `input_offset` and reported `result`.
    pub open spec fn verdict(&self, input_offset: usize, result: CoderResult, needs_input: bool) -> ReadVerdict {
        let drained = input_offset == self.input_len;
        if drained && self.read_error {
            ReadVerdict::ReadError
        } else if result == CoderResult::Failure {
            ReadVerdict::InvalidData
        } else if result == CoderResult::Success && self.input_eof && drained && self.has_flushed {
            ReadVerdict::Finished
        } else {
            ReadVerdict::Continue { needs_input: drained || needs_input }
        }
    }

    /// Ends a round: records how far the coder read, and decides how the
    /// `read` goes on. With the buffer drained a failure of the source
    /// that was kept back comes first and is handed out once; otherwise
    /// room is made by `copy_to_front`. Then invalid input ends the
    /// `read`, and so does success once the source is at its end, the
    /// buffer is drained and the coder has flushed.
    pub fn processed(&mut self, input_offset: usize, result: CoderResult, needs_input: bool) -> (r:
        ReadVerdict)
        requires
            old(self).wf(),
            old(self).input_offset <= input_offset <= old(self).input_len,
        ensures
            final(self).wf(),
            r == old(self).verdict(input_offset, result, needs_input),
            final(self).input_eof == old(self).input_eof,
            final(self).has_flushed == old(self).has_flushed,
            final(self).read_error == (old(self).read_error && r != ReadVerdict::ReadError),
            final(self).unread() == old(self).input_buffer@.subrange(
                input_offset as int,
                old(self).input_len as int,
            ),
            final(self).input_buffer.len() == old(self).input_buffer.len(),
            final(self).input_len - final(self).input_offset == old(self).input_len - input_offset,
            final(self).input_offset == (if input_offset == old(self).input_len && !old(
                self,
            ).read_error && (input_offset == old(self).input_buffer.len() || (old(
                self,
            ).input_buffer.len() - input_offset < COMPACTION_MARGIN && 0 < input_offset)) {
                0
            } else {
                input_offset
            }),
    {
        self.input_offset = input_offset;
        let avail_in = self.input_len - self.input_offset;
        let mut needs_input = needs_input;
        if avail_in == 0 {
            if self.read_error {
                self.read_error = false;
                return ReadVerdict::ReadError;
            }
            needs_input = true;
            self.copy_to_front();
        }
        match result {
            CoderResult::Failure => ReadVerdict::InvalidData,
            CoderResult::Success => {
                if self.input_eof && avail_in == 0 && self.has_flushed {
                    ReadVerdict::Finished
                } else {
                    ReadVerdict::Continue { needs_input }
                }
            },
            _ => ReadVerdict::Continue { needs_input },
        }
    }
}

/// The buffer size in use for a requested size: the request itself, and
/// `DEFAULT_BUFFER_SIZE` for a request of zero.
pub open spec fn effective_buffer_size(buffer_size: usize) -> usize {
    if buffer_size == 0 {
        DEFAULT_BUFFER_SIZE
    } else {
        buffer_size
    }
}

/// A fresh reader over a zeroed buffer of the effective size.
pub open spec fn fresh_reader(reader: GenReader, buffer_size: usize, needs_flush: bool) -> bool {
    &&& reader.wf()
    &&& reader.input_buffer@ == Seq::new(effective_buffer_size(buffer_size) as nat, |i: int| 0u8)
    &&& reader.input_offset == 0
    &&& reader.input_len == 0
    &&& !reader.input_eof
    &&& reader.has_flushed == !needs_flush
    &&& !reader.read_error
}

fn fresh(buffer_size: usize, needs_flush: bool) -> (r: GenReader)
    requires
        buffer_size <= isize::MAX,
    ensures
        fresh_reader(r, buffer_size, needs_flush),
{
    let size = if buffer_size == 0 {
        DEFAULT_BUFFER_SIZE
    } else {
        buffer_size
    };
    GenReader::new(alloc_cell(size), needs_flush)
}

/// Buffer of a reader that compresses with the hybrid of both coders. A
/// compressor has to flush at the end of its input.
pub struct DivansBrotliHybridCompressorReader(pub GenReader);

impl DivansBrotliHybridCompressorReader {
    /// A fresh reader with a buffer of `buffer_size` bytes, or of the
    /// default size for a size of zero.
    pub fn new(buffer_size: usize) -> (r: Self)
        requires
            buffer_size <= isize::MAX,
        ensures
            fresh_reader(r.0, buffer_size, true),
    {
        DivansBrotliHybridCompressorReader(fresh(buffer_size, true))
    }
}

/// Buffer of a reader that compresses with the experimental coder alone. A
/// compressor has to flush at the end of its input.
pub struct DivansExperimentalCompressorReader(pub GenReader);

impl DivansExperimentalCompressorReader {
    /// A fresh reader with a buffer of `buffer_size` bytes, or of the
    /// default size for a size of zero.
    pub fn new(buffer_size: usize) -> (r: Self)
        requires
            buffer_size <= isize::MAX,
        ensures
            fresh_reader(r.0, buffer_size, true),
    {
        DivansExperimentalCompressorReader(fresh(buffer_size, true))
    }
}

/// Buffer of a reader that decompresses. A decompressor has nothing to
/// flush.
pub struct DivansDecompressorReader(pub GenReader);

impl DivansDecompressorReader {
    /// A fresh reader with a buffer of `buffer_size` bytes, or of the
    /// default size for a size of zero.
    pub fn new(buffer_size: usize) -> (r: Self)
        requires
            buffer_size <= isize::MAX,
        ensures
            fresh_reader(r.0, buffer_size, false),
    {
        DivansDecompressorReader(fresh(buffer_size, false))
    }
}

} // verus!

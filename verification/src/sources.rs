use vstd::prelude::*;
use crate::circular_buffer::CircularBuffer;
use crate::config::{FileConfig, LrngConfig};
use crate::error::Error;
use crate::stream::{
    capped_offset, capped_read, looped_offset, looped_read, read_capped, read_looped,
};

verus! {

/// Buffer capacity of a source configured without one: just enough to hold
/// small leftovers returned by the aggregator.
pub const DEFAULT_BUFFER_CAPACITY: usize = 1024;

/// Upper bound on one background generation chunk for the OS RNG source.
pub const REPLENISH_CHUNK: usize = 65536;

/// What a source must still do, after its buffer was drained, to serve a
/// request.
#[derive(Debug, Clone, Copy, PartialEq, Eq, Structural)]
pub enum ReadAction {
    /// The request is complete as drained.
    Done,
    /// This many bytes must still be generated or read, deadline permitting.
    Generate(usize),
}

/// Outcome of the deferred generation or file read for one request.
#[derive(Debug)]
pub enum GenOutcome {
    /// The bytes obtained before the deadline.
    Produced(Vec<u8>),
    /// The deadline fired before anything was obtained.
    TimedOut,
    /// Generation failed; the whole request fails with this error.
    Failed(Error),
}

/// Bytes handed out when a request for `num_bytes` drains a buffer holding
/// `contents`: the request is served whole if possible, else everything
/// buffered is taken.
pub open spec fn drain_take(contents: Seq<u8>, num_bytes: int) -> Seq<u8> {
    if contents.len() >= num_bytes {
        contents.take(num_bytes)
    } else {
        contents
    }
}

/// What the buffer retains after the drain.
pub open spec fn drain_rest(contents: Seq<u8>, num_bytes: int) -> Seq<u8> {
    if contents.len() >= num_bytes {
        contents.skip(num_bytes)
    } else {
        Seq::<u8>::empty()
    }
}

/// What remains to be done after the drain: nothing if the buffer covered
/// the request or the caller forbade waiting (`timeout_ms == 0`); otherwise
/// generation of the shortfall.
pub open spec fn drain_action(contents: Seq<u8>, num_bytes: int, timeout_ms: u64) -> ReadAction {
    if contents.len() >= num_bytes || timeout_ms == 0 {
        ReadAction::Done
    } else {
        ReadAction::Generate((num_bytes - contents.len()) as usize)
    }
}

/// First step of every source's `read_bytes`: serve as much as possible
/// from the buffer. With a zero timeout no generation or I/O may follow:
/// the request is answered with buffered bytes alone.
pub fn drain_for_request(buffer: &mut CircularBuffer, num_bytes: usize, timeout_ms: u64) -> (r: (
    Vec<u8>,
    ReadAction,
))
    requires
        old(buffer).wf(),
    ensures
        final(buffer).wf(),
        final(buffer).cap() == old(buffer).cap(),
        r.0@ == drain_take(old(buffer)@, num_bytes as int),
        final(buffer)@ == drain_rest(old(buffer)@, num_bytes as int),
        r.1 == drain_action(old(buffer)@, num_bytes as int, timeout_ms),
        timeout_ms == 0 ==> r.1 == ReadAction::Done,
        r.0@.len() <= num_bytes,
{
    let available = buffer.len();
    if available >= num_bytes {
        let taken = buffer.take(num_bytes);
        (taken, ReadAction::Done)
    } else {
        let taken = buffer.take(available);
        proof {
            assert(taken@ =~= old(buffer)@);
            assert(final(buffer)@ =~= Seq::<u8>::empty());
        }
        if timeout_ms == 0 {
            (taken, ReadAction::Done)
        } else {
            (taken, ReadAction::Generate(num_bytes - available))
        }
    }
}

/// Last step of every source's `read_bytes`: append what the deferred
/// generation produced, keep the drained prefix alone on a timeout, and
/// propagate a failure. A timeout is not an error: the result is merely
/// shorter than requested.
pub fn complete_read(partial: Vec<u8>, outcome: GenOutcome) -> (r: Result<Vec<u8>, Error>)
    ensures
        outcome matches GenOutcome::Produced(b) ==> r matches Ok(v) && v@ == partial@ + b@,
        outcome matches GenOutcome::TimedOut ==> r matches Ok(v) && v@ == partial@,
        outcome matches GenOutcome::Failed(e) ==> r == Err::<Vec<u8>, Error>(e),
{
    match outcome {
        GenOutcome::Produced(b) => {
            let mut v = partial;
            let mut b = b;
            v.append(&mut b);
            Ok(v)
        },
        GenOutcome::TimedOut => Ok(partial),
        GenOutcome::Failed(e) => Err(e),
    }
}

/// Buffer size in bytes chosen from a configured size in mebibytes.
pub open spec fn spec_buffer_bytes(mb: Option<u32>) -> Option<usize> {
    match mb {
        Some(m) => Some(((m as int) * 1048576) as usize),
        None => None,
    }
}

/// Capacity of the internal ring buffer for a configured maximum.
pub open spec fn spec_buffer_capacity(max: Option<usize>) -> nat {
    match max {
        Some(m) => m as nat,
        None => DEFAULT_BUFFER_CAPACITY as nat,
    }
}

/// Whether a configured buffer size fits the machine.
pub open spec fn buffer_size_fits(mb: Option<u32>) -> bool {
    mb matches Some(m) ==> (m as int) * 1048576 <= usize::MAX as int
}

fn buffer_bytes(mb: Option<u32>) -> (r: Option<usize>)
    requires
        buffer_size_fits(mb),
    ensures
        r == spec_buffer_bytes(mb),
{
    match mb {
        Some(m) => Some((m as usize) * 1024 * 1024),
        None => None,
    }
}

/// OS RNG source: a descriptor plus the bounded buffer of pre-generated
/// bytes. The blocking generation itself happens outside; this state
/// machine decides when it is ordered and absorbs what it yields.
pub struct LrngSource {
    pub cfg: LrngConfig,
    pub buffer: CircularBuffer,
    pub max_buffer_size: Option<usize>,
}

impl LrngSource {
    pub open spec fn wf(&self) -> bool {
        &&& self.buffer.wf()
        &&& self.max_buffer_size == spec_buffer_bytes(self.cfg.buffer_mebibytes)
        &&& self.buffer.cap() == spec_buffer_capacity(self.max_buffer_size)
    }

    pub fn new(cfg: LrngConfig) -> (src: LrngSource)
        requires
            buffer_size_fits(cfg.buffer_mebibytes),
        ensures
            src.wf(),
            src.cfg == cfg,
            src.buffer@ == Seq::<u8>::empty(),
    {
        let max_buffer_size = buffer_bytes(cfg.buffer_mebibytes);
        let capacity = match max_buffer_size {
            Some(m) => m,
            None => DEFAULT_BUFFER_CAPACITY,
        };
        LrngSource { cfg, buffer: CircularBuffer::new(capacity), max_buffer_size }
    }

    /// Serve a request from the buffer; with a non-zero timeout and a
    /// shortfall, order generation of the missing bytes.
    pub fn begin_read(&mut self, num_bytes: usize, timeout_ms: u64) -> (r: (Vec<u8>, ReadAction))
        requires
            old(self).wf(),
        ensures
            final(self).wf(),
            final(self).cfg == old(self).cfg,
            final(self).max_buffer_size == old(self).max_buffer_size,
            r.0@ == drain_take(old(self).buffer@, num_bytes as int),
            final(self).buffer@ == drain_rest(old(self).buffer@, num_bytes as int),
            r.1 == drain_action(old(self).buffer@, num_bytes as int, timeout_ms),
            timeout_ms == 0 ==> r.1 == ReadAction::Done,
            r.0@.len() <= num_bytes,
    {
        drain_for_request(&mut self.buffer, num_bytes, timeout_ms)
    }

    /// Store surplus bytes the aggregator did not use, buffer permitting.
    pub fn return_leftover(&mut self, leftover: Vec<u8>)
        requires
            old(self).wf(),
        ensures
            final(self).wf(),
            final(self).cfg == old(self).cfg,
            final(self).max_buffer_size == old(self).max_buffer_size,
            final(self).buffer@ == old(self).buffer@ + leftover@.take(
                vstd::math::min(
                    leftover@.len() as int,
                    old(self).buffer.cap() - old(self).buffer@.len(),
                ),
            ),
    {
        if leftover.len() > 0 {
            self.buffer.extend_from_vec(leftover);
        } else {
            proof {
                self.buffer.lemma_len_le_cap();
                assert(self.buffer@ =~= self.buffer@ + leftover@.take(0));
            }
        }
    }

    /// Absorb bytes the background replenishment task generated.
    pub fn absorb_replenished(&mut self, bytes: Vec<u8>)
        requires
            old(self).wf(),
        ensures
            final(self).wf(),
            final(self).cfg == old(self).cfg,
            final(self).max_buffer_size == old(self).max_buffer_size,
            final(self).buffer@ == old(self).buffer@ + bytes@.take(
                vstd::math::min(
                    bytes@.len() as int,
                    old(self).buffer.cap() - old(self).buffer@.len(),
                ),
            ),
    {
        self.buffer.extend_from_vec(bytes);
    }

    /// How many bytes the background task should generate now: a buffered
    /// source below capacity is topped up in bounded chunks; an unbuffered
    /// source never generates in the background.
    pub fn replenish_request(&self) -> (r: Option<usize>)
        requires
            self.wf(),
        ensures
            match self.max_buffer_size {
                Some(m) => if self.buffer@.len() < m {
                    r == Some(
                        vstd::math::min(m - self.buffer@.len(), REPLENISH_CHUNK as int) as usize,
                    )
                } else {
                    r is None
                },
                None => r is None,
            },
    {
        match self.max_buffer_size {
            Some(max) => {
                let current = self.buffer.len();
                if current < max {
                    let needed = max - current;
                    if needed < REPLENISH_CHUNK {
                        Some(needed)
                    } else {
                        Some(REPLENISH_CHUNK)
                    }
                } else {
                    None
                }
            },
            None => None,
        }
    }

    /// Observability hook: the source id and, for a buffered source, the
    /// current fill and the capacity.
    pub fn get_buffer_status(&self) -> (r: (String, Option<(usize, usize)>))
        requires
            self.wf(),
        ensures
            r.0@ == self.cfg.id@,
            match self.max_buffer_size {
                Some(m) => r.1 matches Some(st) && st.0 == self.buffer@.len() && st.1 == m,
                None => r.1 is None,
            },
    {
        let id = self.cfg.id.clone();
        match self.max_buffer_size {
            Some(m) => {
                let current = self.buffer.len();
                (id, Some((current, m)))
            },
            None => (id, None),
        }
    }
}

/// One positioned read of the backing file, as reported by the I/O layer.
#[derive(Debug)]
pub enum FileReadEvent {
    /// The read returned these bytes (at least one, at most what was asked).
    Data(Vec<u8>),
    /// The read returned no bytes: the cursor is at end-of-file.
    Eof,
    /// The read or the seek before it failed with this OS error code.
    Failed(u32),
}

/// What the file read loop does next.
#[derive(Debug, Clone, Copy, PartialEq, Eq, Structural)]
pub enum FileStep {
    /// This many bytes are still owed; read again at the saved offset.
    Continue(usize),
    /// The request is satisfied, or end-of-file stopped it early.
    Done,
    /// The request fails with this error.
    Fail(Error),
}

/// File-backed source: a descriptor, the persistent read cursor into the
/// backing file, the wraparound flag, and the bounded buffer of pre-read
/// bytes. The file I/O itself happens outside; this state machine decides
/// how each read result advances the request.
pub struct FileSource {
    pub cfg: FileConfig,
    pub offset: u64,
    pub loop_on_eof: bool,
    pub buffer: CircularBuffer,
    pub max_buffer_size: Option<usize>,
}

/// The wraparound flag a descriptor asks for.
pub open spec fn spec_loop_on_eof(cfg: FileConfig) -> bool {
    match cfg.loop_ {
        Some(b) => b,
        None => false,
    }
}

impl FileSource {
    pub open spec fn wf(&self) -> bool {
        &&& self.buffer.wf()
        &&& self.max_buffer_size == spec_buffer_bytes(self.cfg.buffer_mebibytes)
        &&& self.buffer.cap() == spec_buffer_capacity(self.max_buffer_size)
        &&& self.loop_on_eof == spec_loop_on_eof(self.cfg)
    }

    pub fn new(cfg: FileConfig) -> (src: FileSource)
        requires
            buffer_size_fits(cfg.buffer_mebibytes),
        ensures
            src.wf(),
            src.cfg == cfg,
            src.offset == 0,
            src.buffer@ == Seq::<u8>::empty(),
    {
        let max_buffer_size = buffer_bytes(cfg.buffer_mebibytes);
        let capacity = match max_buffer_size {
            Some(m) => m,
            None => DEFAULT_BUFFER_CAPACITY,
        };
        let loop_on_eof = match cfg.loop_ {
            Some(b) => b,
            None => false,
        };
        FileSource { cfg, offset: 0, loop_on_eof, buffer: CircularBuffer::new(capacity), max_buffer_size }
    }

    /// Serve a request from the buffer; with a non-zero timeout and a
    /// shortfall, order a file read of the missing bytes.
    pub fn begin_read(&mut self, num_bytes: usize, timeout_ms: u64) -> (r: (Vec<u8>, ReadAction))
        requires
            old(self).wf(),
        ensures
            final(self).wf(),
            final(self).cfg == old(self).cfg,
            final(self).max_buffer_size == old(self).max_buffer_size,
            final(self).offset == old(self).offset,
            final(self).loop_on_eof == old(self).loop_on_eof,
            r.0@ == drain_take(old(self).buffer@, num_bytes as int),
            final(self).buffer@ == drain_rest(old(self).buffer@, num_bytes as int),
            r.1 == drain_action(old(self).buffer@, num_bytes as int, timeout_ms),
            timeout_ms == 0 ==> r.1 == ReadAction::Done,
            r.0@.len() <= num_bytes,
    {
        drain_for_request(&mut self.buffer, num_bytes, timeout_ms)
    }

    /// Apply one reported file read to the cursor and the accumulated
    /// bytes: data advances the cursor and may satisfy the request;
    /// end-of-file either wraps the cursor to 0 (loop enabled) or ends the
    /// request short, which is not an error; an I/O failure aborts.
    pub fn on_read_result(&mut self, acc: &mut Vec<u8>, event: FileReadEvent, needed: usize) -> (step:
        FileStep)
        requires
            old(self).wf(),
            needed > 0,
            event matches FileReadEvent::Data(b) ==> 1 <= b@.len() <= needed && old(self).offset
                + b@.len() <= u64::MAX,
        ensures
            final(self).wf(),
            final(self).cfg == old(self).cfg,
            final(self).max_buffer_size == old(self).max_buffer_size,
            final(self).loop_on_eof == old(self).loop_on_eof,
            final(self).buffer@ == old(self).buffer@,
            event matches FileReadEvent::Data(b) ==> {
                &&& final(self).offset == old(self).offset + b@.len()
                &&& final(acc)@ == old(acc)@ + b@
                &&& step == if b@.len() == needed {
                    FileStep::Done
                } else {
                    FileStep::Continue((needed - b@.len()) as usize)
                }
            },
            event is Eof && old(self).loop_on_eof ==> final(self).offset == 0 && final(acc)@ == old(
                acc,
            )@ && step == FileStep::Continue(needed),
            event is Eof && !old(self).loop_on_eof ==> final(self).offset == old(self).offset
                && final(acc)@ == old(acc)@ && step == FileStep::Done,
            event matches FileReadEvent::Failed(code) ==> final(self).offset == old(self).offset
                && final(acc)@ == old(acc)@ && step == FileStep::Fail(Error::OsError(code)),
    {
        match event {
            FileReadEvent::Data(b) => {
                let n = b.len();
                let mut b = b;
                self.offset = self.offset + n as u64;
                acc.append(&mut b);
                if n == needed {
                    FileStep::Done
                } else {
                    FileStep::Continue(needed - n)
                }
            },
            FileReadEvent::Eof => {
                if self.loop_on_eof {
                    self.offset = 0;
                    FileStep::Continue(needed)
                } else {
                    FileStep::Done
                }
            },
            FileReadEvent::Failed(code) => FileStep::Fail(Error::OsError(code)),
        }
    }

    /// One full `read_bytes` request served against an in-memory image of
    /// the backing file: drain the buffer first, then, if the timeout
    /// allows, read at the saved cursor, wrapping to the start on
    /// end-of-file when looping is configured and stopping short otherwise.
    /// Stopping short is not an error, and an in-memory image never fails,
    /// so the result is plain bytes. This is the reference semantics of
    /// the file read protocol.
    pub fn read_from(&mut self, data: &Vec<u8>, num_bytes: usize, timeout_ms: u64) -> (r: Vec<u8>)
        requires
            old(self).wf(),
            old(self).offset <= data@.len(),
            old(self).loop_on_eof ==> data@.len() > 0,
        ensures
            final(self).wf(),
            final(self).cfg == old(self).cfg,
            final(self).max_buffer_size == old(self).max_buffer_size,
            final(self).loop_on_eof == old(self).loop_on_eof,
            final(self).buffer@ == drain_rest(old(self).buffer@, num_bytes as int),
            final(self).offset <= data@.len(),
            r@.len() <= num_bytes,
            ({
                let prefix = drain_take(old(self).buffer@, num_bytes as int);
                match drain_action(old(self).buffer@, num_bytes as int, timeout_ms) {
                    ReadAction::Done => r@ == prefix && final(self).offset == old(self).offset,
                    ReadAction::Generate(m) => if old(self).loop_on_eof {
                        r@ == prefix + looped_read(data@, old(self).offset as int, m as nat)
                            && final(self).offset == looped_offset(
                            data@,
                            old(self).offset as int,
                            m as nat,
                        )
                    } else {
                        r@ == prefix + capped_read(data@, old(self).offset as int, m as nat)
                            && final(self).offset == capped_offset(
                            data@,
                            old(self).offset as int,
                            m as nat,
                        )
                    },
                }
            }),
    {
        let len = data.len();
        let (prefix, action) = drain_for_request(&mut self.buffer, num_bytes, timeout_ms);
        match action {
            ReadAction::Done => prefix,
            ReadAction::Generate(m) => {
                let pos = self.offset as usize;
                let mut out = prefix;
                if self.loop_on_eof {
                    let (bytes, new_pos) = read_looped(data, pos, m);
                    let mut bytes = bytes;
                    out.append(&mut bytes);
                    self.offset = new_pos as u64;
                } else {
                    let (bytes, new_pos) = read_capped(data, pos, m);
                    let mut bytes = bytes;
                    out.append(&mut bytes);
                    self.offset = new_pos as u64;
                }
                out
            },
        }
    }

    /// Store surplus bytes the aggregator did not use, buffer permitting.
    pub fn return_leftover(&mut self, leftover: Vec<u8>)
        requires
            old(self).wf(),
        ensures
            final(self).wf(),
            final(self).cfg == old(self).cfg,
            final(self).max_buffer_size == old(self).max_buffer_size,
            final(self).offset == old(self).offset,
            final(self).loop_on_eof == old(self).loop_on_eof,
            final(self).buffer@ == old(self).buffer@ + leftover@.take(
                vstd::math::min(
                    leftover@.len() as int,
                    old(self).buffer.cap() - old(self).buffer@.len(),
                ),
            ),
    {
        if leftover.len() > 0 {
            self.buffer.extend_from_vec(leftover);
        } else {
            proof {
                self.buffer.lemma_len_le_cap();
                assert(self.buffer@ =~= self.buffer@ + leftover@.take(0));
            }
        }
    }

    /// Absorb bytes the background replenishment task read from its own
    /// cursor into the same file.
    pub fn absorb_replenished(&mut self, bytes: Vec<u8>)
        requires
            old(self).wf(),
        ensures
            final(self).wf(),
            final(self).cfg == old(self).cfg,
            final(self).max_buffer_size == old(self).max_buffer_size,
            final(self).offset == old(self).offset,
            final(self).loop_on_eof == old(self).loop_on_eof,
            final(self).buffer@ == old(self).buffer@ + bytes@.take(
                vstd::math::min(
                    bytes@.len() as int,
                    old(self).buffer.cap() - old(self).buffer@.len(),
                ),
            ),
    {
        self.buffer.extend_from_vec(bytes);
    }

    /// How many bytes the background task should read now: a buffered
    /// source is topped up to capacity once it falls below half of it.
    pub fn needs_replenish(&self) -> (r: Option<usize>)
        requires
            self.wf(),
        ensures
            match self.max_buffer_size {
                Some(m) => if self.buffer@.len() < m / 2 {
                    r == Some((m - self.buffer@.len()) as usize)
                } else {
                    r is None
                },
                None => r is None,
            },
    {
        match self.max_buffer_size {
            Some(max) => {
                let current = self.buffer.len();
                if current < max / 2 {
                    Some(max - current)
                } else {
                    None
                }
            },
            None => None,
        }
    }

    /// Observability hook: the source id and, for a buffered source, the
    /// current fill and the capacity.
    pub fn get_buffer_status(&self) -> (r: (String, Option<(usize, usize)>))
        requires
            self.wf(),
        ensures
            r.0@ == self.cfg.id@,
            match self.max_buffer_size {
                Some(m) => r.1 matches Some(st) && st.0 == self.buffer@.len() && st.1 == m,
                None => r.1 is None,
            },
    {
        let id = self.cfg.id.clone();
        match self.max_buffer_size {
            Some(m) => {
                let current = self.buffer.len();
                (id, Some((current, m)))
            },
            None => (id, None),
        }
    }
}

} // verus!

//! The chunking reader as a state machine: one step for each read.

use vstd::prelude::*;
use vstd::slice::slice_subrange;
use vstd::slice::slice_to_vec;
use crate::lines::find_first_newline;
use crate::lines::find_last_newline;
use crate::lines::NEWLINE;

verus! {

/// The most bytes that one read asks of the source.
pub const READ_BUFFER_SIZE: usize = 65536;

/// The length of an ordinary record, its newline not counted. A first line of
/// any other length is a header.
pub const HEADER_LINE_LENGTH: usize = 81;

/// Where the reader stands in its run.
#[derive(Clone, Copy, Debug, PartialEq, Eq, Structural)]
pub enum Phase {
    /// Nothing has been read yet.
    Start,
    /// The first read is behind; body data is being cut into chunks.
    Body,
    /// The source has ended and the carry-over has been flushed.
    Done,
    /// A read or a send has failed; nothing more is emitted.
    Failed,
}

/// The channel on which a chunk leaves.
#[derive(Clone, Copy, Debug, PartialEq, Eq, Structural)]
pub enum Route {
    /// To the consumer of the header.
    Header,
    /// To the pool of workers.
    Body,
}

/// Why a run ended early.
#[derive(Clone, Copy, Debug, PartialEq, Eq, Structural)]
pub enum ReaderError {
    /// The source reported an error on a read.
    ReadFailure,
    /// The receiving side of a channel is gone.
    ChannelClosed,
}

/// A numbered run of whole lines.
#[derive(Clone, Debug, PartialEq, Eq)]
pub struct Chunk {
    pub index: usize,
    pub payload: Vec<u8>,
}

/// A chunk together with the channel it is meant for.
#[derive(Clone, Debug, PartialEq, Eq)]
pub struct Emission {
    pub route: Route,
    pub chunk: Chunk,
}

/// The mathematical content of an [`Emission`].
pub ghost struct Emitted {
    pub route: Route,
    pub index: nat,
    pub payload: Seq<u8>,
}

/// The mathematical content of a [`ChunkingReader`].
pub ghost struct ReaderState {
    pub phase: Phase,
    /// Bytes read but not yet emitted.
    pub carry: Seq<u8>,
    /// The index that the next emission gets.
    pub next_index: nat,
}

impl View for Emission {
    type V = Emitted;

    open spec fn view(&self) -> Emitted {
        Emitted {
            route: self.route,
            index: self.chunk.index as nat,
            payload: self.chunk.payload@,
        }
    }
}

/// The content of what a step hands out, if it hands anything out.
pub open spec fn emission_view(e: Option<Emission>) -> Option<Emitted> {
    match e {
        Some(x) => Some(x@),
        None => None,
    }
}

/// The state before the first read.
pub open spec fn initial_state() -> ReaderState {
    ReaderState { phase: Phase::Start, carry: Seq::empty(), next_index: 0 }
}

/// The offset of the first newline in the first read, or the length of that
/// read where it holds no newline.
pub open spec fn first_line_end(first: Seq<u8>) -> int {
    match first.index_of_first(NEWLINE) {
        Some(p) => p,
        None => first.len() as int,
    }
}

/// Whether the first read opens with a header: its first line is not an
/// ordinary record.
pub open spec fn has_header(first: Seq<u8>) -> bool {
    first_line_end(first) != HEADER_LINE_LENGTH
}

/// The number of bytes of the first read that the header takes: the first
/// line with its newline, or the whole read where it holds no newline.
pub open spec fn header_len(first: Seq<u8>) -> int {
    if first_line_end(first) < first.len() {
        first_line_end(first) + 1
    } else {
        first.len() as int
    }
}

/// The step on a first read that is not empty.
pub open spec fn split_first(s: ReaderState, data: Seq<u8>) -> (ReaderState, Option<Emitted>) {
    if has_header(data) {
        (
            ReaderState {
                phase: Phase::Body,
                carry: data.subrange(header_len(data), data.len() as int),
                next_index: s.next_index + 1,
            },
            Some(
                Emitted {
                    route: Route::Header,
                    index: s.next_index,
                    payload: data.subrange(0, header_len(data)),
                },
            ),
        )
    } else {
        (ReaderState { phase: Phase::Body, carry: data, next_index: s.next_index }, None)
    }
}

/// The step on a later read that is not empty: the carry-over and the new
/// bytes are cut behind their last newline.
pub open spec fn split_body(s: ReaderState, data: Seq<u8>) -> (ReaderState, Option<Emitted>) {
    let work = s.carry + data;
    match work.index_of_last(NEWLINE) {
        Some(q) => (
            ReaderState {
                phase: Phase::Body,
                carry: work.subrange(q + 1, work.len() as int),
                next_index: s.next_index + 1,
            },
            Some(
                Emitted {
                    route: Route::Body,
                    index: s.next_index,
                    payload: work.subrange(0, q + 1),
                },
            ),
        ),
        None => (ReaderState { phase: Phase::Body, carry: work, next_index: s.next_index }, None),
    }
}

/// The step at the end of the source: what is left of the carry-over leaves
/// as the last chunk.
pub open spec fn drain(s: ReaderState) -> (ReaderState, Option<Emitted>) {
    if s.carry.len() > 0 {
        (
            ReaderState {
                phase: Phase::Done,
                carry: Seq::empty(),
                next_index: s.next_index + 1,
            },
            Some(Emitted { route: Route::Body, index: s.next_index, payload: s.carry }),
        )
    } else {
        (ReaderState { phase: Phase::Done, carry: Seq::empty(), next_index: s.next_index }, None)
    }
}

/// One step of the reader on the bytes of one read, where an empty read
/// stands for the end of the source. A reader that is done or has failed
/// stays as it is.
pub open spec fn step(s: ReaderState, data: Seq<u8>) -> (ReaderState, Option<Emitted>) {
    match s.phase {
        Phase::Done | Phase::Failed => (s, None),
        Phase::Start => if data.len() == 0 {
            drain(s)
        } else {
            split_first(s, data)
        },
        Phase::Body => if data.len() == 0 {
            drain(s)
        } else {
            split_body(s, data)
        },
    }
}

/// The state after a failure: the carry-over is lost.
pub open spec fn failed(s: ReaderState) -> ReaderState {
    ReaderState { phase: Phase::Failed, carry: Seq::empty(), next_index: s.next_index }
}

/// Cuts a byte stream, one read at a time, into numbered chunks of whole
/// lines.
pub struct ChunkingReader {
    phase: Phase,
    carry: Vec<u8>,
    next_index: usize,
}

impl View for ChunkingReader {
    type V = ReaderState;

    closed spec fn view(&self) -> ReaderState {
        ReaderState {
            phase: self.phase,
            carry: self.carry@,
            next_index: self.next_index as nat,
        }
    }
}

impl ChunkingReader {
    /// A reader that has read nothing yet.
    pub fn new() -> (r: Self)
        ensures
            r@ == initial_state(),
    {
        ChunkingReader { phase: Phase::Start, carry: Vec::new(), next_index: 0 }
    }

    /// Where the reader stands.
    pub fn phase(&self) -> (p: Phase)
        ensures
            p == self@.phase,
    {
        self.phase
    }

    /// The index that the next emission gets.
    pub fn next_index(&self) -> (n: usize)
        ensures
            n == self@.next_index,
    {
        self.next_index
    }

    /// The number of bytes held back for the next chunk.
    pub fn pending(&self) -> (n: usize)
        ensures
            n == self@.carry.len(),
    {
        self.carry.len()
    }

    /// Whether the reader wants another read.
    pub fn is_running(&self) -> (b: bool)
        ensures
            b == (self@.phase == Phase::Start || self@.phase == Phase::Body),
    {
        match self.phase {
            Phase::Start | Phase::Body => true,
            Phase::Done | Phase::Failed => false,
        }
    }

    /// Records that a read or a send has failed. The carry-over is dropped and
    /// the reader emits nothing from now on.
    pub fn fail(&mut self)
        ensures
            final(self)@ == failed(old(self)@),
    {
        self.phase = Phase::Failed;
        self.carry = Vec::new();
    }

    /// Takes the bytes of one read, an empty slice standing for the end of the
    /// source, and hands out the chunk that this read completes, if any.
    pub fn accept(&mut self, data: &[u8]) -> (out: Option<Emission>)
        requires
            old(self)@.next_index < usize::MAX,
        ensures
            final(self)@ == step(old(self)@, data@).0,
            emission_view(out) == step(old(self)@, data@).1,
    {
        match self.phase {
            Phase::Done | Phase::Failed => None,
            Phase::Start => if data.len() == 0 {
                self.flush()
            } else {
                self.take_first(data)
            },
            Phase::Body => if data.len() == 0 {
                self.flush()
            } else {
                self.take_more(data)
            },
        }
    }

    fn flush(&mut self) -> (out: Option<Emission>)
        requires
            old(self)@.next_index < usize::MAX,
        ensures
            final(self)@ == drain(old(self)@).0,
            emission_view(out) == drain(old(self)@).1,
    {
        self.phase = Phase::Done;
        if self.carry.len() > 0 {
            let mut payload: Vec<u8> = Vec::new();
            payload.append(&mut self.carry);
            let index = self.next_index;
            self.next_index = index + 1;
            Some(Emission { route: Route::Body, chunk: Chunk { index, payload } })
        } else {
            assert(self.carry@ =~= Seq::empty());
            None
        }
    }

    fn take_first(&mut self, data: &[u8]) -> (out: Option<Emission>)
        requires
            old(self)@.next_index < usize::MAX,
            data@.len() > 0,
        ensures
            final(self)@ == split_first(old(self)@, data@).0,
            emission_view(out) == split_first(old(self)@, data@).1,
    {
        self.phase = Phase::Body;
        let len: usize = data.len();
        let (boundary, cut): (usize, usize) = match find_first_newline(data) {
            Some(p) => (p, p + 1),
            None => (len, len),
        };
        if boundary != HEADER_LINE_LENGTH {
            let payload = slice_to_vec(slice_subrange(data, 0, cut));
            self.carry = slice_to_vec(slice_subrange(data, cut, len));
            let index = self.next_index;
            self.next_index = index + 1;
            Some(Emission { route: Route::Header, chunk: Chunk { index, payload } })
        } else {
            self.carry = slice_to_vec(data);
            None
        }
    }

    fn take_more(&mut self, data: &[u8]) -> (out: Option<Emission>)
        requires
            old(self)@.next_index < usize::MAX,
            data@.len() > 0,
        ensures
            final(self)@ == split_body(old(self)@, data@).0,
            emission_view(out) == split_body(old(self)@, data@).1,
    {
        self.phase = Phase::Body;
        let mut fresh = slice_to_vec(data);
        self.carry.append(&mut fresh);
        assert(self.carry@ =~= old(self)@.carry + data@);
        let len: usize = self.carry.len();
        match find_last_newline(self.carry.as_slice()) {
            Some(q) => {
                let mut payload = self.carry.split_off(q + 1);
                std::mem::swap(&mut self.carry, &mut payload);
                let index = self.next_index;
                self.next_index = index + 1;
                Some(Emission { route: Route::Body, chunk: Chunk { index, payload } })
            },
            None => None,
        }
    }
}

} // verus!

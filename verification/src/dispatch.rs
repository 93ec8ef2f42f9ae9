//! Handing chunks to the consumers: one turn of the reader with its send.

use vstd::prelude::*;
use crossbeam_channel::SendError;
use crossbeam_channel::Sender;
use crate::reader::failed;
use crate::reader::step;
use crate::reader::Chunk;
use crate::reader::ChunkingReader;
use crate::reader::Emission;
use crate::reader::Phase;
use crate::reader::ReaderError;
use crate::reader::ReaderState;
use crate::reader::Route;

verus! {

/// `crossbeam_channel::Sender`, the sending side of a channel. Nothing of
/// what is inside is known here: a sender is only handed on to the send.
#[verifier::external_type_specification]
#[verifier::external_body]
#[verifier::reject_recursive_types(T)]
pub struct ExSender<T>(Sender<T>);

/// What one read of the source gave.
pub enum ReadEvent<'a> {
    /// The bytes that the read filled in; none at the end of the source.
    Bytes(&'a [u8]),
    /// The source reported an error.
    Failure,
}

/// Whether a reader in state `s` asks for another read.
pub open spec fn wants_read(s: ReaderState) -> bool {
    s.phase == Phase::Start || s.phase == Phase::Body
}

/// Sends a chunk with `crossbeam_channel::Sender::send`, as the pair of its
/// index and its payload. The call blocks while the channel is full. Nothing
/// is claimed about when the send succeeds: that lies with the receiving
/// side. Where it fails, the error holds the message that was to be sent, and
/// it comes back as the chunk it was.
#[verifier::external_body]
fn send_chunk(tx: &Sender<(usize, Vec<u8>)>, chunk: Chunk) -> (sent: Result<(), Chunk>)
    ensures
        sent matches Err(back) ==> back.index == chunk.index && back.payload@ == chunk.payload@,
{
    match tx.send((chunk.index, chunk.payload)) {
        Ok(()) => Ok(()),
        Err(SendError((index, payload))) => Err(Chunk { index, payload }),
    }
}

/// The channel that a route names: `header_tx` for a header, `body_tx` for a
/// body chunk.
pub fn channel_for<'a>(
    route: Route,
    body_tx: &'a Sender<(usize, Vec<u8>)>,
    header_tx: &'a Sender<(usize, Vec<u8>)>,
) -> (tx: &'a Sender<(usize, Vec<u8>)>)
    ensures
        route == Route::Header ==> tx == header_tx,
        route == Route::Body ==> tx == body_tx,
{
    match route {
        Route::Header => header_tx,
        Route::Body => body_tx,
    }
}

/// Sends an emission on the channel that its route names, as `channel_for`
/// picks it. Whether the send goes through lies with the receiving side;
/// where that side is gone the chunk comes back.
pub fn deliver(
    emission: Emission,
    body_tx: &Sender<(usize, Vec<u8>)>,
    header_tx: &Sender<(usize, Vec<u8>)>,
) -> (sent: Result<(), Chunk>)
    ensures
        sent matches Err(back) ==> back.index == emission.chunk.index && back.payload@
            == emission.chunk.payload@,
{
    send_chunk(channel_for(emission.route, body_tx, header_tx), emission.chunk)
}

/// Closes a turn on the outcome of its send. After a send that went through
/// the reader is left as it is and the result says whether it asks for
/// another read; after one that failed the reader has failed, and the chunk
/// that came back is dropped.
pub fn conclude(reader: &mut ChunkingReader, sent: Result<(), Chunk>) -> (r: Result<
    bool,
    ReaderError,
>)
    ensures
        sent is Ok ==> r == Ok::<bool, ReaderError>(wants_read(old(reader)@))
            && final(reader)@ == old(reader)@,
        sent is Err ==> r == Err::<bool, ReaderError>(ReaderError::ChannelClosed)
            && final(reader)@ == failed(old(reader)@),
{
    match sent {
        Ok(()) => Ok(reader.is_running()),
        Err(_) => {
            reader.fail();
            Err(ReaderError::ChannelClosed)
        },
    }
}

/// One turn of the reader: takes what a read gave, cuts, and sends the chunk
/// that this read completes.
///
/// A failed read fails the reader. Otherwise the reader takes the step on the
/// bytes; where that step emits nothing, or the send goes through, the result
/// says whether another read is wanted. A send can fail only where the step
/// emits, and then the reader has failed.
pub fn advance(
    reader: &mut ChunkingReader,
    event: ReadEvent<'_>,
    body_tx: &Sender<(usize, Vec<u8>)>,
    header_tx: &Sender<(usize, Vec<u8>)>,
) -> (r: Result<bool, ReaderError>)
    requires
        old(reader)@.next_index < usize::MAX,
    ensures
        event is Failure ==> r == Err::<bool, ReaderError>(ReaderError::ReadFailure)
            && final(reader)@ == failed(old(reader)@),
        event matches ReadEvent::Bytes(data) ==> match r {
            Ok(more) => final(reader)@ == step(old(reader)@, data@).0
                && more == wants_read(final(reader)@),
            Err(e) => e == ReaderError::ChannelClosed && step(old(reader)@, data@).1 is Some
                && final(reader)@ == failed(step(old(reader)@, data@).0),
        },
{
    match event {
        ReadEvent::Failure => {
            reader.fail();
            Err(ReaderError::ReadFailure)
        },
        ReadEvent::Bytes(data) => {
            match reader.accept(data) {
                Some(emission) => {
                    let sent = deliver(emission, body_tx, header_tx);
                    conclude(reader, sent)
                },
                None => Ok(reader.is_running()),
            }
        },
    }
}

} // verus!

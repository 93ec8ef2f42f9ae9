//! A whole run of the reader over the reads of one source, and what holds of
//! everything it emits.

use vstd::prelude::*;
use crate::lines::ends_with_newline;
use crate::lines::NEWLINE;
use crate::reader::has_header;
use crate::reader::header_len;
use crate::reader::initial_state;
use crate::reader::step;
use crate::reader::ChunkingReader;
use crate::reader::Emission;
use crate::reader::Emitted;
use crate::reader::Phase;
use crate::reader::ReaderState;
use crate::reader::Route;

verus! {

/// A reader's state together with all that it has emitted so far, in order.
pub ghost struct Run {
    pub state: ReaderState,
    pub emitted: Seq<Emitted>,
}

/// The reads of a source before its end: each of them gave at least one byte.
pub open spec fn is_stream(reads: Seq<Seq<u8>>) -> bool {
    forall|i: int| 0 <= i < reads.len() ==> (#[trigger] reads[i]).len() > 0
}

/// The parts laid end to end.
pub open spec fn concat(parts: Seq<Seq<u8>>) -> Seq<u8>
    decreases parts.len(),
{
    if parts.len() == 0 {
        Seq::empty()
    } else {
        concat(parts.drop_last()) + parts.last()
    }
}

/// The payloads of the emissions, in order.
pub open spec fn payloads(emitted: Seq<Emitted>) -> Seq<Seq<u8>> {
    Seq::new(emitted.len(), |i: int| emitted[i].payload)
}

/// The run after one more step.
pub open spec fn feed(run: Run, data: Seq<u8>) -> Run {
    Run {
        state: step(run.state, data).0,
        emitted: match step(run.state, data).1 {
            Some(e) => run.emitted.push(e),
            None => run.emitted,
        },
    }
}

/// The run after the given reads, the source not yet at its end.
pub open spec fn run_reads(reads: Seq<Seq<u8>>) -> Run
    decreases reads.len(),
{
    if reads.len() == 0 {
        Run { state: initial_state(), emitted: Seq::empty() }
    } else {
        feed(run_reads(reads.drop_last()), reads.last())
    }
}

/// The run after the given reads and the end of the source.
pub open spec fn run_to_end(reads: Seq<Seq<u8>>) -> Run {
    feed(run_reads(reads), Seq::empty())
}

/// All that a source with the given reads makes the reader emit.
pub open spec fn emissions(reads: Seq<Seq<u8>>) -> Seq<Emitted> {
    run_to_end(reads).emitted
}

/// The first read gave a header that no newline ends: the read held no
/// newline at all and was not of a record's length.
pub open spec fn header_unterminated(reads: Seq<Seq<u8>>) -> bool {
    reads.len() > 0 && has_header(reads[0]) && !reads[0].contains(NEWLINE)
}

/// What holds of the `i`-th emission of a run over `reads`.
pub open spec fn emission_in_place(e: Emitted, i: int, reads: Seq<Seq<u8>>) -> bool {
    &&& e.index == i
    &&& e.payload.len() > 0
    &&& e.route == Route::Header ==> {
        &&& i == 0
        &&& reads.len() > 0
        &&& has_header(reads[0])
        &&& e.payload == reads[0].subrange(0, header_len(reads[0]))
    }
}

/// What holds of a run over `reads` before the end of the source.
pub open spec fn coherent(run: Run, reads: Seq<Seq<u8>>) -> bool {
    &&& run.state.phase == if reads.len() == 0 {
        Phase::Start
    } else {
        Phase::Body
    }
    &&& reads.len() == 0 ==> run.state.carry.len() == 0
    &&& run.state.next_index == run.emitted.len()
    &&& concat(payloads(run.emitted)) + run.state.carry == concat(reads)
    &&& forall|i: int|
        0 <= i < run.emitted.len() ==> emission_in_place(#[trigger] run.emitted[i], i, reads)
    &&& forall|i: int|
        0 <= i < run.emitted.len() && (#[trigger] run.emitted[i]).route == Route::Body
            ==> ends_with_newline(run.emitted[i].payload)
    &&& reads.len() > 0 && has_header(reads[0]) ==> run.emitted.len() > 0 && run.emitted[0].route
        == Route::Header
}

/// Laying parts end to end takes a new last part at the end.
pub proof fn lemma_concat_push(parts: Seq<Seq<u8>>, part: Seq<u8>)
    ensures
        concat(parts.push(part)) == concat(parts) + part,
{
    assert(parts.push(part).drop_last() =~= parts);
}

/// Laying parts end to end starts with the first part.
pub proof fn lemma_concat_first(parts: Seq<Seq<u8>>)
    requires
        parts.len() > 0,
    ensures
        concat(parts) == parts[0] + concat(parts.drop_first()),
    decreases parts.len(),
{
    if parts.len() == 1 {
        assert(parts.drop_first() =~= Seq::<Seq<u8>>::empty());
        assert(parts.drop_last() =~= Seq::<Seq<u8>>::empty());
    } else {
        let front = parts.drop_last();
        lemma_concat_first(front);
        assert(front.drop_first() =~= parts.drop_first().drop_last());
    }
}

/// A step on a read that is not empty keeps a run coherent.
pub proof fn lemma_feed_coherent(run: Run, before: Seq<Seq<u8>>, data: Seq<u8>)
    requires
        coherent(run, before),
        data.len() > 0,
    ensures
        coherent(feed(run, data), before.push(data)),
{
    let next = feed(run, data);
    let work = run.state.carry + data;
    assert(before.push(data).drop_last() =~= before);
    assert(concat(payloads(run.emitted)) + work =~= concat(before) + data);
    match step(run.state, data).1 {
        Some(e) => {
            if before.len() == 0 {
                data.index_of_first_ensures(NEWLINE);
            } else {
                work.index_of_last_ensures(NEWLINE);
            }
            assert(e.payload + next.state.carry =~= work);
            assert(payloads(next.emitted) =~= payloads(run.emitted).push(e.payload));
            lemma_concat_push(payloads(run.emitted), e.payload);
            assert(concat(payloads(next.emitted)) + next.state.carry =~= concat(
                payloads(run.emitted),
            ) + work);
        },
        None => {},
    }
}

/// A run over the reads of a stream is coherent.
pub proof fn lemma_run_coherent(reads: Seq<Seq<u8>>)
    requires
        is_stream(reads),
    ensures
        coherent(run_reads(reads), reads),
    decreases reads.len(),
{
    if reads.len() > 0 {
        let before = reads.drop_last();
        lemma_run_coherent(before);
        lemma_feed_coherent(run_reads(before), before, reads.last());
        assert(before.push(reads.last()) =~= reads);
    }
}

/// What holds of all that a stream makes the reader emit, once the source has
/// ended.
pub proof fn lemma_emissions(reads: Seq<Seq<u8>>)
    requires
        is_stream(reads),
    ensures
        run_to_end(reads).state.phase == Phase::Done,
        run_to_end(reads).state.carry.len() == 0,
        run_to_end(reads).state.next_index == emissions(reads).len(),
        concat(payloads(emissions(reads))) == concat(reads),
        forall|i: int|
            0 <= i < emissions(reads).len() ==> emission_in_place(
                #[trigger] emissions(reads)[i],
                i,
                reads,
            ),
        forall|i: int|
            0 <= i < emissions(reads).len() - 1 && (#[trigger] emissions(reads)[i]).route
                == Route::Body ==> ends_with_newline(emissions(reads)[i].payload),
        reads.len() > 0 && has_header(reads[0]) ==> emissions(reads).len() > 0 && emissions(
            reads,
        )[0].route == Route::Header,
{
    lemma_run_coherent(reads);
    let run = run_reads(reads);
    match step(run.state, Seq::empty()).1 {
        Some(e) => {
            assert(payloads(emissions(reads)) =~= payloads(run.emitted).push(e.payload));
            lemma_concat_push(payloads(run.emitted), e.payload);
        },
        None => {
            assert(concat(payloads(run.emitted)) + run.state.carry =~= concat(
                payloads(run.emitted),
            ));
        },
    }
}

/// Reconstruction: the payloads of all emissions, laid end to end in the
/// order of their indices, are the bytes of the stream, none lost, doubled or
/// moved.
pub proof fn law_reconstruction(reads: Seq<Seq<u8>>)
    requires
        is_stream(reads),
    ensures
        concat(payloads(emissions(reads))) == concat(reads),
{
    lemma_emissions(reads);
}

/// Indices count up from zero: the emission at place `i` has the index `i`,
/// so that none is left out and none comes twice.
pub proof fn law_indices_count_up(reads: Seq<Seq<u8>>)
    requires
        is_stream(reads),
    ensures
        forall|i: int|
            0 <= i < emissions(reads).len() ==> (#[trigger] emissions(reads)[i]).index == i,
{
    lemma_emissions(reads);
}

/// No emission is empty.
pub proof fn law_no_empty_payload(reads: Seq<Seq<u8>>)
    requires
        is_stream(reads),
    ensures
        forall|i: int|
            0 <= i < emissions(reads).len() ==> (#[trigger] emissions(reads)[i]).payload.len()
                > 0,
{
    lemma_emissions(reads);
}

/// Newline alignment: every emission but the last ends with a newline. This
/// leaves out the streams whose first read gave a header without a newline
/// and which emit something after it: there the header is the one chunk that
/// does not end a line.
pub proof fn law_newline_alignment(reads: Seq<Seq<u8>>)
    requires
        is_stream(reads),
        !(header_unterminated(reads) && emissions(reads).len() > 1),
    ensures
        forall|i: int|
            0 <= i < emissions(reads).len() - 1 ==> ends_with_newline(
                (#[trigger] emissions(reads)[i]).payload,
            ),
{
    lemma_emissions(reads);
    if reads.len() > 0 {
        reads[0].index_of_first_ensures(NEWLINE);
    }
}

/// Every body chunk but the last emission ends with a newline, whatever the
/// header looks like.
pub proof fn law_body_alignment(reads: Seq<Seq<u8>>)
    requires
        is_stream(reads),
    ensures
        forall|i: int|
            0 <= i < emissions(reads).len() - 1 && (#[trigger] emissions(reads)[i]).route
                == Route::Body ==> ends_with_newline(emissions(reads)[i].payload),
{
    lemma_emissions(reads);
}

/// A source without bytes makes the reader emit nothing.
pub proof fn law_empty_stream()
    ensures
        emissions(Seq::empty()) == Seq::<Emitted>::empty(),
{
}

/// A stream that opens with a header: the first emission is the header, with
/// index 0 and the first line as its payload; all that follows are body
/// chunks, which hold the rest of the stream.
pub proof fn law_header_set_apart(reads: Seq<Seq<u8>>)
    requires
        is_stream(reads),
        reads.len() > 0,
        has_header(reads[0]),
    ensures
        emissions(reads).len() > 0,
        emissions(reads)[0] == (Emitted {
            route: Route::Header,
            index: 0,
            payload: reads[0].subrange(0, header_len(reads[0])),
        }),
        forall|i: int|
            0 < i < emissions(reads).len() ==> (#[trigger] emissions(reads)[i]).route
                == Route::Body && emissions(reads)[i].index == i,
        concat(payloads(emissions(reads)).drop_first()) == concat(reads).skip(
            header_len(reads[0]),
        ),
{
    lemma_emissions(reads);
    lemma_concat_first(payloads(emissions(reads)));
    reads[0].index_of_first_ensures(NEWLINE);
}

/// Only the first emission can be a header: whatever leaves on the header's
/// channel has index 0, and so at most one chunk does.
pub proof fn law_header_comes_first(reads: Seq<Seq<u8>>)
    requires
        is_stream(reads),
    ensures
        forall|i: int|
            0 <= i < emissions(reads).len() && (#[trigger] emissions(reads)[i]).route
                == Route::Header ==> i == 0 && emissions(reads)[i].index == 0,
{
    lemma_emissions(reads);
}

/// A stream whose first line is an ordinary record has no header: every
/// emission is a body chunk, and the first of them has index 0.
pub proof fn law_no_header(reads: Seq<Seq<u8>>)
    requires
        is_stream(reads),
        reads.len() > 0,
        !has_header(reads[0]),
    ensures
        forall|i: int|
            0 <= i < emissions(reads).len() ==> (#[trigger] emissions(reads)[i]).route
                == Route::Body && emissions(reads)[i].index == i,
{
    lemma_emissions(reads);
}

/// A stream that does not end with a newline: the last emission does not end
/// with one either.
pub proof fn law_unterminated_tail(reads: Seq<Seq<u8>>)
    requires
        is_stream(reads),
        concat(reads).len() > 0,
        !ends_with_newline(concat(reads)),
    ensures
        emissions(reads).len() > 0,
        !ends_with_newline(emissions(reads).last().payload),
{
    lemma_emissions(reads);
}

/// The content of a list of reads.
pub open spec fn reads_view(reads: Seq<Vec<u8>>) -> Seq<Seq<u8>> {
    Seq::new(reads.len(), |i: int| reads[i]@)
}

/// The content of a list of emissions.
pub open spec fn emitted_view(out: Seq<Emission>) -> Seq<Emitted> {
    Seq::new(out.len(), |i: int| out[i]@)
}

/// Runs a reader over the reads of a source that is held in memory, and
/// hands out all that it emits, in order.
pub fn chunk_reads(reads: &Vec<Vec<u8>>) -> (out: Vec<Emission>)
    requires
        reads@.len() < usize::MAX,
    ensures
        emitted_view(out@) == emissions(reads_view(reads@)),
{
    let mut reader = ChunkingReader::new();
    let mut out: Vec<Emission> = Vec::new();
    let mut i: usize = 0;
    while i < reads.len()
        invariant
            i <= reads@.len() < usize::MAX,
            reader@.next_index <= i,
            reader@ == run_reads(reads_view(reads@).take(i as int)).state,
            emitted_view(out@) == run_reads(reads_view(reads@).take(i as int)).emitted,
        decreases reads@.len() - i,
    {
        assert(reads_view(reads@).take(i + 1).drop_last() =~= reads_view(reads@).take(i as int));
        if let Some(emission) = reader.accept(reads[i].as_slice()) {
            out.push(emission);
        }
        i += 1;
    }
    assert(reads_view(reads@).take(i as int) =~= reads_view(reads@));
    let end: Vec<u8> = Vec::new();
    if let Some(emission) = reader.accept(end.as_slice()) {
        out.push(emission);
    }
    out
}

} // verus!

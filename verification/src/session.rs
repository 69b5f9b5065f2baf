//! Per-connection stream reassembly.
//!
//! A connection handler appends received bytes to a frame buffer and
//! drains complete frames: each is parsed, filtered by unit id
//! (requests for another unit are dropped silently; unit 0 is
//! answered as broadcast), and dispatched; a frame that fails to
//! parse clears the whole buffer to resynchronise.  A buffer that
//! outgrows twice the maximum frame size without yielding a frame is
//! cleared as well.
//!
//! `spec_drain` states the whole step: the responses, the store
//! state, and the bytes left buffered.

use vstd::prelude::*;

verus! {

use crate::codec::{ModbusRequest, spec_be16, spec_request_body};
use crate::dispatch::{process_request, spec_process};
use crate::store::{ModbusDataStore, StoreModel};

/// Maximum size of a Modbus TCP frame.
pub const MAX_FRAME_SIZE: usize = 260;

/// Whether a buffer starts with a complete frame: it reaches the
/// length field and as far as the length field announces.
pub open spec fn spec_frame_complete(s: Seq<u8>) -> bool {
    s.len() >= 6 && s.len() >= 6 + spec_be16(s[4], s[5])
}

/// The length of the frame at the head of the buffer.
pub open spec fn spec_frame_len(s: Seq<u8>) -> int {
    6 + spec_be16(s[4], s[5])
}

/// Whether a drained frame parses: it must reach the function code,
/// and its protocol id must be zero.
pub open spec fn spec_frame_parses(frame: Seq<u8>) -> bool {
    frame.len() >= 8 && spec_be16(frame[2], frame[3]) == 0
}

/// Whether a frame passes the unit-id filter: its unit id is the
/// configured one, or zero (broadcast, answered normally).
pub open spec fn spec_unit_match(frame: Seq<u8>, unit_id: u8) -> bool {
    frame[6] == unit_id || frame[6] == 0
}

/// What draining a buffer produces: the responses in order, the
/// store afterwards, and what stays buffered.
pub ghost struct SessionOutcome {
    pub responses: Seq<Seq<u8>>,
    pub store: StoreModel,
    pub buffer: Seq<u8>,
}

/// The outcome of one frame against the store.
pub open spec fn spec_frame_outcome(m: StoreModel, frame: Seq<u8>) -> crate::dispatch::Outcome {
    spec_process(
        m,
        spec_be16(frame[0], frame[1]),
        frame[6],
        frame[7],
        spec_request_body(frame),
    )
}

/// Drain every complete frame at the head of the buffer: answered
/// frames contribute a response and advance the store, frames for
/// another unit are dropped, and a frame that fails to parse clears
/// the buffer and ends the drain.
pub open spec fn spec_drain(m: StoreModel, buf: Seq<u8>, unit_id: u8) -> SessionOutcome
    decreases buf.len(),
{
    if spec_frame_complete(buf) {
        let flen = spec_frame_len(buf);
        let frame = buf.subrange(0, flen);
        let rest = buf.skip(flen);
        if spec_frame_parses(frame) {
            if spec_unit_match(frame, unit_id) {
                let out = spec_frame_outcome(m, frame);
                let tail = spec_drain(out.store, rest, unit_id);
                SessionOutcome {
                    responses: seq![out.response] + tail.responses,
                    store: tail.store,
                    buffer: tail.buffer,
                }
            } else {
                spec_drain(m, rest, unit_id)
            }
        } else {
            SessionOutcome { responses: Seq::empty(), store: m, buffer: Seq::empty() }
        }
    } else {
        SessionOutcome { responses: Seq::empty(), store: m, buffer: buf }
    }
}

/// The buffer after the defensive overflow guard: cleared if it
/// outgrew twice the maximum frame size without yielding a frame.
pub open spec fn spec_guard_buffer(buf: Seq<u8>) -> Seq<u8> {
    if buf.len() > 2 * MAX_FRAME_SIZE {
        Seq::empty()
    } else {
        buf
    }
}

/// Remove the first `n` bytes of the buffer and return them.
fn take_front(buf: &mut Vec<u8>, n: usize) -> (front: Vec<u8>)
    requires
        n <= old(buf)@.len(),
    ensures
        front@ == old(buf)@.subrange(0, n as int),
        final(buf)@ == old(buf)@.skip(n as int),
{
    let mut front: Vec<u8> = Vec::new();
    let mut i: usize = 0;
    while i < n
        invariant
            i <= n <= buf@.len(),
            buf@ == old(buf)@,
            front@ == buf@.subrange(0, i as int),
        decreases n - i,
    {
        front.push(buf[i]);
        proof {
            assert(front@ =~= buf@.subrange(0, i + 1));
        }
        i = i + 1;
    }
    let mut rest: Vec<u8> = Vec::new();
    let mut j: usize = n;
    while j < buf.len()
        invariant
            n <= j <= buf@.len(),
            buf@ == old(buf)@,
            rest@ == buf@.subrange(n as int, j as int),
        decreases buf@.len() - j,
    {
        rest.push(buf[j]);
        proof {
            assert(rest@ =~= buf@.subrange(n as int, j + 1));
        }
        j = j + 1;
    }
    proof {
        assert(rest@ =~= old(buf)@.skip(n as int));
    }
    *buf = rest;
    front
}

/// Drain and answer every complete frame at the head of the buffer,
/// appending each response to `responses`.
fn drain_frames(
    frame_buffer: &mut Vec<u8>,
    store: &mut ModbusDataStore,
    unit_id: u8,
    responses: &mut Vec<Vec<u8>>,
)
    requires
        old(store)@.wf(),
    ensures
        final(store)@.wf(),
        final(responses)@.map_values(|v: Vec<u8>| v@) == old(responses)@.map_values(
            |v: Vec<u8>| v@,
        ) + spec_drain(old(store)@, old(frame_buffer)@, unit_id).responses,
        final(store)@ == spec_drain(old(store)@, old(frame_buffer)@, unit_id).store,
        final(frame_buffer)@ == spec_drain(old(store)@, old(frame_buffer)@, unit_id).buffer,
    decreases old(frame_buffer)@.len(),
{
    let flen = match ModbusRequest::expected_frame_length(frame_buffer.as_slice()) {
        Some(flen) => flen,
        None => {
            return ;
        },
    };
    if frame_buffer.len() < flen {
        return ;
    }
    let frame_data = take_front(frame_buffer, flen);

    match ModbusRequest::parse(frame_data.as_slice()) {
        Ok(request) => {
            // Unit-id filter: silently drop frames for other units.
            if request.header.unit_id != unit_id && request.header.unit_id != 0 {
                drain_frames(frame_buffer, store, unit_id, responses);
                return ;
            }
            let response = process_request(&request, store);
            responses.push(response);
            proof {
                assert(responses@.map_values(|v: Vec<u8>| v@) =~= old(responses)@.map_values(
                    |v: Vec<u8>| v@,
                ) + seq![
                    spec_frame_outcome(old(store)@, old(frame_buffer)@.subrange(0, flen as int)).response,
                ]);
            }
            drain_frames(frame_buffer, store, unit_id, responses);
            proof {
                assert(responses@.map_values(|v: Vec<u8>| v@) =~= old(responses)@.map_values(
                    |v: Vec<u8>| v@,
                ) + spec_drain(old(store)@, old(frame_buffer)@, unit_id).responses);
            }
        },
        Err(_) => {
            // Parse failure: resynchronise by discarding everything
            // buffered.
            frame_buffer.clear();
        },
    }
}

/// Feed received bytes to the reassembly buffer and produce the
/// responses of every complete frame, applying the overflow guard.
pub fn ingest_chunk(
    frame_buffer: &mut Vec<u8>,
    store: &mut ModbusDataStore,
    unit_id: u8,
    chunk: &[u8],
) -> (responses: Vec<Vec<u8>>)
    requires
        old(store)@.wf(),
        old(frame_buffer)@.len() + chunk@.len() <= usize::MAX,
    ensures
        final(store)@.wf(),
        responses@.map_values(|v: Vec<u8>| v@) == spec_drain(
            old(store)@,
            old(frame_buffer)@ + chunk@,
            unit_id,
        ).responses,
        final(store)@ == spec_drain(old(store)@, old(frame_buffer)@ + chunk@, unit_id).store,
        final(frame_buffer)@ == spec_guard_buffer(
            spec_drain(old(store)@, old(frame_buffer)@ + chunk@, unit_id).buffer,
        ),
{
    let mut i: usize = 0;
    while i < chunk.len()
        invariant
            i <= chunk@.len(),
            old(frame_buffer)@.len() + chunk@.len() <= usize::MAX,
            frame_buffer@ == old(frame_buffer)@ + chunk@.subrange(0, i as int),
            store@ == old(store)@,
        decreases chunk@.len() - i,
    {
        frame_buffer.push(chunk[i]);
        proof {
            assert(frame_buffer@ =~= old(frame_buffer)@ + chunk@.subrange(0, i + 1));
        }
        i = i + 1;
    }
    proof {
        assert(frame_buffer@ =~= old(frame_buffer)@ + chunk@);
    }

    let mut responses: Vec<Vec<u8>> = Vec::new();
    drain_frames(frame_buffer, store, unit_id, &mut responses);

    // Defensive resync: a buffer that cannot contain a frame
    // boundary any more is discarded.
    if frame_buffer.len() > MAX_FRAME_SIZE * 2 {
        frame_buffer.clear();
    }
    responses
}


/// A byte string that is one exact wire frame: as long as its length
/// field announces, reaching the function code, protocol id zero.
pub open spec fn spec_wire_frame(f: Seq<u8>) -> bool {
    &&& f.len() == spec_frame_len(f)
    &&& f.len() >= 8
    &&& spec_be16(f[2], f[3]) == 0
}

/// Unit-id filter: a frame for another unit (and not broadcast)
/// contributes no response bytes and does not touch the store; the
/// drain continues behind it as if it had never arrived.
pub proof fn lemma_unit_id_filter(m: StoreModel, frame: Seq<u8>, rest: Seq<u8>, unit_id: u8)
    requires
        spec_wire_frame(frame),
        frame[6] != unit_id,
        frame[6] != 0,
    ensures
        spec_drain(m, frame + rest, unit_id) == spec_drain(m, rest, unit_id),
{
    let buf = frame + rest;
    assert(buf[4] == frame[4] && buf[5] == frame[5]);
    assert(spec_frame_complete(buf));
    assert(buf.subrange(0, spec_frame_len(buf)) =~= frame);
    assert(buf.skip(spec_frame_len(buf)) =~= rest);
}

/// Draining a buffer that starts with a well-formed frame for this
/// unit answers that frame first and continues behind it.
pub proof fn lemma_drain_frame_head(m: StoreModel, frame: Seq<u8>, rest: Seq<u8>, unit_id: u8)
    requires
        spec_wire_frame(frame),
        spec_unit_match(frame, unit_id),
    ensures
        spec_drain(m, frame + rest, unit_id).responses == seq![
            spec_frame_outcome(m, frame).response,
        ] + spec_drain(spec_frame_outcome(m, frame).store, rest, unit_id).responses,
        spec_drain(m, frame + rest, unit_id).store == spec_drain(
            spec_frame_outcome(m, frame).store,
            rest,
            unit_id,
        ).store,
        spec_drain(m, frame + rest, unit_id).buffer == spec_drain(
            spec_frame_outcome(m, frame).store,
            rest,
            unit_id,
        ).buffer,
{
    let buf = frame + rest;
    assert(buf[4] == frame[4] && buf[5] == frame[5]);
    assert(spec_frame_complete(buf));
    assert(buf.subrange(0, spec_frame_len(buf)) =~= frame);
    assert(buf.skip(spec_frame_len(buf)) =~= rest);
}

/// Whether every complete frame at the head of the buffer parses:
/// draining such a buffer never hits the resynchronising clear.
pub open spec fn spec_drain_clean(buf: Seq<u8>) -> bool
    decreases buf.len(),
{
    if spec_frame_complete(buf) {
        spec_frame_parses(buf.subrange(0, spec_frame_len(buf))) && spec_drain_clean(
            buf.skip(spec_frame_len(buf)),
        )
    } else {
        true
    }
}

/// Chunking law: as long as no malformed frame forces a resync,
/// draining a buffer and then draining its residue with more bytes
/// appended gives the same responses, store and residue as draining
/// everything at once.  Delivering a frame stream in arbitrary chunk
/// slicings therefore produces the same responses in the same order.
pub proof fn lemma_drain_append(m: StoreModel, buf: Seq<u8>, ext: Seq<u8>, unit_id: u8)
    requires
        spec_drain_clean(buf),
    ensures
        spec_drain(m, buf + ext, unit_id).responses == spec_drain(m, buf, unit_id).responses
            + spec_drain(
            spec_drain(m, buf, unit_id).store,
            spec_drain(m, buf, unit_id).buffer + ext,
            unit_id,
        ).responses,
        spec_drain(m, buf + ext, unit_id).store == spec_drain(
            spec_drain(m, buf, unit_id).store,
            spec_drain(m, buf, unit_id).buffer + ext,
            unit_id,
        ).store,
        spec_drain(m, buf + ext, unit_id).buffer == spec_drain(
            spec_drain(m, buf, unit_id).store,
            spec_drain(m, buf, unit_id).buffer + ext,
            unit_id,
        ).buffer,
    decreases buf.len(),
{
    if spec_frame_complete(buf) {
        let flen = spec_frame_len(buf);
        let frame = buf.subrange(0, flen);
        let restb = buf.skip(flen);
        let both = buf + ext;
        assert(both[4] == buf[4] && both[5] == buf[5]);
        assert(spec_frame_complete(both));
        assert(spec_frame_len(both) == flen);
        assert(both.subrange(0, flen) =~= frame);
        assert(both.skip(flen) =~= restb + ext);
        if spec_unit_match(frame, unit_id) {
            let out = spec_frame_outcome(m, frame);
            lemma_drain_append(out.store, restb, ext, unit_id);
            let tail = spec_drain(out.store, restb, unit_id);
            assert(seq![out.response] + (tail.responses + spec_drain(
                tail.store,
                tail.buffer + ext,
                unit_id,
            ).responses) =~= (seq![out.response] + tail.responses) + spec_drain(
                tail.store,
                tail.buffer + ext,
                unit_id,
            ).responses);
        } else {
            lemma_drain_append(m, restb, ext, unit_id);
        }
    } else {
        assert(spec_drain(m, buf, unit_id).buffer == buf);
        assert(Seq::<Seq<u8>>::empty() + spec_drain(m, buf + ext, unit_id).responses
            =~= spec_drain(m, buf + ext, unit_id).responses);
    }
}

/// The concatenation of a list of frames.
pub open spec fn spec_concat_frames(frames: Seq<Seq<u8>>) -> Seq<u8>
    decreases frames.len(),
{
    if frames.len() == 0 {
        Seq::empty()
    } else {
        frames[0] + spec_concat_frames(frames.drop_first())
    }
}

/// The responses of a list of frames answered in order, each against
/// the store state the previous ones left.
pub open spec fn spec_responses_of(m: StoreModel, frames: Seq<Seq<u8>>) -> Seq<Seq<u8>>
    decreases frames.len(),
{
    if frames.len() == 0 {
        Seq::empty()
    } else {
        seq![spec_frame_outcome(m, frames[0]).response] + spec_responses_of(
            spec_frame_outcome(m, frames[0]).store,
            frames.drop_first(),
        )
    }
}

/// The store after a list of frames is answered in order.
pub open spec fn spec_store_after(m: StoreModel, frames: Seq<Seq<u8>>) -> StoreModel
    decreases frames.len(),
{
    if frames.len() == 0 {
        m
    } else {
        spec_store_after(spec_frame_outcome(m, frames[0]).store, frames.drop_first())
    }
}

/// Reassembly law: a buffer holding exactly `k` well-formed frames
/// for this unit drains to exactly `k` responses, one per frame in
/// arrival order, and leaves nothing buffered.  Together with the
/// chunking law this holds for any chunk slicing of the stream.
pub proof fn lemma_reassembly(m: StoreModel, frames: Seq<Seq<u8>>, unit_id: u8)
    requires
        forall|i: int|
            0 <= i < frames.len() ==> spec_wire_frame(#[trigger] frames[i])
                && spec_unit_match(frames[i], unit_id),
    ensures
        spec_drain(m, spec_concat_frames(frames), unit_id).responses == spec_responses_of(
            m,
            frames,
        ),
        spec_drain(m, spec_concat_frames(frames), unit_id).responses.len() == frames.len(),
        spec_drain(m, spec_concat_frames(frames), unit_id).store == spec_store_after(m, frames),
        spec_drain(m, spec_concat_frames(frames), unit_id).buffer == Seq::<u8>::empty(),
    decreases frames.len(),
{
    if frames.len() == 0 {
        assert(!spec_frame_complete(Seq::<u8>::empty()));
    } else {
        let frame = frames[0];
        let rest = spec_concat_frames(frames.drop_first());
        lemma_drain_frame_head(m, frame, rest, unit_id);
        lemma_reassembly(spec_frame_outcome(m, frame).store, frames.drop_first(), unit_id);
    }
}

} // verus!

//! The frame decoder: from the chunks of a byte stream to the frames they hold.
//!
//! Frames are separated by two newlines followed by `data: `. What stands
//! before a separator is a candidate; what stands after the last separator may
//! still grow and is kept for the next chunk. A candidate that is neither
//! blank, nor the end marker, nor an event is taken to be unfinished: its
//! payload is kept too, in front of what is kept anyway, so that it is tried
//! again together with what the next chunks bring.

use crate::event::{choices_view, event_of, event_of_json, frames_view, Choice, ChoiceModel, Frame, FrameModel};
use crate::json::{json_document, parse_json};
use crate::text::{
    copy_range, drop_blanks, find, first_match, is_blank, lemma_first_match_extends,
    lemma_first_match_some, occurs_at, same_bytes, skip_blanks, strip_prefix, trim_end, trim_start,
};
use vstd::prelude::*;
use vstd::slice::slice_subrange;

verus! {

/// The separator of frames: two newlines, then `data: `.
pub open spec fn delimiter() -> Seq<u8> {
    seq![10u8, 10u8, 100u8, 97u8, 116u8, 97u8, 58u8, 32u8]
}

/// The token that a frame may start with: `data:`.
pub open spec fn event_prefix() -> Seq<u8> {
    seq![100u8, 97u8, 116u8, 97u8, 58u8]
}

/// The payload that ends the stream: `[DONE]`.
pub open spec fn sentinel() -> Seq<u8> {
    seq![91u8, 68u8, 79u8, 78u8, 69u8, 93u8]
}

/// The payload of a candidate: the candidate without the blanks around it,
/// without the token `data:` at its start, and without the blanks after that.
pub open spec fn payload_of(candidate: Seq<u8>) -> Seq<u8> {
    trim_start(strip_prefix(trim_end(trim_start(candidate)), event_prefix()))
}

/// The event that a payload describes, if it is a JSON document of that shape.
pub open spec fn decode_payload(payload: Seq<u8>) -> Option<Seq<ChoiceModel>> {
    match json_document(payload) {
        Some(json) => event_of(json),
        None => None,
    }
}

/// What a candidate turns out to be.
#[derive(Debug)]
pub enum Candidate {
    /// Nothing but blanks.
    Blank,
    /// The end marker.
    End,
    /// An event, with its choices.
    Event(Vec<Choice>),
    /// None of these.
    Malformed,
}

/// What a [`Candidate`] stands for.
pub enum CandidateModel {
    Blank,
    End,
    Event(Seq<ChoiceModel>),
    Malformed,
}

impl View for Candidate {
    type V = CandidateModel;

    open spec fn view(&self) -> CandidateModel {
        match self {
            Candidate::Blank => CandidateModel::Blank,
            Candidate::End => CandidateModel::End,
            Candidate::Event(choices) => CandidateModel::Event(choices_view(choices@)),
            Candidate::Malformed => CandidateModel::Malformed,
        }
    }
}

/// What a payload turns out to be, given the event that was read from it.
pub open spec fn classify_payload(
    payload: Seq<u8>,
    event: Option<Seq<ChoiceModel>>,
) -> CandidateModel {
    if payload.len() == 0 {
        CandidateModel::Blank
    } else if payload == sentinel() {
        CandidateModel::End
    } else {
        match event {
            Some(choices) => CandidateModel::Event(choices),
            None => CandidateModel::Malformed,
        }
    }
}

/// What a candidate turns out to be.
pub open spec fn classify(candidate: Seq<u8>) -> CandidateModel {
    let payload = payload_of(candidate);
    classify_payload(payload, decode_payload(payload))
}

/// What the decoder makes of a buffer.
#[verifier::ext_equal]
pub struct Scan {
    /// The frames found, in their order.
    pub frames: Seq<FrameModel>,
    /// The payloads of the candidates that were found unfinished, in their
    /// order.
    pub kept: Seq<u8>,
    /// What stands after the last separator.
    pub last: Seq<u8>,
    /// Whether the end marker was found.
    pub ended: bool,
}

impl Scan {
    /// What is kept for the next chunk: the unfinished payloads, then what
    /// stands after the last separator.
    pub open spec fn rest(self) -> Seq<u8> {
        self.kept + self.last
    }
}

/// `scan` with `frames` put before its frames.
pub open spec fn after(frames: Seq<FrameModel>, scan: Scan) -> Scan {
    Scan { frames: frames + scan.frames, kept: scan.kept, last: scan.last, ended: scan.ended }
}

/// What the decoder makes of `buf`, when `kept` holds the payloads of the
/// candidates found unfinished so far.
///
/// The candidate runs from the start of `buf` to the first separator, and the
/// scan goes on behind the separator. A blank candidate is dropped, an event
/// is emitted, and the payload of an unfinished candidate is kept. The end
/// marker ends the scan, and nothing is kept then. What stands after the last
/// separator is no candidate yet.
pub open spec fn scan(buf: Seq<u8>, kept: Seq<u8>) -> Scan
    decreases buf.len(),
{
    match first_match(buf, delimiter(), 0) {
        Some(at) => {
            if 0 <= at && at + delimiter().len() <= buf.len() {
                let behind = buf.skip(at + delimiter().len());
                match classify(buf.take(at)) {
                    CandidateModel::Blank => scan(behind, kept),
                    CandidateModel::End => Scan {
                        frames: seq![FrameModel::StreamEnd],
                        kept: Seq::empty(),
                        last: Seq::empty(),
                        ended: true,
                    },
                    CandidateModel::Event(choices) => after(
                        seq![FrameModel::Event(choices)],
                        scan(behind, kept),
                    ),
                    CandidateModel::Malformed => scan(behind, kept + payload_of(buf.take(at))),
                }
            } else {
                Scan { frames: Seq::empty(), kept, last: buf, ended: false }
            }
        },
        None => Scan { frames: Seq::empty(), kept, last: buf, ended: false },
    }
}

/// Where a decoder stands.
#[derive(Debug, Clone, Copy, PartialEq, Eq, Structural)]
pub enum DecoderState {
    /// It takes chunks.
    Open,
    /// The stream is over: the end marker was read, or the stream was closed.
    Ended,
    /// More was kept than the decoder is allowed to keep.
    Stalled,
}

/// What a [`FrameDecoder`] stands for.
pub struct DecoderModel {
    /// The bytes kept for the next chunk.
    pub residual: Seq<u8>,
    /// How many bytes may be kept.
    pub limit: nat,
    pub state: DecoderState,
}

impl DecoderModel {
    /// An open decoder keeps no more than its limit, any other keeps nothing.
    pub open spec fn wf(self) -> bool {
        if self.state is Open {
            self.residual.len() <= self.limit
        } else {
            self.residual.len() == 0
        }
    }

    /// The decoder in another state, with nothing kept.
    pub open spec fn closed(self, state: DecoderState) -> DecoderModel {
        DecoderModel { residual: Seq::empty(), limit: self.limit, state }
    }

    /// What an open decoder finds in what it kept and a chunk.
    pub open spec fn found(self, chunk: Seq<u8>) -> Scan {
        scan(self.residual + chunk, Seq::empty())
    }
}

/// What a chunk does to a decoder, and the frames that it yields.
///
/// An open decoder scans what it kept together with the chunk. It ends with
/// the end marker, stalls where more is to be kept than its limit allows, and
/// else keeps what the scan leaves. A decoder that is not open takes nothing,
/// and an empty chunk does nothing.
pub open spec fn feed_model(decoder: DecoderModel, chunk: Seq<u8>) -> (DecoderModel, Seq<FrameModel>) {
    if !(decoder.state is Open) || chunk.len() == 0 {
        (decoder, Seq::empty())
    } else {
        let found = decoder.found(chunk);
        if found.ended {
            (decoder.closed(DecoderState::Ended), found.frames)
        } else if found.rest().len() > decoder.limit {
            (decoder.closed(DecoderState::Stalled), found.frames)
        } else {
            (
                DecoderModel {
                    residual: found.rest(),
                    limit: decoder.limit,
                    state: DecoderState::Open,
                },
                found.frames,
            )
        }
    }
}

/// The frames that what was kept yields when the stream is closed.
pub open spec fn last_frames(residual: Seq<u8>) -> Seq<FrameModel> {
    match classify(residual) {
        CandidateModel::End => seq![FrameModel::StreamEnd],
        CandidateModel::Event(choices) => seq![FrameModel::Event(choices)],
        _ => Seq::empty(),
    }
}

/// What the end of the stream does to a decoder, and the frames that it yields.
pub open spec fn finish_model(decoder: DecoderModel) -> (DecoderModel, Seq<FrameModel>) {
    if !(decoder.state is Open) {
        (decoder, Seq::empty())
    } else {
        (decoder.closed(DecoderState::Ended), last_frames(decoder.residual))
    }
}

/// Scanning `a + b` is scanning `a` and then, unless the end marker was found,
/// scanning what stands after the last separator of `a` together with `b`.
pub proof fn lemma_scan_append(a: Seq<u8>, b: Seq<u8>, kept: Seq<u8>)
    ensures
        scan(a + b, kept) == if scan(a, kept).ended {
            scan(a, kept)
        } else {
            after(scan(a, kept).frames, scan(scan(a, kept).last + b, scan(a, kept).kept))
        },
    decreases a.len(),
{
    let whole = a + b;
    let found = scan(a, kept);
    match first_match(a, delimiter(), 0) {
        None => {
            assert(after(found.frames, scan(found.last + b, found.kept)) =~= scan(whole, kept));
        },
        Some(at) => {
            lemma_first_match_some(a, delimiter(), 0);
            lemma_first_match_extends(a, b, delimiter(), 0, at);
            assert(whole.take(at) =~= a.take(at));
            let behind = a.skip(at + 8);
            assert(whole.skip(at + 8) =~= behind + b);
            match classify(a.take(at)) {
                CandidateModel::Blank => {
                    lemma_scan_append(behind, b, kept);
                },
                CandidateModel::End => {},
                CandidateModel::Event(choices) => {
                    lemma_scan_append(behind, b, kept);
                    let head = seq![FrameModel::Event(choices)];
                    let tail = scan(behind, kept);
                    if !tail.ended {
                        let more = scan(tail.last + b, tail.kept);
                        assert((head + tail.frames) + more.frames =~= head + (tail.frames
                            + more.frames));
                    }
                },
                CandidateModel::Malformed => {
                    lemma_scan_append(behind, b, kept + payload_of(a.take(at)));
                },
            }
        },
    }
}

/// Once the end marker is read, nothing that follows it is looked at: the
/// frames are those found up to the marker, whatever stands behind it.
pub proof fn lemma_end_ignores_what_follows(read: Seq<u8>, more: Seq<u8>, kept: Seq<u8>)
    requires
        scan(read, kept).ended,
    ensures
        scan(read + more, kept) == scan(read, kept),
{
    lemma_scan_append(read, more, kept);
}

/// The end marker is the last frame that a scan yields, and with it nothing is
/// kept; every frame before it, and every frame of a scan without it, is an
/// event.
pub proof fn lemma_end_is_last(buf: Seq<u8>, kept: Seq<u8>)
    ensures
        forall|i: int|
            0 <= i < scan(buf, kept).frames.len() ==> ((#[trigger] scan(buf, kept).frames[i])
                is StreamEnd <==> scan(buf, kept).ended && i == scan(buf, kept).frames.len() - 1),
        scan(buf, kept).ended ==> scan(buf, kept).frames.len() > 0 && scan(buf, kept).rest().len()
            == 0,
    decreases buf.len(),
{
    match first_match(buf, delimiter(), 0) {
        Some(at) => {
            if 0 <= at && at + delimiter().len() <= buf.len() {
                let behind = buf.skip(at + delimiter().len());
                match classify(buf.take(at)) {
                    CandidateModel::Blank => {
                        lemma_end_is_last(behind, kept);
                    },
                    CandidateModel::End => {},
                    CandidateModel::Event(choices) => {
                        lemma_end_is_last(behind, kept);
                        let tail = scan(behind, kept);
                        let all = scan(buf, kept);
                        assert forall|i: int| 0 <= i < all.frames.len() implies ((
                        #[trigger] all.frames[i]) is StreamEnd <==> all.ended && i
                            == all.frames.len() - 1) by {
                            if i > 0 {
                                assert(all.frames[i] == tail.frames[i - 1]);
                            }
                        }
                    },
                    CandidateModel::Malformed => {
                        lemma_end_is_last(behind, kept + payload_of(buf.take(at)));
                    },
                }
            }
        },
        None => {},
    }
}

/// Whether an event was read from the payload of a piece of a buffer.
pub open spec fn read_from_piece(buf: Seq<u8>, choices: Seq<ChoiceModel>) -> bool {
    exists|lo: int, hi: int|
        0 <= lo <= hi <= buf.len() && #[trigger] decode_payload(payload_of(buf.subrange(lo, hi)))
            == Some(choices)
}

/// No event is made up: each event that a scan yields was read, whole, from
/// the payload of a piece of the buffer.
pub proof fn lemma_events_are_read(buf: Seq<u8>, kept: Seq<u8>, i: int)
    requires
        0 <= i < scan(buf, kept).frames.len(),
        scan(buf, kept).frames[i] is Event,
    ensures
        read_from_piece(buf, scan(buf, kept).frames[i]->Event_0),
    decreases buf.len(),
{
    match first_match(buf, delimiter(), 0) {
        Some(at) => {
            if 0 <= at && at + delimiter().len() <= buf.len() {
                let start = at + delimiter().len();
                let behind = buf.skip(start);
                match classify(buf.take(at)) {
                    CandidateModel::Blank => {
                        lemma_events_are_read(behind, kept, i);
                        lemma_piece_of_the_rest(buf, start, scan(behind, kept).frames[i]->Event_0);
                    },
                    CandidateModel::End => {},
                    CandidateModel::Event(choices) => {
                        if i == 0 {
                            assert(buf.subrange(0, at) =~= buf.take(at));
                            assert(decode_payload(payload_of(buf.subrange(0, at))) == Some(
                                choices,
                            ));
                        } else {
                            lemma_events_are_read(behind, kept, i - 1);
                            lemma_piece_of_the_rest(
                                buf,
                                start,
                                scan(behind, kept).frames[i - 1]->Event_0,
                            );
                        }
                    },
                    CandidateModel::Malformed => {
                        let more = kept + payload_of(buf.take(at));
                        lemma_events_are_read(behind, more, i);
                        lemma_piece_of_the_rest(buf, start, scan(behind, more).frames[i]->Event_0);
                    },
                }
            }
        },
        None => {},
    }
}

/// A piece of what stands behind a place in a buffer is a piece of the
/// buffer.
proof fn lemma_piece_of_the_rest(buf: Seq<u8>, start: int, choices: Seq<ChoiceModel>)
    requires
        0 <= start <= buf.len(),
        read_from_piece(buf.skip(start), choices),
    ensures
        read_from_piece(buf, choices),
{
    let behind = buf.skip(start);
    let (lo, hi) = choose|lo: int, hi: int|
        0 <= lo <= hi <= behind.len() && #[trigger] decode_payload(
            payload_of(behind.subrange(lo, hi)),
        ) == Some(choices);
    assert(buf.subrange(start + lo, start + hi) =~= behind.subrange(lo, hi));
    assert(decode_payload(payload_of(buf.subrange(start + lo, start + hi))) == Some(choices));
}

/// A decoder that is not open yields no frame and stays as it is, whatever it
/// is fed and when the stream is closed.
pub proof fn lemma_nothing_after_end(decoder: DecoderModel, chunk: Seq<u8>)
    requires
        !(decoder.state is Open),
    ensures
        feed_model(decoder, chunk) == (decoder, Seq::<FrameModel>::empty()),
        finish_model(decoder) == (decoder, Seq::<FrameModel>::empty()),
{
}

/// An empty chunk yields no frame and leaves the decoder as it is.
pub proof fn lemma_empty_chunk_does_nothing(decoder: DecoderModel)
    ensures
        feed_model(decoder, Seq::empty()) == (decoder, Seq::<FrameModel>::empty()),
{
}

/// A candidate of nothing but blanks is blank: it yields no frame.
pub proof fn lemma_blanks_are_blank(candidate: Seq<u8>)
    requires
        forall|i: int| 0 <= i < candidate.len() ==> is_blank(#[trigger] candidate[i]),
    ensures
        classify(candidate) is Blank,
    decreases candidate.len(),
{
    lemma_trim_start_of_blanks(candidate);
    assert(trim_start(candidate) =~= Seq::<u8>::empty());
}

/// What is left of blanks without the blanks at their start is nothing.
proof fn lemma_trim_start_of_blanks(blanks: Seq<u8>)
    requires
        forall|i: int| 0 <= i < blanks.len() ==> is_blank(#[trigger] blanks[i]),
    ensures
        trim_start(blanks).len() == 0,
    decreases blanks.len(),
{
    if blanks.len() > 0 {
        assert(is_blank(blanks[0]));
        assert forall|i: int| 0 <= i < blanks.skip(1).len() implies is_blank(
            #[trigger] blanks.skip(1)[i],
        ) by {
            assert(blanks.skip(1)[i] == blanks[i + 1]);
        }
        lemma_trim_start_of_blanks(blanks.skip(1));
    }
}

/// Whether a decoder falters on a chunk: it finds a candidate that is
/// unfinished, or it stalls.
pub open spec fn falters(decoder: DecoderModel, chunk: Seq<u8>) -> bool {
    decoder.state is Open && chunk.len() > 0 && (decoder.found(chunk).kept.len() > 0
        || feed_model(decoder, chunk).0.state is Stalled)
}

/// The frames of a text fed in one chunk start with the frames of its first
/// part fed alone, whether the decoder falters or not.
pub proof fn lemma_first_part_yields_a_prefix(
    decoder: DecoderModel,
    first: Seq<u8>,
    second: Seq<u8>,
)
    ensures
        feed_model(decoder, first).1.is_prefix_of(feed_model(decoder, first + second).1),
{
    if decoder.state is Open && first.len() > 0 {
        let read = decoder.residual + first;
        lemma_scan_append(read, second, Seq::empty());
        assert(read + second =~= decoder.residual + (first + second));
    }
}

/// A text fed in two chunks yields the frames, and leaves the decoder as, the
/// text fed in one chunk does, unless the decoder falters on the first chunk.
pub proof fn lemma_feed_split(decoder: DecoderModel, first: Seq<u8>, second: Seq<u8>)
    requires
        !falters(decoder, first),
    ensures
        feed_model(decoder, first + second) == (
            feed_model(feed_model(decoder, first).0, second).0,
            feed_model(decoder, first).1 + feed_model(feed_model(decoder, first).0, second).1,
        ),
{
    let (between, head) = feed_model(decoder, first);
    let (last, tail) = feed_model(between, second);
    if !(decoder.state is Open) {
        assert(head + tail =~= Seq::<FrameModel>::empty());
    } else if first.len() == 0 {
        assert(first + second =~= second);
        assert(head + tail =~= tail);
    } else if second.len() == 0 {
        assert(first + second =~= first);
        assert(head + tail =~= head);
    } else {
        let read = decoder.residual + first;
        let found = scan(read, Seq::empty());
        lemma_scan_append(read, second, Seq::empty());
        assert(read + second =~= decoder.residual + (first + second));
        if found.ended {
            assert(head + tail =~= head);
        } else {
            assert(found.kept =~= Seq::<u8>::empty());
            assert(found.rest() =~= found.last);
        }
    }
}

/// What a run of chunks, fed one after the other, does to a decoder, and the
/// frames that they yield.
pub open spec fn feed_all(decoder: DecoderModel, chunks: Seq<Seq<u8>>) -> (
    DecoderModel,
    Seq<FrameModel>,
)
    decreases chunks.len(),
{
    if chunks.len() == 0 {
        (decoder, Seq::empty())
    } else {
        let (next, head) = feed_model(decoder, chunks[0]);
        let (last, tail) = feed_all(next, chunks.skip(1));
        (last, head + tail)
    }
}

/// The chunks put together.
pub open spec fn joined(chunks: Seq<Seq<u8>>) -> Seq<u8>
    decreases chunks.len(),
{
    if chunks.len() == 0 {
        Seq::empty()
    } else {
        chunks[0] + joined(chunks.skip(1))
    }
}

/// Whether the decoder falters on a chunk that is not the last.
pub open spec fn falters_before_last(decoder: DecoderModel, chunks: Seq<Seq<u8>>) -> bool
    decreases chunks.len(),
{
    if chunks.len() <= 1 {
        false
    } else {
        falters(decoder, chunks[0]) || falters_before_last(
            feed_model(decoder, chunks[0]).0,
            chunks.skip(1),
        )
    }
}

/// However a text is cut into chunks, feeding the chunks in their order yields
/// the frames, and leaves the decoder as, feeding the whole text at once does,
/// unless the decoder falters before the last chunk.
pub proof fn lemma_reassembly(decoder: DecoderModel, chunks: Seq<Seq<u8>>)
    requires
        chunks.len() > 0,
        !falters_before_last(decoder, chunks),
    ensures
        feed_all(decoder, chunks) == feed_model(decoder, joined(chunks)),
    decreases chunks.len(),
{
    let (next, head) = feed_model(decoder, chunks[0]);
    let rest = chunks.skip(1);
    if rest.len() == 0 {
        assert(joined(rest) =~= Seq::<u8>::empty());
        assert(joined(chunks) =~= chunks[0]);
        assert(feed_all(next, rest) == (next, Seq::<FrameModel>::empty()));
        assert(head + Seq::<FrameModel>::empty() =~= head);
    } else {
        lemma_reassembly(next, rest);
        lemma_feed_split(decoder, chunks[0], joined(rest));
    }
}

/// A decoder never keeps more than its limit, however many chunks it is
/// fed.
pub proof fn lemma_feed_all_keeps_the_limit(decoder: DecoderModel, chunks: Seq<Seq<u8>>)
    requires
        decoder.wf(),
    ensures
        feed_all(decoder, chunks).0.wf(),
        feed_all(decoder, chunks).0.limit == decoder.limit,
    decreases chunks.len(),
{
    if chunks.len() > 0 {
        lemma_feed_all_keeps_the_limit(feed_model(decoder, chunks[0]).0, chunks.skip(1));
    }
}

/// The frames of a stream: those of its chunks, fed in their order, and then
/// the one that was kept when the stream is closed.
pub open spec fn stream_frames(decoder: DecoderModel, chunks: Seq<Seq<u8>>) -> Seq<FrameModel> {
    feed_all(decoder, chunks).1 + finish_model(feed_all(decoder, chunks).0).1
}

/// A stream yields the frames of its text, however the text is cut into
/// chunks, unless the decoder falters before the last chunk.
pub proof fn lemma_stream_reassembly(decoder: DecoderModel, chunks: Seq<Seq<u8>>)
    requires
        chunks.len() > 0,
        !falters_before_last(decoder, chunks),
    ensures
        stream_frames(decoder, chunks) == stream_frames(decoder, seq![joined(chunks)]),
{
    lemma_reassembly(decoder, chunks);
    let whole = seq![joined(chunks)];
    assert(whole.skip(1) =~= Seq::<Seq<u8>>::empty());
    assert(feed_all(feed_model(decoder, whole[0]).0, whole.skip(1)).1 =~= Seq::<
        FrameModel,
    >::empty());
    assert(feed_model(decoder, whole[0]).1 + Seq::<FrameModel>::empty() =~= feed_model(
        decoder,
        whole[0],
    ).1);
}

/// Turns the chunks of a byte stream into frames.
#[derive(Debug)]
pub struct FrameDecoder {
    residual: Vec<u8>,
    limit: usize,
    state: DecoderState,
}

impl View for FrameDecoder {
    type V = DecoderModel;

    closed spec fn view(&self) -> DecoderModel {
        DecoderModel { residual: self.residual@, limit: self.limit as nat, state: self.state }
    }
}

/// Writes bytes behind `out`.
pub fn append_bytes(out: &mut Vec<u8>, bytes: &[u8])
    ensures
        final(out)@ == old(out)@ + bytes@,
{
    let mut at: usize = 0;
    assert(bytes@.take(0) =~= Seq::<u8>::empty());
    assert(out@ =~= old(out)@ + bytes@.take(0));
    while at < bytes.len()
        invariant
            at <= bytes.len(),
            out@ == old(out)@ + bytes@.take(at as int),
        decreases bytes.len() - at,
    {
        out.push(bytes[at]);
        assert(out@ =~= old(out)@ + bytes@.take(at + 1));
        at = at + 1;
    }
    assert(bytes@.take(at as int) =~= bytes@);
}

/// The separator of frames.
pub fn delimiter_bytes() -> (bytes: Vec<u8>)
    ensures
        bytes@ == delimiter(),
{
    let bytes: Vec<u8> = vec![10u8, 10u8, 100u8, 97u8, 116u8, 97u8, 58u8, 32u8];
    assert(bytes@ =~= delimiter());
    bytes
}

/// The token that a frame may start with.
pub fn event_prefix_bytes() -> (bytes: Vec<u8>)
    ensures
        bytes@ == event_prefix(),
{
    let bytes: Vec<u8> = vec![100u8, 97u8, 116u8, 97u8, 58u8];
    assert(bytes@ =~= event_prefix());
    bytes
}

/// The payload that ends the stream.
pub fn sentinel_bytes() -> (bytes: Vec<u8>)
    ensures
        bytes@ == sentinel(),
{
    let bytes: Vec<u8> = vec![91u8, 68u8, 79u8, 78u8, 69u8, 93u8];
    assert(bytes@ =~= sentinel());
    bytes
}

/// The bounds of the payload in a candidate.
pub fn payload_bounds(candidate: &[u8]) -> (bounds: (usize, usize))
    ensures
        bounds.0 <= bounds.1 <= candidate.len(),
        candidate@.subrange(bounds.0 as int, bounds.1 as int) == payload_of(candidate@),
{
    let len: usize = candidate.len();
    assert(candidate@.subrange(0, len as int) =~= candidate@);
    let lo: usize = skip_blanks(candidate, 0, len);
    let hi: usize = drop_blanks(candidate, lo, len);
    let prefix = event_prefix_bytes();
    let inner = slice_subrange(candidate, lo, hi);
    if occurs_at(inner, prefix.as_slice(), 0) {
        assert(inner@.skip(prefix@.len() as int) =~= candidate@.subrange(lo + 5, hi as int));
        let body: usize = skip_blanks(candidate, lo + 5, hi);
        (body, hi)
    } else {
        let body: usize = skip_blanks(candidate, lo, hi);
        (body, hi)
    }
}

/// Reads the event that a payload describes.
pub fn read_event(payload: &[u8]) -> (res: Option<Vec<Choice>>)
    ensures
        match res {
            Some(choices) => decode_payload(payload@) == Some(choices_view(choices@)),
            None => decode_payload(payload@) is None,
        },
{
    match parse_json(payload) {
        Some(json) => event_of_json(&json),
        None => None,
    }
}

/// Tells what a candidate is.
pub fn classify_candidate(candidate: &[u8]) -> (res: Candidate)
    ensures
        res@ == classify(candidate@),
{
    let (lo, hi) = payload_bounds(candidate);
    let payload = slice_subrange(candidate, lo, hi);
    if payload.len() == 0 {
        return Candidate::Blank;
    }
    let marker = sentinel_bytes();
    if same_bytes(payload, marker.as_slice()) {
        return Candidate::End;
    }
    match read_event(payload) {
        Some(choices) => Candidate::Event(choices),
        None => Candidate::Malformed,
    }
}

impl FrameDecoder {
    /// A decoder that has read nothing and keeps at most `limit` bytes.
    pub fn new(limit: usize) -> (decoder: FrameDecoder)
        ensures
            decoder@ == (DecoderModel {
                residual: Seq::empty(),
                limit: limit as nat,
                state: DecoderState::Open,
            }),
            decoder@.wf(),
    {
        FrameDecoder { residual: Vec::new(), limit, state: DecoderState::Open }
    }

    /// Where the decoder stands.
    pub fn state(&self) -> (state: DecoderState)
        ensures
            state == self@.state,
    {
        self.state
    }

    /// How many bytes may be kept.
    pub fn limit(&self) -> (limit: usize)
        ensures
            limit == self@.limit,
    {
        self.limit
    }

    /// The bytes kept for the next chunk.
    pub fn residual(&self) -> (bytes: &[u8])
        ensures
            bytes@ == self@.residual,
    {
        self.residual.as_slice()
    }

    /// Takes the next chunk of the stream and returns the frames that are
    /// complete with it.
    pub fn feed(&mut self, chunk: &[u8]) -> (frames: Vec<Frame>)
        ensures
            (final(self)@, frames_view(frames@)) == feed_model(old(self)@, chunk@),
            old(self)@.wf() ==> final(self)@.wf(),
    {
        let mut frames: Vec<Frame> = Vec::new();
        assert(frames_view(frames@) =~= Seq::empty());
        match self.state {
            DecoderState::Open => {},
            _ => {
                return frames;
            },
        }
        if chunk.len() == 0 {
            return frames;
        }
        let mut buf: Vec<u8> = copy_range(self.residual.as_slice(), 0, self.residual.len());
        assert(buf@ =~= self.residual@);
        append_bytes(&mut buf, chunk);
        let ghost total = buf@;
        let separator = delimiter_bytes();
        let mut kept: Vec<u8> = Vec::new();
        let mut start: usize = 0;
        let mut searching: bool = true;
        let mut ended: bool = false;
        assert(buf@.subrange(0, buf@.len() as int) =~= buf@);
        assert(after(frames_view(frames@), scan(total, kept@)) =~= scan(total, kept@));
        while searching
            invariant
                buf@ == total,
                separator@ == delimiter(),
                start <= buf.len(),
                ended ==> !searching,
                scan(total, Seq::empty()) == after(
                    frames_view(frames@),
                    if searching {
                        scan(buf@.subrange(start as int, buf@.len() as int), kept@)
                    } else if ended {
                        Scan {
                            frames: Seq::empty(),
                            kept: Seq::empty(),
                            last: Seq::empty(),
                            ended: true,
                        }
                    } else {
                        Scan {
                            frames: Seq::empty(),
                            kept: kept@,
                            last: buf@.subrange(start as int, buf@.len() as int),
                            ended: false,
                        }
                    },
                ),
            decreases buf.len() - start, searching as int,
        {
            let window = slice_subrange(buf.as_slice(), start, buf.len());
            let ghost cur = window@;
            let ghost before = frames_view(frames@);
            let ghost held = kept@;
            match find(window, separator.as_slice(), 0) {
                None => {
                    searching = false;
                },
                Some(at) => {
                    proof {
                        lemma_first_match_some(cur, delimiter(), 0);
                    }
                    let candidate = slice_subrange(window, 0, at);
                    assert(candidate@ =~= cur.take(at as int));
                    let ghost behind = cur.skip(at + 8);
                    assert(behind =~= buf@.subrange(start + at + 8, buf@.len() as int));
                    match classify_candidate(candidate) {
                        Candidate::Blank => {},
                        Candidate::End => {
                            frames.push(Frame::StreamEnd);
                            ended = true;
                            searching = false;
                            assert(frames_view(frames@) =~= before + seq![FrameModel::StreamEnd]);
                            assert(after(
                                frames_view(frames@),
                                Scan {
                                    frames: Seq::empty(),
                                    kept: Seq::empty(),
                                    last: Seq::empty(),
                                    ended: true,
                                },
                            ) =~= after(before, scan(cur, held)));
                        },
                        Candidate::Event(choices) => {
                            let ghost event = FrameModel::Event(choices_view(choices@));
                            frames.push(Frame::Event(choices));
                            assert(frames_view(frames@) =~= before + seq![event]);
                            assert(after(frames_view(frames@), scan(behind, held)) =~= after(
                                before,
                                scan(cur, held),
                            )) by {
                                assert((before + seq![event]) + scan(behind, held).frames =~= before
                                    + (seq![event] + scan(behind, held).frames));
                            }
                        },
                        Candidate::Malformed => {
                            let (lo, hi) = payload_bounds(candidate);
                            append_bytes(&mut kept, slice_subrange(candidate, lo, hi));
                        },
                    }
                    if searching {
                        start = start + at + 8;
                    }
                },
            }
        }
        if ended {
            self.residual = Vec::new();
            self.state = DecoderState::Ended;
            return frames;
        }
        append_bytes(&mut kept, slice_subrange(buf.as_slice(), start, buf.len()));
        if kept.len() > self.limit {
            self.residual = Vec::new();
            self.state = DecoderState::Stalled;
        } else {
            self.residual = kept;
        }
        frames
    }

    /// Closes the stream and returns the frame that what was kept yields, if
    /// it is one.
    pub fn finish(&mut self) -> (frames: Vec<Frame>)
        ensures
            (final(self)@, frames_view(frames@)) == finish_model(old(self)@),
            old(self)@.wf() ==> final(self)@.wf(),
    {
        let mut frames: Vec<Frame> = Vec::new();
        assert(frames_view(frames@) =~= Seq::empty());
        match self.state {
            DecoderState::Open => {},
            _ => {
                return frames;
            },
        }
        match classify_candidate(self.residual.as_slice()) {
            Candidate::End => {
                frames.push(Frame::StreamEnd);
                assert(frames_view(frames@) =~= seq![FrameModel::StreamEnd]);
            },
            Candidate::Event(choices) => {
                let ghost event = FrameModel::Event(choices_view(choices@));
                frames.push(Frame::Event(choices));
                assert(frames_view(frames@) =~= seq![event]);
            },
            _ => {},
        }
        self.residual = Vec::new();
        self.state = DecoderState::Ended;
        frames
    }
}

} // verus!

use copilot_client::decoder::{classify_candidate, Candidate, DecoderState, FrameDecoder};
use copilot_client::event::{Choice, Frame};

fn delta_event(text: &str) -> String {
    format!(
        "{{\"choices\":[{{\"index\":0,\"delta\":{{\"content\":\"{}\",\"role\":null}},\"finish_reason\":null}}],\"created\":1700000000,\"id\":\"chatcmpl-1\"}}",
        text
    )
}

fn finish_event(reason: &str) -> String {
    format!(
        "{{\"choices\":[{{\"index\":0,\"delta\":{{\"content\":null}},\"finish_reason\":\"{}\"}}],\"created\":1700000000,\"id\":\"chatcmpl-1\"}}",
        reason
    )
}

fn first_choice(frame: &Frame) -> &Choice {
    match frame {
        Frame::Event(choices) => &choices[0],
        Frame::StreamEnd => panic!("the end marker has no choice"),
    }
}

fn delta_of(frame: &Frame) -> Option<String> {
    first_choice(frame).delta_text.clone()
}

fn reason_of(frame: &Frame) -> Option<String> {
    first_choice(frame).finish_reason.clone()
}

fn feed_all(decoder: &mut FrameDecoder, chunks: &[&[u8]]) -> Vec<Frame> {
    let mut frames = Vec::new();
    for chunk in chunks {
        frames.extend(decoder.feed(chunk));
    }
    frames
}

#[test]
fn empty_chunk_yields_nothing() {
    let mut decoder = FrameDecoder::new(1024);
    assert!(decoder.feed(b"").is_empty());
    assert_eq!(decoder.state(), DecoderState::Open);
    assert!(decoder.residual().is_empty());
}

#[test]
fn empty_chunk_leaves_what_was_kept() {
    let mut decoder = FrameDecoder::new(1024);
    assert!(decoder.feed(b"x\n\ndata:\n\ndata:  tail").is_empty());
    assert_eq!(decoder.residual(), b"x\n\ndata: tail");
    assert!(decoder.feed(b"").is_empty());
    assert_eq!(decoder.residual(), b"x\n\ndata: tail");
    assert_eq!(decoder.state(), DecoderState::Open);
    assert!(decoder.feed(b"!").is_empty());
    assert_eq!(decoder.residual(), b"xtail!");
}

#[test]
fn blank_chunk_never_yields_an_event() {
    let mut decoder = FrameDecoder::new(1024);
    assert!(decoder.feed(b" \n\n\r\n\t ").is_empty());
    assert!(decoder.finish().is_empty());
    assert_eq!(decoder.state(), DecoderState::Ended);
}

#[test]
fn last_candidate_is_kept_until_the_next_separator() {
    let mut decoder = FrameDecoder::new(1024);
    let first = format!("data: {}", delta_event("Hi"));
    assert!(decoder.feed(first.as_bytes()).is_empty());
    assert_eq!(decoder.residual(), first.as_bytes());
    let frames = decoder.feed(b"\n\ndata: ");
    assert_eq!(frames.len(), 1);
    assert_eq!(delta_of(&frames[0]), Some("Hi".to_string()));
    assert!(decoder.residual().is_empty());
}

#[test]
fn several_frames_in_one_chunk_come_out_in_order() {
    let mut decoder = FrameDecoder::new(4096);
    let text = format!(
        "data: {}\n\ndata: {}\n\ndata: {}\n\ndata: [DONE]\n\n",
        delta_event("one"),
        delta_event("two"),
        finish_event("stop")
    );
    let frames = decoder.feed(text.as_bytes());
    assert_eq!(frames.len(), 3);
    assert_eq!(delta_of(&frames[0]), Some("one".to_string()));
    assert_eq!(delta_of(&frames[1]), Some("two".to_string()));
    assert_eq!(reason_of(&frames[2]), Some("stop".to_string()));
    assert_eq!(decoder.residual(), b"[DONE]\n\n");
    let last = decoder.finish();
    assert_eq!(last.len(), 1);
    assert!(matches!(last[0], Frame::StreamEnd));
}

#[test]
fn frame_split_at_every_offset_gives_the_same_event() {
    let text = format!("data: {}\n\ndata: [DONE]\n\n", delta_event("caf\u{e9} \u{1F600}"));
    let bytes = text.as_bytes();
    let mut whole = FrameDecoder::new(4096);
    let expected = whole.feed(bytes);
    assert_eq!(expected.len(), 1);
    assert_eq!(delta_of(&expected[0]), Some("caf\u{e9} \u{1F600}".to_string()));
    for cut in 0..=bytes.len() {
        let mut decoder = FrameDecoder::new(4096);
        let frames = feed_all(&mut decoder, &[&bytes[..cut], &bytes[cut..]]);
        assert_eq!(frames.len(), 1);
        assert_eq!(delta_of(&frames[0]), delta_of(&expected[0]));
        assert_eq!(decoder.residual(), whole.residual());
        assert_eq!(decoder.state(), whole.state());
    }
}

#[test]
fn frame_fed_byte_by_byte_gives_the_same_event() {
    let text = format!("data: {}\n\ndata: {}\n\n", delta_event("Hello"), finish_event("stop"));
    let mut decoder = FrameDecoder::new(4096);
    let mut frames = Vec::new();
    for byte in text.as_bytes() {
        frames.extend(decoder.feed(&[*byte]));
    }
    frames.extend(decoder.finish());
    assert_eq!(frames.len(), 2);
    assert_eq!(delta_of(&frames[0]), Some("Hello".to_string()));
    assert_eq!(reason_of(&frames[1]), Some("stop".to_string()));
}

#[test]
fn end_marker_stops_the_decoder() {
    let mut decoder = FrameDecoder::new(4096);
    let text = format!(
        "data: {}\n\ndata: [DONE]\n\ndata: {}\n\ndata: {}",
        delta_event("a"),
        delta_event("b"),
        delta_event("c")
    );
    let frames = decoder.feed(text.as_bytes());
    assert_eq!(frames.len(), 2);
    assert_eq!(delta_of(&frames[0]), Some("a".to_string()));
    assert!(matches!(frames[1], Frame::StreamEnd));
    assert_eq!(decoder.state(), DecoderState::Ended);
    assert!(decoder.residual().is_empty());
    let more = format!("\n\ndata: {}\n\ndata: ", delta_event("d"));
    assert!(decoder.feed(more.as_bytes()).is_empty());
    assert!(decoder.finish().is_empty());
    assert_eq!(decoder.state(), DecoderState::Ended);
}

#[test]
fn unfinished_candidate_is_kept_without_its_separator() {
    let mut decoder = FrameDecoder::new(4096);
    let event = delta_event("ab");
    let broken = event.replace("ab", "a\n\ndata: b");
    assert_ne!(event, broken);
    let text = format!("data: {}\n\ndata: ", broken);
    assert!(decoder.feed(text.as_bytes()).is_empty());
    assert_eq!(decoder.residual(), event.as_bytes());
    assert_eq!(decoder.state(), DecoderState::Open);
    let frames = decoder.feed(b"\n\ndata: ");
    assert_eq!(frames.len(), 1);
    assert_eq!(delta_of(&frames[0]), Some("ab".to_string()));
    assert!(decoder.residual().is_empty());
}

#[test]
fn unfinished_candidate_does_not_hold_up_the_frames_behind_it() {
    let mut decoder = FrameDecoder::new(4096);
    let text = format!(
        "data: {{\"half\"\n\ndata: {}\n\ndata: {{\"other\n\ndata: {}\n\ndata: tail",
        delta_event("one"),
        delta_event("two")
    );
    let frames = decoder.feed(text.as_bytes());
    assert_eq!(frames.len(), 2);
    assert_eq!(delta_of(&frames[0]), Some("one".to_string()));
    assert_eq!(delta_of(&frames[1]), Some("two".to_string()));
    assert_eq!(decoder.residual(), b"{\"half\"{\"othertail");
}

#[test]
fn unfinished_candidates_make_the_frames_depend_on_the_chunks() {
    let first = b"data: {\"choices\":[],\n\ndata: ";
    let second = b"\"created\":1,\"id\":\"a\"}\n\ndata: ";
    let mut whole = FrameDecoder::new(4096);
    let mut text = first.to_vec();
    text.extend_from_slice(second);
    assert!(whole.feed(&text).is_empty());
    assert_eq!(whole.residual(), b"{\"choices\":[],\"created\":1,\"id\":\"a\"}");
    let mut pieces = FrameDecoder::new(4096);
    assert!(pieces.feed(first).is_empty());
    assert_eq!(pieces.residual(), b"{\"choices\":[],");
    let frames = pieces.feed(second);
    assert_eq!(frames.len(), 1);
    assert!(matches!(&frames[0], Frame::Event(choices) if choices.is_empty()));
    assert!(pieces.residual().is_empty());
    let last = whole.finish();
    assert_eq!(last.len(), 1);
    assert!(matches!(&last[0], Frame::Event(choices) if choices.is_empty()));
}

#[test]
fn end_marker_drops_what_was_kept() {
    let mut decoder = FrameDecoder::new(4096);
    let frames = decoder.feed(b"data: {\"half\n\ndata: [DONE]\n\ndata: more");
    assert_eq!(frames.len(), 1);
    assert!(matches!(frames[0], Frame::StreamEnd));
    assert!(decoder.residual().is_empty());
    assert_eq!(decoder.state(), DecoderState::Ended);
}

#[test]
fn candidate_that_completes_later_is_emitted_once() {
    let mut decoder = FrameDecoder::new(4096);
    let event = delta_event("Hi");
    let (head, tail) = event.split_at(20);
    let first = format!("data: {}", head);
    assert!(decoder.feed(first.as_bytes()).is_empty());
    let second = format!("{}\n\ndata: ", tail);
    let frames = decoder.feed(second.as_bytes());
    assert_eq!(frames.len(), 1);
    assert_eq!(delta_of(&frames[0]), Some("Hi".to_string()));
    assert!(decoder.feed(b"\n\ndata: ").is_empty());
}

#[test]
fn residual_over_the_limit_stalls_the_decoder() {
    let mut decoder = FrameDecoder::new(8);
    assert_eq!(decoder.limit(), 8);
    assert!(decoder.feed(b"12345678").is_empty());
    assert_eq!(decoder.state(), DecoderState::Open);
    assert_eq!(decoder.residual(), b"12345678");
    assert!(decoder.feed(b"9").is_empty());
    assert_eq!(decoder.state(), DecoderState::Stalled);
    assert!(decoder.residual().is_empty());
    let text = format!("data: {}\n\ndata: ", delta_event("late"));
    assert!(decoder.feed(text.as_bytes()).is_empty());
    assert!(decoder.finish().is_empty());
    assert_eq!(decoder.state(), DecoderState::Stalled);
}

#[test]
fn stall_between_chunks_differs_from_one_chunk() {
    let mut pieces = FrameDecoder::new(3);
    assert!(pieces.feed(b"    ").is_empty());
    assert_eq!(pieces.state(), DecoderState::Stalled);
    let mut whole = FrameDecoder::new(3);
    assert!(whole.feed(b"    \n\ndata: ").is_empty());
    assert_eq!(whole.state(), DecoderState::Open);
}

#[test]
fn prefix_without_space_is_stripped() {
    let text = format!("data:{}", delta_event("x"));
    match classify_candidate(text.as_bytes()) {
        Candidate::Event(choices) => assert_eq!(choices[0].delta_text, Some("x".to_string())),
        other => panic!("not an event: {:?}", other),
    }
}

#[test]
fn candidates_are_told_apart() {
    assert!(matches!(classify_candidate(b""), Candidate::Blank));
    assert!(matches!(classify_candidate(b" \n\t\r"), Candidate::Blank));
    assert!(matches!(classify_candidate(b"data:"), Candidate::Blank));
    assert!(matches!(classify_candidate(b"data: "), Candidate::Blank));
    assert!(matches!(classify_candidate(b"[DONE]"), Candidate::End));
    assert!(matches!(classify_candidate(b"data: [DONE]\n\n"), Candidate::End));
    assert!(matches!(classify_candidate(b"\n\ndata:[DONE] "), Candidate::End));
    assert!(matches!(classify_candidate(b"[DONE"), Candidate::Malformed));
    assert!(matches!(classify_candidate(b"data: data: [DONE]"), Candidate::Malformed));
    assert!(matches!(classify_candidate(b"{}"), Candidate::Malformed));
    assert!(matches!(classify_candidate(b"{\"choices\":[]"), Candidate::Malformed));
    assert!(matches!(classify_candidate(b"\xff\xfe"), Candidate::Malformed));
    match classify_candidate(b"{\"choices\":[],\"created\":1,\"id\":\"a\"}") {
        Candidate::Event(choices) => assert!(choices.is_empty()),
        other => panic!("not an event: {:?}", other),
    }
}

#[test]
fn finish_takes_what_was_kept() {
    let mut decoder = FrameDecoder::new(4096);
    let text = format!("data: {}\n\n", finish_event("length"));
    assert!(decoder.feed(text.as_bytes()).is_empty());
    let frames = decoder.finish();
    assert_eq!(frames.len(), 1);
    assert_eq!(reason_of(&frames[0]), Some("length".to_string()));
    assert_eq!(decoder.state(), DecoderState::Ended);
    assert!(decoder.residual().is_empty());
}

#[test]
fn finish_drops_what_is_no_frame() {
    let mut decoder = FrameDecoder::new(4096);
    assert!(decoder.feed(b"data: {\"choices\":[").is_empty());
    assert!(decoder.finish().is_empty());
    assert_eq!(decoder.state(), DecoderState::Ended);
    assert!(decoder.residual().is_empty());
}

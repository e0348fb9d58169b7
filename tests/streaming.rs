use ai_rs::framing::Framing;
use ai_rs::stream::{parse_record, PumpAction, StreamState};
use ai_rs::{GenerateResponse, ParsedEvent, StreamGenerateContentResponse, StreamPump};

fn record(text: &str, done: bool) -> String {
    format!(
        "{{\"model\":\"m\",\"created_at\":\"t\",\"response\":\"{}\",\"done\":{}}}",
        text, done
    )
}

fn run(framing: Framing, chunks: &[&[u8]]) -> (Vec<ParsedEvent<GenerateResponse>>, StreamState) {
    let mut pump: StreamPump<GenerateResponse> = StreamPump::new(framing);
    let mut events = Vec::new();
    for chunk in chunks {
        if pump.next_action() != PumpAction::ReadChunk {
            break;
        }
        events.extend(pump.on_chunk(chunk));
    }
    events.extend(pump.finish());
    (events, pump.state())
}

fn partial_text(e: &ParsedEvent<GenerateResponse>) -> Option<(String, bool)> {
    match e {
        ParsedEvent::Partial(p) => Some((p.response.clone(), p.done)),
        _ => None,
    }
}

#[test]
fn split_record_across_two_chunks() {
    let chunk1 = "{\"response\":\"Hel\",\"done\":false,\"model\":\"m\",\"created_at\":\"t\"}\n{\"respo";
    let chunk2 = "nse\":\"lo\",\"done\":true,\"model\":\"m\",\"created_at\":\"t\"}\n";
    let mut pump: StreamPump<GenerateResponse> = StreamPump::new(Framing::ndjson());
    let first = pump.on_chunk(chunk1.as_bytes());
    assert_eq!(first.len(), 1);
    assert_eq!(partial_text(&first[0]), Some(("Hel".to_string(), false)));
    assert_eq!(pump.next_action(), PumpAction::ReadChunk);
    let second = pump.on_chunk(chunk2.as_bytes());
    assert_eq!(second.len(), 1);
    assert_eq!(partial_text(&second[0]), Some(("lo".to_string(), true)));
    assert_eq!(pump.state(), StreamState::Draining);
    assert_eq!(pump.next_action(), PumpAction::Finish);
    assert!(pump.finish().is_empty());
    assert_eq!(pump.state(), StreamState::Closed);
    assert_eq!(pump.next_action(), PumpAction::Stop);
}

#[test]
fn malformed_line_then_terminal_record() {
    let chunk = "not json\n{\"response\":\"ok\",\"done\":true,\"model\":\"m\",\"created_at\":\"t\"}\n";
    let (events, state) = run(Framing::ndjson(), &[chunk.as_bytes()]);
    assert_eq!(events.len(), 2);
    match &events[0] {
        ParsedEvent::Malformed(raw, detail) => {
            assert_eq!(raw, "not json");
            assert!(!detail.is_empty());
        }
        other => panic!("expected a malformed record, got {:?}", other),
    }
    assert_eq!(partial_text(&events[1]), Some(("ok".to_string(), true)));
    assert_eq!(state, StreamState::Closed);
}

#[test]
fn record_split_decodes_as_whole() {
    let whole = format!("{}\n", record("x", false));
    let (a, b) = whole.split_at(6);
    assert_eq!(a, "{\"mode");
    let (split, _) = run(Framing::ndjson(), &[a.as_bytes(), b.as_bytes()]);
    let (one, _) = run(Framing::ndjson(), &[whole.as_bytes()]);
    assert_eq!(split.len(), 1);
    assert_eq!(one.len(), 1);
    assert_eq!(partial_text(&split[0]), partial_text(&one[0]));
    assert_eq!(partial_text(&split[0]), Some(("x".to_string(), false)));
}

#[test]
fn any_chunking_of_records_then_sentinel() {
    let body = format!(
        "data: {}\ndata: {}\n\ndata: {}\ndata: [DONE]\n",
        record("a", false),
        record("b", false),
        record("c", false)
    );
    let bytes = body.as_bytes();
    for cut1 in 0..=bytes.len() {
        for cut2 in [cut1, (cut1 + 7).min(bytes.len()), bytes.len()] {
            let chunks: [&[u8]; 3] = [&bytes[..cut1], &bytes[cut1..cut2], &bytes[cut2..]];
            let (events, state) = run(Framing::event_stream(), &chunks);
            let texts: Vec<_> = events.iter().map(partial_text).collect();
            assert_eq!(
                texts,
                vec![
                    Some(("a".to_string(), false)),
                    Some(("b".to_string(), false)),
                    Some(("c".to_string(), false))
                ]
            );
            assert_eq!(state, StreamState::Closed);
        }
    }
}

#[test]
fn sentinel_stops_reading() {
    let mut pump: StreamPump<GenerateResponse> = StreamPump::new(Framing::event_stream());
    let events = pump.on_chunk(b"data: [DONE]\n");
    assert!(events.is_empty());
    assert_eq!(pump.next_action(), PumpAction::Finish);
    let later = format!("data: {}\n", record("late", false));
    assert!(pump.on_chunk(later.as_bytes()).is_empty());
    assert!(pump.finish().is_empty());
    assert_eq!(pump.state(), StreamState::Closed);
}

#[test]
fn records_after_terminal_in_same_chunk_are_drained() {
    let body = format!("{}\n{}\n", record("end", true), record("after", false));
    let (events, state) = run(Framing::ndjson(), &[body.as_bytes()]);
    let texts: Vec<_> = events.iter().map(partial_text).collect();
    assert_eq!(
        texts,
        vec![Some(("end".to_string(), true)), Some(("after".to_string(), false))]
    );
    assert_eq!(state, StreamState::Closed);
}

#[test]
fn malformed_between_valid_records() {
    let body = format!("{}\n{{\"response\":\n{}\n", record("a", false), record("b", false));
    let mut pump: StreamPump<GenerateResponse> = StreamPump::new(Framing::ndjson());
    let events = pump.on_chunk(body.as_bytes());
    assert_eq!(events.len(), 3);
    assert!(matches!(events[0], ParsedEvent::Partial(_)));
    assert!(matches!(events[1], ParsedEvent::Malformed(_, _)));
    assert!(matches!(events[2], ParsedEvent::Partial(_)));
    assert_eq!(pump.state(), StreamState::Active);
}

#[test]
fn schema_mismatch_is_malformed() {
    let mut pump: StreamPump<GenerateResponse> = StreamPump::new(Framing::ndjson());
    let events = pump.on_chunk(b"{\"response\":\"x\"}\n");
    match &events[0] {
        ParsedEvent::Malformed(raw, detail) => {
            assert_eq!(raw, "{\"response\":\"x\"}");
            assert_eq!(detail, "invalid or missing field `model`");
        }
        other => panic!("expected a malformed record, got {:?}", other),
    }
}

#[test]
fn consumer_gone_stops_the_pump() {
    let mut pump: StreamPump<GenerateResponse> = StreamPump::new(Framing::ndjson());
    let first = format!("{}\n", record("a", false));
    assert_eq!(pump.on_chunk(first.as_bytes()).len(), 1);
    pump.on_consumer_gone();
    assert_eq!(pump.state(), StreamState::Closed);
    assert_eq!(pump.next_action(), PumpAction::Stop);
    let more = format!("{}\n", record("b", false));
    assert!(pump.on_chunk(more.as_bytes()).is_empty());
    assert!(pump.finish().is_empty());
    assert_eq!(pump.state(), StreamState::Closed);
}

#[test]
fn transport_failure_closes() {
    let mut pump: StreamPump<GenerateResponse> = StreamPump::new(Framing::ndjson());
    let e = pump.on_transport_error("connection reset".to_string());
    match e {
        ParsedEvent::TransportFailure(d) => assert_eq!(d, "connection reset"),
        other => panic!("expected a transport failure, got {:?}", other),
    }
    assert_eq!(pump.state(), StreamState::Closed);
    assert_eq!(pump.next_action(), PumpAction::Stop);
}

#[test]
fn parsing_twice_gives_equal_events() {
    let text = record("same", true);
    let a = parse_record::<GenerateResponse>(text.as_bytes());
    let b = parse_record::<GenerateResponse>(text.as_bytes());
    assert_eq!(format!("{:?}", a), format!("{:?}", b));
    let bad_a = parse_record::<GenerateResponse>(b"{oops");
    let bad_b = parse_record::<GenerateResponse>(b"{oops");
    assert_eq!(format!("{:?}", bad_a), format!("{:?}", bad_b));
    assert!(matches!(bad_a, ParsedEvent::Malformed(_, _)));
}

#[test]
fn blank_lines_and_crlf() {
    let body = format!("\r\n   \n{}\r\n\t\n", record("a", false));
    let (events, _) = run(Framing::ndjson(), &[body.as_bytes()]);
    assert_eq!(events.len(), 1);
    assert_eq!(partial_text(&events[0]), Some(("a".to_string(), false)));
}

#[test]
fn unterminated_tail_flushed_at_end_of_body() {
    let body = record("tail", false);
    let (events, state) = run(Framing::ndjson(), &[body.as_bytes()]);
    assert_eq!(events.len(), 1);
    assert_eq!(partial_text(&events[0]), Some(("tail".to_string(), false)));
    assert_eq!(state, StreamState::Closed);
}

#[test]
fn tail_dropped_when_draining() {
    let body = format!("{}\n{{\"partial", record("end", true));
    let (events, _) = run(Framing::ndjson(), &[body.as_bytes()]);
    assert_eq!(events.len(), 1);
}

#[test]
fn multibyte_character_split_across_chunks() {
    let body = format!("{}\n", record("h\u{e9}llo", false));
    let bytes = body.as_bytes();
    let at = body.find('\u{e9}').unwrap() + 1;
    let (events, _) = run(Framing::ndjson(), &[&bytes[..at], &bytes[at..]]);
    assert_eq!(partial_text(&events[0]), Some(("h\u{e9}llo".to_string(), false)));
}

#[test]
fn gemini_stream_with_envelope_and_finish_reason() {
    let first = "data: {\"candidates\":[{\"content\":{\"role\":\"model\",\"parts\":[{\"text\":\"Hi\"}]},\"index\":0}]}\n";
    let last = "data: {\"candidates\":[{\"content\":{\"role\":\"model\",\"parts\":[{\"text\":\" there\"}]},\"finish_reason\":\"STOP\",\"index\":0}]}\n";
    let mut pump: StreamPump<StreamGenerateContentResponse> =
        StreamPump::new(Framing::event_stream());
    let a = pump.on_chunk(first.as_bytes());
    assert_eq!(pump.state(), StreamState::Active);
    let b = pump.on_chunk(last.as_bytes());
    assert_eq!(pump.state(), StreamState::Draining);
    match (&a[0], &b[0]) {
        (ParsedEvent::Partial(x), ParsedEvent::Partial(y)) => {
            assert_eq!(x.get_text(), Some("Hi".to_string()));
            assert_eq!(y.get_text(), Some(" there".to_string()));
            assert_eq!(y.candidates[0].finish_reason, Some("STOP".to_string()));
        }
        other => panic!("expected two payloads, got {:?}", other),
    }
}

#[test]
fn completion_reason_of_terminal_record() {
    let body = "{\"model\":\"m\",\"created_at\":\"t\",\"response\":\"\",\"done\":true,\"done_reason\":\"stop\"}\n";
    let mut pump: StreamPump<GenerateResponse> = StreamPump::new(Framing::ndjson());
    assert!(pump.completion().is_none());
    pump.on_chunk(body.as_bytes());
    assert_eq!(pump.completion().unwrap().reason, Some("stop".to_string()));
    pump.finish();
    assert_eq!(pump.completion().unwrap().reason, Some("stop".to_string()));
}

#[test]
fn completion_on_sentinel_has_no_reason() {
    let mut pump: StreamPump<GenerateResponse> = StreamPump::new(Framing::event_stream());
    pump.on_chunk(b"data: [DONE]\n");
    assert_eq!(pump.completion().unwrap().reason, None);
}

#[test]
fn no_completion_after_cancel_or_failure() {
    let mut a: StreamPump<GenerateResponse> = StreamPump::new(Framing::ndjson());
    a.on_consumer_gone();
    assert!(a.completion().is_none());
    let mut b: StreamPump<GenerateResponse> = StreamPump::new(Framing::ndjson());
    b.on_transport_error("timeout".to_string());
    assert!(b.completion().is_none());
    let mut c: StreamPump<GenerateResponse> = StreamPump::new(Framing::ndjson());
    let body = format!("{}\n", record("x", false));
    c.on_chunk(body.as_bytes());
    c.finish();
    assert!(c.completion().is_none());
}

#[test]
fn gemini_completion_reason() {
    let last = "data: {\"candidates\":[{\"content\":{\"role\":\"model\",\"parts\":[]},\"finish_reason\":\"MAX_TOKENS\",\"index\":0}]}\n";
    let mut pump: StreamPump<StreamGenerateContentResponse> =
        StreamPump::new(Framing::event_stream());
    let events = pump.on_chunk(last.as_bytes());
    match &events[0] {
        ParsedEvent::Partial(p) => assert_eq!(p.get_text(), None),
        other => panic!("expected a payload, got {:?}", other),
    }
    assert_eq!(pump.completion().unwrap().reason, Some("MAX_TOKENS".to_string()));
}

use ai_rs::framing::{classify_line, FrameDecoder, Framing, LineKind};
use ai_rs::gemini::{decode_generate_content, model_method_url, user_content, ContentError};
use ai_rs::ollama::{api_url, bearer_header, collect_completion, decode_list_models};
use ai_rs::GenerateResponse;

fn response(text: &str) -> GenerateResponse {
    GenerateResponse {
        model: "llama".to_string(),
        created_at: "2024-01-01".to_string(),
        response: text.to_string(),
        done: false,
        done_reason: None,
        context: None,
        total_duration: None,
        load_duration: Some(5),
        prompt_eval_count: None,
        prompt_eval_duration: None,
        eval_count: Some(1),
        eval_duration: None,
    }
}

#[test]
fn merge_appends_text_and_prefers_newer_fields() {
    let mut a = response("Hello");
    let mut b = response(", world");
    b.model = "other".to_string();
    b.done = true;
    b.done_reason = Some("stop".to_string());
    b.context = Some(vec![1, -2, 3]);
    b.load_duration = None;
    b.eval_count = Some(7);
    a.merge(b);
    assert_eq!(a.response, "Hello, world");
    assert_eq!(a.model, "llama");
    assert!(a.done);
    assert_eq!(a.done_reason, Some("stop".to_string()));
    assert_eq!(a.context, Some(vec![1, -2, 3]));
    assert_eq!(a.load_duration, Some(5));
    assert_eq!(a.eval_count, Some(7));
}

#[test]
fn completion_lines_are_merged() {
    let body = "{\"model\":\"m\",\"created_at\":\"t\",\"response\":\"Hel\",\"done\":false}\r\n{\"model\":\"m\",\"created_at\":\"t\",\"response\":\"lo\",\"done\":true,\"done_reason\":\"stop\",\"eval_count\":12}";
    let r = collect_completion(body.as_bytes()).unwrap();
    assert_eq!(r.response, "Hello");
    assert!(r.done);
    assert_eq!(r.done_reason, Some("stop".to_string()));
    assert_eq!(r.eval_count, Some(12));
}

#[test]
fn completion_of_empty_body_fails() {
    assert_eq!(
        collect_completion(b"").unwrap_err(),
        "No valid JSON objects found in response"
    );
}

#[test]
fn completion_with_bad_line_fails() {
    let body = "{\"model\":\"m\",\"created_at\":\"t\",\"response\":\"a\",\"done\":false}\n{\"model\":1}\n";
    assert_eq!(
        collect_completion(body.as_bytes()).unwrap_err(),
        "invalid or missing field `model`"
    );
    assert!(collect_completion(b"nonsense\n").is_err());
}

#[test]
fn optional_fields_accept_null_and_reject_bad_types() {
    let ok = "{\"model\":\"m\",\"created_at\":\"t\",\"response\":\"\",\"done\":false,\"done_reason\":null,\"total_duration\":18446744073709551615}";
    let r = collect_completion(ok.as_bytes()).unwrap();
    assert_eq!(r.done_reason, None);
    assert_eq!(r.total_duration, Some(u64::MAX));
    let too_big = "{\"model\":\"m\",\"created_at\":\"t\",\"response\":\"\",\"done\":false,\"eval_count\":4294967296}";
    assert_eq!(
        collect_completion(too_big.as_bytes()).unwrap_err(),
        "invalid or missing field `eval_count`"
    );
    let bad_context = "{\"model\":\"m\",\"created_at\":\"t\",\"response\":\"\",\"done\":false,\"context\":[1,2.5]}";
    assert_eq!(
        collect_completion(bad_context.as_bytes()).unwrap_err(),
        "invalid or missing field `context`"
    );
}

#[test]
fn list_models_decodes() {
    let body = "{\"models\":[{\"name\":\"llama3\",\"modified_at\":\"2024\",\"size\":42,\"digest\":\"abc\",\"details\":{\"format\":\"gguf\",\"family\":\"llama\",\"families\":[\"llama\",\"x\"],\"parameter_size\":\"8B\",\"quantization_level\":\"Q4\"}}]}";
    let r = decode_list_models(body.as_bytes()).unwrap();
    assert_eq!(r.models.len(), 1);
    assert_eq!(r.models[0].name, "llama3");
    assert_eq!(r.models[0].size, 42);
    assert_eq!(
        r.models[0].details.families,
        Some(vec!["llama".to_string(), "x".to_string()])
    );
    assert_eq!(
        decode_list_models(b"{\"models\":[{\"name\":\"x\"}]}").unwrap_err(),
        "invalid or missing field `modified_at`"
    );
    assert_eq!(
        decode_list_models(b"{}").unwrap_err(),
        "invalid or missing field `models`"
    );
}

#[test]
fn generate_content_text_and_errors() {
    let body = "{\"candidates\":[{\"content\":{\"role\":\"model\",\"parts\":[{\"text\":\"Hello\"},{\"text\":\"x\"}]},\"index\":0,\"safety_ratings\":[{\"category\":\"c\",\"probability\":\"LOW\"}]}],\"usage_metadata\":{\"prompt_token_count\":1,\"candidates_token_count\":2,\"total_token_count\":3}}";
    let r = decode_generate_content(body.as_bytes()).unwrap();
    assert_eq!(r.get_text(), Some("Hello".to_string()));
    assert_eq!(r.usage_metadata.as_ref().unwrap().total_token_count, 3);
    assert_eq!(r.candidates[0].safety_ratings.as_ref().unwrap()[0].probability, "LOW");

    let empty = decode_generate_content(b"{\"candidates\":[]}").unwrap();
    assert_eq!(empty.get_text(), None);

    match decode_generate_content(b"{\"error\":{\"code\":400}}") {
        Err(ContentError::Api(v)) => assert_eq!(v["code"], 400),
        other => panic!("expected an API error, got {:?}", other),
    }
    match decode_generate_content(b"{\"prompt_feedback\":{}}") {
        Err(ContentError::Parse(m)) => assert_eq!(m, "invalid or missing field `candidates`"),
        other => panic!("expected a parse error, got {:?}", other),
    }
    assert!(matches!(
        decode_generate_content(b"<html>"),
        Err(ContentError::Parse(_))
    ));
}

#[test]
fn request_builders() {
    let c = user_content("Hello, Gemini!");
    assert_eq!(c.role, "user");
    assert_eq!(c.parts.len(), 1);
    assert_eq!(c.parts[0].text, Some("Hello, Gemini!".to_string()));
    assert!(c.parts[0].inline_data.is_none());
    assert_eq!(
        model_method_url("https://h/v1beta", "gemini-1.5-pro", "generateContent"),
        "https://h/v1beta/models/gemini-1.5-pro:generateContent"
    );
    assert_eq!(api_url("http://localhost:11434", "generate"), "http://localhost:11434/api/generate");
    assert_eq!(bearer_header("k"), "Bearer k");
}

#[test]
fn frame_decoder_keeps_tail() {
    let mut d = FrameDecoder::new();
    let lines = d.push(b"ab\ncd\nef");
    assert_eq!(lines, vec![b"ab".to_vec(), b"cd".to_vec()]);
    assert_eq!(d.pending(), b"ef");
    let lines = d.push(b"g\n\n");
    assert_eq!(lines, vec![b"efg".to_vec(), Vec::new()]);
    assert_eq!(d.finish(), None);
    d.push(b"rest");
    assert_eq!(d.finish(), Some(b"rest".to_vec()));
    assert_eq!(d.pending(), b"");
}

#[test]
fn line_classification() {
    let sse = Framing::event_stream();
    assert!(matches!(classify_line(sse, b"  [DONE]  "), LineKind::Sentinel));
    assert!(matches!(classify_line(sse, b"data: [DONE]\r"), LineKind::Sentinel));
    assert!(matches!(classify_line(sse, b" \t\r"), LineKind::Blank));
    match classify_line(sse, b"data: {}\r") {
        LineKind::Record(r) => assert_eq!(r, b"{}".to_vec()),
        other => panic!("expected a record, got {:?}", other),
    }
    match classify_line(Framing::ndjson(), b"data: [DONE]") {
        LineKind::Record(r) => assert_eq!(r, b"data: [DONE]".to_vec()),
        other => panic!("expected a record, got {:?}", other),
    }
}

#[test]
fn model_info_parses_any_json() {
    let v = ai_rs::ollama::parse_model_info(b"{\"modelfile\":\"FROM x\",\"n\":[1,2]}").unwrap();
    assert_eq!(v["modelfile"], "FROM x");
    assert_eq!(v["n"][1], 2);
    assert!(ai_rs::ollama::parse_model_info(b"{").is_err());
}

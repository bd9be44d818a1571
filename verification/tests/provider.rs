//! What is read out of provider responses.

use ab_harness::capture::{
    push_bounded, reject_metric_regression, ResponseCapture, MAX_PROVIDER_CAPTURE_BYTES, MAX_PROVIDER_FIELD_BYTES,
    MAX_PROVIDER_TOOL_CALLS,
};
use ab_harness::json::{as_list, as_text, as_unsigned, parse_json, Json};
use ab_harness::pricing::{price, Price, JCS_SAFE_MAX};
use ab_harness::provider::{capped_total, map_finish_reason, parse_provider_chunk, provider_u64, StopReason};
use ab_harness::sse::sse_frame_end;
use serde_json::Value;

/// Counts words, as a stand-in for a tokenizer.
fn words(text: &str) -> u64 {
    text.split_whitespace().count() as u64
}

#[test]
fn provider_usage_and_reasoning_are_preserved() {
    let raw = "data: {\"model\":\"gpt-test\",\"choices\":[{\"delta\":{\
            \"content\":\"answer\",\"reasoning_content\":\"thought\"},\"finish_reason\":\"stop\"}],\
            \"usage\":{\"prompt_tokens\":10,\"completion_tokens\":3,\"cost_usd\":0.00125,\
            \"prompt_tokens_details\":{\"cached_tokens\":4}}}\n\n";
    let parsed = parse_provider_chunk(raw).unwrap().unwrap();
    assert_eq!(parsed.message, "answer");
    assert_eq!(parsed.reasoning.as_deref(), Some("thought"));
    assert_eq!(parsed.model_name.as_deref(), Some("gpt-test"));
    assert_eq!(parsed.metrics.prompt_tokens, Some(10));
    assert_eq!(parsed.metrics.completion_tokens, Some(3));
    assert_eq!(parsed.metrics.cached_tokens, Some(4));
    assert!(parsed.usage_reported);
    assert_eq!(parsed.finish_reason.as_deref(), Some("stop"));
    assert_eq!(parsed.cost_usd_micros, 1250);
    assert!(parsed.tool_call_deltas.is_empty());
}

#[test]
fn hostile_provider_metrics_are_rejected() {
    for raw in [
        r#"{"usage":{"completion_tokens":9007199254740993}}"#,
        r#"{"usage":{"prompt_tokens":-1}}"#,
        r#"{"usage":{"prompt_tokens_details":{"cached_tokens":"many"}}}"#,
        r#"{"usage":{"cost_usd":1e30}}"#,
        r#"{"usage":{"cost_usd":-1}}"#,
    ] {
        assert!(parse_provider_chunk(raw).is_err(), "accepted hostile metrics: {raw}");
    }
}

#[test]
fn streaming_tool_call_arguments_reassemble() {
    let first = r#"data: {"choices":[{"delta":{"tool_calls":[{"index":0,"id":"call-1","function":{"name":"db_write","arguments":"{\"table\":"}}]}}]}"#;
    let second = r#"data: {"choices":[{"delta":{"tool_calls":[{"index":0,"function":{"arguments":"\"items\",\"row\":{}}"}}]},"finish_reason":"tool_calls"}]}"#;
    let first_delta = parse_provider_chunk(first).unwrap().unwrap().tool_call_deltas;
    let second_delta = parse_provider_chunk(second).unwrap().unwrap().tool_call_deltas;
    assert_eq!(first_delta.len(), 1);
    assert_eq!(second_delta.len(), 1);
    let arguments = format!("{}{}", first_delta[0].arguments, second_delta[0].arguments);
    assert_eq!(
        serde_json::from_str::<Value>(&arguments).unwrap(),
        serde_json::from_str::<Value>(r#"{"table": "items", "row": {}}"#).unwrap()
    );
    assert_eq!(map_finish_reason("tool_calls"), StopReason::ToolUse);
}

#[test]
fn hostile_provider_tool_call_index_is_rejected() {
    let raw = r#"data: {"choices":[{"delta":{"tool_calls":[{"index":18446744073709551615,"function":{"name":"n","arguments":"{}"}}]}}]}"#;
    let parsed = parse_provider_chunk(raw).unwrap().unwrap();
    assert_eq!(parsed.tool_call_deltas.len(), 1);
    assert_eq!(parsed.tool_call_deltas[0].index, u64::MAX);
}

#[test]
fn non_stream_tool_calls_receive_distinct_positional_indices() {
    let parsed = parse_provider_chunk(
        r#"{"choices":[{"message":{"tool_calls":[{"id":"a","function":{"name":"read","arguments":"{}"}},{"id":"b","function":{"name":"write","arguments":"{}"}}]}}]}"#,
    )
    .unwrap()
    .unwrap();
    assert_eq!(parsed.tool_call_deltas.len(), 2);
    assert_eq!(parsed.tool_call_deltas[0].index, 0);
    assert_eq!(parsed.tool_call_deltas[1].index, 1);
}

#[test]
fn sse_frame_boundary_accepts_crlf_and_cr() {
    assert_eq!(sse_frame_end(b"data: {}\r\n\r"), None);
    assert_eq!(sse_frame_end(b"data: {}\r\n\r\nrest"), Some(12));
    assert_eq!(sse_frame_end(b"data: {}\r\rrest"), Some(10));
}

#[test]
fn a_frame_ends_at_its_first_boundary() {
    assert_eq!(sse_frame_end(b""), None);
    assert_eq!(sse_frame_end(b"a\nb\n"), None);
    assert_eq!(sse_frame_end(b"a\n\nb\n\n"), Some(3));
    assert_eq!(sse_frame_end(b"\n\n"), Some(1));
}

#[test]
fn prices_round_as_doubles_do() {
    for cost in [0.0, 0.00125, 0.0000005, 0.0000015, 1.0, 12.345678, 123456.789, 1e-9, 9007199254.0] {
        let expected = (cost * 1_000_000.0_f64).round() as u64;
        match price(cost.to_bits()) {
            Price::Micros(m) => assert_eq!(m, expected, "{cost}"),
            _ => panic!("{cost} has no price"),
        }
    }
    assert!(matches!(price((-1.0_f64).to_bits()), Price::Improper));
    assert!(matches!(price(f64::NAN.to_bits()), Price::Improper));
    assert!(matches!(price(f64::INFINITY.to_bits()), Price::Improper));
    assert!(matches!(price(1e30_f64.to_bits()), Price::Excessive));
    assert_eq!(JCS_SAFE_MAX, (1_u64 << 53) - 1);
}

#[test]
fn prices_agree_with_double_arithmetic() {
    let mut state: u64 = 0x9e37_79b9_7f4a_7c15;
    let mut priced = 0;
    for _ in 0..200_000 {
        state = state.wrapping_mul(6364136223846793005).wrapping_add(1442695040888963407);
        // A double between 2^-30 and 2^36, or any double at all.
        let bits = if state & 1 == 0 { (state >> 12) | ((993 + (state >> 5) % 66) << 52) } else { state };
        let cost = f64::from_bits(bits);
        let micros = (cost * 1_000_000.0_f64).round();
        match price(bits) {
            Price::Improper => assert!(!cost.is_finite() || cost < 0.0, "{cost}"),
            Price::Excessive => assert!(micros > JCS_SAFE_MAX as f64, "{cost}"),
            Price::Micros(m) => {
                priced += 1;
                assert!(cost >= 0.0 && micros <= JCS_SAFE_MAX as f64, "{cost}");
                assert_eq!(m, micros as u64, "{cost}");
            }
        }
    }
    assert!(priced > 50_000, "{priced}");
}

#[test]
fn counts_are_whole_numbers_that_survive_json() {
    let read = |text: &str| {
        let value = parse_json(text).unwrap();
        provider_u64(Some(&value), "prompt_tokens")
    };
    assert_eq!(read("7").unwrap(), Some(7));
    assert_eq!(read("9007199254740991").unwrap(), Some(9007199254740991));
    assert!(read("9007199254740992").is_err());
    assert!(read("1.5").is_err());
    assert_eq!(provider_u64(None, "prompt_tokens").unwrap(), None);
}

#[test]
fn documents_become_trees() {
    let tree = parse_json(r#"{"b":[1,-2,2.5,"x"],"a":{"c":null,"d":true}}"#).unwrap();
    assert_eq!(as_list(tree.get("b")).unwrap().len(), 4);
    assert!(matches!(tree.get2("a", "c"), Some(Json::Null)));
    assert!(matches!(tree.get2("a", "d"), Some(Json::Bool(true))));
    assert!(tree.get2("a", "e").is_none());
    let list = as_list(tree.get("b")).unwrap();
    assert_eq!(as_unsigned(Some(&list[0])), Some(1));
    assert_eq!(as_unsigned(Some(&list[1])), None);
    assert_eq!(as_text(Some(&list[3])).as_deref(), Some("x"));
    match &list[2] {
        Json::Number(n) => assert_eq!(n.double_bits, Some(2.5_f64.to_bits())),
        other => panic!("{other:?}"),
    }
    assert!(parse_json("{").is_err());
    assert_eq!(parse_json("{").unwrap_err(), serde_json::from_str::<Value>("{").unwrap_err().to_string());
    assert_eq!(format!("{:?}", tree.copy()), format!("{tree:?}"));
}

#[test]
fn finish_reasons_have_a_class() {
    assert_eq!(map_finish_reason("stop"), StopReason::Stop);
    assert_eq!(map_finish_reason("length"), StopReason::MaxTokens);
    assert_eq!(map_finish_reason("content_filter"), StopReason::ContentFilter);
    assert_eq!(map_finish_reason("anything"), StopReason::Other);
}

#[test]
fn fields_are_bounded() {
    let mut field = String::from("a");
    push_bounded(&mut field, "bc", "message").unwrap();
    assert_eq!(field, "abc");
    let long = "x".repeat(MAX_PROVIDER_FIELD_BYTES - 2);
    assert!(push_bounded(&mut field, &long, "message").is_err());
    assert_eq!(field, "abc");
}

#[test]
fn cumulative_counts_do_not_go_back() {
    let mut previous = Some(5);
    reject_metric_regression("prompt tokens", &mut previous, Some(7)).unwrap();
    assert_eq!(previous, Some(7));
    reject_metric_regression("prompt tokens", &mut previous, None).unwrap();
    assert_eq!(previous, Some(7));
    assert!(reject_metric_regression("prompt tokens", &mut previous, Some(6)).is_err());
}

#[test]
fn estimates_stop_at_the_largest_count() {
    assert_eq!(capped_total(&vec![1, 2, 3]), 6);
    assert_eq!(capped_total(&vec![u64::MAX, u64::MAX]), u64::MAX);
}

#[test]
fn a_stream_is_read_the_same_however_it_is_cut() {
    let stream = "data: {\"model\":\"m\",\"choices\":[{\"delta\":{\"content\":\"un caf\u{e9} \"}}]}\n\n\
        data: {\"choices\":[{\"delta\":{\"content\":\"noir s'il\"}}]}\r\n\r\n\
        data: {\"choices\":[{\"delta\":{},\"finish_reason\":\"stop\"}],\"usage\":{\"completion_tokens\":9}}\n\n\
        data: [DONE]\n\n";
    let bytes = stream.as_bytes();
    let mut whole = ResponseCapture::new(200, true);
    let mut charged = whole.absorb_network_chunk(bytes, &words).unwrap();
    charged += whole.flush_protocol_buffer(&words).unwrap();
    assert_eq!(whole.message, "un caf\u{e9} noir s'il");
    assert_eq!(whole.finish_reason.as_deref(), Some("stop"));
    assert_eq!(charged, 9);
    for cut in 1..bytes.len() {
        let mut parts = ResponseCapture::new(200, true);
        let mut sum = parts.absorb_network_chunk(&bytes[..cut], &words).unwrap();
        sum += parts.absorb_network_chunk(&bytes[cut..], &words).unwrap();
        sum += parts.flush_protocol_buffer(&words).unwrap();
        assert_eq!(sum, charged, "cut at {cut}");
        assert_eq!(format!("{parts:?}"), format!("{whole:?}"), "cut at {cut}");
    }
}

#[test]
fn a_document_is_read_when_it_ends() {
    let document = "{\"model\":\"m\",\"choices\":[{\"message\":{\"content\":\"caf\u{e9}\"},\"finish_reason\":\"stop\"}]}";
    let (front, back) = document.as_bytes().split_at(document.find('\u{e9}').unwrap() + 1);
    let mut capture = ResponseCapture::new(200, false);
    assert_eq!(capture.absorb_network_chunk(front, &words).unwrap(), 0);
    assert_eq!(capture.absorb_network_chunk(back, &words).unwrap(), 0);
    assert_eq!(capture.flush_protocol_buffer(&words).unwrap(), 1);
    assert_eq!(capture.message, "caf\u{e9}");
    assert_eq!(capture.model.as_deref(), Some("m"));
}

#[test]
fn bytes_that_are_not_text_are_refused() {
    let mut capture = ResponseCapture::new(200, true);
    let error = capture.absorb_network_chunk(b"data: \xff\n\n", &words).unwrap_err();
    let fault = std::str::from_utf8(b"data: \xff\n\n").unwrap_err().to_string();
    assert!(error.contains(&fault), "{error}");
}

#[test]
fn a_response_that_is_too_long_is_refused() {
    let mut capture = ResponseCapture::new(200, false);
    let half = vec![b' '; MAX_PROVIDER_CAPTURE_BYTES / 2];
    capture.accept(&half).unwrap();
    capture.accept(&half).unwrap();
    assert!(capture.accept(b" ").is_err());
    assert_eq!(capture.buffer.len(), MAX_PROVIDER_CAPTURE_BYTES);
}

#[test]
fn repeated_usage_is_charged_once() {
    let frame = "{\"choices\":[],\"usage\":{\"completion_tokens\":4}}";
    let mut capture = ResponseCapture::new(200, true);
    assert_eq!(capture.absorb_frame(frame, &words).unwrap(), 4);
    assert_eq!(capture.absorb_frame(frame, &words).unwrap(), 0);
    let more = "{\"choices\":[],\"usage\":{\"completion_tokens\":6}}";
    assert_eq!(capture.absorb_frame(more, &words).unwrap(), 2);
    assert!(capture.absorb_frame(frame, &words).is_err());
}

#[test]
fn tool_calls_are_put_together_by_index() {
    let mut capture = ResponseCapture::new(200, true);
    for frame in [
        r#"{"choices":[{"delta":{"tool_calls":[{"index":1,"id":"b","function":{"name":"write","arguments":"{"}}]}}]}"#,
        r#"{"choices":[{"delta":{"tool_calls":[{"index":0,"id":"a","function":{"name":"read","arguments":"{}"}}]}}]}"#,
        r#"{"choices":[{"delta":{"tool_calls":[{"index":1,"function":{"arguments":"}"}}]}}]}"#,
    ] {
        capture.absorb_frame(frame, &words).unwrap();
    }
    let calls = &capture.tool_calls.calls;
    assert_eq!(calls.len(), 2);
    assert_eq!((calls[0].index, calls[0].name.as_deref(), calls[0].arguments.as_str()), (0, Some("read"), "{}"));
    assert_eq!((calls[1].index, calls[1].id.as_deref(), calls[1].arguments.as_str()), (1, Some("b"), "{}"));
    let renamed = r#"{"choices":[{"delta":{"tool_calls":[{"index":1,"function":{"name":"drop"}}]}}]}"#;
    capture.absorb_frame(renamed, &words).unwrap();
    assert_eq!(capture.tool_calls.calls[1].name.as_deref(), Some("drop"));
}

#[test]
fn there_is_a_largest_tool_call_index() {
    let frame = |index: u64| {
        format!(r#"{{"choices":[{{"delta":{{"tool_calls":[{{"index":{index},"function":{{"name":"n","arguments":"{{}}"}}}}]}}}}]}}"#)
    };
    let mut capture = ResponseCapture::new(200, true);
    capture.absorb_frame(&frame(MAX_PROVIDER_TOOL_CALLS - 1), &words).unwrap();
    assert!(capture.absorb_frame(&frame(MAX_PROVIDER_TOOL_CALLS), &words).is_err());
    assert!(capture.absorb_frame(&frame(u64::MAX), &words).is_err());
}

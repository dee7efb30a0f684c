use mcpg_runtime::invocation::{
    decode_prompt_result, decode_resource_result, primary_text_body, prompt_from_parsed,
    resource_from_parsed, InvocationSurface, PromptMessageContent, ResourceContents,
    SurfaceDecodeError,
};
use mcpg_runtime::json::Json;
use mcpg_runtime::message_dispatcher::GatewayMessageDispatcher;
use mcpg_runtime::protocol::{ToolCallResult, ToolContent};

fn parse(text: &str) -> Json {
    GatewayMessageDispatcher::new().read(text.as_bytes()).expect("valid JSON")
}

fn tool_result_text(body: &str) -> ToolCallResult {
    ToolCallResult {
        content: vec![ToolContent::text(body.to_owned())],
        structured_content: None,
        is_error: false,
        meta: None,
    }
}

#[test]
fn decode_prompt_accepts_native_messages() {
    let result =
        tool_result_text(r#"{"messages":[{"role":"user","content":{"type":"text","text":"hi"}}]}"#);
    let got = decode_prompt_result(&result).expect("decoded");
    assert_eq!(got.messages.len(), 1);
    assert_eq!(got.messages[0].role, "user");
    match &got.messages[0].content {
        PromptMessageContent::Text { text, .. } => assert_eq!(text, "hi"),
        other => panic!("unexpected content: {other:?}"),
    }
}

#[test]
fn decode_prompt_accepts_image_audio_resource_link_and_embedded_resource() {
    let result = tool_result_text(
        r#"{"messages":[
                {"role":"user","content":{"type":"text","text":"t"}},
                {"role":"assistant","content":{"type":"image","data":"AQID","mimeType":"image/png"}},
                {"role":"assistant","content":{"type":"audio","data":"AQID","mimeType":"audio/wav"}},
                {"role":"assistant","content":{"type":"resource_link","uri":"r://a","name":"A"}},
                {"role":"assistant","content":{"type":"resource","resource":{"uri":"r://b","text":"x"}}}
            ]}"#,
    );
    let got = decode_prompt_result(&result).expect("decoded");
    assert_eq!(got.messages.len(), 5);
    assert!(matches!(got.messages[0].content, PromptMessageContent::Text { .. }));
    assert!(matches!(got.messages[1].content, PromptMessageContent::Image { .. }));
    assert!(matches!(got.messages[2].content, PromptMessageContent::Audio { .. }));
    assert!(matches!(got.messages[3].content, PromptMessageContent::ResourceLink { .. }));
    assert!(matches!(got.messages[4].content, PromptMessageContent::Resource { .. }));
}

#[test]
fn decode_prompt_rejects_missing_messages() {
    let result = tool_result_text("{}");
    let err = decode_prompt_result(&result).expect_err("missing messages");
    assert!(matches!(err, SurfaceDecodeError::MalformedResponse { .. }));
}

#[test]
fn decode_prompt_rejects_tool_error() {
    let result = ToolCallResult {
        content: vec![ToolContent::text("boom".to_owned())],
        structured_content: None,
        is_error: true,
        meta: None,
    };
    let err = decode_prompt_result(&result).expect_err("tool-error propagates");
    assert!(matches!(err, SurfaceDecodeError::BackendError { .. }));
    assert_eq!(err.message(), "backend returned an error response: boom");
}

#[test]
fn decode_resource_accepts_blob_and_text() {
    let result = tool_result_text(
        r#"{"contents":[
                {"uri":"r://a","text":"hello","mimeType":"text/plain"},
                {"uri":"r://b","blob":"AAEC","mimeType":"application/octet-stream"}
            ]}"#,
    );
    let got = decode_resource_result(&result, "r://request", 5_000).expect("decoded");
    assert_eq!(got.contents.len(), 2);
    match &got.contents[0] {
        ResourceContents::Text(t) => {
            assert_eq!(t.uri, "r://a");
            assert_eq!(t.text, "hello");
        }
        other => panic!("expected text, got {other:?}"),
    }
    match &got.contents[1] {
        ResourceContents::Blob(b) => {
            assert_eq!(b.uri, "r://b");
            assert_eq!(b.blob, "AAEC");
        }
        other => panic!("expected blob, got {other:?}"),
    }
}

#[test]
fn decode_resource_rejects_mixed_text_and_blob_entry() {
    let result = tool_result_text(r#"{"contents":[{"uri":"r://a","text":"x","blob":"AA"}]}"#);
    let err = decode_resource_result(&result, "r://a", 5_000).expect_err("mixed rejected");
    assert!(matches!(err, SurfaceDecodeError::MalformedResponse { .. }));
}

#[test]
fn decode_resource_rejects_empty_body() {
    let result = ToolCallResult {
        content: vec![],
        structured_content: None,
        is_error: false,
        meta: None,
    };
    let err = decode_resource_result(&result, "r://a", 5_000).expect_err("empty rejected");
    assert!(matches!(err, SurfaceDecodeError::EmptyResponse));
}

#[test]
fn parts_of_resources_need_an_address() {
    let bare = parse(r#"{"contents":[{"text":"x"}]}"#);
    match resource_from_parsed(Ok(bare), "r://asked", 1).unwrap_err() {
        SurfaceDecodeError::MalformedResponse { reason } => {
            assert_eq!(reason, "contents[0].uri must be a string");
        }
        other => panic!("unexpected {other:?}"),
    }
    match resource_from_parsed(Err("oops".to_owned()), "r://a", 1).unwrap_err() {
        SurfaceDecodeError::MalformedResponse { reason } => {
            assert_eq!(reason, "resource body for r://a is not JSON: oops");
        }
        other => panic!("unexpected {other:?}"),
    }
}

#[test]
fn prompts_without_a_known_content_are_malformed() {
    let odd = parse(r#"{"messages":[{"role":"user","content":{"type":"dance"}}]}"#);
    assert_eq!(
        prompt_reason(odd),
        "prompt `messages` does not match the spec content-block shape: entry 0: `content` is no content block"
    );
    let nameless = parse(
        r#"{"messages":[{"role":"user","content":{"type":"text","text":"a"}},{"content":{}}]}"#,
    );
    assert_eq!(
        prompt_reason(nameless),
        "prompt `messages` does not match the spec content-block shape: entry 1: missing field `role`"
    );
    assert_eq!(
        prompt_reason(parse(r#"{"messages":7}"#)),
        "prompt `messages` does not match the spec content-block shape: expected a list"
    );
}

fn prompt_reason(body: Json) -> String {
    match prompt_from_parsed(Ok(body)) {
        Err(SurfaceDecodeError::MalformedResponse { reason }) => reason,
        other => panic!("unexpected {other:?}"),
    }
}

#[test]
fn surfaces_have_labels() {
    assert_eq!(InvocationSurface::Tool.as_label(), "tool");
    assert_eq!(InvocationSurface::ResourceTemplate.as_label(), "resource_template");
    let mixed = ToolCallResult {
        content: vec![
            ToolContent::Other { value: Json::object() },
            ToolContent::text("first".to_owned()),
            ToolContent::text("second".to_owned()),
        ],
        structured_content: None,
        is_error: false,
        meta: None,
    };
    assert_eq!(primary_text_body(&mixed), Some("first"));
}

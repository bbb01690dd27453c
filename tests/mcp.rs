use codemode_rs::json::Json;
use codemode_rs::mcp::{
    call_arguments, call_output, content_to_value, contents_to_value, convert_tool, text_value,
    McpClientError, McpContent,
};

fn s(x: &str) -> String {
    x.to_string()
}

fn is_str(j: &Json, want: &str) -> bool {
    matches!(j, Json::Str(x) if x == want)
}

#[test]
fn text_content_parses_as_json() {
    match content_to_value(&McpContent::Text(s("{\"a\": [1, true]}"))) {
        Json::Object(m) => {
            assert_eq!(m.len(), 1);
            assert_eq!(m[0].0, "a");
            match &m[0].1 {
                Json::Array(items) => {
                    assert!(matches!(&items[0], Json::Number(n) if n == "1"));
                    assert!(matches!(items[1], Json::Bool(true)));
                }
                _ => panic!("expected an array"),
            }
        }
        _ => panic!("expected an object"),
    }
    assert!(is_str(&content_to_value(&McpContent::Text(s("not json"))), "not json"));
}

#[test]
fn media_content_is_tagged() {
    match content_to_value(&McpContent::Image { data: s("AAA"), mime_type: s("image/png") }) {
        Json::Object(m) => {
            assert_eq!(m[0].0, "type");
            assert!(is_str(&m[0].1, "image"));
            assert!(is_str(&m[1].1, "AAA"));
            assert!(is_str(&m[2].1, "image/png"));
        }
        _ => panic!("expected an object"),
    }
    match content_to_value(&McpContent::ResourceLink(Json::Null)) {
        Json::Object(m) => {
            assert!(is_str(&m[0].1, "resource_link"));
            assert_eq!(m[1].0, "resource");
        }
        _ => panic!("expected an object"),
    }
}

#[test]
fn several_contents_give_an_array() {
    let v = contents_to_value(&vec![McpContent::Text(s("1")), McpContent::Text(s("x"))]);
    match v {
        Json::Array(items) => {
            assert_eq!(items.len(), 2);
            assert!(is_str(&items[1], "x"));
        }
        _ => panic!("expected an array"),
    }
}

#[test]
fn output_prefers_structured_content() {
    assert!(matches!(call_output(Some(Json::Bool(true)), &vec![]), Ok(Json::Bool(true))));
    assert!(matches!(call_output(None, &vec![McpContent::Text(s("null"))]), Ok(Json::Null)));
    assert!(matches!(call_output(None, &vec![]), Err(McpClientError::EmptyContent)));
    assert_eq!(McpClientError::EmptyContent.to_string(), "tool response missing content");
    assert_eq!(McpClientError::Mcp(s("x")).to_string(), "mcp error: x");
}

#[test]
fn arguments_are_wrapped() {
    assert!(call_arguments(Json::Null).is_none());
    let m = call_arguments(Json::Number(s("3"))).unwrap();
    assert_eq!(m[0].0, "value");
    let m = call_arguments(Json::Object(vec![(s("k"), Json::Null)])).unwrap();
    assert_eq!(m[0].0, "k");
}

#[test]
fn server_tools_become_async_descriptors() {
    let t = convert_tool(s("echo"), None, vec![(s("type"), Json::Str(s("object")))], None);
    assert_eq!(t.name, "echo");
    assert_eq!(t.description, "");
    assert!(t.is_async);
    assert!(t.tags.is_empty());
    assert!(matches!(t.outputs, Json::Object(ref m) if m.is_empty()));
}

#[test]
fn text_value_uses_the_parse_result() {
    assert!(matches!(text_value("7", Some(Json::Number(s("7")))), Json::Number(ref n) if n == "7"));
    assert!(is_str(&text_value("{oops", None), "{oops"));
    assert!(matches!(text_value("anything", Some(Json::Null)), Json::Null));
}

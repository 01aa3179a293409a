use seeyue_mcp::compat::{sanitize_for_client, ClientType};
use seeyue_mcp::hover::{extract_hover_text, extract_range, extract_type_hint, run_get_hover_info, GetHoverInfoParams};
use seeyue_mcp::json::{Json, JsonNumber};

fn s(x: &str) -> Json {
    Json::Str(x.to_string())
}

fn n(v: u64) -> Json {
    Json::Number(JsonNumber { as_u64: Some(v), as_i64: Some(v as i64), text: v.to_string() })
}

fn obj(es: Vec<(&str, Json)>) -> Json {
    Json::Object(es.into_iter().map(|(k, v)| (k.to_string(), v)).collect())
}

fn show(j: &Json) -> String {
    match j {
        Json::Null => "null".to_string(),
        Json::Bool(b) => b.to_string(),
        Json::Number(n) => n.text.clone(),
        Json::Str(t) => format!("\"{}\"", t),
        Json::Array(v) => format!("[{}]", v.iter().map(show).collect::<Vec<_>>().join(",")),
        Json::Object(es) => format!(
            "{{{}}}",
            es.iter().map(|(k, v)| format!("\"{}\":{}", k, show(v))).collect::<Vec<_>>().join(",")
        ),
    }
}

fn schema() -> Json {
    obj(vec![
        ("type", s("object")),
        ("additionalProperties", Json::Bool(false)),
        ("$schema", s("http://json-schema.org/draft-07/schema#")),
        (
            "properties",
            obj(vec![
                ("a", obj(vec![("type", s("string")), ("const", s("k"))])),
                ("b", obj(vec![("anyOf", Json::Array(vec![obj(vec![("type", s("integer"))]), obj(vec![("type", s("null"))])]))])),
            ]),
        ),
    ])
}

#[test]
fn claude_schema_is_unchanged() {
    let out = sanitize_for_client(schema(), ClientType::Claude);
    assert_eq!(show(&out), show(&schema()));
}

#[test]
fn openai_drops_unsupported_keys_here_and_in_properties() {
    let out = sanitize_for_client(schema(), ClientType::OpenAI);
    assert_eq!(
        show(&out),
        "{\"type\":\"object\",\"properties\":{\"a\":{\"type\":\"string\"},\"b\":{\"anyOf\":[{\"type\":\"integer\"},{\"type\":\"null\"}]}}}"
    );
}

#[test]
fn gemini_flattens_nullable_any_of() {
    let j = obj(vec![("anyOf", Json::Array(vec![obj(vec![("type", s("string"))]), obj(vec![("type", s("null"))])]))]);
    let out = sanitize_for_client(j, ClientType::Gemini);
    assert_eq!(show(&out), "{\"type\":\"string\",\"nullable\":true}");
}

#[test]
fn gemini_keeps_any_of_with_two_non_null_variants() {
    let j = obj(vec![(
        "anyOf",
        Json::Array(vec![obj(vec![("type", s("string"))]), obj(vec![("type", s("integer"))]), obj(vec![("type", s("null"))])]),
    )]);
    let before = show(&j);
    let out = sanitize_for_client(j, ClientType::Gemini);
    assert_eq!(show(&out), before);
}

#[test]
fn gemini_replaces_an_existing_nullable() {
    let j = obj(vec![(
        "anyOf",
        Json::Array(vec![obj(vec![("type", s("null"))]), obj(vec![("nullable", Json::Bool(false)), ("type", s("string"))])]),
    )]);
    let out = sanitize_for_client(j, ClientType::Gemini);
    assert_eq!(show(&out), "{\"nullable\":true,\"type\":\"string\"}");
}

#[test]
fn unknown_client_gets_both_rewrites() {
    let j = obj(vec![
        ("$schema", s("x")),
        ("anyOf", Json::Array(vec![obj(vec![("type", s("string"))]), obj(vec![("type", s("null"))])])),
    ]);
    let out = sanitize_for_client(j, ClientType::Unknown);
    assert_eq!(show(&out), "{\"type\":\"string\",\"nullable\":true}");
}

#[test]
fn hover_text_from_markup_object() {
    let v = obj(vec![("contents", obj(vec![("kind", s("markdown")), ("value", s("```rust\nfn a() -> u8\n```\ndoc"))]))]);
    let t = extract_hover_text(&v).unwrap();
    assert_eq!(t, "```rust\nfn a() -> u8\n```\ndoc");
    assert_eq!(extract_type_hint(&t).as_deref(), Some("fn a() -> u8"));
}

#[test]
fn hover_text_from_array_skips_other_items() {
    let v = obj(vec![("contents", Json::Array(vec![s("first"), obj(vec![("language", s("rust")), ("value", s("second"))]), n(3)]))]);
    assert_eq!(extract_hover_text(&v).as_deref(), Some("first\n\nsecond"));
    let empty = obj(vec![("contents", Json::Array(vec![n(1)]))]);
    assert_eq!(extract_hover_text(&empty), None);
    assert_eq!(extract_hover_text(&obj(vec![])), None);
}

#[test]
fn type_hint_falls_back_to_first_nonblank_line() {
    assert_eq!(extract_type_hint("\n   \n  sig line\nmore").as_deref(), Some("  sig line"));
    assert_eq!(extract_type_hint("```\n   \n```\nafter").as_deref(), Some("```"));
    assert_eq!(extract_type_hint("  \n"), None);
}

#[test]
fn hover_range_is_one_based() {
    let v = obj(vec![(
        "range",
        obj(vec![
            ("start", obj(vec![("line", n(0)), ("character", n(4))])),
            ("end", obj(vec![("line", n(2)), ("character", n(1))])),
        ]),
    )]);
    let r = extract_range(&v).unwrap();
    assert_eq!((r.start_line, r.start_col, r.end_line, r.end_col), (1, 5, 3, 2));
    let missing = obj(vec![("range", obj(vec![("start", obj(vec![("line", n(0))]))]))]);
    assert!(extract_range(&missing).is_none());
}

#[test]
fn hover_without_answer_is_no_info() {
    let p = GetHoverInfoParams { path: "a.rs".into(), line: 3, column: 7 };
    let r = run_get_hover_info(p, None);
    assert_eq!(r.kind, "no_info");
    assert_eq!(r.source, "none");
    assert_eq!((r.line, r.column), (3, 7));
    assert!(r.contents.is_none() && r.type_hint.is_none() && r.range.is_none());
}

#[test]
fn hover_with_answer_is_success() {
    let v = obj(vec![("contents", s("let x: i32"))]);
    let p = GetHoverInfoParams { path: "a.rs".into(), line: 1, column: 1 };
    let r = run_get_hover_info(p, Some(&v));
    assert_eq!(r.kind, "success");
    assert_eq!(r.source, "lsp");
    assert_eq!(r.contents.as_deref(), Some("let x: i32"));
    assert_eq!(r.type_hint.as_deref(), Some("let x: i32"));
    assert!(r.range.is_none());
}

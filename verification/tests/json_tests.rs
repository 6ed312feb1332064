use base64::Engine;
use booster::json::{is_number_token, render_rows_json, SqlColumn, SqlRow, SqlValue};

fn row(columns: Vec<(&str, SqlValue)>) -> SqlRow {
    SqlRow {
        columns: columns
            .into_iter()
            .map(|(n, v)| SqlColumn { name: n.to_string(), value: v })
            .collect(),
    }
}

#[test]
fn test_empty_result_renders_empty_array() {
    let out = render_rows_json(&Vec::new());
    assert_eq!(out, b"[]".to_vec());
}

#[test]
fn test_row_envelope_parses_with_row_count() {
    // The first n bytes parse as a JSON array whose element count equals
    // the row count.
    let rows = vec![
        row(vec![("id", SqlValue::Int(1)), ("name", SqlValue::Text("ada".to_string()))]),
        row(vec![("id", SqlValue::Int(2)), ("name", SqlValue::Null)]),
        row(vec![("id", SqlValue::Int(3)), ("ok", SqlValue::Bool(true))]),
    ];
    let out = render_rows_json(&rows);
    let parsed: serde_json::Value = serde_json::from_slice(&out).expect("parses as JSON");
    let arr = parsed.as_array().expect("a JSON array");
    assert_eq!(arr.len(), 3);
    assert_eq!(arr[0]["id"], serde_json::Value::from(1));
    assert_eq!(arr[0]["name"], serde_json::Value::from("ada"));
    assert_eq!(arr[1]["name"], serde_json::Value::Null);
    assert_eq!(arr[2]["ok"], serde_json::Value::from(true));
}

#[test]
fn test_integer_rendering_is_exact() {
    let rows = vec![row(vec![
        ("zero", SqlValue::Int(0)),
        ("min", SqlValue::Int(i64::MIN)),
        ("max", SqlValue::Int(i64::MAX)),
        ("neg", SqlValue::Int(-42)),
    ])];
    let out = String::from_utf8(render_rows_json(&rows)).expect("utf8");
    assert_eq!(
        out,
        "[{\"zero\":0,\"min\":-9223372036854775808,\"max\":9223372036854775807,\"neg\":-42}]"
    );
}

#[test]
fn test_string_escaping_matches_json() {
    let rows = vec![row(vec![(
        "t",
        SqlValue::Text("a\"b\\c\n\r\t\u{8}\u{c}\u{1f} d".to_string()),
    )])];
    let out = render_rows_json(&rows);
    let parsed: serde_json::Value = serde_json::from_slice(&out).expect("parses");
    assert_eq!(
        parsed[0]["t"],
        serde_json::Value::from("a\"b\\c\n\r\t\u{8}\u{c}\u{1f} d")
    );
    // The exact escapes, including the \u00XX form for bare controls.
    let text = String::from_utf8(out).unwrap();
    assert!(text.contains("a\\\"b\\\\c\\n\\r\\t\\b\\f\\u001f d"));
}

#[test]
fn test_non_ascii_text_passes_through() {
    let rows = vec![row(vec![("t", SqlValue::Text("héllo ≠ wörld".to_string()))])];
    let out = render_rows_json(&rows);
    let parsed: serde_json::Value = serde_json::from_slice(&out).expect("parses");
    assert_eq!(parsed[0]["t"], serde_json::Value::from("héllo ≠ wörld"));
}

#[test]
fn test_bytes_render_as_standard_base64() {
    let raw = vec![0u8, 1, 2, 250, 251, 252, 253, 254, 255];
    let rows = vec![row(vec![("b", SqlValue::Bytes(raw.clone()))])];
    let out = render_rows_json(&rows);
    let parsed: serde_json::Value = serde_json::from_slice(&out).expect("parses");
    let encoded = parsed[0]["b"].as_str().expect("a string");
    let decoded = base64::engine::general_purpose::STANDARD
        .decode(encoded)
        .expect("valid standard base64");
    assert_eq!(decoded, raw);
    // Padded standard form: length is the next multiple of four.
    assert_eq!(encoded.len(), 4 * ((raw.len() + 2) / 3));
}

#[test]
fn test_number_tokens_are_gated_by_the_grammar() {
    assert!(is_number_token("0"));
    assert!(is_number_token("-0"));
    assert!(is_number_token("12345"));
    assert!(is_number_token("-12.5"));
    assert!(is_number_token("1e5"));
    assert!(is_number_token("2.5E-3"));
    assert!(is_number_token("-0.5e+30"));
    assert!(!is_number_token(""));
    assert!(!is_number_token("01"));
    assert!(!is_number_token("1."));
    assert!(!is_number_token(".5"));
    assert!(!is_number_token("1e"));
    assert!(!is_number_token("1e+"));
    assert!(!is_number_token("nan"));
    assert!(!is_number_token("+1"));
    assert!(!is_number_token("1x"));
}

#[test]
fn test_valid_number_token_renders_and_invalid_becomes_null() {
    let rows = vec![row(vec![
        ("good", SqlValue::Num("2.25".to_string())),
        ("bad", SqlValue::Num("not-a-number".to_string())),
    ])];
    let out = render_rows_json(&rows);
    let parsed: serde_json::Value = serde_json::from_slice(&out).expect("parses");
    assert_eq!(parsed[0]["good"], serde_json::Value::from(2.25));
    assert_eq!(parsed[0]["bad"], serde_json::Value::Null);
}

#[test]
fn test_empty_row_renders_empty_object() {
    let rows = vec![row(vec![]), row(vec![("a", SqlValue::Null)])];
    let out = String::from_utf8(render_rows_json(&rows)).expect("utf8");
    assert_eq!(out, "[{},{\"a\":null}]");
}

#[test]
fn test_column_names_are_escaped() {
    let rows = vec![row(vec![("we\"ird\\name", SqlValue::Int(5))])];
    let out = render_rows_json(&rows);
    let parsed: serde_json::Value = serde_json::from_slice(&out).expect("parses");
    assert_eq!(parsed[0]["we\"ird\\name"], serde_json::Value::from(5));
}

#[test]
fn test_malformed_embedded_json_becomes_null() {
    // A fragment that would break the envelope renders as null instead;
    // well-formed fragments stay verbatim. No real backend read produces a
    // malformed one.
    let rows = vec![row(vec![
        ("bad", SqlValue::Json("}{".to_string())),
        ("unbalanced", SqlValue::Json("[1,2".to_string())),
        ("bare_comma", SqlValue::Json("1,2".to_string())),
        ("good", SqlValue::Json("[1,2]".to_string())),
    ])];
    let out = render_rows_json(&rows);
    let parsed: serde_json::Value = serde_json::from_slice(&out).expect("parses");
    assert_eq!(parsed.as_array().expect("array").len(), 1);
    assert_eq!(parsed[0]["bad"], serde_json::Value::Null);
    assert_eq!(parsed[0]["unbalanced"], serde_json::Value::Null);
    assert_eq!(parsed[0]["bare_comma"], serde_json::Value::Null);
    assert_eq!(parsed[0]["good"][1], serde_json::Value::from(2));
}

#[test]
fn test_embedded_json_is_verbatim() {
    let rows = vec![row(vec![(
        "j",
        SqlValue::Json("{\"a\":[1,2,{\"b\":null}]}".to_string()),
    )])];
    let out = render_rows_json(&rows);
    let parsed: serde_json::Value = serde_json::from_slice(&out).expect("parses");
    assert_eq!(parsed[0]["j"]["a"][2]["b"], serde_json::Value::Null);
}

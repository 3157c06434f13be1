use hot_reload::wire::{decode, encode, DecodeError, HotReloadMsg, Template};

fn update(payload: &str) -> HotReloadMsg {
    HotReloadMsg::UpdateTemplate(Template::new(payload.as_bytes().to_vec()))
}

#[test]
fn shutdown_is_the_quoted_word_and_a_line_feed() {
    assert_eq!(encode(&HotReloadMsg::Shutdown), Some(b"\"Shutdown\"\n".to_vec()));
}

#[test]
fn update_wraps_the_payload_in_one_object() {
    let line = encode(&update("{\"name\":\"app.rs:3:5:0\",\"roots\":[]}"));
    assert_eq!(
        line,
        Some(b"{\"UpdateTemplate\":{\"name\":\"app.rs:3:5:0\",\"roots\":[]}}\n".to_vec())
    );
}

#[test]
fn update_with_empty_payload_still_frames() {
    assert_eq!(encode(&update("")), Some(b"{\"UpdateTemplate\":}\n".to_vec()));
}

#[test]
fn payload_with_line_feed_is_not_sendable() {
    assert_eq!(encode(&update("{\"a\":\n1}")), None);
    assert_eq!(encode(&update("\n")), None);
}

#[test]
fn payload_with_carriage_return_is_sendable() {
    assert_eq!(encode(&update("\r")), Some(b"{\"UpdateTemplate\":\r}\n".to_vec()));
}

#[test]
fn encoding_matches_serde_json_for_the_same_message() {
    let mut inner = serde_json::Map::new();
    inner.insert("name".to_string(), serde_json::Value::String("a \"quoted\"\nname".to_string()));
    inner.insert("roots".to_string(), serde_json::Value::Array(vec![serde_json::Value::Bool(true)]));
    let payload = serde_json::Value::Object(inner);
    let mut outer = serde_json::Map::new();
    outer.insert("UpdateTemplate".to_string(), payload.clone());
    let expected = serde_json::to_string(&serde_json::Value::Object(outer)).unwrap();
    let msg = update(&serde_json::to_string(&payload).unwrap());
    let mut line = encode(&msg).unwrap();
    assert_eq!(line.pop(), Some(b'\n'));
    assert_eq!(String::from_utf8(line).unwrap(), expected);
    let quit = serde_json::to_string(&serde_json::Value::String("Shutdown".to_string())).unwrap();
    assert_eq!(encode(&HotReloadMsg::Shutdown).unwrap(), format!("{quit}\n").into_bytes());
}

#[test]
fn decode_reads_shutdown_with_and_without_line_feed() {
    assert_eq!(decode(b"\"Shutdown\"\n"), Ok(HotReloadMsg::Shutdown));
    assert_eq!(decode(b"\"Shutdown\""), Ok(HotReloadMsg::Shutdown));
}

#[test]
fn decode_reads_the_payload_of_an_update() {
    assert_eq!(decode(b"{\"UpdateTemplate\":{\"x\":[1,2]}}\n"), Ok(update("{\"x\":[1,2]}")));
    assert_eq!(decode(b"{\"UpdateTemplate\":7}"), Ok(update("7")));
    assert_eq!(decode(b"{\"UpdateTemplate\":}"), Ok(update("")));
}

#[test]
fn decode_of_nothing_is_empty() {
    assert_eq!(decode(b""), Err(DecodeError::Empty));
}

#[test]
fn decode_of_other_text_is_malformed() {
    assert_eq!(decode(b"\n"), Err(DecodeError::Malformed));
    assert_eq!(decode(b"Shutdown\n"), Err(DecodeError::Malformed));
    assert_eq!(decode(b"\"Shutdown\"\n\n"), Err(DecodeError::Malformed));
    assert_eq!(decode(b"{\"UpdateTemplate\":1"), Err(DecodeError::Malformed));
    assert_eq!(decode(b"{\"UpdateTemplate\""), Err(DecodeError::Malformed));
    assert_eq!(decode(b"{\"UpdateTemplate\":"), Err(DecodeError::Malformed));
    assert_eq!(decode(b"{\"Update\":1}\n"), Err(DecodeError::Malformed));
    assert_eq!(decode(b" \"Shutdown\"\n"), Err(DecodeError::Malformed));
}

#[test]
fn decode_refuses_two_lines_in_one() {
    assert_eq!(decode(b"{\"UpdateTemplate\":1\n}\n"), Err(DecodeError::Malformed));
}

#[test]
fn decode_undoes_encode() {
    for payload in ["{}", "[1,2,3]", "\"text with } and {\"", "null", "{\"UpdateTemplate\":1}"] {
        let msg = update(payload);
        let line = encode(&msg).unwrap();
        assert_eq!(decode(&line), Ok(msg.clone()));
        assert_eq!(decode(&line[..line.len() - 1]), Ok(msg));
    }
    let line = encode(&HotReloadMsg::Shutdown).unwrap();
    assert_eq!(decode(&line), Ok(HotReloadMsg::Shutdown));
}

#[test]
fn template_keeps_its_payload() {
    let t = Template::new(vec![1, 2, 3]);
    assert_eq!(t.payload(), &vec![1, 2, 3]);
    assert_eq!(t.clone(), t);
}

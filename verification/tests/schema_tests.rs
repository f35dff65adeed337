use focus_chat::db::schema::{
    create_chat_data, create_message_data, validate_chat_name, ApiChat, ApiMessage, Chat, Message,
    Timestamp,
};
use focus_chat::json::{JsonNumber, JsonValue};
use focus_chat::llm;

#[test]
fn empty_chat_name_gets_default() {
    assert_eq!(validate_chat_name(String::new()), "No Name");
    assert_eq!(validate_chat_name("Plans".to_string()), "Plans");
    assert_eq!(validate_chat_name(" ".to_string()), " ");
    assert_eq!(validate_chat_name(validate_chat_name(String::new())), "No Name");
}

#[test]
fn new_chat_record() {
    let c = create_chat_data(String::new(), Some("author:a".to_string())).unwrap();
    assert!(c.id.is_none());
    assert_eq!(c.name, "No Name");
    assert_eq!(c.author_id, Some("author:a".to_string()));
    assert!(c.created_at.secs > 1_600_000_000);
}

#[test]
fn new_message_record() {
    let m = create_message_data(Some("chat:c".to_string()), "t".to_string(), None, 9).unwrap();
    assert!(m.id.is_none());
    assert_eq!(m.chat_id, Some("chat:c".to_string()));
    assert_eq!(m.text, "t");
    assert_eq!(m.sequence_number, 9);
    assert!(m.author_id.is_none());
}

#[test]
fn api_chat_from_chat() {
    let t = Timestamp { secs: 5, nanos: 6 };
    let with_id = Chat { id: Some("chat:x".to_string()), name: "n".to_string(), author_id: None, created_at: t };
    let a = ApiChat::from(with_id);
    assert_eq!(a.id, "chat:x");
    assert_eq!(a.name, "n");
    assert!(a.author.is_none());
    assert_eq!(a.created_at, t);
    let without = Chat { id: None, name: "n".to_string(), author_id: None, created_at: t };
    assert_eq!(ApiChat::from(without).id, "unknown");
}

#[test]
fn api_message_from_message() {
    let t = Timestamp { secs: 1, nanos: 2 };
    let m = Message {
        id: None,
        chat_id: Some("chat:c".to_string()),
        sequence_number: 4,
        text: "x".to_string(),
        author_id: None,
        created_at: t,
    };
    let a = ApiMessage::from(m);
    assert_eq!(a.id, "unknown");
    assert_eq!(a.chat_id, "chat:c");
    assert_eq!(a.sequence_number, 4);
    assert_eq!(a.text, "x");
    let m2 = Message { id: Some("message:q".to_string()), chat_id: None, sequence_number: 0, text: String::new(), author_id: None, created_at: t };
    let a2 = ApiMessage::from(m2);
    assert_eq!(a2.id, "message:q");
    assert_eq!(a2.chat_id, "unknown");
}

#[test]
fn json_lookups() {
    let v = JsonValue::Object(vec![
        ("a".to_string(), JsonValue::Str("x".to_string())),
        ("n".to_string(), JsonValue::Number(JsonNumber::PosInt(7))),
        ("a".to_string(), JsonValue::Null),
    ]);
    assert_eq!(v.get("a").and_then(|x| x.as_str()), Some("x"));
    assert_eq!(v.get("n").and_then(|x| x.as_u64()), Some(7));
    assert!(v.get("n").and_then(|x| x.as_str()).is_none());
    assert!(v.get("zz").is_none());
    assert!(JsonValue::Array(vec![]).get("a").is_none());
    assert_eq!(JsonValue::Number(JsonNumber::NegInt(-1)).as_u64(), None);
}

#[test]
fn test_command_prefixes_message() {
    assert_eq!(focus_chat::test("hi".to_string()), Ok("Message: hi".to_string()));
    assert_eq!(focus_chat::test(String::new()), Ok("Message: ".to_string()));
}

#[test]
fn llm_replies() {
    assert_eq!(llm::chat_reply(llm::LlmReply::Completion(3u8)), Ok(3u8));
    assert_eq!(
        llm::chat_reply::<u8>(llm::LlmReply::Stream),
        Err("Streaming responses are not yet supported.".to_string())
    );
    assert_eq!(
        llm::chat_reply::<u8>(llm::LlmReply::Failed("no model".to_string())),
        Err("LLM chat request failed: no model".to_string())
    );
}

#[test]
fn clock_readings_to_timestamps() {
    assert_eq!(focus_chat::db::schema::timestamp_from_reading(Some((1_704_067_200, 5))), Some(Timestamp { secs: 1_704_067_200, nanos: 5 }));
    assert_eq!(focus_chat::db::schema::timestamp_from_reading(Some((i64::MAX as u64, 0))), Some(Timestamp { secs: i64::MAX, nanos: 0 }));
    assert_eq!(focus_chat::db::schema::timestamp_from_reading(Some((i64::MAX as u64 + 1, 0))), None);
    assert_eq!(focus_chat::db::schema::timestamp_from_reading(None), None);
}

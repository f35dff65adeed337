use focus_chat::db::client::{
    api_chat_from_row, api_chats_from_rows, api_message_from_row, api_messages_from_rows,
    author_name_from_id, chat_record_key, new_author_name, new_user_author, parse_author_kind,
    split_chat_id, AddMessage, AddMessagePhase, CreateChat, CreateChatPhase, DbEvent, DbStep,
};
use focus_chat::db::client::{
    ConnEvent, ConnStep, GetDb, GetDbPhase, InitDatabase, InitDatabasePhase, CHATS_QUERY, DATABASE,
    DB_PATH, NAMESPACE, SCHEMA,
};
use focus_chat::db::schema::AuthorType;
use focus_chat::json::{JsonNumber, JsonValue};

fn s(t: &str) -> JsonValue {
    JsonValue::Str(t.to_string())
}

fn obj(entries: Vec<(&str, JsonValue)>) -> JsonValue {
    JsonValue::Object(entries.into_iter().map(|(k, v)| (k.to_string(), v)).collect())
}

fn chat_row(id: &str, kind: &str, created: &str) -> JsonValue {
    obj(vec![
        ("id", obj(vec![("tb", s("chat")), ("id", s(id))])),
        ("name", s("Weekend plans")),
        ("author", obj(vec![("kind", s(kind)), ("name", s("User-1a2b3c4d"))])),
        ("created_at", s(created)),
    ])
}

fn message_row(id: &str, seq: JsonNumber) -> JsonValue {
    obj(vec![
        ("id", obj(vec![("tb", s("message")), ("id", s(id))])),
        ("chat", obj(vec![("tb", s("chat")), ("id", s("c1"))])),
        ("sequence_number", JsonValue::Number(seq)),
        ("text", s("hello")),
        ("author", obj(vec![("kind", s("Assistant")), ("name", s("bot"))])),
        ("created_at", s("2024-01-01T00:00:00.5Z")),
    ])
}

#[test]
fn record_key_of_bare_and_qualified_ids() {
    assert_eq!(chat_record_key("abc"), "chat:abc");
    assert_eq!(chat_record_key("chat:abc"), "chat:abc");
    assert_eq!(chat_record_key("author:x"), "author:x");
    assert_eq!(chat_record_key(""), "chat:");
}

#[test]
fn split_chat_id_cases() {
    assert_eq!(split_chat_id("chat:abc"), ("chat".to_string(), "abc".to_string()));
    assert_eq!(split_chat_id("abc"), ("chat".to_string(), "abc".to_string()));
    assert_eq!(split_chat_id("a:b:c"), ("a".to_string(), "b".to_string()));
    assert_eq!(split_chat_id("x:"), ("x".to_string(), "".to_string()));
    assert_eq!(split_chat_id(":y"), ("".to_string(), "y".to_string()));
}

#[test]
fn split_of_record_key_round_trips() {
    let key = chat_record_key("k9");
    assert_eq!(split_chat_id(&key), ("chat".to_string(), "k9".to_string()));
}

#[test]
fn author_name_takes_first_group() {
    assert_eq!(author_name_from_id("67e55044-10b1-426f-9247-bb680e5fe0c8"), "User-67e55044");
    assert_eq!(author_name_from_id("nodash"), "User-nodash");
    assert_eq!(author_name_from_id("-x"), "User-");
}

#[test]
fn fresh_author_name_has_uuid_shape() {
    let name = new_author_name();
    assert_eq!(name.len(), 13);
    assert!(name.starts_with("User-"));
    assert!(name[5..].chars().all(|c| c.is_ascii_digit() || ('a'..='f').contains(&c)));
    assert_ne!(new_author_name(), name);
}

#[test]
fn author_kinds() {
    assert_eq!(parse_author_kind("User"), Some(AuthorType::User));
    assert_eq!(parse_author_kind("Assistant"), Some(AuthorType::Assistant));
    assert_eq!(parse_author_kind("Tool"), Some(AuthorType::Tool));
    assert_eq!(parse_author_kind("System"), Some(AuthorType::System));
    assert_eq!(parse_author_kind("user"), None);
    assert_eq!(parse_author_kind(""), None);
}

#[test]
fn chat_row_is_read() {
    let c = api_chat_from_row(&chat_row("c1", "User", "2024-01-01T00:00:00Z")).unwrap();
    assert_eq!(c.id, "c1");
    assert_eq!(c.name, "Weekend plans");
    let a = c.author.unwrap();
    assert_eq!(a.kind, AuthorType::User);
    assert_eq!(a.name, "User-1a2b3c4d");
    assert!(a.id.is_none());
    assert_eq!(c.created_at.secs, 1704067200);
    assert_eq!(c.created_at.nanos, 0);
}

#[test]
fn chat_row_time_is_moved_to_utc() {
    let c = api_chat_from_row(&chat_row("c1", "Tool", "2024-01-01T02:00:00+02:00")).unwrap();
    assert_eq!(c.created_at.secs, 1704067200);
}

#[test]
fn malformed_chat_rows_are_skipped() {
    assert!(api_chat_from_row(&chat_row("c1", "Robot", "2024-01-01T00:00:00Z")).is_none());
    assert!(api_chat_from_row(&chat_row("c1", "User", "yesterday")).is_none());
    assert!(api_chat_from_row(&JsonValue::Null).is_none());
    let rows = vec![
        chat_row("a", "User", "2024-01-01T00:00:00Z"),
        chat_row("b", "Nobody", "2024-01-01T00:00:00Z"),
        JsonValue::Bool(true),
        chat_row("c", "System", "2024-02-01T00:00:00Z"),
    ];
    let chats = api_chats_from_rows(&rows);
    assert_eq!(chats.len(), 2);
    assert_eq!(chats[0].id, "a");
    assert_eq!(chats[1].id, "c");
}

#[test]
fn message_row_is_read() {
    let m = api_message_from_row(&message_row("m1", JsonNumber::PosInt(3))).unwrap();
    assert_eq!(m.id, "m1");
    assert_eq!(m.chat_id, "c1");
    assert_eq!(m.sequence_number, 3);
    assert_eq!(m.text, "hello");
    assert_eq!(m.author.unwrap().kind, AuthorType::Assistant);
    assert_eq!(m.created_at.secs, 1704067200);
    assert_eq!(m.created_at.nanos, 500_000_000);
}

#[test]
fn message_rows_with_bad_numbers_are_skipped() {
    let rows = vec![
        message_row("m1", JsonNumber::PosInt(1)),
        message_row("m2", JsonNumber::NegInt(-2)),
        message_row("m3", JsonNumber::NonInteger),
        message_row("m4", JsonNumber::PosInt(2)),
    ];
    let msgs = api_messages_from_rows(&rows);
    assert_eq!(msgs.len(), 2);
    assert_eq!(msgs[0].id, "m1");
    assert_eq!(msgs[1].id, "m4");
}

#[test]
fn user_author_has_no_id() {
    let a = new_user_author("Ann".to_string());
    assert!(a.id.is_none());
    assert_eq!(a.kind, AuthorType::User);
    assert_eq!(a.name, "Ann");
}

#[test]
fn create_chat_flow_succeeds() {
    let (flow, step) = CreateChat::start("".to_string());
    assert!(matches!(step, DbStep::Connect));
    let (flow, step) = flow.on_event(DbEvent::Connected(Ok(())));
    assert_eq!(flow.phase, CreateChatPhase::CreatingAuthor);
    match step {
        DbStep::CreateAuthor(a) => {
            assert!(a.name.starts_with("User-"));
            assert_eq!(a.name.len(), 13);
            assert_eq!(a.kind, AuthorType::User);
        }
        _ => panic!("expected an author to create"),
    }
    let (flow, step) =
        flow.on_event(DbEvent::Created(Ok(Some(Some("author:u1".to_string())))));
    match step {
        DbStep::CreateChat(c) => {
            assert_eq!(c.name, "No Name");
            assert_eq!(c.author_id, Some("author:u1".to_string()));
            assert!(c.id.is_none());
        }
        _ => panic!("expected a chat to create"),
    }
    let (flow, step) = flow.on_event(DbEvent::Created(Ok(Some(Some("chat:c7".to_string())))));
    assert_eq!(flow.phase, CreateChatPhase::Finished);
    match step {
        DbStep::Finish(r) => assert_eq!(r, Ok("chat:c7".to_string())),
        _ => panic!("expected the end"),
    }
}

#[test]
fn create_chat_flow_failures() {
    let (flow, _) = CreateChat::start("n".to_string());
    let (_, step) = flow.on_event(DbEvent::Connected(Err("offline".to_string())));
    assert!(matches!(step, DbStep::Finish(Err(e)) if e == "offline"));

    let (flow, _) = CreateChat::start("n".to_string());
    let (flow, _) = flow.on_event(DbEvent::Connected(Ok(())));
    let (_, step) = flow.on_event(DbEvent::Created(Ok(None)));
    assert!(matches!(step, DbStep::Finish(Err(e)) if e == "Failed to create author record"));

    let (flow, _) = CreateChat::start("n".to_string());
    let (flow, _) = flow.on_event(DbEvent::Connected(Ok(())));
    let (flow, _) = flow.on_event(DbEvent::Created(Ok(Some(None))));
    let (_, step) = flow.on_event(DbEvent::Created(Ok(None)));
    assert!(
        matches!(step, DbStep::Finish(Err(e)) if e == "Failed to create chat: No record returned")
    );

    let (flow, _) = CreateChat::start("n".to_string());
    let (flow, _) = flow.on_event(DbEvent::Connected(Ok(())));
    let (flow, _) = flow.on_event(DbEvent::Created(Ok(Some(None))));
    let (_, step) = flow.on_event(DbEvent::Created(Ok(Some(None))));
    assert!(matches!(step, DbStep::Finish(Ok(id)) if id == "unknown"));
}

#[test]
fn add_message_flow_succeeds() {
    let (flow, step) = AddMessage::start("c1".to_string(), "hi".to_string(), "Ann".to_string());
    assert!(matches!(step, DbStep::Connect));
    let (flow, step) = flow.on_event(DbEvent::Connected(Ok(())));
    assert!(matches!(step, DbStep::ParseRecordId(ref k) if k == "chat:c1"));
    let (flow, step) = flow.on_event(DbEvent::RecordParsed(Ok(())));
    assert!(matches!(step, DbStep::SelectChat(ref k) if k == "chat:c1"));
    let (flow, step) = flow.on_event(DbEvent::ChatSelected(Ok(true)));
    assert!(matches!(step, DbStep::QueryMessages(ref k) if k == "chat:c1"));
    let (flow, step) = flow.on_event(DbEvent::MessagesQueried(Ok(Ok(4))));
    assert_eq!(flow.sequence_number, 5);
    match step {
        DbStep::CreateAuthor(a) => assert_eq!(a.name, "Ann"),
        _ => panic!("expected an author to create"),
    }
    let (flow, step) = flow.on_event(DbEvent::Created(Ok(Some(Some("author:a".to_string())))));
    match step {
        DbStep::CreateMessage(m) => {
            assert_eq!(m.sequence_number, 5);
            assert_eq!(m.chat_id, Some("chat:c1".to_string()));
            assert_eq!(m.text, "hi");
            assert_eq!(m.author_id, Some("author:a".to_string()));
            assert!(m.id.is_none());
        }
        _ => panic!("expected a message to create"),
    }
    let (flow, step) = flow.on_event(DbEvent::Created(Ok(Some(Some("message:m".to_string())))));
    assert_eq!(flow.phase, AddMessagePhase::Finished);
    assert!(matches!(step, DbStep::Finish(Ok(ref id)) if id == "message:m"));
}

fn run_to_counting() -> AddMessage {
    let (flow, _) = AddMessage::start("chat:c1".to_string(), "t".to_string(), "s".to_string());
    let (flow, _) = flow.on_event(DbEvent::Connected(Ok(())));
    let (flow, _) = flow.on_event(DbEvent::RecordParsed(Ok(())));
    let (flow, _) = flow.on_event(DbEvent::ChatSelected(Ok(true)));
    flow
}

fn error_of(step: DbStep) -> String {
    match step {
        DbStep::Finish(Err(e)) => e,
        _ => panic!("expected an error"),
    }
}

#[test]
fn add_message_flow_errors() {
    let (flow, _) = AddMessage::start("x".to_string(), "t".to_string(), "s".to_string());
    let (flow, _) = flow.on_event(DbEvent::Connected(Ok(())));
    let (_, step) = flow.on_event(DbEvent::RecordParsed(Err("bad".to_string())));
    assert_eq!(error_of(step), "Invalid chat ID format: bad");

    let (flow, _) = AddMessage::start("x".to_string(), "t".to_string(), "s".to_string());
    let (flow, _) = flow.on_event(DbEvent::Connected(Ok(())));
    let (flow, _) = flow.on_event(DbEvent::RecordParsed(Ok(())));
    let (_, step) = flow.on_event(DbEvent::ChatSelected(Ok(false)));
    assert_eq!(error_of(step), "Chat not found with ID x");

    let (flow, _) = AddMessage::start("x".to_string(), "t".to_string(), "s".to_string());
    let (flow, _) = flow.on_event(DbEvent::Connected(Ok(())));
    let (flow, _) = flow.on_event(DbEvent::RecordParsed(Ok(())));
    let (_, step) = flow.on_event(DbEvent::ChatSelected(Err("io".to_string())));
    assert_eq!(error_of(step), "Failed to verify chat: io");

    let (_, step) = run_to_counting().on_event(DbEvent::MessagesQueried(Err("q".to_string())));
    assert_eq!(error_of(step), "Failed to query messages: q");
    let (_, step) =
        run_to_counting().on_event(DbEvent::MessagesQueried(Ok(Err("decode".to_string()))));
    assert_eq!(error_of(step), "Failed to extract messages: decode");

    let (flow, _) = run_to_counting().on_event(DbEvent::MessagesQueried(Ok(Ok(0))));
    assert_eq!(flow.sequence_number, 1);
    let (_, step) = flow.on_event(DbEvent::Created(Ok(None)));
    assert_eq!(error_of(step), "Failed to create author record");

    let (flow, _) = run_to_counting().on_event(DbEvent::MessagesQueried(Ok(Ok(0))));
    let (flow, _) = flow.on_event(DbEvent::Created(Ok(Some(None))));
    let (_, step) = flow.on_event(DbEvent::Created(Ok(None)));
    assert_eq!(error_of(step), "Failed to create message: No record returned");

    let (flow, _) = AddMessage::start("x".to_string(), "t".to_string(), "s".to_string());
    let (_, step) = flow.on_event(DbEvent::Connected(Err("down".to_string())));
    assert_eq!(error_of(step), "down");
}


fn finish_of(step: ConnStep) -> Result<(), String> {
    match step {
        ConnStep::Finish(r) => r,
        other => panic!("expected the end, got {:?}", other),
    }
}

#[test]
fn get_db_flow_when_connected() {
    let (flow, step) = GetDb::start(true);
    assert!(matches!(step, ConnStep::Fetch));
    let (flow, step) = flow.on_event(ConnEvent::Present(true));
    assert!(matches!(step, ConnStep::HealthCheck));
    let (flow, step) = flow.on_event(ConnEvent::Done(Ok(())));
    assert_eq!(flow.phase, GetDbPhase::Finished);
    assert_eq!(finish_of(step), Ok(()));
}

#[test]
fn get_db_flow_reinitializes_once() {
    let (flow, step) = GetDb::start(false);
    assert!(matches!(step, ConnStep::Initialize));
    let (flow, _) = flow.on_event(ConnEvent::Done(Ok(())));
    let (flow, _) = flow.on_event(ConnEvent::Present(true));
    let (flow, step) = flow.on_event(ConnEvent::Done(Err("timeout".to_string())));
    assert!(matches!(step, ConnStep::Reinitialize));
    let (flow, step) = flow.on_event(ConnEvent::Done(Ok(())));
    assert!(matches!(step, ConnStep::Fetch));
    let (_, step) = flow.on_event(ConnEvent::Present(false));
    assert_eq!(
        finish_of(step),
        Err("Database still not available after reinitialization".to_string())
    );

    let (flow, _) = GetDb::start(true);
    let (_, step) = flow.on_event(ConnEvent::Present(false));
    assert_eq!(finish_of(step), Err("Database not initialized".to_string()));

    let (flow, _) = GetDb::start(false);
    let (_, step) = flow.on_event(ConnEvent::Done(Err("disk".to_string())));
    assert_eq!(finish_of(step), Err("disk".to_string()));
}

#[test]
fn init_database_flow_opens_and_defines() {
    let (flow, step) = InitDatabase::start(false);
    assert!(matches!(step, ConnStep::OpenStore));
    let (flow, step) = flow.on_event(ConnEvent::Done(Ok(())));
    assert!(matches!(step, ConnStep::UseNamespace));
    let (flow, step) = flow.on_event(ConnEvent::Done(Ok(())));
    assert!(matches!(step, ConnStep::DefineSchema));
    let (flow, step) = flow.on_event(ConnEvent::Done(Ok(())));
    assert!(matches!(step, ConnStep::StoreInstance));
    let (flow, step) = flow.on_event(ConnEvent::Done(Ok(())));
    assert!(matches!(step, ConnStep::StartUpdates));
    let (flow, step) = flow.on_event(ConnEvent::Done(Ok(())));
    assert_eq!(flow.phase, InitDatabasePhase::Finished);
    assert_eq!(finish_of(step), Ok(()));
}

#[test]
fn init_database_flow_failures() {
    let (flow, _) = InitDatabase::start(false);
    let (flow, _) = flow.on_event(ConnEvent::Done(Ok(())));
    let (flow, _) = flow.on_event(ConnEvent::Done(Ok(())));
    let (flow, _) = flow.on_event(ConnEvent::Done(Ok(())));
    let (_, step) = flow.on_event(ConnEvent::Done(Err("already set".to_string())));
    assert_eq!(
        finish_of(step),
        Err("Failed to set database instance. Another initialization might be in progress.".to_string())
    );

    let (flow, _) = InitDatabase::start(false);
    let (_, step) = flow.on_event(ConnEvent::Done(Err("locked".to_string())));
    assert_eq!(finish_of(step), Err("locked".to_string()));

    let (flow, step) = InitDatabase::start(true);
    assert!(matches!(step, ConnStep::Fetch));
    let (_, step) = flow.on_event(ConnEvent::Present(false));
    assert_eq!(finish_of(step), Err("DB initialized but not available".to_string()));

    let (flow, _) = InitDatabase::start(true);
    let (flow, _) = flow.on_event(ConnEvent::Present(true));
    let (_, step) = flow.on_event(ConnEvent::Done(Err("bad query".to_string())));
    assert_eq!(finish_of(step), Err("bad query".to_string()));
}

#[test]
fn queries_and_schema_text() {
    assert_eq!(CHATS_QUERY, "SELECT *, author.* FROM chat");
    assert!(SCHEMA.contains("DEFINE INDEX chat_idx ON TABLE message FIELDS chat;"));
    assert_eq!((NAMESPACE, DATABASE, DB_PATH), ("chat_app", "chat_db", "chat_data"));
}

#[test]
fn bare_and_prefixed_ids_share_a_record_key() {
    assert_eq!(chat_record_key("k9"), chat_record_key("chat:k9"));
    let (a, _) = AddMessage::start("k9".to_string(), "t".to_string(), "s".to_string());
    let (b, _) = AddMessage::start("chat:k9".to_string(), "t".to_string(), "s".to_string());
    let (_, sa) = a.on_event(DbEvent::Connected(Ok(())));
    let (_, sb) = b.on_event(DbEvent::Connected(Ok(())));
    match (sa, sb) {
        (DbStep::ParseRecordId(x), DbStep::ParseRecordId(y)) => assert_eq!(x, y),
        _ => panic!("expected record keys"),
    }
}

#[test]
fn clock_reads_now() {
    let t = focus_chat::db::schema::get_current_timestamp().unwrap();
    assert!(t.secs > 1_600_000_000);
    assert!(t.nanos < 1_000_000_000);
}

#[test]
fn delete_query_filters_by_chat_record() {
    assert_eq!(focus_chat::db::client::DELETE_MESSAGES_QUERY, "DELETE message WHERE chat = $id");
}

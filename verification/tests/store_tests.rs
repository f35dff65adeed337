use focus_chat::db_client;
use focus_chat::db_schema::{
    add_message, add_message_with_id, create_conversation, create_conversation_with_id,
    delete_conversation, get_current_timestamp, set_conversation_name, validate_convo_name,
    Database, Identity, ReducerContext,
};
use focus_chat::model_manager::{
    check_model_id, default_model_id_is_valid, model_dir_from_home, ModelManager, DEFAULT_MODEL,
    MODEL_FILENAME,
};
use std::path::PathBuf;

fn one() -> Identity {
    let mut le_bytes = [0u8; 32];
    le_bytes[0] = 1;
    Identity { le_bytes }
}

fn ctx() -> ReducerContext {
    ReducerContext { sender: one(), db: Database::new() }
}

fn is_uuid(s: &str) -> bool {
    s.len() == 36
        && s.char_indices().all(|(i, c)| {
            if [8, 13, 18, 23].contains(&i) {
                c == '-'
            } else {
                c.is_ascii_digit() || ('a'..='f').contains(&c)
            }
        })
}

#[test]
fn convo_name_default() {
    assert_eq!(validate_convo_name(String::new()), "No Name");
    assert_eq!(validate_convo_name("x".to_string()), "x");
}

#[test]
fn created_conversation_is_stored() {
    let mut c = ctx();
    let id = create_conversation_with_id(&mut c, String::new()).unwrap();
    assert!(is_uuid(&id));
    let convs = c.db.conversations();
    assert_eq!(convs.len(), 1);
    assert_eq!(convs[0].id, id);
    assert_eq!(convs[0].name, "No Name");
    assert_eq!(convs[0].creator, one());
    assert!(create_conversation(&mut c, "Second".to_string()).is_ok());
    assert_eq!(c.db.conversations().len(), 2);
    assert_eq!(c.db.conversations()[1].name, "Second");
}

#[test]
fn messages_are_numbered_per_conversation() {
    let mut c = ctx();
    let a = create_conversation_with_id(&mut c, "A".to_string()).unwrap();
    let b = create_conversation_with_id(&mut c, "B".to_string()).unwrap();
    add_message(&mut c, a.clone(), "a1".to_string()).unwrap();
    add_message(&mut c, b.clone(), "b1".to_string()).unwrap();
    let id = add_message_with_id(&mut c, a.clone(), "a2".to_string()).unwrap();
    assert!(is_uuid(&id));
    add_message(&mut c, a.clone(), "a3".to_string()).unwrap();
    let ms = c.db.messages();
    let numbers: Vec<(String, u64)> =
        ms.iter().map(|m| (m.text.clone(), m.sequence_number)).collect();
    assert_eq!(
        numbers,
        vec![("a1".to_string(), 1), ("b1".to_string(), 1), ("a2".to_string(), 2), ("a3".to_string(), 3)]
    );
    assert_eq!(ms[2].id, id);
    assert_eq!(ms[2].sender, one());
    assert_eq!(c.db.count_messages(&a), 3);
    assert_eq!(c.db.count_messages(&b), 1);
}

#[test]
fn message_to_missing_conversation_is_refused() {
    let mut c = ctx();
    assert_eq!(add_message(&mut c, "nope".to_string(), "x".to_string()), Err("Conversation not found".to_string()));
    assert_eq!(c.db.messages().len(), 0);
}

#[test]
fn rename_conversation() {
    let mut c = ctx();
    let a = create_conversation_with_id(&mut c, "A".to_string()).unwrap();
    assert_eq!(set_conversation_name(&mut c, a.clone(), String::new()), Ok(()));
    assert_eq!(c.db.conversations()[0].name, "No Name");
    assert_eq!(set_conversation_name(&mut c, a.clone(), "Z".to_string()), Ok(()));
    assert_eq!(c.db.conversations()[0].name, "Z");
    assert_eq!(c.db.conversations()[0].id, a);
    assert_eq!(
        set_conversation_name(&mut c, "missing".to_string(), "Q".to_string()),
        Err("Conversation not found".to_string())
    );
    assert_eq!(c.db.conversations()[0].name, "Z");
}

#[test]
fn delete_conversation_removes_its_messages_only() {
    let mut c = ctx();
    let a = create_conversation_with_id(&mut c, "A".to_string()).unwrap();
    let b = create_conversation_with_id(&mut c, "B".to_string()).unwrap();
    add_message(&mut c, a.clone(), "a1".to_string()).unwrap();
    add_message(&mut c, b.clone(), "b1".to_string()).unwrap();
    add_message(&mut c, a.clone(), "a2".to_string()).unwrap();
    assert_eq!(delete_conversation(&mut c, a.clone()), Ok(()));
    assert_eq!(c.db.conversations().len(), 1);
    assert_eq!(c.db.conversations()[0].id, b);
    assert_eq!(c.db.messages().len(), 1);
    assert_eq!(c.db.messages()[0].text, "b1");
    assert_eq!(c.db.count_messages(&a), 0);
    assert_eq!(delete_conversation(&mut c, a.clone()), Err("Conversation not found".to_string()));
    let n = c.db.find_conversation(&b);
    assert_eq!(n, 0);
    assert_eq!(c.db.find_conversation(&a), 1);
}

#[test]
fn clock_reads_seconds() {
    let t = get_current_timestamp().unwrap();
    assert!(t > 1_600_000_000);
}

#[test]
fn mock_client_lifecycle() {
    let mut state = db_client::ClientState::new();
    assert!(!state.initialized());
    assert_eq!(db_client::init_database(&mut state), Ok(()));
    assert!(state.initialized());
    let _c = db_client::get_client(&state);
    assert_eq!(db_client::init_database(&mut state), Ok(()));
    assert!(state.initialized());
}

#[test]
fn mock_queries() {
    let convs = db_client::query_conversations().unwrap();
    assert_eq!(convs.len(), 1);
    assert_eq!(convs[0].id, "1");
    assert_eq!(convs[0].name, "General Chat");
    let msgs = db_client::query_messages("c9".to_string()).unwrap();
    assert_eq!(msgs.len(), 1);
    assert_eq!(msgs[0].conversation_id, "c9");
    assert_eq!(msgs[0].sequence_number, 1);
    assert_eq!(msgs[0].text, "Welcome to the chat!");
    assert!(is_uuid(&db_client::create_conversation("x".to_string()).unwrap()));
    assert!(is_uuid(&db_client::add_message("c".to_string(), "t".to_string()).unwrap()));
}

#[test]
fn model_directories() {
    let unix = model_dir_from_home(PathBuf::from("/home/ann"), false);
    assert_eq!(unix.base, PathBuf::from("/home/ann"));
    assert_eq!(unix.segments, vec![".cache", "gui", "models"]);
    let win = model_dir_from_home(PathBuf::from("C:/Users/ann"), true);
    assert_eq!(win.segments, vec!["AppData", "Roaming", "gui", "models"]);
}

#[test]
fn model_ids() {
    assert_eq!(check_model_id("a/b"), Ok(()));
    assert_eq!(check_model_id("ab"), Err("Invalid model ID format".to_string()));
    assert_eq!(check_model_id("a/b/c"), Err("Invalid model ID format".to_string()));
    assert_eq!(default_model_id_is_valid(), Ok(()));
}

#[test]
fn model_path_is_under_home() {
    if let Ok(m) = ModelManager::new(false) {
        let dir = m.model_dir();
        assert_eq!(dir.segments, vec![".cache", "gui", "models"]);
        let p = m.get_model_path();
        assert_eq!(p.base, dir.base);
        assert_eq!(p.segments, vec![".cache", "gui", "models", DEFAULT_MODEL, MODEL_FILENAME]);
    }
}

#[test]
fn missing_conversation_is_the_only_not_found() {
    let mut c = ctx();
    let a = create_conversation_with_id(&mut c, "A".to_string()).unwrap();
    assert!(add_message_with_id(&mut c, a, "x".to_string()).is_ok());
    assert_eq!(
        add_message_with_id(&mut c, "other".to_string(), "x".to_string()),
        Err("Conversation not found".to_string())
    );
}

#[test]
fn simulated_rows_carry_the_zero_identity() {
    let convs = db_client::query_conversations().unwrap();
    assert_eq!(convs[0].creator.le_bytes, [0u8; 32]);
    let msgs = db_client::query_messages("c".to_string()).unwrap();
    assert_eq!(msgs[0].sender.le_bytes, [0u8; 32]);
}

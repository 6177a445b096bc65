use cortex_chat::session::{
    begin_request, error_text, finish_request, history_turns, ChatTurn, SendError,
};
use cortex_chat::store::{CortexChatStore, StoreError};

fn turns_text(store: &CortexChatStore, thread: &str) -> Vec<(String, String)> {
    store
        .load_history(thread, 100)
        .into_iter()
        .map(|m| (m.role, m.content))
        .collect()
}

#[test]
fn failure_is_saved_and_returned_as_the_same_text() {
    let mut store = CortexChatStore::new();
    begin_request(&mut store, "t", "hello", None, 1_000).unwrap();
    let result = finish_request(&mut store, "t", None, Err("rate limited".to_string()), 1_001);
    match result {
        Err(SendError::Completion(text)) => assert_eq!(text, "Cortex chat error: rate limited"),
        _ => panic!("expected a completion failure"),
    }
    let history = store.load_history("t", 10);
    assert_eq!(history.len(), 2);
    assert_eq!(history[1].role, "assistant");
    assert_eq!(history[1].content, "Cortex chat error: rate limited");
}

#[test]
fn history_excludes_the_inbound_turn() {
    let mut store = CortexChatStore::new();
    store.save_message("t", "user", "earlier", None, 1_000).unwrap();
    let history = begin_request(&mut store, "t", "now", Some("chan"), 1_001).unwrap();
    assert_eq!(history.len(), 1);
    assert_eq!(history[0], ChatTurn::User("earlier".to_string()));
    let saved = store.load_history("t", 10);
    assert_eq!(saved[1].content, "now");
    assert_eq!(saved[1].role, "user");
    assert_eq!(saved[1].channel_context.as_deref(), Some("chan"));
}

#[test]
fn history_turns_drop_other_roles_and_the_last() {
    let mut store = CortexChatStore::new();
    store.save_message("t", "user", "q", None, 1).unwrap();
    store.save_message("t", "system", "note", None, 2).unwrap();
    store.save_message("t", "assistant", "a", None, 3).unwrap();
    store.save_message("t", "user", "inbound", None, 4).unwrap();
    let turns = history_turns(&store.load_history("t", 100));
    assert_eq!(
        turns,
        vec![ChatTurn::User("q".to_string()), ChatTurn::Assistant("a".to_string())]
    );
    assert!(history_turns(&Vec::new()).is_empty());
}

#[test]
fn history_reads_at_most_ninety_nine_prior_turns() {
    let mut store = CortexChatStore::new();
    for i in 0..120 {
        store.save_message("t", "user", &format!("m{i}"), None, i).unwrap();
    }
    let history = begin_request(&mut store, "t", "inbound", None, 500).unwrap();
    assert_eq!(history.len(), 99);
    assert_eq!(history[0], ChatTurn::User("m21".to_string()));
    assert_eq!(history[98], ChatTurn::User("m119".to_string()));
}

#[test]
fn success_saves_and_returns_the_response() {
    let mut store = CortexChatStore::new();
    begin_request(&mut store, "t", "hi", Some("c"), 10).unwrap();
    let reply = finish_request(&mut store, "t", Some("c"), Ok("hello there".to_string()), 11);
    assert_eq!(reply.ok(), Some("hello there".to_string()));
    let saved = store.load_history("t", 10);
    assert_eq!(saved[1].content, "hello there");
    assert_eq!(saved[1].channel_context.as_deref(), Some("c"));
}

#[test]
fn two_requests_write_in_turn() {
    let mut store = CortexChatStore::new();
    begin_request(&mut store, "t", "first", None, 1).unwrap();
    finish_request(&mut store, "t", None, Ok("reply one".to_string()), 2).unwrap();
    begin_request(&mut store, "t", "second", None, 3).unwrap();
    let _ = finish_request(&mut store, "t", None, Err("down".to_string()), 4);
    assert_eq!(
        turns_text(&store, "t"),
        vec![
            ("user".to_string(), "first".to_string()),
            ("assistant".to_string(), "reply one".to_string()),
            ("user".to_string(), "second".to_string()),
            ("assistant".to_string(), "Cortex chat error: down".to_string()),
        ]
    );
}

#[test]
fn refused_save_stops_the_request() {
    let mut store = CortexChatStore::new();
    assert!(matches!(
        begin_request(&mut store, "t", "x", None, -5),
        Err(StoreError::TimestampOutOfRange)
    ));
    assert!(store.load_history("t", 10).is_empty());
    assert!(matches!(
        finish_request(&mut store, "t", None, Ok("r".to_string()), -5),
        Err(SendError::Storage(StoreError::TimestampOutOfRange))
    ));
    assert!(store.load_history("t", 10).is_empty());
}

#[test]
fn error_text_prefixes_the_failure() {
    assert_eq!(error_text("boom"), "Cortex chat error: boom");
    assert_eq!(error_text(""), "Cortex chat error: ");
}

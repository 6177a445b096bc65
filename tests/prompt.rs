use cortex_chat::prompt::{build_prompt_slots, empty_to_none, WorkerCapabilities};

#[test]
fn empty_identity_and_memory_become_absent() {
    let slots = build_prompt_slots(String::new(), String::new(), None, "caps".to_string());
    assert_eq!(slots.identity_context, None);
    assert_eq!(slots.memory_bulletin, None);
    assert_eq!(slots.channel_transcript, None);
    assert_eq!(slots.worker_capabilities, "caps");
}

#[test]
fn present_values_pass_through() {
    let slots = build_prompt_slots(
        "I am".to_string(),
        "recall".to_string(),
        Some("**a**: b\n\n".to_string()),
        "caps".to_string(),
    );
    assert_eq!(slots.identity_context.as_deref(), Some("I am"));
    assert_eq!(slots.memory_bulletin.as_deref(), Some("recall"));
    assert_eq!(slots.channel_transcript.as_deref(), Some("**a**: b\n\n"));
    assert_eq!(empty_to_none(" ".to_string()).as_deref(), Some(" "));
}

#[test]
fn web_search_follows_the_search_key() {
    let caps = WorkerCapabilities::from_settings(true, &Some("key".to_string()), false);
    assert_eq!(
        caps,
        WorkerCapabilities { browser_enabled: true, web_search_enabled: true, opencode_enabled: false }
    );
    let caps = WorkerCapabilities::from_settings(false, &None, true);
    assert!(!caps.web_search_enabled && caps.opencode_enabled && !caps.browser_enabled);
}

use cortex_chat::event::{is_complete_sequence, terminal_event, CortexChatEvent};

#[test]
fn outcome_gives_its_terminal_event() {
    match terminal_event(&Ok("all done".to_string())) {
        CortexChatEvent::Done { full_text } => assert_eq!(full_text, "all done"),
        _ => panic!("expected Done"),
    }
    match terminal_event(&Err("Cortex chat error: x".to_string())) {
        CortexChatEvent::Error { message } => assert_eq!(message, "Cortex chat error: x"),
        _ => panic!("expected Error"),
    }
}

#[test]
fn sequence_ends_in_exactly_one_terminal_event() {
    let good = vec![
        CortexChatEvent::Thinking,
        CortexChatEvent::ToolStarted { tool: "shell".to_string() },
        CortexChatEvent::ToolCompleted { tool: "shell".to_string(), result_preview: "ok".to_string() },
        CortexChatEvent::Done { full_text: "x".to_string() },
    ];
    assert!(is_complete_sequence(&good));
    assert!(!is_complete_sequence(&Vec::new()));
    assert!(!is_complete_sequence(&vec![CortexChatEvent::Thinking]));
    let twice = vec![
        CortexChatEvent::Error { message: "a".to_string() },
        CortexChatEvent::Done { full_text: "b".to_string() },
    ];
    assert!(!is_complete_sequence(&twice));
    assert!(CortexChatEvent::Error { message: String::new() }.is_terminal());
    assert!(!CortexChatEvent::Thinking.is_terminal());
}

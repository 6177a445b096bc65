use cortex_chat::transcript::{load_channel_transcript, render_channel_transcript, TimelineItem};

fn message(role: &str, content: &str, sender: Option<&str>) -> TimelineItem {
    TimelineItem::Message {
        role: role.to_string(),
        content: content.to_string(),
        sender_name: sender.map(|s| s.to_string()),
    }
}

#[test]
fn transcript_keeps_messages_and_completed_runs() {
    let items = vec![
        message("user", "hi", Some("Ann")),
        TimelineItem::BranchRun {
            description: "look up".to_string(),
            conclusion: Some("found it".to_string()),
        },
        message("assistant", "hello", None),
        TimelineItem::BranchRun { description: "still going".to_string(), conclusion: None },
        message("user", "thanks", Some("Ann")),
    ];
    let text = render_channel_transcript(&items).unwrap();
    assert_eq!(
        text,
        "**Ann**: hi\n\n*[Branch: look up]*: found it\n\n**assistant**: hello\n\n**Ann**: thanks\n\n"
    );
    assert!(!text.contains("still going"));
}

#[test]
fn worker_runs_render_only_with_a_result() {
    let items = vec![
        TimelineItem::WorkerRun { task: "build".to_string(), result: Some("ok".to_string()) },
        TimelineItem::WorkerRun { task: "deploy".to_string(), result: None },
    ];
    assert_eq!(render_channel_transcript(&items).unwrap(), "*[Worker: build]*: ok\n\n");
}

#[test]
fn empty_or_unfinished_timeline_gives_nothing() {
    assert_eq!(render_channel_transcript(&Vec::new()), None);
    let items = vec![
        TimelineItem::BranchRun { description: "b".to_string(), conclusion: None },
        TimelineItem::WorkerRun { task: "w".to_string(), result: None },
    ];
    assert_eq!(render_channel_transcript(&items), None);
}

#[test]
fn failed_timeline_service_gives_nothing() {
    assert_eq!(load_channel_transcript(&Err("unreachable".to_string())), None);
    let fetched = Ok(vec![message("user", "x", None)]);
    assert_eq!(load_channel_transcript(&fetched).unwrap(), "**user**: x\n\n");
}

use clipstack::sampler::{Monitor, SourceAction, SourceEvent};

#[test]
fn failures_reinitialize_then_fresh_text_is_forwarded() {
    let mut monitor = Monitor::new();
    for _ in 0..3 {
        let action = monitor.observe(SourceEvent::ReadFailed);
        assert!(matches!(action, SourceAction::Reinitialize));
    }
    let action = monitor.observe(SourceEvent::Read("fresh".to_string()));
    match action {
        SourceAction::Forward(text) => assert_eq!(text, "fresh"),
        _ => panic!("fresh text after recovery must be forwarded"),
    }
}

#[test]
fn unchanged_text_is_not_resubmitted() {
    let mut monitor = Monitor::new();
    assert!(matches!(
        monitor.observe(SourceEvent::Read("same".to_string())),
        SourceAction::Forward(_)
    ));
    assert!(matches!(monitor.observe(SourceEvent::Read("same".to_string())), SourceAction::Idle));
    assert!(matches!(
        monitor.observe(SourceEvent::Read("other".to_string())),
        SourceAction::Forward(_)
    ));
}

#[test]
fn blank_reads_do_nothing() {
    let mut monitor = Monitor::new();
    assert!(matches!(monitor.observe(SourceEvent::Read(String::new())), SourceAction::Idle));
    assert!(matches!(
        monitor.observe(SourceEvent::Read("  \t ".to_string())),
        SourceAction::Idle
    ));
    assert!(matches!(
        monitor.observe(SourceEvent::Read("text".to_string())),
        SourceAction::Forward(_)
    ));
}

#[test]
fn last_observed_text_updates_even_when_history_would_skip() {
    let mut monitor = Monitor::new();
    assert!(matches!(
        monitor.observe(SourceEvent::Read("text".to_string())),
        SourceAction::Forward(_)
    ));
    assert!(matches!(monitor.observe(SourceEvent::ReadFailed), SourceAction::Reinitialize));
    assert!(matches!(monitor.observe(SourceEvent::Read("text".to_string())), SourceAction::Idle));
}

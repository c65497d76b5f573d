use launch_funnel::coordinator::{deliver, handle_launch_event, DeliveryAction, EventSource};
use launch_funnel::pending::PendingBuffer;

fn strings(items: &[&str]) -> Vec<String> {
    items.iter().map(|s| s.to_string()).collect()
}

#[test]
fn append_then_drain_returns_everything_in_order() {
    let mut buffer = PendingBuffer::new();
    buffer.append(strings(&["a.bpmn", "b.bpmn"]));
    buffer.append(strings(&["c.bpmn"]));
    assert_eq!(buffer.len(), 3);
    let drained = buffer.drain_all();
    assert_eq!(drained, strings(&["a.bpmn", "b.bpmn", "c.bpmn"]));
    assert!(buffer.is_empty());
}

#[test]
fn drain_is_idempotent_when_nothing_was_appended_in_between() {
    let mut buffer = PendingBuffer::new();
    buffer.append(strings(&["a.bpmn"]));
    let first = buffer.drain_all();
    let second = buffer.drain_all();
    assert_eq!(first, strings(&["a.bpmn"]));
    assert!(second.is_empty());
}

#[test]
fn drain_of_a_fresh_buffer_is_empty() {
    let mut buffer = PendingBuffer::new();
    assert!(buffer.drain_all().is_empty());
    assert!(buffer.is_empty());
}

#[test]
fn cold_start_buffers_and_the_pull_drains_exactly_once() {
    let mut buffer = PendingBuffer::new();
    let action = handle_launch_event(&mut buffer, EventSource::ColdStart, false, strings(
        &["doc.bpmn"],
    ));
    assert!(matches!(action, DeliveryAction::Buffered));
    assert_eq!(buffer.len(), 1);
    let pulled = buffer.drain_all();
    assert_eq!(pulled, strings(&["doc.bpmn"]));
    assert!(buffer.is_empty());
    assert!(buffer.drain_all().is_empty());
}

#[test]
fn cold_start_buffers_even_when_a_window_already_exists() {
    let mut buffer = PendingBuffer::new();
    let action = handle_launch_event(&mut buffer, EventSource::ColdStart, true, strings(
        &["doc.bpmn"],
    ));
    assert!(matches!(action, DeliveryAction::Buffered));
    assert_eq!(buffer.drain_all(), strings(&["doc.bpmn"]));
}

#[test]
fn secondary_launch_with_a_window_pushes_and_leaves_the_buffer_empty() {
    let mut buffer = PendingBuffer::new();
    let action = handle_launch_event(&mut buffer, EventSource::SecondaryForward, true, strings(
        &["other.bpmn"],
    ));
    match action {
        DeliveryAction::PushAndFocus(files) => {
            assert_eq!(files, strings(&["other.bpmn"]));
        },
        _ => panic!("a secondary launch with a window present must push"),
    }
    assert!(buffer.is_empty());
}

#[test]
fn secondary_launch_without_a_window_buffers_instead() {
    let mut buffer = PendingBuffer::new();
    let action = handle_launch_event(&mut buffer, EventSource::SecondaryForward, false, strings(
        &["other.bpmn"],
    ));
    assert!(matches!(action, DeliveryAction::Buffered));
    assert_eq!(buffer.drain_all(), strings(&["other.bpmn"]));
}

#[test]
fn open_notification_follows_the_same_policy_as_a_forward() {
    let mut buffer = PendingBuffer::new();
    let pushed = handle_launch_event(&mut buffer, EventSource::OpenNotification, true, strings(
        &["file:///tmp/n.bpmn"],
    ));
    match pushed {
        DeliveryAction::PushAndFocus(files) => {
            assert_eq!(files, strings(&["/tmp/n.bpmn"]));
        },
        _ => panic!("an open notification with a window present must push"),
    }
    let buffered = handle_launch_event(&mut buffer, EventSource::OpenNotification, false, strings(
        &["file:///tmp/m.bpmn"],
    ));
    assert!(matches!(buffered, DeliveryAction::Buffered));
    assert_eq!(buffer.drain_all(), strings(&["/tmp/m.bpmn"]));
}

#[test]
fn a_batch_with_no_documents_causes_no_action() {
    let mut buffer = PendingBuffer::new();
    let action = handle_launch_event(&mut buffer, EventSource::SecondaryForward, true, strings(
        &["--flag", "notes.txt"],
    ));
    assert!(matches!(action, DeliveryAction::NoAction));
    assert!(buffer.is_empty());
}

#[test]
fn deliver_takes_the_batch_as_already_resolved() {
    let mut buffer = PendingBuffer::new();
    let action = deliver(&mut buffer, EventSource::ColdStart, false, strings(&["/tmp/a.bpmn"]));
    assert!(matches!(action, DeliveryAction::Buffered));
    assert_eq!(buffer.drain_all(), strings(&["/tmp/a.bpmn"]));
}

#[test]
fn appends_between_drains_are_attributed_to_exactly_one_drain() {
    let mut buffer = PendingBuffer::new();
    buffer.append(strings(&["a.bpmn"]));
    let first = buffer.drain_all();
    buffer.append(strings(&["b.bpmn"]));
    buffer.append(strings(&["c.bpmn"]));
    let second = buffer.drain_all();
    let third = buffer.drain_all();
    assert_eq!(first, strings(&["a.bpmn"]));
    assert_eq!(second, strings(&["b.bpmn", "c.bpmn"]));
    assert!(third.is_empty());
    let mut all = Vec::new();
    all.extend(first);
    all.extend(second);
    all.extend(third);
    assert_eq!(all, strings(&["a.bpmn", "b.bpmn", "c.bpmn"]));
}

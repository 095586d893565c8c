use netcharacon::character_controller::ControllerAction;
use netcharacon::fixed::FixedVec2;
use netcharacon::instant_event::InstantEvent;
use netcharacon::instant_event_buffer::{InstantEventBuffer, MAX_BUFFERED_EVENTS};

#[test]
fn buffer_read_returns_events_in_submission_order() {
    let mut b = InstantEventBuffer::new();
    b.send(ControllerAction::Move(FixedVec2::new(1, 2)));
    b.send(ControllerAction::Jump);
    b.send(ControllerAction::Move(FixedVec2::new(3, 4)));
    assert_eq!(b.len(), 3);
    let out = b.read();
    assert_eq!(
        out,
        vec![
            ControllerAction::Move(FixedVec2::new(1, 2)),
            ControllerAction::Jump,
            ControllerAction::Move(FixedVec2::new(3, 4)),
        ]
    );
    assert_eq!(b.len(), 0);
    assert!(b.read().is_empty());
}

#[test]
fn buffer_read_on_empty_buffer_is_empty() {
    let mut b: InstantEventBuffer<u32> = InstantEventBuffer::new();
    assert!(b.read().is_empty());
    b.send(7);
    assert_eq!(b.read(), vec![7]);
}

#[test]
fn queue_drain_returns_events_once_in_order() {
    let mut q = InstantEvent::new();
    for i in 0..5u32 {
        q.enqueue(i);
    }
    assert_eq!(q.drain(), vec![0, 1, 2, 3, 4]);
    assert!(q.drain().is_empty());
    q.enqueue(9);
    assert_eq!(q.drain(), vec![9]);
}

#[test]
fn full_buffer_drops_oldest_event() {
    let mut b = InstantEventBuffer::new();
    for i in 0..300usize {
        b.send(i);
    }
    assert_eq!(b.len(), MAX_BUFFERED_EVENTS);
    let out = b.read();
    assert_eq!(out, (300 - MAX_BUFFERED_EVENTS..300).collect::<Vec<usize>>());
}

#[test]
fn full_queue_drops_oldest_event() {
    let mut q = InstantEvent::new();
    for i in 0..(MAX_BUFFERED_EVENTS + 3) {
        q.enqueue(i);
    }
    let out = q.drain();
    assert_eq!(out.len(), MAX_BUFFERED_EVENTS);
    assert_eq!(out[0], 3);
    assert_eq!(out[MAX_BUFFERED_EVENTS - 1], MAX_BUFFERED_EVENTS + 2);
}

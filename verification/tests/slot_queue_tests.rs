use tick_bridge::queue::EventQueue;
use tick_bridge::slot::OneShotSlot;

#[test]
fn slot_delivers_exactly_once() {
    let mut slot: OneShotSlot<u32> = OneShotSlot::empty();
    assert!(!slot.is_filled());
    assert_eq!(slot.take(), None);
    slot.write(5);
    assert!(slot.is_filled());
    assert_eq!(slot.take(), Some(5));
    assert_eq!(slot.take(), None);
    assert!(!slot.is_filled());
}

#[test]
fn slot_last_write_wins() {
    let mut slot: OneShotSlot<u32> = OneShotSlot::empty();
    slot.write(1);
    slot.write(2);
    assert_eq!(slot.take(), Some(2));
    assert_eq!(slot.take(), None);
}

#[test]
fn slot_can_be_refilled_after_take() {
    let mut slot: OneShotSlot<&str> = OneShotSlot::empty();
    slot.write("first");
    assert_eq!(slot.take(), Some("first"));
    slot.write("second");
    assert_eq!(slot.take(), Some("second"));
    assert_eq!(slot.take(), None);
}

#[test]
fn queue_drains_in_push_order() {
    let mut q: EventQueue<u32> = EventQueue::new();
    assert!(q.is_empty());
    q.push(1);
    q.push(2);
    q.push(3);
    assert_eq!(q.len(), 3);
    let drained = q.drain();
    assert_eq!(drained, vec![1, 2, 3]);
    assert!(q.is_empty());
}

#[test]
fn queue_drain_of_empty_is_empty() {
    let mut q: EventQueue<u8> = EventQueue::new();
    let drained = q.drain();
    assert!(drained.is_empty());
}

#[test]
fn queue_keeps_order_across_drains() {
    let mut q: EventQueue<u32> = EventQueue::new();
    q.push(10);
    assert_eq!(q.drain(), vec![10]);
    q.push(20);
    q.push(30);
    assert_eq!(q.drain(), vec![20, 30]);
    assert_eq!(q.drain(), Vec::<u32>::new());
}

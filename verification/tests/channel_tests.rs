use physics_pipeline::channel::EventChannel;

#[test]
fn new_channel_is_empty() {
    let mut ch: EventChannel<u64> = EventChannel::new();
    let r = ch.register_reader();
    assert_eq!(ch.read(r), Vec::<u64>::new());
}

#[test]
fn reader_drains_in_write_order_exactly_once() {
    let mut ch: EventChannel<u64> = EventChannel::new();
    let r = ch.register_reader();
    ch.single_write(10);
    ch.single_write(20);
    ch.single_write(30);
    assert_eq!(ch.read(r), vec![10, 20, 30]);
    // A second drain returns nothing: no event is consumed twice.
    assert_eq!(ch.read(r), Vec::<u64>::new());
    ch.single_write(40);
    // No event is dropped: what came after the drain arrives next.
    assert_eq!(ch.read(r), vec![40]);
}

#[test]
fn two_readers_each_observe_every_event_once() {
    let mut ch: EventChannel<u64> = EventChannel::new();
    let r1 = ch.register_reader();
    let r2 = ch.register_reader();
    ch.single_write(1);
    ch.single_write(2);
    // One reader draining does not disturb the other.
    assert_eq!(ch.read(r1), vec![1, 2]);
    assert_eq!(ch.read(r2), vec![1, 2]);
    ch.single_write(3);
    // Reverse drain order on the next batch.
    assert_eq!(ch.read(r2), vec![3]);
    assert_eq!(ch.read(r1), vec![3]);
}

#[test]
fn late_reader_sees_only_later_events() {
    let mut ch: EventChannel<u64> = EventChannel::new();
    let r1 = ch.register_reader();
    ch.single_write(1);
    let r2 = ch.register_reader();
    ch.single_write(2);
    assert_eq!(ch.read(r1), vec![1, 2]);
    assert_eq!(ch.read(r2), vec![2]);
}

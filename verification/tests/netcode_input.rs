use pulsive::input_buffer::InputBuffer;
use pulsive::msg::Msg;

fn make_msg(tick: u64) -> Msg {
    Msg::tick(tick)
}

#[test]
fn test_push_and_len() {
    let mut buffer = InputBuffer::new(10);
    buffer.push(1, make_msg(1)).unwrap();
    buffer.push(2, make_msg(2)).unwrap();
    buffer.push(3, make_msg(3)).unwrap();

    assert_eq!(buffer.len(), 3);
    assert_eq!(buffer.oldest_unacknowledged_tick(), Some(1));
    assert_eq!(buffer.newest_tick(), Some(3));
}

#[test]
fn test_acknowledge() {
    let mut buffer = InputBuffer::new(10);
    buffer.push(1, make_msg(1)).unwrap();
    buffer.push(2, make_msg(2)).unwrap();
    buffer.push(3, make_msg(3)).unwrap();

    buffer.acknowledge(2);

    assert_eq!(buffer.len(), 1);
    assert_eq!(buffer.oldest_unacknowledged_tick(), Some(3));
    assert_eq!(buffer.last_acknowledged_tick(), 2);
}

#[test]
fn test_inputs_after() {
    let mut buffer = InputBuffer::new(10);
    buffer.push(1, make_msg(1)).unwrap();
    buffer.push(2, make_msg(2)).unwrap();
    buffer.push(3, make_msg(3)).unwrap();
    buffer.push(4, make_msg(4)).unwrap();

    let after_2 = buffer.inputs_after(2);
    assert_eq!(after_2.len(), 2);
    assert_eq!(after_2[0].tick, 3);
    assert_eq!(after_2[1].tick, 4);
}

#[test]
fn test_capacity() {
    let mut buffer = InputBuffer::new(3);
    buffer.push(1, make_msg(1)).unwrap();
    buffer.push(2, make_msg(2)).unwrap();
    buffer.push(3, make_msg(3)).unwrap();

    assert!(buffer.is_full());
    assert!(buffer.push(4, make_msg(4)).is_err());
}

#[test]
fn acknowledge_drops_older_inputs_behind_newer_ones() {
    let mut buffer = InputBuffer::new(10);
    buffer.push(5, make_msg(5)).unwrap();
    buffer.push(1, make_msg(1)).unwrap();
    buffer.push(7, make_msg(7)).unwrap();
    buffer.push(2, make_msg(2)).unwrap();

    buffer.acknowledge(4);

    assert_eq!(buffer.len(), 2);
    assert_eq!(buffer.oldest_unacknowledged_tick(), Some(5));
    assert_eq!(buffer.newest_tick(), Some(7));
}

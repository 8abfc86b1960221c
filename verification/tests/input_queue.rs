use crabhole::input_queue::{InputQueue, QUEUE_CAPACITY};

#[test]
fn a_waiting_reader_gets_the_next_line() {
    let mut q = InputQueue::new();
    assert_eq!(q.request_line(1), Ok(None));
    assert_eq!(q.request_line(2), Ok(None));
    assert_eq!(q.deliver_line("first".to_string()), Ok(Some((1, "first".to_string()))));
    assert_eq!(q.deliver_line("second".to_string()), Ok(Some((2, "second".to_string()))));
    // nobody waits now: the next line is buffered
    assert_eq!(q.deliver_line("third".to_string()), Ok(None));
    assert_eq!(q.request_line(3), Ok(Some("third".to_string())));
}

#[test]
fn buffered_lines_come_out_in_order() {
    let mut q = InputQueue::new();
    for i in 0..5 {
        assert_eq!(q.deliver_line(format!("line {}", i)), Ok(None));
    }
    for i in 0..5 {
        assert_eq!(q.request_line(i), Ok(Some(format!("line {}", i))));
    }
    assert_eq!(q.request_line(9), Ok(None));
}

#[test]
fn a_full_buffer_hands_the_line_back() {
    let mut q = InputQueue::new();
    for i in 0..QUEUE_CAPACITY {
        assert_eq!(q.deliver_line(i.to_string()), Ok(None));
    }
    assert_eq!(q.deliver_line("extra".to_string()), Err("extra".to_string()));
    assert_eq!(q.request_line(0), Ok(Some("0".to_string())));
    assert_eq!(q.deliver_line("extra".to_string()), Ok(None));
}

#[test]
fn too_many_readers_are_handed_back() {
    let mut q = InputQueue::new();
    for i in 0..QUEUE_CAPACITY as u64 {
        assert_eq!(q.request_line(i), Ok(None));
    }
    assert_eq!(q.request_line(1000), Err(1000));
    assert_eq!(q.deliver_line("x".to_string()), Ok(Some((0, "x".to_string()))));
}

#[test]
fn the_kth_reader_gets_the_kth_line() {
    let mut q = InputQueue::new();
    // two lines typed before anyone asks, then readers and lines interleaved
    assert_eq!(q.deliver_line("a".to_string()), Ok(None));
    assert_eq!(q.deliver_line("b".to_string()), Ok(None));
    assert_eq!(q.request_line(1), Ok(Some("a".to_string())));
    assert_eq!(q.request_line(2), Ok(Some("b".to_string())));
    assert_eq!(q.request_line(3), Ok(None));
    assert_eq!(q.request_line(4), Ok(None));
    assert_eq!(q.deliver_line("c".to_string()), Ok(Some((3, "c".to_string()))));
    assert_eq!(q.request_line(5), Ok(None));
    assert_eq!(q.deliver_line("d".to_string()), Ok(Some((4, "d".to_string()))));
    assert_eq!(q.deliver_line("e".to_string()), Ok(Some((5, "e".to_string()))));
}

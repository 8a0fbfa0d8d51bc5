use kielip::ringbuffer::RingBuffer;

#[test]
fn test_buffer() {
    let mut buffer = RingBuffer::new(2);
    buffer.push(1);
    assert_eq!(buffer.to_vec(), vec![1]);
    buffer.push(2);
    assert_eq!(buffer.to_vec(), vec![1, 2]);
    buffer.push(3);
    assert_eq!(buffer.to_vec(), vec![2, 3]);
    buffer.push(4);
    assert_eq!(buffer.to_vec(), vec![3, 4]);
    buffer.push(5);
    assert_eq!(buffer.to_vec(), vec![4, 5]);
    buffer.set_capacity(5);
    buffer.push(6);
    assert_eq!(buffer.to_vec(), vec![4, 5, 6]);
    buffer.push(7);
    assert_eq!(buffer.to_vec(), vec![4, 5, 6, 7]);
    buffer.push(8);
    assert_eq!(buffer.to_vec(), vec![4, 5, 6, 7, 8]);
    buffer.push(9);
    assert_eq!(buffer.to_vec(), vec![5, 6, 7, 8, 9]);
}

#[test]
fn keeps_newest_values_up_to_capacity() {
    let mut buffer = RingBuffer::new(3);
    let mut pushed: Vec<u32> = Vec::new();
    for x in 0..20u32 {
        buffer.push(x);
        pushed.push(x);
        let start = pushed.len().saturating_sub(3);
        assert_eq!(buffer.to_vec(), pushed[start..].to_vec());
    }
}

#[test]
fn new_buffer_is_empty() {
    let buffer: RingBuffer<String> = RingBuffer::new(4);
    assert!(buffer.to_vec().is_empty());
}

#[test]
fn zero_capacity_keeps_one() {
    let mut buffer = RingBuffer::new(0);
    buffer.push("a".to_string());
    buffer.push("b".to_string());
    assert_eq!(buffer.to_vec(), vec!["b".to_string()]);
    buffer.set_capacity(0);
    buffer.push("c".to_string());
    assert_eq!(buffer.to_vec(), vec!["c".to_string()]);
}

#[test]
fn clear_then_pushes_like_fresh() {
    let mut used = RingBuffer::new(3);
    for x in 0..7 {
        used.push(x);
    }
    used.clear();
    assert!(used.to_vec().is_empty());
    let mut fresh = RingBuffer::new(3);
    for x in [10, 11, 12, 13] {
        used.push(x);
        fresh.push(x);
        assert_eq!(used.to_vec(), fresh.to_vec());
    }
    assert_eq!(used.to_vec(), vec![11, 12, 13]);
}

#[test]
fn shrinking_drops_oldest() {
    let mut buffer = RingBuffer::new(4);
    for x in 1..=6 {
        buffer.push(x);
    }
    assert_eq!(buffer.to_vec(), vec![3, 4, 5, 6]);
    buffer.set_capacity(2);
    assert_eq!(buffer.to_vec(), vec![5, 6]);
    buffer.push(7);
    assert_eq!(buffer.to_vec(), vec![6, 7]);
}

#[test]
fn growing_keeps_order_of_wrapped_buffer() {
    let mut buffer = RingBuffer::new(3);
    for x in 1..=4 {
        buffer.push(x);
    }
    assert_eq!(buffer.to_vec(), vec![2, 3, 4]);
    buffer.set_capacity(4);
    assert_eq!(buffer.to_vec(), vec![2, 3, 4]);
    buffer.push(5);
    buffer.push(6);
    assert_eq!(buffer.to_vec(), vec![3, 4, 5, 6]);
}

#[test]
fn to_vec_is_stable() {
    let mut buffer = RingBuffer::new(2);
    buffer.push(1);
    buffer.push(2);
    buffer.push(3);
    assert_eq!(buffer.to_vec(), buffer.to_vec());
}

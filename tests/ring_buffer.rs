use smoltcp::ring_buffer::RingBuffer;

#[test]
fn expand_empty() {
    let mut ring_buffer = RingBuffer::new(vec![]);
    assert!(ring_buffer.empty());
    assert!(ring_buffer.full());
    assert_eq!(ring_buffer.enqueue(), Err(()));
    ring_buffer.expand_storage();
    *ring_buffer.enqueue().unwrap() = 123;
    assert!(!ring_buffer.empty());
    assert!(ring_buffer.full());
    assert_eq!(*ring_buffer.dequeue().unwrap(), 123);
    assert!(ring_buffer.empty());
    assert!(!ring_buffer.full());
}

#[test]
fn test_buffer() {
    const TEST_BUFFER_SIZE: usize = 10;
    let mut storage = vec![];
    for i in 0..TEST_BUFFER_SIZE {
        storage.push(i + 10);
    }

    let mut ring_buffer = RingBuffer::new(storage);
    assert!(ring_buffer.empty());
    assert!(!ring_buffer.full());
    assert_eq!(ring_buffer.dequeue(), Err(()));
    ring_buffer.enqueue().unwrap();
    assert!(!ring_buffer.empty());
    assert!(!ring_buffer.full());
    for i in 1..TEST_BUFFER_SIZE / 2 {
        *ring_buffer.enqueue().unwrap() = i;
        assert!(!ring_buffer.empty());
    }
    for i in 0..TEST_BUFFER_SIZE / 2 {
        assert_eq!(*ring_buffer.dequeue().unwrap(), i);
        assert!(!ring_buffer.full());
    }
    for i in 0..TEST_BUFFER_SIZE {
        *ring_buffer.enqueue().unwrap() = i;
        assert!(!ring_buffer.empty());
    }
    assert!(ring_buffer.full());
    assert_eq!(ring_buffer.enqueue(), Err(()));
    ring_buffer.expand_storage();
    assert!(!ring_buffer.full());
    *ring_buffer.enqueue().unwrap() = TEST_BUFFER_SIZE;
    assert!(ring_buffer.full());
    assert_eq!(ring_buffer.enqueue(), Err(()));

    for i in 0..TEST_BUFFER_SIZE + 1 {
        assert_eq!(*ring_buffer.dequeue().unwrap(), i);
        assert!(!ring_buffer.full());
    }
    assert_eq!(ring_buffer.dequeue(), Err(()));
    assert!(ring_buffer.empty());

    for i in &[1usize, 2, 1, 3, 1, 4, 1] {
        *ring_buffer.enqueue().unwrap() = *i;
        assert!(!ring_buffer.empty());
    }

    assert_eq!(ring_buffer.remove(&1), Ok(()));
    assert_eq!(ring_buffer.remove(&5), Err(()));
    assert_eq!(ring_buffer.remove(&4), Ok(()));
    assert_eq!(ring_buffer.remove(&4), Err(()));

    for i in &[2usize, 1, 3, 1, 1] {
        assert_eq!(*ring_buffer.dequeue().unwrap(), *i);
    }

    assert!(ring_buffer.empty());
}

#[test]
fn ring_buffer_is_fifo_across_wraparound() {
    let mut rb: RingBuffer<usize> = RingBuffer::new(vec![0; 3]);
    assert_eq!(rb.push(1), Ok(()));
    assert_eq!(rb.push(2), Ok(()));
    assert_eq!(*rb.dequeue().unwrap(), 1);
    assert_eq!(rb.push(3), Ok(()));
    assert_eq!(rb.push(4), Ok(()));
    assert_eq!(rb.push(5), Err(()));
    assert_eq!(rb.len(), 3);
    assert_eq!(*rb.dequeue().unwrap(), 2);
    assert_eq!(*rb.dequeue().unwrap(), 3);
    assert_eq!(*rb.dequeue().unwrap(), 4);
    assert!(rb.empty());
}

#[test]
fn ring_buffer_remove_keeps_order_when_wrapped() {
    let mut rb: RingBuffer<usize> = RingBuffer::new(vec![0; 4]);
    for v in [9usize, 9, 1, 2] {
        rb.push(v).unwrap();
    }
    rb.dequeue().unwrap();
    rb.dequeue().unwrap();
    rb.push(3).unwrap();
    rb.push(4).unwrap();
    assert!(rb.full());
    assert_eq!(rb.remove(&3), Ok(()));
    assert_eq!(rb.len(), 3);
    assert_eq!(*rb.get(0), 1);
    assert_eq!(*rb.get(1), 2);
    assert_eq!(*rb.get(2), 4);
}

#[test]
fn ring_buffer_expand_keeps_wrapped_order() {
    let mut rb: RingBuffer<usize> = RingBuffer::new(vec![0; 3]);
    rb.push(1).unwrap();
    rb.push(2).unwrap();
    rb.dequeue().unwrap();
    rb.push(3).unwrap();
    rb.push(4).unwrap();
    rb.expand_storage();
    assert_eq!(rb.capacity(), 4);
    rb.push(5).unwrap();
    for expect in [2usize, 3, 4, 5] {
        assert_eq!(*rb.dequeue().unwrap(), expect);
    }
}

#[test]
fn ring_buffer_drop_front_and_extend() {
    let mut rb: RingBuffer<u8> = RingBuffer::new_default(vec![0u8; 5]);
    rb.extend_from(&[1, 2, 3, 4], 3);
    assert_eq!(rb.len(), 3);
    rb.drop_front(2);
    assert_eq!(rb.len(), 1);
    assert_eq!(*rb.get(0), 3);
}

use pty_engine::replay::ReplayBuffer;

#[test]
fn new_buffer_is_empty() {
    let b = ReplayBuffer::new(16);
    assert_eq!(b.len(), 0);
    assert!(b.is_empty());
    assert_eq!(b.contents(), Vec::<u8>::new());
}

#[test]
fn append_within_capacity_keeps_everything() {
    let mut b = ReplayBuffer::new(10);
    b.append(b"hello");
    assert_eq!(b.contents(), b"hello".to_vec());
    assert_eq!(b.len(), 5);
}

#[test]
fn append_evicts_oldest_first() {
    let mut b = ReplayBuffer::new(4);
    b.append(&[1, 2, 3]);
    b.append(&[4, 5]);
    assert_eq!(b.contents(), vec![2, 3, 4, 5]);
    assert_eq!(b.len(), 4);
}

#[test]
fn chunk_larger_than_capacity_keeps_its_tail() {
    let mut b = ReplayBuffer::new(3);
    b.append(&[1, 2, 3, 4, 5]);
    assert_eq!(b.contents(), vec![3, 4, 5]);
}

#[test]
fn zero_capacity_keeps_nothing() {
    let mut b = ReplayBuffer::new(0);
    b.append(&[1, 2, 3]);
    assert_eq!(b.len(), 0);
    assert!(b.is_empty());
}

#[test]
fn length_never_exceeds_capacity() {
    let mut b = ReplayBuffer::new(7);
    for i in 0..100u32 {
        b.append(&[(i % 256) as u8, ((i + 1) % 256) as u8]);
        assert!(b.len() <= 7);
    }
}

#[test]
fn seventy_kib_against_sixty_four_kib_buffer() {
    const CAP: usize = 65536;
    const TOTAL: usize = 71680;
    let stream: Vec<u8> = (0..TOTAL).map(|i| (i % 251) as u8).collect();
    let mut b = ReplayBuffer::new(CAP);
    for chunk in stream.chunks(8192) {
        b.append(chunk);
    }
    let kept = b.contents();
    assert_eq!(kept.len(), CAP);
    // The oldest 6 KiB were evicted: the buffer starts at stream offset 6144.
    assert_eq!(kept[0], stream[TOTAL - CAP]);
    assert_eq!(kept[0], stream[6144]);
    assert_eq!(kept, stream[TOTAL - CAP..].to_vec());
}

use cmdhub::ring::RingBuffer;

#[test]
fn ring_starts_empty() {
    let rb = RingBuffer::new(8);
    assert_eq!(rb.len(), 0);
    assert_eq!(rb.cap(), 8);
    assert_eq!(rb.snapshot(), Vec::<u8>::new());
}

#[test]
fn ring_keeps_all_when_it_fits() {
    let mut rb = RingBuffer::new(8);
    rb.push(b"abc");
    rb.push(b"de");
    assert_eq!(rb.snapshot(), b"abcde".to_vec());
    assert_eq!(rb.len(), 5);
}

#[test]
fn ring_evicts_oldest_first() {
    let mut rb = RingBuffer::new(5);
    rb.push(b"abc");
    rb.push(b"def");
    assert_eq!(rb.snapshot(), b"bcdef".to_vec());
    rb.push(b"g");
    assert_eq!(rb.snapshot(), b"cdefg".to_vec());
}

#[test]
fn ring_exact_fit_evicts_nothing() {
    let mut rb = RingBuffer::new(6);
    rb.push(b"abc");
    rb.push(b"def");
    assert_eq!(rb.snapshot(), b"abcdef".to_vec());
}

#[test]
fn ring_chunk_larger_than_capacity_keeps_its_tail() {
    let mut rb = RingBuffer::new(4);
    rb.push(b"xy");
    rb.push(b"0123456789");
    assert_eq!(rb.snapshot(), b"6789".to_vec());
}

#[test]
fn ring_chunk_of_exactly_capacity_replaces_all() {
    let mut rb = RingBuffer::new(3);
    rb.push(b"zz");
    rb.push(b"abc");
    assert_eq!(rb.snapshot(), b"abc".to_vec());
}

#[test]
fn ring_empty_push_changes_nothing() {
    let mut rb = RingBuffer::new(3);
    rb.push(b"ab");
    rb.push(b"");
    assert_eq!(rb.snapshot(), b"ab".to_vec());
}

#[test]
fn ring_of_capacity_zero_stays_empty() {
    let mut rb = RingBuffer::new(0);
    rb.push(b"abc");
    rb.push(b"");
    rb.push(b"d");
    assert_eq!(rb.snapshot(), Vec::<u8>::new());
    assert_eq!(rb.len(), 0);
}

#[test]
fn ring_snapshot_is_suffix_of_all_input() {
    let chunks: Vec<Vec<u8>> = vec![
        b"hello ".to_vec(),
        b"".to_vec(),
        b"wonderful".to_vec(),
        b" ".to_vec(),
        b"world, this is a long chunk".to_vec(),
        b"!".to_vec(),
        b"ab".to_vec(),
    ];
    for cap in 0..40usize {
        let mut rb = RingBuffer::new(cap);
        let mut all: Vec<u8> = Vec::new();
        for chunk in &chunks {
            rb.push(chunk);
            all.extend_from_slice(chunk);
            let snap = rb.snapshot();
            assert!(snap.len() <= cap);
            let keep = std::cmp::min(cap, all.len());
            assert_eq!(snap, all[all.len() - keep..].to_vec());
        }
    }
}

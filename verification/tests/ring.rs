use fmdemod::ring::RingBuffer;

#[test]
fn fifo_order() {
    let mut rb = RingBuffer::new(8);
    assert!(rb.push(10));
    assert!(rb.push(20));
    assert!(rb.push(30));
    assert_eq!(rb.len(), 3);
    assert_eq!(rb.try_pop(), Some(10));
    assert_eq!(rb.try_pop(), Some(20));
    assert_eq!(rb.try_pop(), Some(30));
    assert_eq!(rb.try_pop(), None);
}

#[test]
fn reject_when_full_keeps_entries() {
    let mut rb = RingBuffer::new(2);
    assert!(rb.push(1));
    assert!(rb.push(2));
    assert!(!rb.push(3));
    assert!(!rb.push(4));
    assert_eq!(rb.try_pop(), Some(1));
    assert_eq!(rb.try_pop(), Some(2));
    assert_eq!(rb.try_pop(), None);
}

#[test]
fn pop_empty_reports_no_data() {
    let mut rb = RingBuffer::new(4);
    assert!(rb.is_empty());
    assert_eq!(rb.try_pop(), None);
    assert!(rb.is_empty());
}

#[test]
fn interleaved_pushes_and_pops_stay_in_order() {
    let mut rb = RingBuffer::new(3);
    assert!(rb.push(1));
    assert!(rb.push(2));
    assert_eq!(rb.try_pop(), Some(1));
    assert!(rb.push(3));
    assert!(rb.push(4));
    assert!(!rb.push(5));
    assert_eq!(rb.try_pop(), Some(2));
    assert_eq!(rb.try_pop(), Some(3));
    assert_eq!(rb.try_pop(), Some(4));
    assert_eq!(rb.try_pop(), None);
}

#[test]
fn prefill_is_silence_and_capacity_is_doubled() {
    let mut rb = RingBuffer::with_latency(3);
    assert_eq!(rb.len(), 3);
    // Capacity is twice the latency: three more samples fit, no fourth.
    assert!(rb.push(7));
    assert!(rb.push(8));
    assert!(rb.push(9));
    assert!(!rb.push(10));
    // The pre-fill drains as silence before the real data.
    assert_eq!(rb.try_pop(), Some(0));
    assert_eq!(rb.try_pop(), Some(0));
    assert_eq!(rb.try_pop(), Some(0));
    assert_eq!(rb.try_pop(), Some(7));
    assert_eq!(rb.try_pop(), Some(8));
    assert_eq!(rb.try_pop(), Some(9));
    assert_eq!(rb.try_pop(), None);
}

use agentlane::ring::{RingBuffer, MIN_RING_BYTES};

#[test]
fn a_buffer_has_a_least_size() {
    let mut r = RingBuffer::new(1);
    assert_eq!(r.len(), 0);
    r.push(&vec![7u8; MIN_RING_BYTES]);
    assert_eq!(r.len(), 4096);
    r.push(&[8]);
    assert_eq!(r.len(), 4096);
    let s = r.snapshot();
    assert_eq!(s[0], 7);
    assert_eq!(s[4095], 8);
}

#[test]
fn only_the_last_bytes_stay() {
    let mut r = RingBuffer::new(5000);
    let data: Vec<u8> = (0..9000u32).map(|n| (n % 251) as u8).collect();
    for chunk in data.chunks(700) {
        r.push(chunk);
    }
    assert_eq!(r.snapshot(), data[4000..].to_vec());
    let mut whole = RingBuffer::new(5000);
    whole.push(&data);
    assert_eq!(whole.snapshot(), r.snapshot());
}

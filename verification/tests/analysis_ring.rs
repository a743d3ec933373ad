use playfusion::analysis::SpScRing;

#[test]
fn push_pop_preserves_order_and_content() {
    let mut ring = SpScRing::new(1024);
    let data: Vec<f32> = (0..500).map(|i| i as f32 * 0.5).collect();
    assert_eq!(ring.push(&data), 500);

    let mut out = vec![0.0; 500];
    assert_eq!(ring.pop(&mut out), 500);
    assert_eq!(out, data);
    assert!(ring.is_empty());
}

#[test]
fn full_ring_drops_newest_and_counts() {
    let mut ring = SpScRing::new(1024);
    let chunk = vec![1.0f32; 2000];
    let written = ring.push(&chunk);
    assert_eq!(written, ring.capacity());
    assert_eq!(ring.dropped(), 2000 - ring.capacity());
    // What is read back is the FIRST data that came in (drop-newest keeps the old).
    let mut out = vec![0.0; ring.capacity()];
    assert_eq!(ring.pop(&mut out), ring.capacity());
    assert!(out.iter().all(|&v| v == 1.0));
}

#[test]
fn wraps_across_capacity_repeatedly() {
    let mut ring = SpScRing::new(1024);
    let mut last = -1.0f32;
    let mut out = [0.0f32; 97];
    let mut value = 0.0f32;
    let mut consumed = 0f32;
    for _ in 0..(10 * 1024) {
        if ring.len() == ring.capacity() {
            let n = ring.pop(&mut out);
            for &v in &out[..n] {
                assert!(v > last, "orden roto: {v} tras {last}");
                last = v;
                consumed += 1.0;
            }
        }
        value += 1.0;
        assert_eq!(ring.push(&[value]), 1);
    }
    while !ring.is_empty() {
        let n = ring.pop(&mut out);
        for &v in &out[..n] {
            assert!(v > last);
            last = v;
            consumed += 1.0;
        }
    }
    assert_eq!(consumed, value, "todo lo producido se consumió");
    assert_eq!(ring.dropped(), 0);
}

#[test]
fn capacity_is_a_power_of_two_minus_one() {
    assert_eq!(SpScRing::<u8>::new(0).capacity(), 1023);
    assert_eq!(SpScRing::<u8>::new(1024).capacity(), 1023);
    assert_eq!(SpScRing::<u8>::new(1025).capacity(), 2047);
    assert_eq!(SpScRing::<u8>::new(4096).capacity(), 4095);
}

#[test]
fn pop_takes_at_most_what_is_stored_and_leaves_the_rest_of_out() {
    let mut ring = SpScRing::new(0);
    assert_eq!(ring.push(&[1u8, 2, 3]), 3);
    let mut out = [9u8; 5];
    assert_eq!(ring.pop(&mut out), 3);
    assert_eq!(out, [1, 2, 3, 9, 9]);
    assert_eq!(ring.push(&[4u8, 5]), 2);
    let mut small = [0u8; 1];
    assert_eq!(ring.pop(&mut small), 1);
    assert_eq!(small, [4]);
    assert_eq!(ring.len(), 1);
}

use mirrored_buffer::MirroredBuffer;

const PAGE_SIZE: usize = 4096;
const PID: u64 = 4242;

#[test]
fn fresh_buffer_counts() {
    let buf = MirroredBuffer::new(PAGE_SIZE, Some(PAGE_SIZE), PID, Some("p0"), None).unwrap();
    assert_eq!(buf.used(), 0);
    assert_eq!(buf.free(), buf.size());
    assert_eq!(buf.head(), 0);
    assert_eq!(buf.tail(), 0);
    assert!(buf.committed().is_none());
}

#[test]
fn used_plus_free_is_capacity() {
    let mut buf = MirroredBuffer::new(PAGE_SIZE, Some(PAGE_SIZE), PID, Some("p1"), Some(0)).unwrap();
    let cap = buf.size();
    let steps: &[(bool, usize)] = &[
        (true, 100),
        (true, 5000),
        (false, 17),
        (true, 1),
        (false, 9999),
        (true, 4096),
        (false, 1),
        (true, 0),
        (false, 0),
    ];
    for &(is_commit, n) in steps {
        if is_commit {
            buf.commit(n);
        } else {
            buf.consume(n);
        }
        assert_eq!(buf.used() + buf.free(), cap);
        assert!(buf.used() <= cap);
    }
}

#[test]
fn mirror_write_observable_both_ways() {
    let mut buf = MirroredBuffer::new(PAGE_SIZE, Some(PAGE_SIZE), PID, Some("p2"), Some(0)).unwrap();
    let cap = buf.size();

    // A write in the lower half is immediately visible one capacity above.
    buf.write_byte(5, 77);
    assert_eq!(buf.storage()[5], 77);
    assert_eq!(buf.storage()[5 + cap], 77);

    // And symmetrically: a write in the upper half shows up below.
    buf.write_byte(cap + 7, 13);
    assert_eq!(buf.storage()[cap + 7], 13);
    assert_eq!(buf.storage()[7], 13);
}

#[test]
fn commit_and_consume_saturate() {
    let mut buf = MirroredBuffer::new(PAGE_SIZE, Some(PAGE_SIZE), PID, Some("p3"), Some(0)).unwrap();
    let cap = buf.size();

    // More than the free count only advances by exactly the free count.
    assert_eq!(buf.free(), cap);
    assert_eq!(buf.commit(cap + 1234), cap);
    assert_eq!(buf.used(), cap);
    assert_eq!(buf.free(), 0);
    assert_eq!(buf.commit(1), 0);

    // And consuming more than the used count releases exactly the used count.
    assert_eq!(buf.consume(9 * cap), cap);
    assert_eq!(buf.used(), 0);
    assert_eq!(buf.consume(1), 0);

    // Partial saturation: free is 1000, so a commit of 2000 advances 1000.
    assert_eq!(buf.commit(cap - 1000), cap - 1000);
    assert_eq!(buf.free(), 1000);
    assert_eq!(buf.commit(2000), 1000);
}

#[test]
fn wraparound_keeps_length_and_bytes() {
    let mut buf = MirroredBuffer::new(PAGE_SIZE, Some(PAGE_SIZE), PID, Some("p4"), Some(0)).unwrap();
    let cap = buf.size();

    // Move the cursors near the physical end, then write across it.
    buf.commit(cap - 8);
    buf.consume(cap - 8);
    assert_eq!(buf.head(), cap - 8);
    assert_eq!(buf.used(), 0);

    let (start, len) = buf.claim(16).unwrap();
    assert_eq!(start, cap - 8);
    assert_eq!(len, 16);
    for i in 0..len {
        buf.write_byte(start + i, i as u8);
    }
    assert_eq!(buf.commit(16), 16);
    assert!(buf.tail() < buf.head()); // the ring wrapped

    let committed = buf.committed().unwrap();
    assert_eq!(committed.len(), buf.used());
    assert_eq!(committed.len(), 16);
    for i in 0..16 {
        assert_eq!(committed[i], i as u8);
    }
}

#[test]
fn scenario_saturating_refill() {
    let c = PAGE_SIZE;
    let mut buf = MirroredBuffer::new(c, Some(c), PID, Some("p5"), Some(0)).unwrap();

    let (s1, l1) = buf.claim(c / 2).unwrap();
    assert_eq!(l1, c / 2);
    buf.fill(s1, l1, 0xAA);
    assert_eq!(buf.commit(c / 2), c / 2);

    // A claim of the whole capacity only offers the free half, and the
    // commit advances by exactly that much.
    let (s2, l2) = buf.claim(c).unwrap();
    assert_eq!(l2, c / 2);
    buf.fill(s2, l2, 0xBB);
    assert_eq!(buf.commit(c), c / 2);
    assert_eq!(buf.used(), c);

    // Consuming half releases the older bytes; the newer half remains.
    assert_eq!(buf.consume(c / 2), c / 2);
    assert_eq!(buf.used(), c / 2);
    assert!(buf.committed().unwrap().iter().all(|&x| x == 0xBB));

    // Refill to full; the committed window is the whole capacity of the
    // newer byte.
    let (s3, l3) = buf.claim(c).unwrap();
    assert_eq!(l3, c / 2);
    buf.fill(s3, l3, 0xBB);
    assert_eq!(buf.commit(c), c / 2);
    assert_eq!(buf.used(), c);

    let committed = buf.committed().unwrap();
    assert_eq!(committed.len(), c);
    assert!(committed.iter().all(|&x| x == 0xBB));
}

#[test]
fn full_and_empty_coincide_only_in_cursors() {
    let mut buf = MirroredBuffer::new(PAGE_SIZE, Some(PAGE_SIZE), PID, Some("p6"), Some(1)).unwrap();
    let cap = buf.size();

    // Full: the cursors coincide, yet the whole capacity is committed.
    assert_eq!(buf.commit(cap), cap);
    assert_eq!(buf.head(), buf.tail());
    let committed = buf.committed().expect("a full buffer has a committed window");
    assert_eq!(committed.len(), cap);

    // Empty: the cursors coincide again, and nothing is committed.
    assert_eq!(buf.consume(cap), cap);
    assert_eq!(buf.head(), buf.tail());
    assert!(buf.committed().is_none());
}

#[test]
fn bulk_write_crosses_the_mirror() {
    let mut buf = MirroredBuffer::new(PAGE_SIZE, Some(PAGE_SIZE), PID, Some("p8"), Some(0)).unwrap();
    let cap = buf.size();

    // Fill a window that spans the physical end in one call.
    buf.commit(cap - 2);
    buf.consume(cap - 2);
    let (start, len) = buf.claim(4).unwrap();
    assert_eq!((start, len), (cap - 2, 4));
    buf.write(start, &[10, 20, 30, 40]);
    assert_eq!(buf.commit(4), 4);

    // Both aliases of every written byte hold the data.
    assert_eq!(&buf.storage()[cap - 2..cap + 2], &[10, 20, 30, 40]);
    assert_eq!(&buf.storage()[2 * cap - 2..2 * cap], &[10, 20]);
    assert_eq!(&buf.storage()[0..2], &[30, 40]);

    let committed = buf.committed().unwrap();
    assert_eq!(committed, &[10, 20, 30, 40]);
}

#[test]
fn claim_reoffers_same_window() {
    let mut buf = MirroredBuffer::new(PAGE_SIZE, Some(PAGE_SIZE), PID, Some("p7"), Some(0)).unwrap();
    buf.commit(100);
    buf.consume(40);

    let first = buf.claim(64);
    let second = buf.claim(64);
    assert_eq!(first, second);
    assert!(first.is_some());
}

use audiomock::ring_buffer::RingBuffer;

#[test]
fn basic_write_read() {
    let mut rb = RingBuffer::new(16);
    let data = [1.0f32, 2.0, 3.0, 4.0];
    assert_eq!(rb.write(&data), 4);
    assert_eq!(rb.available(), 4);

    let mut out = [0.0f32; 4];
    assert_eq!(rb.read(&mut out), 4);
    assert_eq!(out, data);
    assert_eq!(rb.available(), 0);
}

#[test]
fn wrap_around() {
    let mut rb = RingBuffer::new(8);
    let data = [1.0f32; 6];
    assert_eq!(rb.write(&data), 6);

    let mut out = [0.0f32; 4];
    assert_eq!(rb.read(&mut out), 4);

    let data2 = [2.0f32; 5];
    assert_eq!(rb.write(&data2), 5);
    assert_eq!(rb.available(), 7); // 2 remaining + 5 new
}

#[test]
fn write_stops_at_capacity_minus_one() {
    let mut rb: RingBuffer<u32> = RingBuffer::new(4);
    assert_eq!(rb.free(), 3);
    assert_eq!(rb.write(&[1, 2, 3, 4, 5]), 3);
    assert_eq!(rb.available(), 3);
    assert_eq!(rb.free(), 0);
    assert_eq!(rb.write(&[9]), 0);
}

#[test]
fn read_keeps_fifo_order_across_wrap() {
    let mut rb: RingBuffer<u32> = RingBuffer::new(5);
    assert_eq!(rb.write(&[1, 2, 3]), 3);
    let mut out = [0u32; 2];
    assert_eq!(rb.read(&mut out), 2);
    assert_eq!(out, [1, 2]);
    assert_eq!(rb.write(&[4, 5, 6]), 3);
    let mut all = [0u32; 6];
    assert_eq!(rb.read(&mut all), 4);
    assert_eq!(all, [3, 4, 5, 6, 0, 0]);
    assert_eq!(rb.available(), 0);
}

#[test]
fn read_from_empty_leaves_output() {
    let mut rb: RingBuffer<u32> = RingBuffer::new(3);
    let mut out = [7u32; 3];
    assert_eq!(rb.read(&mut out), 0);
    assert_eq!(out, [7, 7, 7]);
}

#[test]
fn zero_capacity_reads_nothing() {
    let mut rb: RingBuffer<u32> = RingBuffer::new(0);
    assert_eq!(rb.available(), 0);
    let mut out = [5u32; 2];
    assert_eq!(rb.read(&mut out), 0);
    assert_eq!(out, [5, 5]);
}

#[test]
fn available_counts_writes_minus_reads() {
    let mut rb = RingBuffer::new(8);
    let mut written = 0usize;
    let mut read = 0usize;
    let mut out = [0u32; 3];
    let calls: [(bool, usize); 8] = [(true, 5), (false, 3), (true, 10), (false, 3), (false, 3), (true, 2), (false, 3), (false, 3)];
    for (is_write, n) in calls {
        if is_write {
            let data: Vec<u32> = (0..n as u32).collect();
            written += rb.write(&data);
        } else {
            read += rb.read(&mut out[..n]);
        }
        assert_eq!(rb.available(), written - read);
        assert_eq!(rb.available() + rb.free(), 7);
        assert!(rb.available() <= 7);
    }
    assert_eq!(written, 12);
    assert_eq!(read, 12);
}

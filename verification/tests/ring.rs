use audio_proxy::ring::AudioRingBuffer;

fn bits(xs: &[f32]) -> Vec<u32> {
    xs.iter().map(|x| x.to_bits()).collect()
}

#[test]
fn test_write_read() {
    let mut buffer = AudioRingBuffer::new(16);

    let samples = bits(&[1.0, 2.0, 3.0, 4.0]);
    assert_eq!(buffer.write(&samples), 4);
    assert_eq!(buffer.len(), 4);

    let mut output = vec![0.0f32.to_bits(); 4];
    assert_eq!(buffer.read(&mut output), 4);
    assert_eq!(output, samples);
    assert!(buffer.is_empty());
}

#[test]
fn test_overflow() {
    let mut buffer = AudioRingBuffer::new(4); // Rounds up to 4, capacity is 3

    let samples = bits(&[1.0, 2.0, 3.0, 4.0, 5.0]);
    let written = buffer.write(&samples);
    assert!(written < samples.len());
}

#[test]
fn test_underflow() {
    let mut buffer = AudioRingBuffer::new(16);

    let samples = bits(&[1.0, 2.0]);
    buffer.write(&samples);

    let mut output = vec![0.0f32.to_bits(); 4];
    assert_eq!(buffer.read(&mut output), 2);
}

#[test]
fn test_capacity_rounded_to_power_of_two() {
    let buffer = AudioRingBuffer::new(10);
    assert_eq!(buffer.capacity(), 15);
    let tiny = AudioRingBuffer::new(0);
    assert_eq!(tiny.capacity(), 0);
    let exact = AudioRingBuffer::new(64);
    assert_eq!(exact.capacity(), 63);
}

#[test]
fn test_fifo_order_across_wraparound() {
    let mut buffer = AudioRingBuffer::new(8); // capacity 7
    let mut written: Vec<u32> = Vec::new();
    let mut read_back: Vec<u32> = Vec::new();

    let mut next: u32 = 0;
    for _round in 0..5 {
        let chunk: Vec<u32> = (0..4).map(|k| next + k).collect();
        let accepted = buffer.write(&chunk);
        written.extend_from_slice(&chunk[..accepted]);
        next += 4;

        let mut out = vec![0u32; 3];
        let got = buffer.read(&mut out);
        read_back.extend_from_slice(&out[..got]);
    }
    let mut out = vec![0u32; 8];
    let got = buffer.read(&mut out);
    read_back.extend_from_slice(&out[..got]);

    // Everything read is a prefix of everything accepted, in order.
    assert_eq!(read_back, written);
}

#[test]
fn test_no_loss_under_sufficient_drain() {
    let mut buffer = AudioRingBuffer::new(8); // capacity 7
    let samples: Vec<u32> = vec![10, 20, 30, 40, 50];
    assert_eq!(buffer.write(&samples), 5);
    let mut out = vec![0u32; 5];
    assert_eq!(buffer.read(&mut out), 5);
    assert_eq!(out, samples);
    assert!(buffer.is_empty());
}

#[test]
fn test_occupancy_bounded() {
    let mut buffer = AudioRingBuffer::new(4); // capacity 3
    for _ in 0..10 {
        buffer.write(&[1, 2]);
        assert!(buffer.len() <= buffer.capacity());
    }
}

#[test]
fn test_clear() {
    let mut buffer = AudioRingBuffer::new(16);
    buffer.write(&[1, 2, 3]);
    buffer.clear();
    assert!(buffer.is_empty());
    assert_eq!(buffer.len(), 0);
    assert_eq!(buffer.capacity(), 15);
}

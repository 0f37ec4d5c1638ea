use pico_io::console::{received, write_step, Console};
use pico_io::ring::Buffer;

#[test]
fn ring_keeps_capacity_minus_one() {
    let mut b = Buffer::new();
    assert!(b.empty());
    for i in 0..63u8 {
        b.put(&i);
        assert!(!b.empty());
    }
    b.put(&200);
    b.put(&201);
    for i in 0..63u8 {
        assert_eq!(b.get(), Some(i));
    }
    assert_eq!(b.get(), None);
    assert!(b.empty());
}

#[test]
fn ring_wraps_around() {
    let mut b = Buffer::new();
    for round in 0..5u8 {
        for i in 0..40u8 {
            b.put(&(i.wrapping_add(round)));
        }
        for i in 0..40u8 {
            assert_eq!(b.get(), Some(i.wrapping_add(round)));
        }
        assert!(b.empty());
    }
}

#[test]
fn console_stages_and_drains() {
    let mut c = Console::new();
    c.write(b"hello");
    assert_eq!(c.next_out(false), None);
    let mut sent = Vec::new();
    while let Some(b) = c.next_out(true) {
        sent.push(b);
    }
    assert_eq!(sent, b"hello".to_vec());
}

#[test]
fn console_drops_on_full() {
    let mut c = Console::new();
    let data: Vec<u8> = (0..100u8).collect();
    c.write(&data);
    let mut sent = Vec::new();
    while let Some(b) = c.next_out(true) {
        sent.push(b);
    }
    assert_eq!(sent, data[..63].to_vec());
}

#[test]
fn read_outcome() {
    assert_eq!(received(None), None);
    assert_eq!(received(Some(0)), None);
    assert_eq!(received(Some(7)), Some(7));
}

#[test]
fn write_step_progress() {
    assert_eq!(write_step(0, 10, Some(4)), Some(4));
    assert_eq!(write_step(4, 10, Some(6)), Some(10));
    assert_eq!(write_step(4, 10, Some(64)), Some(10));
    assert_eq!(write_step(4, 10, Some(0)), Some(4));
    assert_eq!(write_step(4, 10, None), None);
}

use lc3::{Fifo, FIFO_CAPACITY};

#[test]
fn new_fifo_is_empty() {
    let f: Fifo<u8> = Fifo::new();
    assert!(f.is_empty());
    assert!(!f.is_full());
    assert_eq!(f.length(), 0);
    assert_eq!(f.remaining(), FIFO_CAPACITY);
    assert_eq!(f.peek(), Err(()));
    assert_eq!(f.bytes(), &[] as &[u8]);
}

#[test]
fn pops_in_push_order() {
    let mut f: Fifo<u8> = Fifo::new();
    assert_eq!(f.push(1), Ok(()));
    assert_eq!(f.push(2), Ok(()));
    assert_eq!(f.push(3), Ok(()));
    assert_eq!(f.length(), 3);
    assert_eq!(f.remaining(), FIFO_CAPACITY - 3);
    assert_eq!(f.peek(), Ok(1));
    assert_eq!(f.pop(), Ok(1));
    assert_eq!(f.pop(), Ok(2));
    assert_eq!(f.push(4), Ok(()));
    assert_eq!(f.pop(), Ok(3));
    assert_eq!(f.pop(), Ok(4));
    assert_eq!(f.pop(), Err(()));
    assert!(f.is_empty());
}

#[test]
fn push_then_pop_on_empty_round_trips() {
    let mut f: Fifo<u16> = Fifo::new();
    assert_eq!(f.push(0xBEEF), Ok(()));
    assert_eq!(f.pop(), Ok(0xBEEF));
    assert!(f.is_empty());
}

#[test]
fn full_fifo_refuses_pushes() {
    let mut f: Fifo<u8> = Fifo::new();
    for i in 0..FIFO_CAPACITY {
        assert_eq!(f.push(i as u8), Ok(()));
    }
    assert!(f.is_full());
    assert_eq!(f.remaining(), 0);
    assert_eq!(f.push(0xFF), Err(()));
    assert_eq!(f.length(), FIFO_CAPACITY);
    assert_eq!(f.peek(), Ok(0));
    assert_eq!(f.to_vec(), (0..FIFO_CAPACITY).map(|i| i as u8).collect::<Vec<u8>>());
}

#[test]
fn bytes_gives_the_contiguous_front() {
    let mut f: Fifo<u8> = Fifo::new();
    for i in 0..FIFO_CAPACITY {
        f.push(i as u8).unwrap();
    }
    for _ in 0..250 {
        f.pop().unwrap();
    }
    for i in 0..10u8 {
        f.push(100 + i).unwrap();
    }
    // Six elements before the end of the ring, ten after the wrap.
    assert_eq!(f.length(), 16);
    assert_eq!(f.bytes(), &[250, 251, 252, 253, 254, 255]);
    let mut contents = vec![250u8, 251, 252, 253, 254, 255];
    contents.extend(100..110u8);
    assert_eq!(f.to_vec(), contents);
    for _ in 0..6 {
        f.pop().unwrap();
    }
    assert_eq!(f.bytes(), &[100, 101, 102, 103, 104, 105, 106, 107, 108, 109]);
}

#[test]
fn bytes_without_wrap() {
    let mut f: Fifo<u8> = Fifo::new();
    f.push(7).unwrap();
    f.push(8).unwrap();
    assert_eq!(f.bytes(), &[7, 8]);
}

#[test]
fn bytes_of_a_full_fifo_is_everything() {
    let mut f: Fifo<u8> = Fifo::new();
    for i in 0..FIFO_CAPACITY {
        f.push(i as u8).unwrap();
    }
    let b = f.bytes();
    assert_eq!(b.len(), 256);
    for i in 0..256usize {
        assert_eq!(b[i], i as u8);
    }
}

#[test]
fn bytes_stops_at_the_end_of_storage() {
    let mut f: Fifo<u8> = Fifo::new();
    for i in 0..FIFO_CAPACITY {
        f.push(i as u8).unwrap();
    }
    for _ in 0..250 {
        f.pop().unwrap();
    }
    f.push(0).unwrap();
    f.push(1).unwrap();
    f.push(2).unwrap();
    assert_eq!(f.length(), 9);
    assert_eq!(f.bytes(), &[250u8, 251, 252, 253, 254, 255]);
}

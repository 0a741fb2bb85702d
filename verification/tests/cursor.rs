use paykan::{AsyncReadStream, Fetch, CAPACITY};

#[test]
fn new_cursor_asks_for_a_read() {
    let mut cursor = AsyncReadStream::new();
    assert!(cursor.starved());
    assert_eq!(cursor.next(), Fetch::Starved);
    assert_eq!(cursor.next(), Fetch::Starved);
}

#[test]
fn bytes_come_out_in_order_and_to_the_last() {
    let mut cursor = AsyncReadStream::new();
    assert!(cursor.refill(Some(b"abc")));
    assert!(!cursor.starved());
    assert_eq!(cursor.next(), Fetch::Byte(b'a'));
    assert_eq!(cursor.next(), Fetch::Byte(b'b'));
    assert_eq!(cursor.next(), Fetch::Byte(b'c'));
    assert_eq!(cursor.next(), Fetch::Starved);
    assert!(cursor.starved());
    assert!(cursor.refill(Some(b"d")));
    assert_eq!(cursor.next(), Fetch::Byte(b'd'));
    assert_eq!(cursor.next(), Fetch::Starved);
}

#[test]
fn read_of_nothing_ends_the_stream_for_good() {
    let mut cursor = AsyncReadStream::new();
    assert!(cursor.refill(Some(b"x")));
    assert_eq!(cursor.next(), Fetch::Byte(b'x'));
    assert!(cursor.refill(Some(b"")));
    assert!(!cursor.starved());
    assert_eq!(cursor.next(), Fetch::End);
    assert_eq!(cursor.next(), Fetch::End);
}

#[test]
fn read_that_failed_ends_the_stream() {
    let mut cursor = AsyncReadStream::new();
    assert!(cursor.refill(None));
    assert!(!cursor.starved());
    assert_eq!(cursor.next(), Fetch::End);
    assert_eq!(cursor.next(), Fetch::End);
}

#[test]
fn block_may_fill_the_whole_buffer() {
    assert_eq!(CAPACITY, 1024);
    let block: Vec<u8> = (0..CAPACITY).map(|i| (i % 251) as u8).collect();
    let mut cursor = AsyncReadStream::new();
    assert!(cursor.refill(Some(&block)));
    for expected in &block {
        assert_eq!(cursor.next(), Fetch::Byte(*expected));
    }
    assert_eq!(cursor.next(), Fetch::Starved);
    assert!(cursor.refill(Some(&block[..2])));
    assert_eq!(cursor.next(), Fetch::Byte(0));
    assert_eq!(cursor.next(), Fetch::Byte(1));
    assert_eq!(cursor.next(), Fetch::Starved);
}

#[test]
fn read_is_not_taken_while_bytes_are_left() {
    let mut cursor = AsyncReadStream::new();
    assert!(cursor.refill(Some(b"ab")));
    assert!(!cursor.refill(Some(b"cd")));
    assert!(!cursor.refill(None));
    assert_eq!(cursor.next(), Fetch::Byte(b'a'));
    assert!(!cursor.refill(Some(b"cd")));
    assert_eq!(cursor.next(), Fetch::Byte(b'b'));
    assert!(cursor.refill(Some(b"cd")));
    assert_eq!(cursor.next(), Fetch::Byte(b'c'));
}

#[test]
fn read_is_not_taken_after_the_end() {
    let mut cursor = AsyncReadStream::new();
    assert!(cursor.refill(Some(b"")));
    assert!(!cursor.refill(Some(b"late")));
    assert!(!cursor.refill(None));
    assert_eq!(cursor.next(), Fetch::End);
}

#[test]
fn block_larger_than_the_buffer_is_not_taken() {
    let block = vec![7u8; CAPACITY + 1];
    let mut cursor = AsyncReadStream::new();
    assert!(!cursor.refill(Some(&block)));
    assert!(cursor.starved());
    assert_eq!(cursor.next(), Fetch::Starved);
    assert!(cursor.refill(Some(&block[1..])));
    assert_eq!(cursor.next(), Fetch::Byte(7));
}

use native_messaging::frame::ByteOrder;
use native_messaging::stream::{ReadError, Source};
use native_messaging::transport::read;

fn source_of(bytes: &[u8]) -> Source {
    let mut source = Source::new();
    source.feed(bytes);
    source
}

#[test]
fn write_hello_gives_prefix_and_payload() {
    let mut sink: Vec<u8> = Vec::new();
    native_messaging::transport::write(ByteOrder::Little, b"hello!", &mut sink);
    assert_eq!(sink, vec![6, 0, 0, 0, b'h', b'e', b'l', b'l', b'o', b'!']);
    let mut source = source_of(&sink);
    assert_eq!(read(ByteOrder::Little, &mut source), Ok(b"hello!".to_vec()));
    assert_eq!(source.pending(), 0);
}

#[test]
fn write_hello_in_native_order() {
    let order = ByteOrder::native();
    let mut sink: Vec<u8> = Vec::new();
    native_messaging::transport::write(order, b"hello!", &mut sink);
    let mut expected = 6u32.to_ne_bytes().to_vec();
    expected.extend_from_slice(b"hello!");
    assert_eq!(sink, expected);
    let mut source = source_of(&sink);
    assert_eq!(read(order, &mut source), Ok(b"hello!".to_vec()));
}

#[test]
fn write_hello_big_endian() {
    let mut sink: Vec<u8> = Vec::new();
    native_messaging::transport::write(ByteOrder::Big, b"hello!", &mut sink);
    assert_eq!(sink, vec![0, 0, 0, 6, b'h', b'e', b'l', b'l', b'o', b'!']);
}

#[test]
fn write_appends_to_what_the_sink_holds() {
    let mut sink: Vec<u8> = vec![7, 7];
    native_messaging::transport::write(ByteOrder::Little, &[1, 2, 3], &mut sink);
    assert_eq!(sink, vec![7, 7, 3, 0, 0, 0, 1, 2, 3]);
    native_messaging::transport::write(ByteOrder::Little, &[9], &mut sink);
    assert_eq!(sink, vec![7, 7, 3, 0, 0, 0, 1, 2, 3, 1, 0, 0, 0, 9]);
}

#[test]
fn round_trip_gives_the_message_back() {
    let messages: Vec<Vec<u8>> = vec![
        vec![],
        vec![0],
        vec![0, 0, 0, 0],
        b"{\"ping\":true}".to_vec(),
        (0..=255u8).collect(),
        vec![0xab; 70_000],
    ];
    for order in [ByteOrder::Little, ByteOrder::Big] {
        for message in &messages {
            let mut sink: Vec<u8> = Vec::new();
            native_messaging::transport::write(order, message, &mut sink);
            assert_eq!(sink.len(), 4 + message.len());
            let mut source = source_of(&sink);
            assert_eq!(read(order, &mut source), Ok(message.clone()));
            assert_eq!(source.pending(), 0);
        }
    }
}

#[test]
fn empty_message_round_trips() {
    for order in [ByteOrder::Little, ByteOrder::Big] {
        let mut sink: Vec<u8> = Vec::new();
        native_messaging::transport::write(order, &[], &mut sink);
        assert_eq!(sink, vec![0, 0, 0, 0]);
        let mut source = source_of(&sink);
        assert_eq!(read(order, &mut source), Ok(Vec::new()));
        assert_eq!(source.pending(), 0);
    }
}

#[test]
fn read_leaves_what_follows_the_frame() {
    let mut source = source_of(&[2, 0, 0, 0, 10, 20, 30, 40]);
    assert_eq!(read(ByteOrder::Little, &mut source), Ok(vec![10, 20]));
    assert_eq!(source.pending(), 2);
}

#[test]
fn truncated_body_fails_and_returns_nothing() {
    let mut sink: Vec<u8> = Vec::new();
    native_messaging::transport::write(ByteOrder::Little, b"hello!", &mut sink);
    for kept in 4..sink.len() {
        let mut source = source_of(&sink[..kept]);
        assert_eq!(read(ByteOrder::Little, &mut source), Err(ReadError::UnexpectedEof));
        assert_eq!(source.pending(), 0);
    }
}

#[test]
fn truncated_prefix_fails() {
    for kept in 0..4 {
        let mut source = source_of(&[6, 0, 0, 0][..kept]);
        assert_eq!(read(ByteOrder::Little, &mut source), Err(ReadError::UnexpectedEof));
        assert_eq!(source.pending(), 0);
    }
}

#[test]
fn read_on_ended_stream_keeps_failing() {
    let mut source = Source::new();
    assert_eq!(read(ByteOrder::Big, &mut source), Err(ReadError::UnexpectedEof));
    assert_eq!(read(ByteOrder::Big, &mut source), Err(ReadError::UnexpectedEof));
}

#[test]
fn fault_in_prefix_fails_the_read() {
    let mut source = source_of(&[6, 0]);
    source.inject_fault();
    source.feed(&[1, 0, 0, 0, 42]);
    assert_eq!(read(ByteOrder::Little, &mut source), Err(ReadError::Failed));
    assert_eq!(source.pending(), 5);
    assert_eq!(read(ByteOrder::Little, &mut source), Ok(vec![42]));
}

#[test]
fn fault_in_body_fails_the_read() {
    let mut source = source_of(&[3, 0, 0, 0, 1, 2]);
    source.inject_fault();
    source.feed(&[3]);
    assert_eq!(read(ByteOrder::Little, &mut source), Err(ReadError::Failed));
    assert_eq!(source.pending(), 1);
}

#[test]
fn fault_behind_an_empty_frame_is_not_met() {
    let mut source = source_of(&[0, 0, 0, 0]);
    source.inject_fault();
    assert_eq!(read(ByteOrder::Little, &mut source), Ok(Vec::new()));
    assert_eq!(source.pending(), 1);
    assert_eq!(read(ByteOrder::Little, &mut source), Err(ReadError::Failed));
    assert_eq!(source.pending(), 0);
}

#[test]
fn read_exact_takes_what_it_is_asked_for() {
    let mut source = source_of(&[1, 2, 3, 4, 5]);
    assert_eq!(source.pending(), 5);
    assert_eq!(source.read_exact(2), Ok(vec![1, 2]));
    assert_eq!(source.read_exact(0), Ok(Vec::new()));
    assert_eq!(source.read_exact(3), Ok(vec![3, 4, 5]));
    assert_eq!(source.read_exact(0), Ok(Vec::new()));
    assert_eq!(source.read_exact(1), Err(ReadError::UnexpectedEof));
}

#[test]
fn read_exact_loses_what_a_failed_read_had() {
    let mut source = source_of(&[1, 2]);
    source.inject_fault();
    source.feed(&[3, 4]);
    assert_eq!(source.read_exact(3), Err(ReadError::Failed));
    assert_eq!(source.read_exact(2), Ok(vec![3, 4]));
    let mut short = source_of(&[1, 2]);
    assert_eq!(short.read_exact(3), Err(ReadError::UnexpectedEof));
    assert_eq!(short.pending(), 0);
}

#[test]
fn wrong_order_reads_another_length() {
    let mut source = source_of(&[0, 0, 0, 1, 9]);
    assert_eq!(read(ByteOrder::Big, &mut source), Ok(vec![9]));
    let mut source = source_of(&[0, 0, 0, 1, 9]);
    assert_eq!(read(ByteOrder::Little, &mut source), Err(ReadError::UnexpectedEof));
}

use native_messaging::frame::{decode_length, encode_length, order_of_one, ByteOrder, HEADER_LEN};

#[test]
fn header_is_four_bytes() {
    assert_eq!(HEADER_LEN, 4);
}

#[test]
fn little_endian_prefix_puts_low_byte_first() {
    assert_eq!(encode_length(ByteOrder::Little, 0x0102_0304), [4, 3, 2, 1]);
    assert_eq!(encode_length(ByteOrder::Little, 6), [6, 0, 0, 0]);
    assert_eq!(encode_length(ByteOrder::Little, 0), [0, 0, 0, 0]);
    assert_eq!(encode_length(ByteOrder::Little, u32::MAX), [255, 255, 255, 255]);
    assert_eq!(encode_length(ByteOrder::Little, 256), [0, 1, 0, 0]);
    assert_eq!(encode_length(ByteOrder::Little, 65_536), [0, 0, 1, 0]);
    assert_eq!(encode_length(ByteOrder::Little, 16_777_216), [0, 0, 0, 1]);
}

#[test]
fn big_endian_prefix_puts_high_byte_first() {
    assert_eq!(encode_length(ByteOrder::Big, 0x0102_0304), [1, 2, 3, 4]);
    assert_eq!(encode_length(ByteOrder::Big, 6), [0, 0, 0, 6]);
    assert_eq!(encode_length(ByteOrder::Big, 0), [0, 0, 0, 0]);
    assert_eq!(encode_length(ByteOrder::Big, u32::MAX), [255, 255, 255, 255]);
    assert_eq!(encode_length(ByteOrder::Big, 256), [0, 0, 1, 0]);
}

#[test]
fn prefix_agrees_with_the_standard_library() {
    let samples: [u32; 9] =
        [0, 1, 6, 255, 256, 65_535, 0x0102_0304, 0xdead_beef, u32::MAX];
    for n in samples {
        assert_eq!(encode_length(ByteOrder::Little, n), n.to_le_bytes());
        assert_eq!(encode_length(ByteOrder::Big, n), n.to_be_bytes());
        assert_eq!(decode_length(ByteOrder::Little, n.to_le_bytes()), n);
        assert_eq!(decode_length(ByteOrder::Big, n.to_be_bytes()), n);
    }
}

#[test]
fn decode_length_reads_each_order() {
    assert_eq!(decode_length(ByteOrder::Little, [4, 3, 2, 1]), 0x0102_0304);
    assert_eq!(decode_length(ByteOrder::Big, [4, 3, 2, 1]), 0x0403_0201);
    assert_eq!(decode_length(ByteOrder::Little, [6, 0, 0, 0]), 6);
    assert_eq!(decode_length(ByteOrder::Big, [6, 0, 0, 0]), 0x0600_0000);
    assert_eq!(decode_length(ByteOrder::Little, [255, 255, 255, 255]), u32::MAX);
}

#[test]
fn decode_undoes_encode() {
    let mut n: u32 = 1;
    for _ in 0..64 {
        for order in [ByteOrder::Little, ByteOrder::Big] {
            assert_eq!(decode_length(order, encode_length(order, n)), n);
        }
        n = n.wrapping_mul(2_654_435_761).wrapping_add(12_345);
    }
}

#[test]
fn encode_undoes_decode() {
    let prefixes: [[u8; 4]; 4] = [[0, 0, 0, 0], [1, 2, 3, 4], [255, 0, 255, 0], [9, 9, 9, 9]];
    for bytes in prefixes {
        for order in [ByteOrder::Little, ByteOrder::Big] {
            assert_eq!(encode_length(order, decode_length(order, bytes)), bytes);
        }
    }
}

#[test]
fn order_is_told_from_the_bytes_of_one() {
    assert_eq!(order_of_one([1, 0, 0, 0]), ByteOrder::Little);
    assert_eq!(order_of_one([0, 0, 0, 1]), ByteOrder::Big);
}

#[test]
fn native_order_is_the_machine_order() {
    let order = ByteOrder::native();
    let samples: [u32; 5] = [1, 6, 0x0102_0304, 0xdead_beef, u32::MAX];
    for n in samples {
        assert_eq!(encode_length(order, n), n.to_ne_bytes());
        assert_eq!(decode_length(order, n.to_ne_bytes()), u32::from_ne_bytes(n.to_ne_bytes()));
    }
    let expected = if 1u32.to_ne_bytes() == 1u32.to_le_bytes() {
        ByteOrder::Little
    } else {
        ByteOrder::Big
    };
    assert_eq!(order, expected);
}

use ipc_socket::error::IpcError;
use ipc_socket::frame::{
    declared_len, decode_frame, decode_header, encode_frame, encode_header, payload_len, HEADER_LEN,
};

#[test]
fn header_is_four_bytes() {
    assert_eq!(HEADER_LEN, 4);
}

#[test]
fn header_is_big_endian() {
    assert_eq!(encode_header(0), [0, 0, 0, 0]);
    assert_eq!(encode_header(5), [0, 0, 0, 5]);
    assert_eq!(encode_header(256), [0, 0, 1, 0]);
    assert_eq!(encode_header(0x0102_0304), [1, 2, 3, 4]);
    assert_eq!(encode_header(u32::MAX), [255, 255, 255, 255]);
    assert_eq!(encode_header(0xdead_beef), 0xdead_beef_u32.to_be_bytes());
}

#[test]
fn header_decodes_what_was_encoded() {
    assert_eq!(decode_header(&[0, 0, 0, 0]), 0);
    assert_eq!(decode_header(&[0, 0, 0, 5]), 5);
    assert_eq!(decode_header(&[1, 2, 3, 4]), 0x0102_0304);
    assert_eq!(decode_header(&[255, 255, 255, 255]), u32::MAX);
    for value in [0u32, 1, 255, 256, 65535, 65536, 0x00ff_ffff, 0x0100_0000, 0x8000_0000, u32::MAX] {
        assert_eq!(decode_header(&encode_header(value)), value);
        assert_eq!(decode_header(&value.to_be_bytes()), value);
    }
}

#[test]
fn frame_is_header_then_payload() {
    assert_eq!(encode_frame(b"hello"), Ok(vec![0, 0, 0, 5, b'h', b'e', b'l', b'l', b'o']));
    assert_eq!(encode_frame(b""), Ok(vec![0, 0, 0, 0]));
    let payload = vec![7u8; 300];
    let frame = encode_frame(&payload).unwrap();
    assert_eq!(frame.len(), 304);
    assert_eq!(&frame[..4], &[0, 0, 1, 44]);
    assert_eq!(&frame[4..], payload.as_slice());
}

#[test]
fn budget_counts_the_header() {
    assert_eq!(payload_len(5, 9), Ok(5));
    assert_eq!(payload_len(5, 8), Err(IpcError::OversizedMessage { declared: 5, max_size: 8 }));
    assert_eq!(payload_len(0, 4), Ok(0));
    assert_eq!(payload_len(0, 3), Err(IpcError::OversizedMessage { declared: 0, max_size: 3 }));
    assert_eq!(payload_len(0, 0), Err(IpcError::OversizedMessage { declared: 0, max_size: 0 }));
    assert_eq!(
        payload_len(u32::MAX, 1024),
        Err(IpcError::OversizedMessage { declared: u32::MAX, max_size: 1024 })
    );
}

#[test]
fn frame_round_trip() {
    for payload in [&b""[..], &b"x"[..], &b"hello"[..], &[0u8; 100][..]] {
        let frame = encode_frame(payload).unwrap();
        assert_eq!(decode_frame(&frame, payload.len() + 4), Ok(payload.to_vec()));
        assert_eq!(decode_frame(&frame, 4096), Ok(payload.to_vec()));
    }
}

#[test]
fn oversized_frame_is_refused_on_its_header() {
    let frame = encode_frame(b"hello").unwrap();
    assert_eq!(decode_frame(&frame, 8), Err(IpcError::OversizedMessage { declared: 5, max_size: 8 }));
    // the header alone is enough to refuse
    assert_eq!(
        decode_frame(&[0, 0, 0, 5], 8),
        Err(IpcError::OversizedMessage { declared: 5, max_size: 8 })
    );
    assert_eq!(
        decode_frame(&[255, 255, 255, 255], 1 << 20),
        Err(IpcError::OversizedMessage { declared: u32::MAX, max_size: 1 << 20 })
    );
}

#[test]
fn short_wire_is_truncated() {
    assert_eq!(decode_frame(&[], 64), Err(IpcError::TruncatedMessage));
    assert_eq!(decode_frame(&[0, 0, 0], 64), Err(IpcError::TruncatedMessage));
    assert_eq!(decode_frame(&[0, 0, 0, 5, b'h', b'e'], 64), Err(IpcError::TruncatedMessage));
    assert_eq!(decode_frame(&[0, 0, 0, 1], 64), Err(IpcError::TruncatedMessage));
}

#[test]
fn bytes_after_the_frame_are_left_out() {
    assert_eq!(decode_frame(&[0, 0, 0, 2, 9, 8, 7, 6], 64), Ok(vec![9, 8]));
    assert_eq!(decode_frame(&[0, 0, 0, 0, 1], 64), Ok(vec![]));
}

#[test]
fn payload_too_long_for_the_header_is_refused() {
    assert_eq!(declared_len(0), Ok(0));
    assert_eq!(declared_len(5), Ok(5));
    assert_eq!(declared_len(u32::MAX as usize), Ok(u32::MAX));
    let len = u32::MAX as usize + 1;
    assert_eq!(declared_len(len), Err(IpcError::PayloadTooLong { len }));
    assert_eq!(declared_len(usize::MAX), Err(IpcError::PayloadTooLong { len: usize::MAX }));
}

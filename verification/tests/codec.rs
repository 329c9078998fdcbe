use ethers_ccip_read::abicode::{push_bytes_block, push_pair, read_len_at, read_wrapped_bytes, write_word};
use ethers_ccip_read::address::Address;
use ethers_ccip_read::hexdata::{hex_decode_bytes, hex_encode_lower};
use ethers_ccip_read::signal::{decode_signal_tuple, is_lookup_shape, OffchainLookupSignal};

fn addr(n: u8) -> Address {
    let mut bytes = vec![0u8; 20];
    bytes[19] = n;
    Address { bytes }
}

#[test]
fn word_write_and_read_back() {
    let w = write_word(1);
    let mut expected = vec![0u8; 32];
    expected[31] = 1;
    assert_eq!(w, expected);
    assert_eq!(read_len_at(&w, 0), Some(1));
}

#[test]
fn word_read_rejects_oversized_values() {
    let mut w = vec![0u8; 32];
    w[0] = 1; // 2^248, far past usize
    assert_eq!(read_len_at(&w, 0), None);
    assert_eq!(read_len_at(&vec![0u8; 31], 0), None);
}

#[test]
fn pair_encoding_layout_is_exact() {
    let mut out: Vec<u8> = Vec::new();
    push_pair(&mut out, &vec![0xaa], &vec![0xbb]);
    let mut expected = Vec::new();
    expected.extend_from_slice(&write_word(64));
    expected.extend_from_slice(&write_word(128));
    expected.extend_from_slice(&write_word(1));
    expected.push(0xaa);
    expected.extend_from_slice(&[0u8; 31]);
    expected.extend_from_slice(&write_word(1));
    expected.push(0xbb);
    expected.extend_from_slice(&[0u8; 31]);
    assert_eq!(out, expected);
}

#[test]
fn wrapped_bytes_read_back() {
    let mut blob = write_word(32);
    push_bytes_block(&mut blob, &vec![1, 2, 3]);
    assert_eq!(read_wrapped_bytes(&blob), Some(vec![1, 2, 3]));
    assert_eq!(read_wrapped_bytes(&vec![0u8; 16]), None);
}

#[test]
fn hex_wrappers_are_not_identity() {
    let enc = hex_encode_lower(&vec![0x0f, 0xa0]);
    assert_eq!(enc, b"0fa0".to_vec());
    assert_eq!(hex_decode_bytes(&b"0FA0".to_vec()), Some(vec![0x0f, 0xa0]));
    assert_eq!(hex_decode_bytes(&b"abc".to_vec()), None);
    assert_eq!(hex_decode_bytes(&b"zz".to_vec()), None);
}

#[test]
fn signal_payload_round_trip() {
    let sig = OffchainLookupSignal {
        sender: addr(7),
        urls: vec![b"https://a.example/{sender}/{data}".to_vec(), b"https://b.example".to_vec()],
        call_data: vec![1, 2, 3, 4, 5],
        callback_selector: vec![0xde, 0xad, 0xbe, 0xef],
        extra_data: vec![9, 9],
    };
    let payload = sig.encode_payload();
    assert!(is_lookup_shape(&payload));
    assert_eq!(&payload[0..4], &[0x55, 0x6f, 0x18, 0x30]);
    assert_eq!((payload.len() - 4) % 32, 0);
    let tuple: Vec<u8> = payload[4..].to_vec();
    let back = decode_signal_tuple(&tuple).expect("decodes");
    assert_eq!(back.sender.bytes, addr(7).bytes);
    assert_eq!(back.urls, vec![
        b"https://a.example/{sender}/{data}".to_vec(),
        b"https://b.example".to_vec()
    ]);
    assert_eq!(back.call_data, vec![1, 2, 3, 4, 5]);
    assert_eq!(back.callback_selector, vec![0xde, 0xad, 0xbe, 0xef]);
    assert_eq!(back.extra_data, vec![9, 9]);
}

#[test]
fn signal_shape_check_rejects_other_bytes() {
    assert!(!is_lookup_shape(&vec![0x55, 0x6f, 0x18]));
    assert!(!is_lookup_shape(&vec![0x01, 0x02, 0x03, 0x04]));
    let mut almost = vec![0x55, 0x6f, 0x18, 0x30];
    almost.extend_from_slice(&[0u8; 31]);
    assert!(!is_lookup_shape(&almost));
}

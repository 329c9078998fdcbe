use ethers_ccip_read::abicode::{push_bytes_block, write_word};
use ethers_ccip_read::address::Address;
use ethers_ccip_read::ens::namehash;
use ethers_ccip_read::error::CCIPMiddlewareError;
use ethers_ccip_read::middleware::CCIPReadMiddleware;
use ethers_ccip_read::query::{decode_bytes, hex_text_of, DecodedValue, LookupStep, ParamKind, QueryStep};
use ethers_ccip_read::wildcard::supports_wildcard_result;

fn addr(n: u8) -> Address {
    let mut bytes = vec![0u8; 20];
    bytes[19] = n;
    Address { bytes }
}

fn word_with(n: u8) -> Vec<u8> {
    let mut w = vec![0u8; 32];
    w[31] = n;
    w
}

#[test]
fn probe_call_data_is_the_fixed_capability_check() {
    let mw = CCIPReadMiddleware::new();
    let call = mw.supports_wildcard(&addr(5));
    assert_eq!(
        call.data,
        hex::decode("01ffc9a79061b92300000000000000000000000000000000000000000000000000000000")
            .unwrap()
    );
}

#[test]
fn probe_answers_are_read_strictly() {
    assert!(supports_wildcard_result(&Ok(word_with(1))));
    assert!(!supports_wildcard_result(&Ok(word_with(2))));
    assert!(!supports_wildcard_result(&Ok(Vec::new())));
    assert!(!supports_wildcard_result(&Ok(vec![1u8; 5])));
    assert!(!supports_wildcard_result(&Err(CCIPMiddlewareError::DecodeError)));
    let mut two_word = word_with(1);
    two_word[0] = 1;
    assert!(!supports_wildcard_result(&Ok(two_word)));
}

#[test]
fn plain_query_builds_the_direct_call_and_decodes_an_address() {
    let mw = CCIPReadMiddleware::new();
    let (m, step) = mw.resolve_name(b"foo.eth".to_vec());
    match step {
        QueryStep::Discover(n) => assert_eq!(n, b"foo.eth".to_vec()),
        _ => panic!("a query discovers its resolver first"),
    }
    let (m, step) = m.on_resolver(addr(5));
    assert!(matches!(step, QueryStep::Probe(_)));
    let (m, step) = m.on_probe(false);
    let call = match step {
        QueryStep::Execute(c) => c,
        _ => panic!("after the probe the query executes"),
    };
    let mut expected = vec![59, 59, 87, 222];
    expected.extend_from_slice(&namehash(&b"foo.eth".to_vec()));
    assert_eq!(call.data, expected);
    let (_, step) = m.on_result(word_with(9));
    match step {
        QueryStep::Done(DecodedValue::Addr(a)) => assert_eq!(a.bytes, addr(9).bytes),
        _ => panic!("an address word decodes"),
    }
}

#[test]
fn wildcard_query_wraps_the_call_and_unwraps_the_answer() {
    let mw = CCIPReadMiddleware::new();
    let (m, _) = mw.resolve_name(b"foo.eth".to_vec());
    let (m, _) = m.on_resolver(addr(5));
    let (m, step) = m.on_probe(true);
    let call = match step {
        QueryStep::Execute(c) => c,
        _ => panic!("after the probe the query executes"),
    };
    assert_eq!(&call.data[0..4], &[0x90, 0x61, 0xb9, 0x23]);
    let needle = b"\x03foo\x03eth\x00";
    assert!(call.data.windows(needle.len()).any(|w| w == needle));
    // the answer comes back wrapped in one extra layer of ABI bytes
    let mut wrapped = write_word(32);
    push_bytes_block(&mut wrapped, &word_with(9));
    let (_, step) = m.on_result(wrapped);
    match step {
        QueryStep::Done(DecodedValue::Addr(a)) => assert_eq!(a.bytes, addr(9).bytes),
        _ => panic!("the wrapped address decodes"),
    }
}

#[test]
fn undecodable_answers_fail_the_query() {
    let mw = CCIPReadMiddleware::new();
    let (m, _) = mw.resolve_name(b"foo.eth".to_vec());
    let (m, _) = m.on_resolver(addr(5));
    let (m, _) = m.on_probe(false);
    let (_, step) = m.on_result(vec![1, 2, 3]);
    assert!(matches!(step, QueryStep::Fail(CCIPMiddlewareError::DecodeError)));
}

#[test]
fn typed_decoding_reads_each_shape() {
    match decode_bytes(ParamKind::Uint256, &word_with(3)) {
        Ok(DecodedValue::Uint(w)) => assert_eq!(w, word_with(3)),
        _ => panic!("a word decodes as a number"),
    }
    assert!(decode_bytes(ParamKind::Address, &vec![1, 2]).is_err());
    let mut wrapped = write_word(32);
    push_bytes_block(&mut wrapped, &vec![7, 8, 9]);
    match decode_bytes(ParamKind::Bytes, &wrapped) {
        Ok(DecodedValue::Blob(b)) => assert_eq!(b, vec![7, 8, 9]),
        _ => panic!("wrapped bytes decode"),
    }
    match decode_bytes(ParamKind::Str, &wrapped) {
        Ok(DecodedValue::Text(t)) => assert_eq!(t, vec![7, 8, 9]),
        _ => panic!("wrapped text decodes"),
    }
}

#[test]
fn field_queries_carry_the_record_key() {
    let mw = CCIPReadMiddleware::new();
    let (m, _) = mw.resolve_field(b"foo.eth".to_vec(), &b"avatar".to_vec());
    assert_eq!(m.param, ParamKind::Str);
    let params = m.parameters.clone().unwrap();
    let mut expected = write_word(64);
    push_bytes_block(&mut expected, &b"avatar".to_vec());
    assert_eq!(params, expected);
}

#[test]
fn coin_type_texts_are_checked_before_any_query() {
    let mw = CCIPReadMiddleware::new();
    match mw.resolve_addresses(b"foo.eth".to_vec(), &b"60".to_vec()) {
        Ok((m, _)) => {
            assert_eq!(m.param, ParamKind::Bytes);
            assert_eq!(m.parameters.unwrap(), write_word(60));
        },
        Err(_) => panic!("a decimal coin type is accepted"),
    }
    assert!(mw.resolve_addresses(b"foo.eth".to_vec(), &b"12x".to_vec()).is_err());
    let huge = vec![b'9'; 100];
    assert!(mw.resolve_addresses(b"foo.eth".to_vec(), &huge).is_err());
}

#[test]
fn hex_text_formatting_matches_the_wire_form() {
    assert_eq!(hex_text_of(&vec![0xde, 0xad]), b"0xdead".to_vec());
}

#[test]
fn reverse_lookup_accepts_only_an_owned_domain() {
    let mw = CCIPReadMiddleware::new();
    let (m, step) = mw.lookup_address(addr(7));
    match step {
        LookupStep::QueryName(n) => {
            assert!(n.ends_with(b".addr.reverse"));
            assert_eq!(n.len(), 40 + 13);
        },
        _ => panic!("the reverse name is queried first"),
    }
    let (m, step) = m.on_domain(b"mine.eth".to_vec());
    assert!(matches!(step, LookupStep::ResolveForward(d) if d == b"mine.eth".to_vec()));
    match m.on_forward(&addr(7)) {
        LookupStep::Done(d) => assert_eq!(d, b"mine.eth".to_vec()),
        _ => panic!("a domain that resolves back is owned"),
    }

    let (m, _) = mw.lookup_address(addr(7));
    let (m, _) = m.on_domain(b"mine.eth".to_vec());
    match m.on_forward(&addr(8)) {
        LookupStep::NotOwned(d) => assert_eq!(d, b"mine.eth".to_vec()),
        _ => panic!("a domain that resolves elsewhere is not owned"),
    }
}

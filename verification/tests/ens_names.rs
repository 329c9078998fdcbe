use ethers_ccip_read::address::Address;
use ethers_ccip_read::ens::{dns_encode, namehash, reverse_address};
use ethers_ccip_read::query::parameterhash;

#[test]
fn namehash_matches_the_published_vectors() {
    assert_eq!(namehash(&Vec::new()), vec![0u8; 32]);
    assert_eq!(
        namehash(&b"eth".to_vec()),
        hex::decode("93cdeb708b7545dc668eb9280176169d1c33cfd8ed6f04690a0bcc88a93fc4ae").unwrap()
    );
    assert_eq!(
        namehash(&b"foo.eth".to_vec()),
        hex::decode("de9b09fd7c5f901e23a3f19fecc54828e9c848539801e86591bd9801b019f84f").unwrap()
    );
}

#[test]
fn namehash_agrees_with_the_companion_implementation() {
    for name in ["", "eth", "foo.eth", "a.b.eth", "sub.domain.xyz", "UPPER.eth"] {
        let ours = namehash(&name.as_bytes().to_vec());
        let theirs = ethers_providers::namehash(name);
        assert_eq!(ours, theirs.0.to_vec(), "namehash of {name}");
    }
}

#[test]
fn dns_encoding_is_length_prefixed_and_terminated() {
    assert_eq!(dns_encode(&b"eth".to_vec()), Some(b"\x03eth\x00".to_vec()));
    assert_eq!(dns_encode(&b"a.b.eth".to_vec()), Some(b"\x01a\x01b\x03eth\x00".to_vec()));
    assert_eq!(dns_encode(&Vec::new()), None);
    assert_eq!(dns_encode(&b"a..b".to_vec()), None);
    let long = vec![b'x'; 64];
    assert_eq!(dns_encode(&long), None);
    let fits = vec![b'x'; 63];
    assert!(dns_encode(&fits).is_some());
}

#[test]
fn reverse_names_agree_with_the_companion_implementation() {
    let mut bytes = vec![0u8; 20];
    bytes[0] = 0xab;
    bytes[19] = 0x01;
    let ours = reverse_address(&Address { bytes: bytes.clone() });
    let theirs = ethers_providers::reverse_address(
        ethers_core::types::H160::from_slice(&bytes),
    );
    assert_eq!(ours, theirs.as_bytes().to_vec());
}

#[test]
fn record_key_parameters_agree_with_the_companion_implementation() {
    let ours = parameterhash(&b"avatar".to_vec());
    let theirs = ethers_providers::parameterhash("avatar");
    assert_eq!(ours, theirs);
}

#[test]
fn registry_lookup_call_agrees_with_the_companion_implementation() {
    let mw = ethers_ccip_read::middleware::CCIPReadMiddleware::new();
    let m = mw.get_resolver(b"foo.eth".to_vec());
    let data = match m.begin() {
        ethers_ccip_read::ens::DiscoveryStep::Lookup(call) => call.data,
        _ => panic!("a lookup was expected"),
    };
    let theirs = ethers_providers::get_resolver(
        ethers_providers::ENS_ADDRESS,
        "foo.eth",
    );
    assert_eq!(data, theirs.data.unwrap().to_vec());
}

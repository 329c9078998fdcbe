use ethers_ccip_read::address::Address;
use ethers_ccip_read::avatar::{
    classify_scheme, erc1155_balance_call, erc721_owner_call, ipfs_object_path,
    nft_balance_positive, nft_owner_matches, parse_nft_path, AvatarScheme, NftKind,
};

fn addr(n: u8) -> Address {
    let mut bytes = vec![0u8; 20];
    bytes[19] = n;
    Address { bytes }
}

#[test]
fn schemes_are_told_apart() {
    assert_eq!(classify_scheme(&b"https".to_vec()), AvatarScheme::Https);
    assert_eq!(classify_scheme(&b"data".to_vec()), AvatarScheme::DataUrl);
    assert_eq!(classify_scheme(&b"ipfs".to_vec()), AvatarScheme::Ipfs);
    assert_eq!(classify_scheme(&b"eip155".to_vec()), AvatarScheme::Eip155);
    assert_eq!(classify_scheme(&b"http".to_vec()), AvatarScheme::Other);
}

#[test]
fn token_paths_parse_to_contract_and_id() {
    let path = b"1/erc721:0x00000000000000000000000000000000000000aa/123".to_vec();
    let tok = parse_nft_path(&path).expect("parses");
    assert_eq!(tok.kind, NftKind::Erc721);
    assert_eq!(tok.contract.bytes[19], 0xaa);
    assert_eq!(tok.id.len(), 32);
    assert_eq!(tok.id[31], 123);

    let path = b"eip155:1/erc1155:0x00000000000000000000000000000000000000bb/7".to_vec();
    let tok = parse_nft_path(&path).expect("parses with the chain marker");
    assert_eq!(tok.kind, NftKind::Erc1155);
    assert_eq!(tok.contract.bytes[19], 0xbb);
    assert_eq!(tok.id[31], 7);
}

#[test]
fn malformed_token_paths_are_rejected() {
    assert!(parse_nft_path(&b"1/erc20:0x00000000000000000000000000000000000000aa/1".to_vec())
        .is_none());
    assert!(parse_nft_path(&b"1/erc721:0xshort/1".to_vec()).is_none());
    assert!(parse_nft_path(&b"1/erc721:0x00000000000000000000000000000000000000aa".to_vec())
        .is_none());
    assert!(parse_nft_path(&b"1/erc721:0x00000000000000000000000000000000000000aa/ten".to_vec())
        .is_none());
}

#[test]
fn ownership_check_calls_carry_the_exact_payloads() {
    let path = b"1/erc721:0x00000000000000000000000000000000000000aa/5".to_vec();
    let tok = parse_nft_path(&path).unwrap();
    let call = erc721_owner_call(&tok);
    let mut expected = vec![0x63, 0x52, 0x21, 0x1e];
    expected.extend_from_slice(&tok.id);
    assert_eq!(call.data, expected);

    let owner = addr(9);
    let call = erc1155_balance_call(&tok, &owner);
    let mut expected = vec![0x00, 0xfd, 0xd5, 0x8e];
    expected.extend_from_slice(&[0u8; 12]);
    expected.extend_from_slice(&owner.bytes);
    expected.extend_from_slice(&tok.id);
    assert_eq!(call.data, expected);
}

#[test]
fn ownership_and_balance_answers_are_read() {
    let mut owner_word = vec![0u8; 32];
    owner_word[31] = 9;
    assert!(nft_owner_matches(&owner_word, &addr(9)).unwrap());
    assert!(!nft_owner_matches(&owner_word, &addr(8)).unwrap());
    assert!(nft_owner_matches(&vec![1, 2], &addr(9)).is_err());

    let mut balance = vec![0u8; 32];
    assert!(!nft_balance_positive(&balance).unwrap());
    balance[31] = 1;
    assert!(nft_balance_positive(&balance).unwrap());
    assert!(nft_balance_positive(&vec![]).is_err());
}

#[test]
fn ipfs_links_lose_their_scheme_and_path_markers() {
    assert_eq!(ipfs_object_path(&b"ipfs://QmXyz/1.png".to_vec()), b"QmXyz/1.png".to_vec());
    assert_eq!(ipfs_object_path(&b"ipfs://ipfs/QmXyz".to_vec()), b"QmXyz".to_vec());
    assert_eq!(ipfs_object_path(&b"QmXyz".to_vec()), b"QmXyz".to_vec());
}

use vstd::prelude::*;
use crate::abicode::{word_of, zeros};
use crate::address::{all_zero, Address, CallTarget, ContractCall, TargetModel};
use crate::bytesutil::{
    bytes_eq, count_byte, count_byte_occurrences, extend_bytes, find_byte, first_byte,
    lemma_first_byte_bounds, strip_prefix_rep, sub_bytes, trim_prefix_rep,
};
use crate::error::{CCIPMiddlewareError, ErrorModel};
use crate::hexdata::{hex_decode_bytes, hex_decode_of, hex_decode_ok};
use crate::query::{dec_text_val, dec_text_valid_u256};

verus! {

/// The URL schemes the avatar flow tells apart.
#[derive(PartialEq, Eq, Structural, Clone, Copy, Debug)]
pub enum AvatarScheme {
    Https,
    DataUrl,
    Ipfs,
    Eip155,
    Other,
}

pub open spec fn https_text() -> Seq<u8> {
    seq![0x68u8, 0x74u8, 0x74u8, 0x70u8, 0x73u8]
}

pub open spec fn data_text() -> Seq<u8> {
    seq![0x64u8, 0x61u8, 0x74u8, 0x61u8]
}

pub open spec fn ipfs_text() -> Seq<u8> {
    seq![0x69u8, 0x70u8, 0x66u8, 0x73u8]
}

pub open spec fn eip155_text() -> Seq<u8> {
    seq![0x65u8, 0x69u8, 0x70u8, 0x31u8, 0x35u8, 0x35u8]
}

/// How an avatar record's URL scheme is classified.
pub open spec fn classify_scheme_model(s: Seq<u8>) -> AvatarScheme {
    if s == https_text() || s == data_text() {
        if s == https_text() {
            AvatarScheme::Https
        } else {
            AvatarScheme::DataUrl
        }
    } else if s == ipfs_text() {
        AvatarScheme::Ipfs
    } else if s == eip155_text() {
        AvatarScheme::Eip155
    } else {
        AvatarScheme::Other
    }
}

/// Classifies an avatar URL's scheme.
pub fn classify_scheme(s: &Vec<u8>) -> (r: AvatarScheme)
    ensures
        r == classify_scheme_model(s@),
{
    let mut https: Vec<u8> = Vec::new();
    https.push(0x68);
    https.push(0x74);
    https.push(0x74);
    https.push(0x70);
    https.push(0x73);
    proof {
        assert(https@ =~= https_text());
    }
    if bytes_eq(s, &https) {
        return AvatarScheme::Https;
    }
    let mut data: Vec<u8> = Vec::new();
    data.push(0x64);
    data.push(0x61);
    data.push(0x74);
    data.push(0x61);
    proof {
        assert(data@ =~= data_text());
    }
    if bytes_eq(s, &data) {
        return AvatarScheme::DataUrl;
    }
    let mut ipfs: Vec<u8> = Vec::new();
    ipfs.push(0x69);
    ipfs.push(0x70);
    ipfs.push(0x66);
    ipfs.push(0x73);
    proof {
        assert(ipfs@ =~= ipfs_text());
    }
    if bytes_eq(s, &ipfs) {
        return AvatarScheme::Ipfs;
    }
    let mut eip: Vec<u8> = Vec::new();
    eip.push(0x65);
    eip.push(0x69);
    eip.push(0x70);
    eip.push(0x31);
    eip.push(0x35);
    eip.push(0x35);
    proof {
        assert(eip@ =~= eip155_text());
    }
    if bytes_eq(s, &eip) {
        return AvatarScheme::Eip155;
    }
    AvatarScheme::Other
}

/// The two token standards the avatar flow knows.
#[derive(PartialEq, Eq, Structural, Clone, Copy, Debug)]
pub enum NftKind {
    Erc721,
    Erc1155,
}

/// A token named by an avatar record: its standard, contract and id word.
pub struct NftToken {
    pub kind: NftKind,
    pub contract: Address,
    pub id: Vec<u8>,
}

/// Mathematical model of a named token.
pub struct NftModel {
    pub kind: NftKind,
    pub contract: Seq<u8>,
    pub id: Seq<u8>,
}

impl View for NftToken {
    type V = NftModel;

    open spec fn view(&self) -> NftModel {
        NftModel { kind: self.kind, contract: self.contract@, id: self.id@ }
    }
}

impl NftToken {
    pub open spec fn wf(&self) -> bool {
        self.contract.wf() && self.id@.len() == 32
    }
}

pub open spec fn eip155_prefix() -> Seq<u8> {
    seq![0x65u8, 0x69u8, 0x70u8, 0x31u8, 0x35u8, 0x35u8, 0x3au8]
}

pub open spec fn chain_one_prefix() -> Seq<u8> {
    seq![0x31u8, 0x2fu8]
}

pub open spec fn zerox_prefix() -> Seq<u8> {
    seq![0x30u8, 0x78u8]
}

pub open spec fn erc721_label() -> Seq<u8> {
    seq![0x65u8, 0x72u8, 0x63u8, 0x37u8, 0x32u8, 0x31u8]
}

pub open spec fn erc1155_label() -> Seq<u8> {
    seq![0x65u8, 0x72u8, 0x63u8, 0x31u8, 0x31u8, 0x35u8, 0x35u8]
}

/// Relies on ethers_core's U256: the decimal parser accepts exactly the
/// digit-only texts whose value is below 2^256, and the big-endian writer
/// spells that value as one 32-byte word.
#[verifier::external_body]
fn u256_word_from_dec(s: &Vec<u8>) -> (r: Option<Vec<u8>>)
    ensures
        match r {
            Option::Some(w) => dec_text_valid_u256(s@) && w@ == word_of(dec_text_val(s@)),
            Option::None => !dec_text_valid_u256(s@),
        },
{
    let t = match std::str::from_utf8(s) {
        Ok(t) => t,
        Err(_) => return None,
    };
    match ethers_core::types::U256::from_dec_str(t) {
        Ok(v) => {
            let mut w = [0u8; 32];
            v.to_big_endian(&mut w);
            Some(w.to_vec())
        },
        Err(_) => None,
    }
}

/// How a token path is read: the chain marker trimmed off, one colon
/// between standard and rest, one slash between contract and id; the
/// contract as forty hex digits, the id as a decimal word.
pub open spec fn parse_nft_model(path: Seq<u8>) -> Option<NftModel> {
    let t = trim_prefix_rep(trim_prefix_rep(path, eip155_prefix()), chain_one_prefix());
    if count_byte(t, 0x3a) != 1 {
        Option::None
    } else {
        let k = first_byte(t, 0x3a);
        let kind_txt = t.subrange(0, k);
        let inner = t.skip(k + 1);
        if kind_txt != erc721_label() && kind_txt != erc1155_label() {
            Option::None
        } else {
            let kind = if kind_txt == erc721_label() {
                NftKind::Erc721
            } else {
                NftKind::Erc1155
            };
            if count_byte(inner, 0x2f) != 1 {
                Option::None
            } else {
                let j = first_byte(inner, 0x2f);
                let ctxt = trim_prefix_rep(inner.subrange(0, j), zerox_prefix());
                let idtxt = inner.skip(j + 1);
                if ctxt.len() == 40 && hex_decode_ok(ctxt) && dec_text_valid_u256(idtxt) {
                    Option::Some(
                        NftModel {
                            kind,
                            contract: hex_decode_of(ctxt),
                            id: word_of(dec_text_val(idtxt)),
                        },
                    )
                } else {
                    Option::None
                }
            }
        }
    }
}

/// Reads a token out of an avatar URL's path.
pub fn parse_nft_path(path: &Vec<u8>) -> (r: Option<NftToken>)
    ensures
        match r {
            Option::Some(tok) => parse_nft_model(path@) == Option::Some(tok@) && tok.wf(),
            Option::None => parse_nft_model(path@) is None,
        },
{
    let mut pre1: Vec<u8> = Vec::new();
    pre1.push(0x65);
    pre1.push(0x69);
    pre1.push(0x70);
    pre1.push(0x31);
    pre1.push(0x35);
    pre1.push(0x35);
    pre1.push(0x3a);
    proof {
        assert(pre1@ =~= eip155_prefix());
    }
    let mut pre2: Vec<u8> = Vec::new();
    pre2.push(0x31);
    pre2.push(0x2f);
    proof {
        assert(pre2@ =~= chain_one_prefix());
    }
    let step1 = strip_prefix_rep(path, &pre1);
    let t = strip_prefix_rep(&step1, &pre2);
    if count_byte_occurrences(&t, 0x3a) != 1 {
        return Option::None;
    }
    proof {
        lemma_first_byte_bounds(t@, 0x3a);
        lemma_count_positive_means_found(t@, 0x3a);
    }
    let k = find_byte(&t, 0x3a);
    let kind_txt = sub_bytes(&t, 0, k);
    let inner = sub_bytes(&t, k + 1, t.len());
    proof {
        assert(inner@ =~= t@.skip(k + 1));
    }
    let mut l721: Vec<u8> = Vec::new();
    l721.push(0x65);
    l721.push(0x72);
    l721.push(0x63);
    l721.push(0x37);
    l721.push(0x32);
    l721.push(0x31);
    proof {
        assert(l721@ =~= erc721_label());
    }
    let mut l1155: Vec<u8> = Vec::new();
    l1155.push(0x65);
    l1155.push(0x72);
    l1155.push(0x63);
    l1155.push(0x31);
    l1155.push(0x31);
    l1155.push(0x35);
    l1155.push(0x35);
    proof {
        assert(l1155@ =~= erc1155_label());
    }
    let is721 = bytes_eq(&kind_txt, &l721);
    let is1155 = bytes_eq(&kind_txt, &l1155);
    if !is721 && !is1155 {
        return Option::None;
    }
    let kind = if is721 {
        NftKind::Erc721
    } else {
        NftKind::Erc1155
    };
    if count_byte_occurrences(&inner, 0x2f) != 1 {
        return Option::None;
    }
    proof {
        lemma_first_byte_bounds(inner@, 0x2f);
        lemma_count_positive_means_found(inner@, 0x2f);
    }
    let j = find_byte(&inner, 0x2f);
    let craw = sub_bytes(&inner, 0, j);
    let idtxt = sub_bytes(&inner, j + 1, inner.len());
    proof {
        assert(idtxt@ =~= inner@.skip(j + 1));
    }
    let mut zx: Vec<u8> = Vec::new();
    zx.push(0x30);
    zx.push(0x78);
    proof {
        assert(zx@ =~= zerox_prefix());
    }
    let ctxt = strip_prefix_rep(&craw, &zx);
    if ctxt.len() != 40 {
        return Option::None;
    }
    let contract_bytes = match hex_decode_bytes(&ctxt) {
        Option::Some(b) => b,
        Option::None => {
            return Option::None;
        },
    };
    let id = match u256_word_from_dec(&idtxt) {
        Option::Some(w) => w,
        Option::None => {
            return Option::None;
        },
    };
    proof {
        assert(hex_decode_of(ctxt@).len() == 20);
        assert(word_of(dec_text_val(idtxt@)).len() == 32);
    }
    Option::Some(NftToken { kind, contract: Address { bytes: contract_bytes }, id })
}

/// A byte that is counted once is found before the end.
proof fn lemma_count_positive_means_found(s: Seq<u8>, c: u8)
    requires
        count_byte(s, c) >= 1,
    ensures
        first_byte(s, c) < s.len(),
    decreases s.len(),
{
    lemma_first_byte_bounds(s, c);
    if first_byte(s, c) >= s.len() {
        lemma_no_byte_means_zero_count(s, c);
    }
}

proof fn lemma_no_byte_means_zero_count(s: Seq<u8>, c: u8)
    requires
        forall|k: int| 0 <= k < s.len() ==> s[k] != c,
    ensures
        count_byte(s, c) == 0,
    decreases s.len(),
{
    if s.len() > 0 {
        lemma_no_byte_means_zero_count(s.drop_last(), c);
    }
}

/// The ownership-check payload for a token of the single-owner standard.
pub open spec fn erc721_owner_data(id: Seq<u8>) -> Seq<u8> {
    seq![0x63u8, 0x52u8, 0x21u8, 0x1eu8] + id
}

/// Builds the ownership-check call for a single-owner token.
pub fn erc721_owner_call(token: &NftToken) -> (r: ContractCall)
    requires
        token.wf(),
    ensures
        r.wf(),
        r.target@ == TargetModel::Addr(token.contract@),
        r.data@ == erc721_owner_data(token.id@),
        r.value == 0,
{
    let mut data: Vec<u8> = Vec::new();
    data.push(0x63);
    data.push(0x52);
    data.push(0x21);
    data.push(0x1e);
    extend_bytes(&mut data, &token.id);
    proof {
        assert(data@ =~= erc721_owner_data(token.id@));
    }
    ContractCall { target: CallTarget::Addr(token.contract.dup()), data, value: 0 }
}

/// The balance-check payload for a token of the multi-owner standard.
pub open spec fn erc1155_balance_data(owner: Seq<u8>, id: Seq<u8>) -> Seq<u8> {
    seq![0x00u8, 0xfdu8, 0xd5u8, 0x8eu8] + zeros(12) + owner + id
}

/// Builds the balance-check call for a multi-owner token.
pub fn erc1155_balance_call(token: &NftToken, owner: &Address) -> (r: ContractCall)
    requires
        token.wf(),
        owner.wf(),
    ensures
        r.wf(),
        r.target@ == TargetModel::Addr(token.contract@),
        r.data@ == erc1155_balance_data(owner@, token.id@),
        r.value == 0,
{
    let mut data: Vec<u8> = Vec::new();
    data.push(0x00);
    data.push(0xfd);
    data.push(0xd5);
    data.push(0x8e);
    let mut i: usize = 0;
    while i < 12
        invariant
            i <= 12,
            data@.len() == 4 + i,
            forall|k: int| 0 <= k < data@.len() ==> data@[k] == (seq![
                0x00u8,
                0xfdu8,
                0xd5u8,
                0x8eu8,
            ] + zeros(12))[k],
        decreases 12 - i,
    {
        data.push(0);
        i += 1;
    }
    extend_bytes(&mut data, &owner.bytes);
    extend_bytes(&mut data, &token.id);
    proof {
        assert(data@ =~= erc1155_balance_data(owner@, token.id@));
    }
    ContractCall { target: CallTarget::Addr(token.contract.dup()), data, value: 0 }
}

/// Whether an ownership answer names the expected owner; an answer too short
/// to hold an address word will not decode.
pub fn nft_owner_matches(data: &Vec<u8>, owner: &Address) -> (r: Result<bool, CCIPMiddlewareError>)
    ensures
        match r {
            Result::Ok(b) => data@.len() >= 32 && b == (data@.subrange(12, 32) == owner@),
            Result::Err(e) => data@.len() < 32 && e@ == ErrorModel::Decode,
        },
{
    if data.len() < 32 {
        return Result::Err(CCIPMiddlewareError::DecodeError);
    }
    let word = Address { bytes: sub_bytes(data, 12, 32) };
    Result::Ok(word.same_as(owner))
}

/// Whether a balance answer reports anything held: its first word is not
/// zero. An answer too short to hold a word will not decode.
pub fn nft_balance_positive(data: &Vec<u8>) -> (r: Result<bool, CCIPMiddlewareError>)
    ensures
        match r {
            Result::Ok(b) => data@.len() >= 32 && b == !all_zero(data@.subrange(0, 32)),
            Result::Err(e) => data@.len() < 32 && e@ == ErrorModel::Decode,
        },
{
    if data.len() < 32 {
        return Result::Err(CCIPMiddlewareError::DecodeError);
    }
    let w = Address { bytes: sub_bytes(data, 0, 32) };
    Result::Ok(!w.is_zero())
}

pub open spec fn ipfs_scheme_prefix() -> Seq<u8> {
    seq![0x69u8, 0x70u8, 0x66u8, 0x73u8, 0x3au8, 0x2fu8, 0x2fu8]
}

pub open spec fn ipfs_path_prefix() -> Seq<u8> {
    seq![0x69u8, 0x70u8, 0x66u8, 0x73u8, 0x2fu8]
}

/// The object path of an IPFS URL: the text with its scheme marker, and any
/// leading `ipfs/` steps, removed; a gateway link is this path appended to
/// the gateway's base.
pub fn ipfs_object_path(url_text: &Vec<u8>) -> (r: Vec<u8>)
    ensures
        r@ == trim_prefix_rep(trim_prefix_rep(url_text@, ipfs_scheme_prefix()), ipfs_path_prefix()),
{
    let mut p1: Vec<u8> = Vec::new();
    p1.push(0x69);
    p1.push(0x70);
    p1.push(0x66);
    p1.push(0x73);
    p1.push(0x3a);
    p1.push(0x2f);
    p1.push(0x2f);
    proof {
        assert(p1@ =~= ipfs_scheme_prefix());
    }
    let mut p2: Vec<u8> = Vec::new();
    p2.push(0x69);
    p2.push(0x70);
    p2.push(0x66);
    p2.push(0x73);
    p2.push(0x2f);
    proof {
        assert(p2@ =~= ipfs_path_prefix());
    }
    let step1 = strip_prefix_rep(url_text, &p1);
    strip_prefix_rep(&step1, &p2)
}

} // verus!

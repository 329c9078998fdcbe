use vstd::prelude::*;
use crate::abicode::{
    dec_bytes_at, dec_len_at, dec_str_array_at, enc_bytes, enc_str_array, lemma_dec_bytes_embedded,
    lemma_dec_len_embedded, lemma_dec_str_array_embedded, lemma_pad_len, lemma_str_array_len,
    lemma_url_offset_mono, read_bytes_at, read_len_at, read_str_array_at, url_offset, views,
    word_of, write_word, zeros,
};
use crate::address::Address;
use crate::bytesutil::{extend_bytes, sub_bytes};

verus! {

/// The four bytes announcing an off-chain-lookup signal.
pub open spec fn lookup_selector() -> Seq<u8> {
    seq![0x55u8, 0x6fu8, 0x18u8, 0x30u8]
}

/// Whether a byte string has the shape of an off-chain-lookup payload: the
/// announcing selector, then a whole number of 32-byte words.
pub open spec fn lookup_shape(s: Seq<u8>) -> bool {
    s.len() >= 4 && s.subrange(0, 4) == lookup_selector() && (s.len() - 4) % 32 == 0
}

/// Mathematical model of a decoded off-chain-lookup signal.
pub struct SignalModel {
    pub sender: Seq<u8>,
    pub urls: Seq<Seq<u8>>,
    pub call_data: Seq<u8>,
    pub callback_selector: Seq<u8>,
    pub extra_data: Seq<u8>,
}

/// The ABI encoding of the signal tuple
/// (address, string[], bytes, bytes4, bytes).
pub open spec fn enc_signal_tuple(f: SignalModel) -> Seq<u8> {
    let sa = enc_str_array(f.urls);
    let cd = enc_bytes(f.call_data);
    let ex = enc_bytes(f.extra_data);
    zeros(12) + f.sender + word_of(160) + word_of((160 + sa.len()) as nat) + f.callback_selector
        + zeros(28) + word_of((160 + sa.len() + cd.len()) as nat) + sa + cd + ex
}

/// Reading the signal tuple back: fixed head words, then the three dynamic
/// parts at the offsets the head names.
pub open spec fn dec_signal_tuple(s: Seq<u8>) -> Option<SignalModel> {
    if s.len() < 160 {
        Option::None
    } else {
        match dec_len_at(s, 32) {
            Option::None => Option::None,
            Option::Some(ou) => match dec_len_at(s, 64) {
                Option::None => Option::None,
                Option::Some(oc) => match dec_len_at(s, 128) {
                    Option::None => Option::None,
                    Option::Some(oe) => match dec_str_array_at(s, ou as int) {
                        Option::None => Option::None,
                        Option::Some(urls) => match dec_bytes_at(s, oc as int) {
                            Option::None => Option::None,
                            Option::Some(cd) => match dec_bytes_at(s, oe as int) {
                                Option::None => Option::None,
                                Option::Some(ex) => Option::Some(
                                    SignalModel {
                                        sender: s.subrange(12, 32),
                                        urls: urls,
                                        call_data: cd,
                                        callback_selector: s.subrange(96, 100),
                                        extra_data: ex,
                                    },
                                ),
                            },
                        },
                    },
                },
            },
        }
    }
}

/// Whether the encoded signal, selector included, fits in memory.
pub open spec fn signal_fits(f: SignalModel) -> bool {
    enc_signal_tuple(f).len() + 4 <= usize::MAX
}

/// A decoded off-chain-lookup signal: where to fetch, and how to call back.
pub struct OffchainLookupSignal {
    pub sender: Address,
    pub urls: Vec<Vec<u8>>,
    pub call_data: Vec<u8>,
    pub callback_selector: Vec<u8>,
    pub extra_data: Vec<u8>,
}

impl View for OffchainLookupSignal {
    type V = SignalModel;

    open spec fn view(&self) -> SignalModel {
        SignalModel {
            sender: self.sender@,
            urls: views(self.urls@),
            call_data: self.call_data@,
            callback_selector: self.callback_selector@,
            extra_data: self.extra_data@,
        }
    }
}

impl OffchainLookupSignal {
    pub open spec fn wf(&self) -> bool {
        self.sender.wf() && self.callback_selector@.len() == 4
    }

    /// The full payload: announcing selector, then the ABI tuple.
    pub fn encode_payload(&self) -> (r: Vec<u8>)
        requires
            self.wf(),
            signal_fits(self@),
        ensures
            r@ == lookup_selector() + enc_signal_tuple(self@),
            lookup_shape(r@),
    {
        proof {
            lemma_str_array_len(views(self.urls@));
            lemma_pad_len(self.call_data@.len());
            lemma_pad_len(self.extra_data@.len());
        }
        let sa = crate::abicode::encode_str_array(&self.urls);
        let mut cdb: Vec<u8> = Vec::new();
        crate::abicode::push_bytes_block(&mut cdb, &self.call_data);
        let mut exb: Vec<u8> = Vec::new();
        crate::abicode::push_bytes_block(&mut exb, &self.extra_data);
        let mut r: Vec<u8> = Vec::new();
        r.push(0x55);
        r.push(0x6f);
        r.push(0x18);
        r.push(0x30);
        let ghost sel = r@;
        proof {
            assert(sel =~= lookup_selector());
        }
        let mut i: usize = 0;
        while i < 12
            invariant
                i <= 12,
                r@ == lookup_selector() + zeros(i as nat),
            decreases 12 - i,
        {
            r.push(0);
            proof {
                assert(lookup_selector() + zeros(i as nat) + seq![0u8] =~= lookup_selector()
                    + zeros((i + 1) as nat));
            }
            i += 1;
        }
        extend_bytes(&mut r, &self.sender.bytes);
        let w1 = write_word(160);
        extend_bytes(&mut r, &w1);
        let w2 = write_word(160 + sa.len());
        extend_bytes(&mut r, &w2);
        extend_bytes(&mut r, &self.callback_selector);
        let ghost mid = r@;
        let mut i: usize = 0;
        while i < 28
            invariant
                i <= 28,
                r@ == mid + zeros(i as nat),
            decreases 28 - i,
        {
            r.push(0);
            proof {
                assert(mid + zeros(i as nat) + seq![0u8] =~= mid + zeros((i + 1) as nat));
            }
            i += 1;
        }
        let w3 = write_word(160 + sa.len() + cdb.len());
        extend_bytes(&mut r, &w3);
        extend_bytes(&mut r, &sa);
        extend_bytes(&mut r, &cdb);
        extend_bytes(&mut r, &exb);
        proof {
            assert(r@ =~= lookup_selector() + enc_signal_tuple(self@));
            assert(r@.subrange(0, 4) =~= lookup_selector());
            crate::abicode::lemma_url_offset_mod(views(self.urls@), views(self.urls@).len() as int);
            let la = enc_str_array(views(self.urls@)).len() as int;
            let lc = enc_bytes(self.call_data@).len() as int;
            let le = enc_bytes(self.extra_data@).len() as int;
            assert(la % 32 == 0);
            assert(lc % 32 == 0 && le % 32 == 0) by {
                vstd::arithmetic::div_mod::lemma_fundamental_div_mod_converse(
                    lc,
                    32,
                    lc / 32,
                    0,
                );
            }
            assert(r@.len() - 4 == 160 + la + lc + le);
            assert((160 + la + lc + le) % 32 == 0) by {
                vstd::arithmetic::div_mod::lemma_fundamental_div_mod_converse(
                    160 + la + lc + le,
                    32,
                    5 + la / 32 + lc / 32 + le / 32,
                    0,
                );
            }
        }
        r
    }
}

/// Reads the signal tuple. Mirrors `dec_signal_tuple`.
pub fn decode_signal_tuple(s: &Vec<u8>) -> (r: Option<OffchainLookupSignal>)
    ensures
        match r {
            Option::Some(sig) => dec_signal_tuple(s@) == Option::Some(sig@) && sig.wf(),
            Option::None => dec_signal_tuple(s@) is None,
        },
{
    if s.len() < 160 {
        return Option::None;
    }
    let ou: usize = match read_len_at(s, 32) {
        Option::None => {
            return Option::None;
        },
        Option::Some(v) => v,
    };
    let oc: usize = match read_len_at(s, 64) {
        Option::None => {
            return Option::None;
        },
        Option::Some(v) => v,
    };
    let oe: usize = match read_len_at(s, 128) {
        Option::None => {
            return Option::None;
        },
        Option::Some(v) => v,
    };
    let urls: Vec<Vec<u8>> = match read_str_array_at(s, ou) {
        Option::None => {
            return Option::None;
        },
        Option::Some(v) => v,
    };
    let cd: Vec<u8> = match read_bytes_at(s, oc) {
        Option::None => {
            return Option::None;
        },
        Option::Some(v) => v,
    };
    let ex: Vec<u8> = match read_bytes_at(s, oe) {
        Option::None => {
            return Option::None;
        },
        Option::Some(v) => v,
    };
    let sender = Address { bytes: sub_bytes(s, 12, 32) };
    let cb = sub_bytes(s, 96, 100);
    Option::Some(
        OffchainLookupSignal {
            sender,
            urls,
            call_data: cd,
            callback_selector: cb,
            extra_data: ex,
        },
    )
}

/// Whether a byte string announces an off-chain lookup.
pub fn is_lookup_shape(s: &Vec<u8>) -> (r: bool)
    ensures
        r == lookup_shape(s@),
{
    if s.len() < 4 {
        return false;
    }
    if s[0] != 0x55 || s[1] != 0x6f || s[2] != 0x18 || s[3] != 0x30 {
        proof {
            if s@.subrange(0, 4) == lookup_selector() {
                assert(s@[0] == 0x55 && s@[1] == 0x6f && s@[2] == 0x18 && s@[3] == 0x30) by {
                    assert(s@.subrange(0, 4)[0] == s@[0]);
                    assert(s@.subrange(0, 4)[1] == s@[1]);
                    assert(s@.subrange(0, 4)[2] == s@[2]);
                    assert(s@.subrange(0, 4)[3] == s@[3]);
                }
            }
        }
        return false;
    }
    proof {
        assert(s@.subrange(0, 4) =~= lookup_selector());
    }
    (s.len() - 4) % 32 == 0
}

/// Encoding a well-formed signal and decoding the payload's tuple gives the
/// same sender, urls, call data, callback selector and extra data back.
pub proof fn lemma_signal_round_trip(f: SignalModel)
    requires
        f.sender.len() == 20,
        f.callback_selector.len() == 4,
        enc_signal_tuple(f).len() <= usize::MAX,
    ensures
        dec_signal_tuple(enc_signal_tuple(f)) == Option::Some(f),
{
    let s = enc_signal_tuple(f);
    let sa = enc_str_array(f.urls);
    let cd = enc_bytes(f.call_data);
    let ex = enc_bytes(f.extra_data);
    lemma_str_array_len(f.urls);
    lemma_url_offset_mono(f.urls, 0, f.urls.len() as int);
    lemma_pad_len(f.call_data.len());
    lemma_pad_len(f.extra_data.len());
    assert(s.len() == 160 + sa.len() + cd.len() + ex.len());
    let off_cd = (160 + sa.len()) as nat;
    let off_ex = (160 + sa.len() + cd.len()) as nat;
    assert(s.subrange(32, 64) =~= word_of(160));
    lemma_dec_len_embedded(s, 32, 160);
    assert(s.subrange(64, 96) =~= word_of(off_cd));
    lemma_dec_len_embedded(s, 64, off_cd);
    assert(s.subrange(128, 160) =~= word_of(off_ex));
    lemma_dec_len_embedded(s, 128, off_ex);
    assert(s.subrange(160, 160 + sa.len() as int) =~= sa);
    lemma_dec_str_array_embedded(s, 160, f.urls);
    assert(s.subrange(off_cd as int, off_cd + cd.len() as int) =~= cd);
    lemma_dec_bytes_embedded(s, off_cd as int, f.call_data);
    assert(s.subrange(off_ex as int, off_ex + ex.len() as int) =~= ex);
    lemma_dec_bytes_embedded(s, off_ex as int, f.extra_data);
    assert(s.subrange(12, 32) =~= f.sender);
    assert(s.subrange(96, 100) =~= f.callback_selector);
}

} // verus!

use vstd::prelude::*;
use vstd::assert_seqs_equal;
use vstd::arithmetic::div_mod::{
    lemma_breakdown, lemma_div_denominator, lemma_small_mod, lemma_fundamental_div_mod,
    lemma_fundamental_div_mod_converse,
};
use crate::bytesutil::{extend_bytes, sub_bytes};

verus! {

/// 256 to the power `k`.
pub open spec fn pow256(k: nat) -> nat
    decreases k,
{
    if k == 0 {
        1
    } else {
        256 * pow256((k - 1) as nat)
    }
}

/// The 32-byte big-endian word holding `n` (modulo 2^256).
pub open spec fn word_of(n: nat) -> Seq<u8> {
    Seq::new(32, |i: int| ((n / pow256((31 - i) as nat)) % 256) as u8)
}

/// The number a big-endian byte string spells.
pub open spec fn be_val(s: Seq<u8>) -> nat
    decreases s.len(),
{
    if s.len() == 0 {
        0
    } else {
        (be_val(s.drop_last()) * 256 + s.last()) as nat
    }
}

pub proof fn lemma_pow256_pos(k: nat)
    ensures
        pow256(k) >= 1,
    decreases k,
{
    if k > 0 {
        lemma_pow256_pos((k - 1) as nat);
    }
}

/// Reading back a prefix of a word: the first `k` bytes spell
/// `n / 256^(32-k)` modulo `256^k`.
proof fn lemma_word_prefix_val(n: nat, k: int)
    requires
        0 <= k <= 32,
    ensures
        be_val(word_of(n).subrange(0, k)) == (n / pow256((32 - k) as nat)) % pow256(k as nat),
    decreases k,
{
    let w = word_of(n);
    lemma_pow256_pos(k as nat);
    if k == 0 {
        lemma_small_mod(0, 1);
    } else {
        lemma_word_prefix_val(n, k - 1);
        let p = w.subrange(0, k);
        assert(p.drop_last() =~= w.subrange(0, k - 1));
        assert(p.last() == w[k - 1]);
        let q = pow256((32 - k) as nat);  // divisor below the last byte read
        let m = n / q;
        lemma_pow256_pos(q as nat);
        lemma_pow256_pos((32 - k) as nat);
        lemma_pow256_pos((k - 1) as nat);
        assert(pow256((32 - (k - 1)) as nat) == 256 * q);
        lemma_div_denominator(n as int, q as int, 256);
        assert(n / pow256((33 - k) as nat) == m / 256);
        assert(w[k - 1] == (m % 256) as u8);
        assert(be_val(p) == ((m / 256) % pow256((k - 1) as nat)) * 256 + m % 256);
        lemma_breakdown(m as int, 256, pow256((k - 1) as nat) as int);
        assert(m % (256 * pow256((k - 1) as nat)) == 256 * ((m / 256) % pow256((k - 1) as nat)) + m
            % 256);
        assert(pow256(k as nat) == 256 * pow256((k - 1) as nat));
    }
}

/// A value below 2^256 survives the trip through its word.
pub proof fn lemma_word_round_trip(n: nat)
    requires
        n < pow256(32),
    ensures
        word_of(n).len() == 32,
        be_val(word_of(n)) == n,
{
    lemma_word_prefix_val(n, 32);
    assert(word_of(n).subrange(0, 32) =~= word_of(n));
    assert(pow256(0) == 1);
    vstd::arithmetic::div_mod::lemma_div_basics(n as int);
    lemma_small_mod(n, pow256(32));
}

/// A word's value is bounded by 2^256.
pub proof fn lemma_be_val_bound(s: Seq<u8>)
    ensures
        be_val(s) < pow256(s.len()),
    decreases s.len(),
{
    if s.len() == 0 {
    } else {
        lemma_be_val_bound(s.drop_last());
    }
}

/// Zero bytes in front change nothing about the value.
pub proof fn lemma_be_val_zero_prefix(s: Seq<u8>, k: int)
    requires
        0 <= k <= s.len(),
        forall|i: int| 0 <= i < k ==> s[i] == 0,
    ensures
        be_val(s) == be_val(s.subrange(k, s.len() as int)),
    decreases s.len(),
{
    if s.len() == 0 || k == s.len() {
        if k == s.len() {
            lemma_be_val_all_zero(s);
            assert(s.subrange(k, s.len() as int).len() == 0);
        }
    } else {
        assert(s.drop_last() =~= s.subrange(0, s.len() - 1));
        lemma_be_val_zero_prefix(s.drop_last(), k);
        assert(s.drop_last().subrange(k, s.len() - 1) =~= s.subrange(
            k,
            s.len() as int,
        ).drop_last());
        assert(s.subrange(k, s.len() as int).last() == s.last());
    }
}

/// An all-zero string spells zero.
proof fn lemma_be_val_all_zero(s: Seq<u8>)
    requires
        forall|i: int| 0 <= i < s.len() ==> s[i] == 0,
    ensures
        be_val(s) == 0,
    decreases s.len(),
{
    if s.len() > 0 {
        lemma_be_val_all_zero(s.drop_last());
    }
}

/// A nonzero byte anywhere forces at least its place value.
pub proof fn lemma_be_val_nonzero_at(s: Seq<u8>, i: int)
    requires
        0 <= i < s.len(),
        s[i] != 0,
    ensures
        be_val(s) >= pow256((s.len() - 1 - i) as nat),
    decreases s.len(),
{
    if i == s.len() - 1 {
        lemma_be_val_bound(s.drop_last());
        assert(pow256(0) == 1);
    } else {
        lemma_be_val_nonzero_at(s.drop_last(), i);
        let k = (s.len() - 1 - i) as nat;
        assert(pow256(k) == 256 * pow256((k - 1) as nat));
        assert(be_val(s) == be_val(s.drop_last()) * 256 + s.last());
    }
}

/// Appending one byte multiplies the value by 256 and adds the byte.
proof fn lemma_be_val_push(s: Seq<u8>, b: u8)
    ensures
        be_val(s.push(b)) == be_val(s) * 256 + b,
{
    assert(s.push(b).drop_last() =~= s);
    assert(s.push(b).last() == b);
}

/// Writes `n` as a 32-byte big-endian word.
pub fn write_word(n: usize) -> (r: Vec<u8>)
    ensures
        r@ == word_of(n as nat),
{
    let mut w: Vec<u8> = Vec::new();
    let mut i: usize = 0;
    while i < 32
        invariant
            i <= 32,
            w@.len() == i,
            forall|j: int| 0 <= j < i ==> w@[j] == word_of(n as nat)[j],
        decreases 32 - i,
    {
        let ghost t = (31 - i) as nat;
        let mut v: usize = n;
        let mut k: usize = 0;
        proof {
            assert(pow256(0) == 1);
            vstd::arithmetic::div_mod::lemma_div_basics(n as int);
        }
        // strip the 31 - i low bytes off, then read the lowest one
        while k < 31 - i
            invariant
                i < 32,
                k <= 31 - i,
                v as nat == n as nat / pow256(k as nat),
            decreases 31 - i - k,
        {
            proof {
                lemma_pow256_pos(k as nat);
                lemma_div_denominator(n as int, pow256(k as nat) as int, 256);
            }
            v = v / 256;
            k += 1;
        }
        w.push((v % 256) as u8);
        i += 1;
    }
    proof {
        assert_seqs_equal!(w@ == word_of(n as nat));
    }
    w
}

/// Reads the word at `p` as a length, refusing values above usize::MAX.
/// Mirrors `dec_len_at`.
pub fn read_len_at(s: &Vec<u8>, p: usize) -> (r: Option<usize>)
    ensures
        dec_len_at(s@, p as int) is Some <==> r is Some,
        r is Some ==> dec_len_at(s@, p as int) == Some(r.unwrap() as nat),
{
    if s.len() < 32 || p > s.len() - 32 {
        return None;
    }
    let ghost w = s@.subrange(p as int, p + 32);
    // a value that fits in usize has zeros everywhere above its low 8 bytes
    let mut i: usize = 0;
    while i < 24
        invariant
            p + 32 <= s.len(),
            i <= 24,
            w == s@.subrange(p as int, p + 32),
            forall|j: int| 0 <= j < i ==> w[j] == 0,
        decreases 24 - i,
    {
        if s[p + i] != 0 {
            proof {
                lemma_be_val_nonzero_at(w, i as int);
                lemma_pow256_mono(8, (31 - i) as nat);
                lemma_usize_max_below_pow256_8();
            }
            return None;
        }
        i += 1;
    }
    let mut v: u64 = 0;
    let mut k: usize = 0;
    while k < 8
        invariant
            p + 32 <= s.len(),
            k <= 8,
            w == s@.subrange(p as int, p + 32),
            v as nat == be_val(w.subrange(24, 24 + k)),
            (v as nat) < pow256(k as nat),
        decreases 8 - k,
    {
        proof {
            lemma_be_val_push(w.subrange(24, 24 + k), w[24 + k]);
            assert(w.subrange(24, 24 + k).push(w[24 + k]) =~= w.subrange(24, 24 + k + 1));
            lemma_pow256_8_value();
            lemma_pow256_mono(k as nat + 1, 8);
        }
        v = v * 256 + (s[p + 24 + k] as u64);
        k += 1;
    }
    proof {
        lemma_be_val_zero_prefix(w, 24);
        assert(w.subrange(24, 32) =~= w.subrange(24, 24 + 8int));
        lemma_pow256_8_value();
    }
    if v <= (usize::MAX as u64) {
        Some(v as usize)
    } else {
        None
    }
}

pub proof fn lemma_pow256_8_value()
    ensures
        pow256(8) == 0x1_0000_0000_0000_0000,
{
    assert(pow256(0) == 1);
    assert(pow256(1) == 0x100);
    assert(pow256(2) == 0x1_0000);
    assert(pow256(3) == 0x100_0000);
    assert(pow256(4) == 0x1_0000_0000);
    assert(pow256(5) == 0x100_0000_0000);
    assert(pow256(6) == 0x1_0000_0000_0000);
    assert(pow256(7) == 0x100_0000_0000_0000);
    assert(pow256(8) == 0x1_0000_0000_0000_0000);
}

pub proof fn lemma_pow256_mono(a: nat, b: nat)
    requires
        a <= b,
    ensures
        pow256(a) <= pow256(b),
    decreases b,
{
    if a < b {
        lemma_pow256_mono(a, (b - 1) as nat);
        lemma_pow256_pos((b - 1) as nat);
    }
}

proof fn lemma_usize_max_below_pow256_8()
    ensures
        usize::MAX < pow256(8),
{
    lemma_pow256_8_value();
}

/// The length word at `p`, when it lies inside `s` and fits a usize.
pub open spec fn dec_len_at(s: Seq<u8>, p: int) -> Option<nat> {
    if 0 <= p && p + 32 <= s.len() && be_val(s.subrange(p, p + 32)) <= usize::MAX {
        Some(be_val(s.subrange(p, p + 32)))
    } else {
        None
    }
}

/// A word standing at `p` in `s` is read back as its value.
pub proof fn lemma_dec_len_embedded(s: Seq<u8>, p: int, n: nat)
    requires
        0 <= p,
        p + 32 <= s.len(),
        n <= usize::MAX,
        s.subrange(p, p + 32) == word_of(n),
    ensures
        dec_len_at(s, p) == Some(n),
{
    lemma_usize_max_below_pow256_8();
    lemma_pow256_mono(8, 32);
    lemma_word_round_trip(n);
}

/// The padded length of a dynamic block: the next multiple of 32.
pub open spec fn pad_len(n: nat) -> nat {
    (((n + 31) / 32) * 32) as nat
}

/// `k` zero bytes.
pub open spec fn zeros(k: nat) -> Seq<u8> {
    Seq::new(k, |i: int| 0u8)
}

/// A dynamic `bytes` block: length word, data, zero padding to a word border.
pub open spec fn enc_bytes(b: Seq<u8>) -> Seq<u8> {
    word_of(b.len()) + b + zeros((pad_len(b.len()) - b.len()) as nat)
}

pub proof fn lemma_pad_len(n: nat)
    ensures
        n <= pad_len(n) < n + 32,
        pad_len(n) % 32 == 0,
{
    lemma_fundamental_div_mod((n + 31) as int, 32);
    let q = (n + 31) as int / 32;
    assert(pad_len(n) == q * 32);
    lemma_fundamental_div_mod_converse(q * 32, 32, q, 0);
}

/// The byte-string block at `p`: a length word, then that many data bytes.
pub open spec fn dec_bytes_at(s: Seq<u8>, p: int) -> Option<Seq<u8>> {
    match dec_len_at(s, p) {
        Option::None => Option::None,
        Option::Some(l) => if p + 32 + l <= s.len() {
            Option::Some(s.subrange(p + 32, p + 32 + l))
        } else {
            Option::None
        },
    }
}

/// A `bytes` block standing at `p` in `s` is read back as its data.
pub proof fn lemma_dec_bytes_embedded(s: Seq<u8>, p: int, x: Seq<u8>)
    requires
        0 <= p,
        x.len() <= usize::MAX,
        p + enc_bytes(x).len() <= s.len(),
        s.subrange(p, p + enc_bytes(x).len() as int) == enc_bytes(x),
    ensures
        dec_bytes_at(s, p) == Option::Some(x),
{
    lemma_pad_len(x.len());
    let e = enc_bytes(x);
    assert(s.subrange(p, p + 32) =~= e.subrange(0, 32));
    assert(e.subrange(0, 32) =~= word_of(x.len()));
    lemma_dec_len_embedded(s, p, x.len());
    assert(s.subrange(p + 32, p + 32 + x.len() as int) =~= x) by {
        assert forall|i: int| 0 <= i < x.len() implies s.subrange(
            p + 32,
            p + 32 + x.len() as int,
        )[i] == x[i] by {
            assert(s.subrange(p + 32, p + 32 + x.len() as int)[i] == s[p + 32 + i]);
            assert(s[p + 32 + i] == e[32 + i]);
            assert(e[32 + i] == x[i]);
        }
    }
}

/// Reads the byte-string block at `p`. Mirrors `dec_bytes_at`.
pub fn read_bytes_at(s: &Vec<u8>, p: usize) -> (r: Option<Vec<u8>>)
    ensures
        match r {
            Option::Some(v) => dec_bytes_at(s@, p as int) == Option::Some(v@),
            Option::None => dec_bytes_at(s@, p as int) is None,
        },
{
    match read_len_at(s, p) {
        Option::None => Option::None,
        Option::Some(l) => {
            if l > s.len() - (p + 32) {
                Option::None
            } else {
                Option::Some(sub_bytes(s, p + 32, p + 32 + l))
            }
        },
    }
}

/// Appends a `bytes` block for `b` to `dst`.
pub fn push_bytes_block(dst: &mut Vec<u8>, b: &Vec<u8>)
    ensures
        final(dst)@ == old(dst)@ + enc_bytes(b@),
{
    let w = write_word(b.len());
    extend_bytes(dst, &w);
    extend_bytes(dst, b);
    let padn: usize = if b.len() % 32 == 0 {
        0
    } else {
        32 - (b.len() % 32)
    };
    proof {
        lemma_pad_len(b@.len());
        lemma_fundamental_div_mod(b@.len() as int, 32);
        let q = b@.len() as int / 32;
        if b@.len() % 32 == 0 {
            lemma_fundamental_div_mod_converse((b@.len() + 31) as int, 32, q, 31);
        } else {
            lemma_fundamental_div_mod_converse(
                (b@.len() + 31) as int,
                32,
                q + 1,
                (b@.len() % 32) as int - 1,
            );
        }
        assert(padn == pad_len(b@.len()) - b@.len());
    }
    let ghost before = dst@;
    let mut j: usize = 0;
    while j < padn
        invariant
            j <= padn,
            dst@ == before + zeros(j as nat),
        decreases padn - j,
    {
        dst.push(0);
        proof {
            assert(before + zeros(j as nat) + seq![0u8] =~= before + zeros((j + 1) as nat));
        }
        j += 1;
    }
    proof {
        assert(old(dst)@ + word_of(b@.len()) + b@ + zeros((pad_len(b@.len()) - b@.len()) as nat)
            =~= old(dst)@ + enc_bytes(b@));
    }
}

/// Offset of element `i` of a string array, relative to the word after the
/// array's length word: the heads block, then every earlier tail.
pub open spec fn url_offset(us: Seq<Seq<u8>>, i: int) -> nat
    decreases i,
{
    if i <= 0 {
        (32 * us.len()) as nat
    } else {
        (url_offset(us, i - 1) + 32 + pad_len(us[i - 1].len())) as nat
    }
}

/// The heads block of a string array: one offset word per element.
pub open spec fn enc_heads(us: Seq<Seq<u8>>) -> Seq<u8> {
    Seq::new(us.len() * 32, |j: int| word_of(url_offset(us, j / 32))[j % 32])
}

/// The tails block of a string array: each element as a `bytes` block.
pub open spec fn enc_tails(us: Seq<Seq<u8>>) -> Seq<u8>
    decreases us.len(),
{
    if us.len() == 0 {
        Seq::empty()
    } else {
        enc_bytes(us[0]) + enc_tails(us.skip(1))
    }
}

/// A dynamic `string[]`: length word, heads, tails.
pub open spec fn enc_str_array(us: Seq<Seq<u8>>) -> Seq<u8> {
    word_of(us.len()) + enc_heads(us) + enc_tails(us)
}

/// Offsets grow with the element index.
pub proof fn lemma_url_offset_mono(us: Seq<Seq<u8>>, i: int, j: int)
    requires
        0 <= i <= j,
    ensures
        url_offset(us, i) <= url_offset(us, j),
    decreases j - i,
{
    if i < j {
        lemma_url_offset_mono(us, i, j - 1);
    }
}

/// Dropping the first element shifts every offset by that element's block.
proof fn lemma_url_offset_skip(us: Seq<Seq<u8>>, i: int)
    requires
        us.len() >= 1,
        0 <= i,
        i + 1 <= us.len(),
    ensures
        url_offset(us, i + 1) - 32 * us.len() == url_offset(us.skip(1), i) - 32 * (us.len() - 1)
            + 32 + pad_len(us[0].len()),
    decreases i,
{
    if i == 0 {
    } else {
        lemma_url_offset_skip(us, i - 1);
        assert(us.skip(1)[i - 1] == us[i]);
        assert(url_offset(us, i + 1) == url_offset(us, i) + 32 + pad_len(us[i].len()));
        assert(url_offset(us.skip(1), i) == url_offset(us.skip(1), i - 1) + 32 + pad_len(
            us.skip(1)[i - 1].len(),
        ));
    }
}

/// The tails block ends where the offset past the last element says.
pub proof fn lemma_tails_len(us: Seq<Seq<u8>>)
    ensures
        enc_tails(us).len() == url_offset(us, us.len() as int) - 32 * us.len(),
    decreases us.len(),
{
    if us.len() == 0 {
    } else {
        lemma_tails_len(us.skip(1));
        lemma_url_offset_skip(us, us.len() - 1);
        lemma_pad_len(us[0].len());
    }
}

/// Element `i`'s `bytes` block stands in the tails at its offset.
proof fn lemma_tail_at(us: Seq<Seq<u8>>, i: int)
    requires
        0 <= i < us.len(),
    ensures
        url_offset(us, i) - 32 * us.len() + enc_bytes(us[i]).len() <= enc_tails(us).len(),
        enc_tails(us).subrange(
            url_offset(us, i) - 32 * us.len(),
            url_offset(us, i) - 32 * us.len() + enc_bytes(us[i]).len(),
        ) == enc_bytes(us[i]),
    decreases i,
{
    lemma_pad_len(us[i].len());
    lemma_tails_len(us);
    lemma_url_offset_mono(us, i + 1, us.len() as int);
    if i == 0 {
        lemma_pad_len(us[0].len());
        assert(enc_tails(us) == enc_bytes(us[0]) + enc_tails(us.skip(1)));
        assert(enc_tails(us).subrange(0, enc_bytes(us[0]).len() as int) =~= enc_bytes(us[0]));
    } else {
        assert(us.skip(1)[i - 1] == us[i]);
        lemma_tail_at(us.skip(1), i - 1);
        lemma_url_offset_skip(us, i - 1);
        lemma_pad_len(us[0].len());
        lemma_url_offset_mono(us.skip(1), 0, i - 1);
        let head = enc_bytes(us[0]);
        let rest = enc_tails(us.skip(1));
        assert(enc_tails(us) == head + rest);
        let a = url_offset(us, i) - 32 * us.len();
        let b = url_offset(us.skip(1), i - 1) - 32 * (us.len() - 1);
        assert(a == b + head.len());
        assert(0 <= b);
        let sz = enc_bytes(us[i]).len() as int;
        assert(b + sz <= rest.len());
        assert(rest.subrange(b, b + sz) == enc_bytes(us[i]));
        assert forall|j: int| 0 <= j < sz implies #[trigger] ((head + rest).subrange(a, a + sz)[j])
            == rest.subrange(b, b + sz)[j] by {
            assert((head + rest).subrange(a, a + sz)[j] == (head + rest)[a + j]);
            assert((head + rest)[a + j] == rest[b + j]);
        }
        assert((head + rest).subrange(a, a + sz) =~= rest.subrange(b, b + sz));
    }
}

/// The views of a vector of byte vectors.
pub open spec fn views(us: Seq<Vec<u8>>) -> Seq<Seq<u8>> {
    Seq::new(us.len(), |i: int| us[i]@)
}

/// The tails block of the first `i` elements.
pub open spec fn enc_tails_to(us: Seq<Seq<u8>>, i: int) -> Seq<u8>
    decreases i,
{
    if i <= 0 {
        Seq::empty()
    } else {
        enc_tails_to(us, i - 1) + enc_bytes(us[i - 1])
    }
}

proof fn lemma_tails_to_shift(us: Seq<Seq<u8>>, k: int)
    requires
        us.len() >= 1,
        0 <= k <= us.len() - 1,
    ensures
        enc_bytes(us[0]) + enc_tails_to(us.skip(1), k) == enc_tails_to(us, k + 1),
    decreases k,
{
    if k == 0 {
        assert(enc_tails_to(us.skip(1), 0) =~= Seq::<u8>::empty());
        assert(enc_tails_to(us, 0) =~= Seq::<u8>::empty());
        assert(enc_tails_to(us, 1) == enc_tails_to(us, 0) + enc_bytes(us[0]));
        assert(enc_bytes(us[0]) + enc_tails_to(us.skip(1), 0) =~= enc_tails_to(us, 1));
    } else {
        lemma_tails_to_shift(us, k - 1);
        assert(us.skip(1)[k - 1] == us[k]);
        assert(enc_tails_to(us.skip(1), k) == enc_tails_to(us.skip(1), k - 1) + enc_bytes(us[k]));
        assert(enc_bytes(us[0]) + (enc_tails_to(us.skip(1), k - 1) + enc_bytes(us[k]))
            =~= (enc_bytes(us[0]) + enc_tails_to(us.skip(1), k - 1)) + enc_bytes(us[k]));
        assert(enc_tails_to(us, k + 1) == enc_tails_to(us, k) + enc_bytes(us[k]));
        assert(enc_bytes(us[0]) + enc_tails_to(us.skip(1), k) =~= enc_tails_to(us, k + 1));
    }
}

/// Front-recursive and back-recursive views of the tails block agree.
proof fn lemma_tails_to_full(us: Seq<Seq<u8>>)
    ensures
        enc_tails(us) == enc_tails_to(us, us.len() as int),
    decreases us.len(),
{
    if us.len() > 0 {
        lemma_tails_to_full(us.skip(1));
        lemma_tails_to_shift(us, us.len() - 1);
    }
}

/// Encodes a `string[]` of byte strings: length word, offset words, tails.
pub fn encode_str_array(us: &Vec<Vec<u8>>) -> (r: Vec<u8>)
    requires
        url_offset(views(us@), us@.len() as int) + 32 <= usize::MAX,
    ensures
        r@ == enc_str_array(views(us@)),
{
    let ghost vs = views(us@);
    let n: usize = us.len();
    let mut r: Vec<u8> = write_word(n);
    proof {
        assert(32 * vs.len() <= url_offset(vs, vs.len() as int)) by {
            lemma_url_offset_mono(vs, 0, vs.len() as int);
        }
    }
    let mut off: usize = 32 * n;
    let mut i: usize = 0;
    while i < n
        invariant
            n == us.len(),
            vs == views(us@),
            i <= n,
            url_offset(vs, vs.len() as int) + 32 <= usize::MAX,
            off == url_offset(vs, i as int),
            r@ == word_of(n as nat) + enc_heads(vs).subrange(0, 32 * i),
        decreases n - i,
    {
        proof {
            lemma_url_offset_mono(vs, i as int, vs.len() as int);
            lemma_url_offset_mono(vs, i + 1, vs.len() as int);
            lemma_pad_len(vs[i as int].len());
        }
        let w = write_word(off);
        let ghost r0 = r@;
        extend_bytes(&mut r, &w);
        proof {
            assert forall|j: int| 0 <= j < 32 implies #[trigger] enc_heads(vs)[32 * i + j]
                == word_of(url_offset(vs, i as int))[j] by {
                lemma_fundamental_div_mod_converse(32 * i + j, 32, i as int, j);
            }
            assert(enc_heads(vs).subrange(0, 32 * i + 32) =~= enc_heads(vs).subrange(0, 32 * i)
                + word_of(url_offset(vs, i as int)));
            assert(r0 + w@ =~= word_of(n as nat) + enc_heads(vs).subrange(0, 32 * (i + 1))) by {
                assert(r0 + w@ =~= word_of(n as nat) + (enc_heads(vs).subrange(0, 32 * i) + word_of(
                    url_offset(vs, i as int),
                )));
            }
        }
        let l: usize = us[i].len();
        let padn: usize = if l % 32 == 0 {
            0
        } else {
            32 - (l % 32)
        };
        proof {
            lemma_fundamental_div_mod(l as int, 32);
            let q = l as int / 32;
            if l % 32 == 0 {
                lemma_fundamental_div_mod_converse((l + 31) as int, 32, q, 31);
            } else {
                lemma_fundamental_div_mod_converse((l + 31) as int, 32, q + 1, (l % 32) as int - 1);
            }
            assert(padn == pad_len(l as nat) - l);
        }
        off = off + 32 + l + padn;
        i += 1;
    }
    proof {
        assert(enc_heads(vs).subrange(0, 32 * vs.len() as int) =~= enc_heads(vs));
    }
    let mut i: usize = 0;
    while i < n
        invariant
            n == us.len(),
            vs == views(us@),
            i <= n,
            r@ == word_of(n as nat) + enc_heads(vs) + enc_tails_to(vs, i as int),
        decreases n - i,
    {
        let ghost r0 = r@;
        push_bytes_block(&mut r, &us[i]);
        proof {
            assert(r0 + enc_bytes(vs[i as int]) =~= word_of(n as nat) + enc_heads(vs)
                + (enc_tails_to(vs, i as int) + enc_bytes(vs[i as int])));
        }
        i += 1;
    }
    proof {
        lemma_tails_to_full(vs);
        assert(word_of(n as nat) + enc_heads(vs) + enc_tails(vs) =~= enc_str_array(vs));
    }
    r
}

/// The elements of a string array, read from element `i` on. `base` is the
/// position just past the array's length word.
pub open spec fn dec_urls_from(s: Seq<u8>, base: int, n: nat, i: nat) -> Option<Seq<Seq<u8>>>
    decreases n - i,
{
    if i >= n {
        Option::Some(Seq::empty())
    } else {
        match dec_len_at(s, base + 32 * i) {
            Option::None => Option::None,
            Option::Some(off) => match dec_bytes_at(s, base + off) {
                Option::None => Option::None,
                Option::Some(u) => match dec_urls_from(s, base, n, (i + 1) as nat) {
                    Option::None => Option::None,
                    Option::Some(rest) => Option::Some(seq![u] + rest),
                },
            },
        }
    }
}

/// The string array at `p`: length word, then its elements.
pub open spec fn dec_str_array_at(s: Seq<u8>, p: int) -> Option<Seq<Seq<u8>>> {
    match dec_len_at(s, p) {
        Option::None => Option::None,
        Option::Some(n) => dec_urls_from(s, p + 32, n, 0),
    }
}

/// A string array standing at `p` in `s` is read back element for element.
proof fn lemma_dec_urls_embedded(s: Seq<u8>, p: int, us: Seq<Seq<u8>>, i: nat)
    requires
        0 <= p,
        i <= us.len(),
        enc_str_array(us).len() <= usize::MAX,
        p + enc_str_array(us).len() <= s.len(),
        s.subrange(p, p + enc_str_array(us).len() as int) == enc_str_array(us),
    ensures
        dec_urls_from(s, p + 32, us.len(), i) == Option::Some(us.skip(i as int)),
    decreases us.len() - i,
{
    let e = enc_str_array(us);
    lemma_tails_len(us);
    if i >= us.len() {
        assert(us.skip(i as int) =~= Seq::<Seq<u8>>::empty());
    } else {
        let ii = i as int;
        lemma_url_offset_mono(us, 0, ii);
        lemma_url_offset_mono(us, ii, ii + 1);
        lemma_url_offset_mono(us, ii + 1, us.len() as int);
        lemma_pad_len(us[ii].len());
        // the head word for element i
        assert(s.subrange(p + 32 + 32 * ii, p + 32 + 32 * ii + 32) =~= word_of(
            url_offset(us, ii),
        )) by {
            assert forall|j: int| 0 <= j < 32 implies s.subrange(
                p + 32 + 32 * ii,
                p + 32 + 32 * ii + 32,
            )[j] == word_of(url_offset(us, ii))[j] by {
                assert(s.subrange(p + 32 + 32 * ii, p + 32 + 32 * ii + 32)[j] == s[p + 32 + 32 * ii
                    + j]);
                assert(s[p + 32 + 32 * ii + j] == e[32 + 32 * ii + j]);
                assert(e[32 + 32 * ii + j] == enc_heads(us)[32 * ii + j]);
                lemma_fundamental_div_mod_converse(32 * ii + j, 32, ii, j);
                assert(enc_heads(us)[32 * ii + j] == word_of(url_offset(us, ii))[j]);
            }
        }
        lemma_dec_len_embedded(s, p + 32 + 32 * ii, url_offset(us, ii));
        // the tail block for element i
        let off = url_offset(us, ii) as int;
        let tp = off - 32 * us.len();
        lemma_tail_at(us, ii);
        let bl = enc_bytes(us[ii]).len() as int;
        assert(s.subrange(p + 32 + off, p + 32 + off + bl) =~= enc_bytes(us[ii])) by {
            assert forall|j: int| 0 <= j < bl implies s.subrange(p + 32 + off, p + 32 + off
                + bl)[j] == enc_bytes(us[ii])[j] by {
                assert(s.subrange(p + 32 + off, p + 32 + off + bl)[j] == s[p + 32 + off + j]);
                assert(s[p + 32 + off + j] == e[32 + off + j]);
                assert(e[32 + off + j] == enc_tails(us)[tp + j]);
                assert(enc_tails(us)[tp + j] == enc_tails(us).subrange(tp, tp + bl)[j]);
            }
        }
        lemma_dec_bytes_embedded(s, p + 32 + off, us[ii]);
        lemma_dec_urls_embedded(s, p, us, i + 1);
        assert(seq![us[ii]] + us.skip(ii + 1) =~= us.skip(ii));
    }
}

/// A string array standing at `p` decodes to its elements.
pub proof fn lemma_dec_str_array_embedded(s: Seq<u8>, p: int, us: Seq<Seq<u8>>)
    requires
        0 <= p,
        enc_str_array(us).len() <= usize::MAX,
        p + enc_str_array(us).len() <= s.len(),
        s.subrange(p, p + enc_str_array(us).len() as int) == enc_str_array(us),
    ensures
        dec_str_array_at(s, p) == Option::Some(us),
{
    let e = enc_str_array(us);
    assert(s.subrange(p, p + 32) =~= e.subrange(0, 32));
    assert(e.subrange(0, 32) =~= word_of(us.len()));
    lemma_dec_len_embedded(s, p, us.len());
    lemma_dec_urls_embedded(s, p, us, 0);
    assert(us.skip(0) =~= us);
}

/// Reads the string array at `p`. Mirrors `dec_str_array_at`.
pub fn read_str_array_at(s: &Vec<u8>, p: usize) -> (r: Option<Vec<Vec<u8>>>)
    ensures
        match r {
            Option::Some(v) => dec_str_array_at(s@, p as int) == Option::Some(views(v@)),
            Option::None => dec_str_array_at(s@, p as int) is None,
        },
{
    let n: usize = match read_len_at(s, p) {
        Option::None => {
            return Option::None;
        },
        Option::Some(n) => n,
    };
    let slen: usize = s.len();
    proof {
        assert(dec_len_at(s@, p as int) is Some);
        assert(p + 32 <= slen);
    }
    let base: usize = p + 32;
    let mut acc: Vec<Vec<u8>> = Vec::new();
    let mut i: usize = 0;
    while i < n
        invariant
            base == p + 32 <= s.len(),
            dec_len_at(s@, p as int) == Option::Some(n as nat),
            i <= n,
            acc@.len() == i,
            match dec_urls_from(s@, base as int, n as nat, i as nat) {
                Option::Some(rest) => dec_urls_from(s@, base as int, n as nat, 0)
                    == Option::Some(views(acc@) + rest),
                Option::None => dec_urls_from(s@, base as int, n as nat, 0) is None,
            },
        decreases n - i,
    {
        if (s.len() - base) / 32 <= i {
            proof {
                lemma_fundamental_div_mod((s@.len() - base) as int, 32);
                assert(base + 32 * (i as int) + 32 > s@.len());
                assert(dec_len_at(s@, base + 32 * (i as nat)) is None);
            }
            return Option::None;
        }
        proof {
            lemma_fundamental_div_mod((s@.len() - base) as int, 32);
            assert(base + 32 * (i as int) + 32 <= s@.len());
        }
        let hp: usize = base + 32 * i;
        let off: usize = match read_len_at(s, hp) {
            Option::None => {
                return Option::None;
            },
            Option::Some(off) => off,
        };
        if off > s.len() - base {
            proof {
                assert(dec_bytes_at(s@, base + off as int) is None);
            }
            return Option::None;
        }
        let u: Vec<u8> = match read_bytes_at(s, base + off) {
            Option::None => {
                return Option::None;
            },
            Option::Some(u) => u,
        };
        let ghost acc0 = acc@;
        acc.push(u);
        proof {
            if dec_urls_from(s@, base as int, n as nat, (i + 1) as nat) is Some {
                let rest2 = dec_urls_from(s@, base as int, n as nat, (i + 1) as nat).unwrap();
                assert(views(acc0) + (seq![u@] + rest2) =~= views(acc0.push(u)) + rest2);
            }
        }
        i += 1;
    }
    proof {
        assert(views(acc@) + Seq::<Seq<u8>>::empty() =~= views(acc@));
    }
    Option::Some(acc)
}

/// An ABI pair of two `bytes` values: two offset words, then the two blocks.
pub open spec fn enc_pair(a: Seq<u8>, b: Seq<u8>) -> Seq<u8> {
    word_of(64) + word_of((64 + enc_bytes(a).len()) as nat) + enc_bytes(a) + enc_bytes(b)
}

/// Whether the pair encoding of `a` and `b` fits in memory.
pub open spec fn pair_fits(a: Seq<u8>, b: Seq<u8>) -> bool {
    128 + pad_len(a.len()) + pad_len(b.len()) <= usize::MAX
}

/// Appends the ABI encoding of the pair (`a`, `b`) to `dst`.
pub fn push_pair(dst: &mut Vec<u8>, a: &Vec<u8>, b: &Vec<u8>)
    requires
        pair_fits(a@, b@),
    ensures
        final(dst)@ == old(dst)@ + enc_pair(a@, b@),
{
    proof {
        lemma_pad_len(a@.len());
        lemma_pad_len(b@.len());
    }
    let w0 = write_word(64);
    extend_bytes(dst, &w0);
    let l: usize = a.len();
    let padn: usize = if l % 32 == 0 {
        0
    } else {
        32 - (l % 32)
    };
    proof {
        lemma_fundamental_div_mod(l as int, 32);
        let q = l as int / 32;
        if l % 32 == 0 {
            lemma_fundamental_div_mod_converse((l + 31) as int, 32, q, 31);
        } else {
            lemma_fundamental_div_mod_converse((l + 31) as int, 32, q + 1, (l % 32) as int - 1);
        }
        assert(padn == pad_len(l as nat) - l);
    }
    let w1 = write_word(64 + 32 + l + padn);
    extend_bytes(dst, &w1);
    push_bytes_block(dst, a);
    push_bytes_block(dst, b);
    proof {
        assert(old(dst)@ + word_of(64) + word_of((64 + enc_bytes(a@).len()) as nat) + enc_bytes(a@)
            + enc_bytes(b@) =~= old(dst)@ + enc_pair(a@, b@));
    }
}

/// A single ABI-wrapped `bytes` value: one offset word, then the block there.
pub open spec fn dec_wrapped_bytes(s: Seq<u8>) -> Option<Seq<u8>> {
    match dec_len_at(s, 0) {
        Option::None => Option::None,
        Option::Some(off) => dec_bytes_at(s, off as int),
    }
}

/// The canonical wrapping of one `bytes` value.
pub open spec fn enc_wrapped_bytes(b: Seq<u8>) -> Seq<u8> {
    word_of(32) + enc_bytes(b)
}

/// Reads an ABI-wrapped `bytes` value. Mirrors `dec_wrapped_bytes`.
pub fn read_wrapped_bytes(s: &Vec<u8>) -> (r: Option<Vec<u8>>)
    ensures
        match r {
            Option::Some(v) => dec_wrapped_bytes(s@) == Option::Some(v@),
            Option::None => dec_wrapped_bytes(s@) is None,
        },
{
    match read_len_at(s, 0) {
        Option::None => Option::None,
        Option::Some(off) => {
            if off > s.len() {
                proof {
                    assert(dec_bytes_at(s@, off as int) is None);
                }
                Option::None
            } else {
                read_bytes_at(s, off)
            }
        },
    }
}

/// Wrapping one `bytes` value and reading it back gives the value.
pub proof fn lemma_wrapped_bytes_round_trip(b: Seq<u8>)
    requires
        b.len() + 96 <= usize::MAX,
    ensures
        dec_wrapped_bytes(enc_wrapped_bytes(b)) == Option::Some(b),
{
    let s = enc_wrapped_bytes(b);
    lemma_pad_len(b.len());
    assert(s.subrange(0, 32) =~= word_of(32));
    lemma_dec_len_embedded(s, 0, 32);
    assert(s.subrange(32, 32 + enc_bytes(b).len() as int) =~= enc_bytes(b));
    lemma_dec_bytes_embedded(s, 32, b);
}

/// Total size of an encoded string array.
pub proof fn lemma_str_array_len(us: Seq<Seq<u8>>)
    ensures
        enc_str_array(us).len() == 32 + url_offset(us, us.len() as int),
{
    lemma_tails_len(us);
}

/// Every element offset is a whole number of words.
pub proof fn lemma_url_offset_mod(us: Seq<Seq<u8>>, i: int)
    requires
        0 <= i,
    ensures
        url_offset(us, i) % 32 == 0,
    decreases i,
{
    if i == 0 {
        lemma_fundamental_div_mod_converse(32 * us.len() as int, 32, us.len() as int, 0);
    } else {
        lemma_url_offset_mod(us, i - 1);
        lemma_pad_len(us[i - 1].len());
        let a = url_offset(us, i - 1) as int;
        let b = (32 + pad_len(us[i - 1].len())) as int;
        lemma_fundamental_div_mod_converse(a, 32, a / 32, 0);
        lemma_fundamental_div_mod_converse(b, 32, b / 32, 0);
        lemma_fundamental_div_mod_converse(a + b, 32, a / 32 + b / 32, 0);
    }
}

} // verus!

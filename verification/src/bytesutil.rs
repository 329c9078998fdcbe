use vstd::prelude::*;
use vstd::assert_seqs_equal;

verus! {

/// Replacement of every leftmost, non-overlapping occurrence of `pat` in `s`
/// by `rep`, scanning left to right. An empty pattern leaves `s` unchanged.
pub open spec fn replace_seq(s: Seq<u8>, pat: Seq<u8>, rep: Seq<u8>) -> Seq<u8>
    decreases s.len(),
{
    if pat.len() == 0 || s.len() < pat.len() {
        s
    } else if s.subrange(0, pat.len() as int) == pat {
        rep + replace_seq(s.skip(pat.len() as int), pat, rep)
    } else {
        seq![s[0]] + replace_seq(s.skip(1), pat, rep)
    }
}

/// Whether `pat` occurs anywhere in `s`.
pub open spec fn contains_seq(s: Seq<u8>, pat: Seq<u8>) -> bool {
    exists|i: int|
        0 <= i && i + pat.len() <= s.len() && #[trigger] s.subrange(i, i + pat.len() as int)
            == pat
}

/// Byte-for-byte equality of two vectors.
pub fn bytes_eq(a: &Vec<u8>, b: &Vec<u8>) -> (r: bool)
    ensures
        r == (a@ == b@),
{
    if a.len() != b.len() {
        assert(a@ != b@) by {
            assert(a@.len() != b@.len());
        }
        return false;
    }
    let n: usize = a.len();
    let mut i: usize = 0;
    while i < n
        invariant
            n == a.len() == b.len(),
            i <= n,
            forall|k: int| 0 <= k < i ==> a@[k] == b@[k],
        decreases n - i,
    {
        if a[i] != b[i] {
            return false;
        }
        i += 1;
    }
    proof {
        assert_seqs_equal!(a@ == b@);
    }
    true
}

/// Whether `pat` stands in `s` at position `i`.
pub fn match_at(s: &Vec<u8>, pat: &Vec<u8>, i: usize) -> (r: bool)
    requires
        i + pat.len() <= s.len(),
    ensures
        r == (s@.subrange(i as int, i + pat@.len()) == pat@),
{
    let p: usize = pat.len();
    let mut j: usize = 0;
    while j < p
        invariant
            i + p <= s.len(),
            p == pat.len(),
            j <= p,
            forall|k: int| 0 <= k < j ==> s@[i + k] == pat@[k],
        decreases p - j,
    {
        if s[i + j] != pat[j] {
            assert(s@.subrange(i as int, i + pat@.len())[j as int] != pat@[j as int]);
            return false;
        }
        j += 1;
    }
    proof {
        assert_seqs_equal!(s@.subrange(i as int, i + pat@.len()) == pat@);
    }
    true
}

/// Whether `pat` occurs anywhere in `s`.
pub fn contains_bytes(s: &Vec<u8>, pat: &Vec<u8>) -> (r: bool)
    requires
        pat.len() >= 1,
    ensures
        r == contains_seq(s@, pat@),
{
    if pat.len() > s.len() {
        return false;
    }
    let last: usize = s.len() - pat.len();
    let mut i: usize = 0;
    loop
        invariant
            1 <= pat.len() <= s.len(),
            last == s.len() - pat.len(),
            i <= last + 1,
            forall|k: int|
                0 <= k < i ==> #[trigger] s@.subrange(k, k + pat@.len()) != pat@,
        decreases last + 1 - i,
    {
        if i > last {
            return false;
        }
        if match_at(s, pat, i) {
            return true;
        }
        i += 1;
    }
}

/// Appends a copy of `src` to `dst`.
pub fn extend_bytes(dst: &mut Vec<u8>, src: &Vec<u8>)
    ensures
        final(dst)@ == old(dst)@ + src@,
{
    let n: usize = src.len();
    let mut i: usize = 0;
    while i < n
        invariant
            n == src.len(),
            i <= n,
            dst@ == old(dst)@ + src@.subrange(0, i as int),
        decreases n - i,
    {
        dst.push(src[i]);
        proof {
            assert_seqs_equal!(old(dst)@ + src@.subrange(0, i as int) + seq![src@[i as int]]
                == old(dst)@ + src@.subrange(0, i + 1));
        }
        i += 1;
    }
    proof {
        assert_seqs_equal!(src@.subrange(0, n as int) == src@);
    }
}

/// Copy of `s.subrange(from, to)` as a fresh vector.
pub fn sub_bytes(s: &Vec<u8>, from: usize, to: usize) -> (r: Vec<u8>)
    requires
        from <= to <= s.len(),
    ensures
        r@ == s@.subrange(from as int, to as int),
{
    let mut r: Vec<u8> = Vec::new();
    let mut i: usize = from;
    while i < to
        invariant
            from <= i <= to <= s.len(),
            r@ == s@.subrange(from as int, i as int),
        decreases to - i,
    {
        r.push(s[i]);
        proof {
            assert_seqs_equal!(s@.subrange(from as int, i as int) + seq![s@[i as int]]
                == s@.subrange(from as int, i + 1));
        }
        i += 1;
    }
    r
}

/// Replaces every leftmost, non-overlapping occurrence of `pat` by `rep`.
pub fn replace_bytes(s: &Vec<u8>, pat: &Vec<u8>, rep: &Vec<u8>) -> (r: Vec<u8>)
    requires
        pat.len() >= 1,
    ensures
        r@ == replace_seq(s@, pat@, rep@),
{
    let mut r: Vec<u8> = Vec::new();
    proof {
        assert_seqs_equal!(s@.skip(0) == s@);
        assert_seqs_equal!(r@ + replace_seq(s@, pat@, rep@) == replace_seq(s@, pat@, rep@));
    }
    let mut i: usize = 0;
    while i < s.len()
        invariant
            pat.len() >= 1,
            i <= s.len(),
            replace_seq(s@, pat@, rep@) == r@ + replace_seq(s@.skip(i as int), pat@, rep@),
        decreases s.len() - i,
    {
        if pat.len() <= s.len() - i && match_at(s, pat, i) {
            let ghost r0 = r@;
            extend_bytes(&mut r, rep);
            proof {
                let tail = s@.skip(i as int);
                assert_seqs_equal!(tail.subrange(0, pat@.len() as int)
                    == s@.subrange(i as int, i + pat@.len()));
                assert(replace_seq(tail, pat@, rep@)
                    == rep@ + replace_seq(tail.skip(pat@.len() as int), pat@, rep@));
                assert_seqs_equal!(tail.skip(pat@.len() as int)
                    == s@.skip(i + pat@.len()));
                assert_seqs_equal!(r0 + (rep@ + replace_seq(s@.skip(i + pat@.len()), pat@, rep@))
                    == (r0 + rep@) + replace_seq(s@.skip(i + pat@.len()), pat@, rep@));
            }
            i += pat.len();
        } else {
            let ghost r0 = r@;
            r.push(s[i]);
            proof {
                let tail = s@.skip(i as int);
                if i + pat.len() <= s.len() {
                    assert_seqs_equal!(tail.subrange(0, pat@.len() as int)
                        == s@.subrange(i as int, i + pat@.len()));
                    assert(tail.subrange(0, pat@.len() as int) != pat@);
                } else {
                    assert(tail.len() < pat@.len());
                }
                assert(replace_seq(tail, pat@, rep@) == seq![tail[0]] + replace_seq(
                    tail.skip(1),
                    pat@,
                    rep@,
                ) || replace_seq(tail, pat@, rep@) == tail);
                if tail.len() < pat@.len() {
                    // the remainder is copied through unchanged
                    assert_seqs_equal!(tail.skip(1) == s@.skip(i + 1));
                    assert(replace_seq(tail.skip(1), pat@, rep@) == tail.skip(1));
                    assert_seqs_equal!(r0 + tail == (r0 + seq![s@[i as int]]) + tail.skip(1));
                } else {
                    assert_seqs_equal!(tail.skip(1) == s@.skip(i + 1));
                    assert_seqs_equal!(r0 + (seq![tail[0]] + replace_seq(s@.skip(i + 1), pat@, rep@))
                        == (r0 + seq![s@[i as int]]) + replace_seq(s@.skip(i + 1), pat@, rep@));
                }
            }
            i += 1;
        }
    }
    proof {
        assert(s@.skip(s@.len() as int).len() == 0);
        assert(replace_seq(s@.skip(s@.len() as int), pat@, rep@)
            == s@.skip(s@.len() as int));
        assert_seqs_equal!(r@ + s@.skip(s@.len() as int) == r@);
    }
    r
}

/// The text with every leading and trailing quote removed.
pub open spec fn trim_quotes(s: Seq<u8>) -> Seq<u8>
    decreases s.len(),
{
    if s.len() > 0 && s.first() == 0x22 {
        trim_quotes(s.skip(1))
    } else if s.len() > 0 && s.last() == 0x22 {
        trim_quotes(s.drop_last())
    } else {
        s
    }
}

/// The text with every leading `0x` marker removed.
pub open spec fn trim_0x(s: Seq<u8>) -> Seq<u8>
    decreases s.len(),
{
    if s.len() >= 2 && s[0] == 0x30 && s[1] == 0x78 {
        trim_0x(s.skip(2))
    } else {
        s
    }
}

/// Strips surrounding quotes, then leading `0x` markers, off a revert text.
pub fn strip_revert_text(s: &Vec<u8>) -> (r: Vec<u8>)
    ensures
        r@ == trim_0x(trim_quotes(s@)),
{
    let mut a: usize = 0;
    let mut b: usize = s.len();
    proof {
        assert(s@.subrange(0, s@.len() as int) =~= s@);
    }
    while a < b && s[a] == 0x22
        invariant
            a <= b <= s.len(),
            trim_quotes(s@) == trim_quotes(s@.subrange(a as int, b as int)),
        decreases b - a,
    {
        proof {
            let cur = s@.subrange(a as int, b as int);
            assert(cur.first() == s@[a as int]);
            assert(cur.skip(1) =~= s@.subrange(a + 1, b as int));
        }
        a += 1;
    }
    while b > a && s[b - 1] == 0x22
        invariant
            a <= b <= s.len(),
            trim_quotes(s@) == trim_quotes(s@.subrange(a as int, b as int)),
            a < b ==> s@[a as int] != 0x22,
        decreases b,
    {
        proof {
            let cur = s@.subrange(a as int, b as int);
            assert(cur.first() == s@[a as int]);
            assert(cur.last() == s@[b - 1]);
            assert(cur.drop_last() =~= s@.subrange(a as int, b - 1));
        }
        b -= 1;
    }
    proof {
        let cur = s@.subrange(a as int, b as int);
        if cur.len() > 0 {
            assert(cur.first() == s@[a as int] && cur.first() != 0x22);
            assert(cur.last() == s@[b - 1] && cur.last() != 0x22);
        }
        assert(trim_quotes(cur) == cur);
    }
    while b - a >= 2 && s[a] == 0x30 && s[a + 1] == 0x78
        invariant
            a <= b <= s.len(),
            trim_0x(trim_quotes(s@)) == trim_0x(s@.subrange(a as int, b as int)),
        decreases b - a,
    {
        proof {
            let cur = s@.subrange(a as int, b as int);
            assert(cur[0] == s@[a as int] && cur[1] == s@[a + 1]);
            assert(cur.skip(2) =~= s@.subrange(a + 2, b as int));
        }
        a += 2;
    }
    proof {
        let cur = s@.subrange(a as int, b as int);
        assert(trim_0x(cur) == cur);
    }
    sub_bytes(s, a, b)
}

/// A fresh copy of a vector of byte vectors.
pub fn dup_byte_vecs(us: &Vec<Vec<u8>>) -> (r: Vec<Vec<u8>>)
    ensures
        r@.len() == us@.len(),
        forall|i: int| 0 <= i < us@.len() ==> r@[i]@ == #[trigger] us@[i]@,
{
    let mut r: Vec<Vec<u8>> = Vec::new();
    let n: usize = us.len();
    let mut i: usize = 0;
    while i < n
        invariant
            n == us@.len(),
            i <= n,
            r@.len() == i,
            forall|k: int| 0 <= k < i ==> r@[k]@ == #[trigger] us@[k]@,
        decreases n - i,
    {
        let mut v: Vec<u8> = Vec::new();
        extend_bytes(&mut v, &us[i]);
        r.push(v);
        i += 1;
    }
    r
}

/// Index of the first `c` in `s`, or its length when there is none.
pub open spec fn first_byte(s: Seq<u8>, c: u8) -> int
    decreases s.len(),
{
    if s.len() == 0 {
        0
    } else if s[0] == c {
        0
    } else {
        1 + first_byte(s.skip(1), c)
    }
}

pub proof fn lemma_first_byte_bounds(s: Seq<u8>, c: u8)
    ensures
        0 <= first_byte(s, c) <= s.len(),
        first_byte(s, c) < s.len() ==> s[first_byte(s, c)] == c,
        forall|k: int| 0 <= k < first_byte(s, c) ==> s[k] != c,
    decreases s.len(),
{
    if s.len() > 0 && s[0] != c {
        lemma_first_byte_bounds(s.skip(1), c);
        assert forall|k: int| 0 <= k < first_byte(s, c) implies s[k] != c by {
            if k > 0 {
                assert(s.skip(1)[k - 1] == s[k]);
            }
        }
    }
}

/// Where the first `c` stands, as an exec scan.
pub fn find_byte(s: &Vec<u8>, c: u8) -> (r: usize)
    ensures
        r == first_byte(s@, c),
{
    let n: usize = s.len();
    let mut i: usize = 0;
    while i < n
        invariant
            n == s@.len(),
            i <= n,
            forall|k: int| 0 <= k < i ==> s@[k] != c,
        decreases n - i,
    {
        if s[i] == c {
            proof {
                lemma_first_byte_at(s@, c, i as int);
            }
            return i;
        }
        i += 1;
    }
    proof {
        lemma_first_byte_at(s@, c, n as int);
    }
    n
}

proof fn lemma_first_byte_at(s: Seq<u8>, c: u8, i: int)
    requires
        0 <= i <= s.len(),
        forall|k: int| 0 <= k < i ==> s[k] != c,
        i < s.len() ==> s[i] == c,
    ensures
        first_byte(s, c) == i,
    decreases s.len(),
{
    if s.len() == 0 {
    } else if s[0] == c {
    } else {
        assert(i >= 1);
        lemma_first_byte_at(s.skip(1), c, i - 1);
    }
}

/// How often `c` stands in `s`.
pub open spec fn count_byte(s: Seq<u8>, c: u8) -> nat
    decreases s.len(),
{
    if s.len() == 0 {
        0
    } else {
        (count_byte(s.drop_last(), c) + if s.last() == c {
            1nat
        } else {
            0nat
        }) as nat
    }
}

/// Counts occurrences of one byte.
pub fn count_byte_occurrences(s: &Vec<u8>, c: u8) -> (r: usize)
    ensures
        r == count_byte(s@, c),
{
    let n: usize = s.len();
    let mut i: usize = 0;
    let mut r: usize = 0;
    while i < n
        invariant
            n == s@.len(),
            i <= n,
            r <= i,
            r == count_byte(s@.subrange(0, i as int), c),
        decreases n - i,
    {
        proof {
            assert(s@.subrange(0, i + 1).drop_last() =~= s@.subrange(0, i as int));
            assert(s@.subrange(0, i + 1).last() == s@[i as int]);
        }
        if s[i] == c {
            r += 1;
        }
        i += 1;
    }
    proof {
        assert(s@.subrange(0, n as int) =~= s@);
    }
    r
}

/// The text with every leading repetition of `pat` removed.
pub open spec fn trim_prefix_rep(s: Seq<u8>, pat: Seq<u8>) -> Seq<u8>
    decreases s.len(),
{
    if pat.len() > 0 && pat.len() <= s.len() && s.subrange(0, pat.len() as int) == pat {
        trim_prefix_rep(s.skip(pat.len() as int), pat)
    } else {
        s
    }
}

/// Strips leading repetitions of `pat` off `s`.
pub fn strip_prefix_rep(s: &Vec<u8>, pat: &Vec<u8>) -> (r: Vec<u8>)
    requires
        pat.len() >= 1,
    ensures
        r@ == trim_prefix_rep(s@, pat@),
{
    let mut a: usize = 0;
    proof {
        assert(s@.subrange(0, s@.len() as int) =~= s@);
    }
    while pat.len() <= s.len() - a && match_at(s, pat, a)
        invariant
            pat.len() >= 1,
            a <= s.len(),
            trim_prefix_rep(s@, pat@) == trim_prefix_rep(s@.subrange(a as int, s@.len() as int), pat@),
        decreases s.len() - a,
    {
        proof {
            let cur = s@.subrange(a as int, s@.len() as int);
            assert(cur.subrange(0, pat@.len() as int) =~= s@.subrange(a as int, a + pat@.len()));
            assert(cur.skip(pat@.len() as int) =~= s@.subrange(a + pat@.len(), s@.len() as int));
        }
        a += pat.len();
    }
    proof {
        let cur = s@.subrange(a as int, s@.len() as int);
        if pat@.len() <= cur.len() {
            assert(cur.subrange(0, pat@.len() as int) =~= s@.subrange(a as int, a + pat@.len()));
        }
        assert(trim_prefix_rep(cur, pat@) == cur);
    }
    sub_bytes(s, a, s.len())
}

} // verus!

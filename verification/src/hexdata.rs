use vstd::prelude::*;

verus! {

/// Lower-case digit for a value below 16.
pub open spec fn hex_digit_lower(n: u8) -> u8 {
    if n < 10 {
        (0x30 + n) as u8
    } else {
        (0x57 + n) as u8
    }
}

/// Lower-case hex text of a byte string: two digits per byte, in order.
pub open spec fn hex_lower_of(b: Seq<u8>) -> Seq<u8> {
    Seq::new(
        b.len() * 2,
        |i: int|
            if i % 2 == 0 {
                hex_digit_lower((b[i / 2] / 16) as u8)
            } else {
                hex_digit_lower((b[i / 2] % 16) as u8)
            },
    )
}

/// Whether `c` is a hex digit of either case.
pub open spec fn is_hex_digit(c: u8) -> bool {
    (0x30 <= c && c <= 0x39) || (0x61 <= c && c <= 0x66) || (0x41 <= c && c <= 0x46)
}

/// Value of a hex digit of either case.
pub open spec fn hex_val(c: u8) -> u8 {
    if 0x30 <= c && c <= 0x39 {
        (c - 0x30) as u8
    } else if 0x61 <= c && c <= 0x66 {
        (c - 0x57) as u8
    } else {
        (c - 0x37) as u8
    }
}

/// Whether a text is well-formed hex: even length, digits only.
pub open spec fn hex_decode_ok(s: Seq<u8>) -> bool {
    s.len() % 2 == 0 && forall|i: int| 0 <= i < s.len() ==> is_hex_digit(#[trigger] s[i])
}

/// The bytes written by a well-formed hex text.
pub open spec fn hex_decode_of(s: Seq<u8>) -> Seq<u8> {
    Seq::new(
        s.len() / 2,
        |i: int| (hex_val(s[2 * i]) * 16 + hex_val(s[2 * i + 1])) as u8,
    )
}

/// Relies on hex::encode: writes two lower-case digits per input byte, in order.
#[verifier::external_body]
pub fn hex_encode_lower(b: &Vec<u8>) -> (r: Vec<u8>)
    ensures
        r@ == hex_lower_of(b@),
{
    hex::encode(b).into_bytes()
}

/// Relies on hex::decode: accepts exactly the even-length texts made of digits
/// of either case, and returns the bytes they spell.
#[verifier::external_body]
pub fn hex_decode_bytes(s: &Vec<u8>) -> (r: Option<Vec<u8>>)
    ensures
        match r {
            Some(v) => hex_decode_ok(s@) && v@ == hex_decode_of(s@),
            None => !hex_decode_ok(s@),
        },
{
    match hex::decode(s) {
        Ok(v) => Some(v),
        Err(_) => None,
    }
}

/// Encoding then decoding hex text gives the bytes back.
pub proof fn lemma_hex_round_trip(b: Seq<u8>)
    ensures
        hex_decode_ok(hex_lower_of(b)),
        hex_decode_of(hex_lower_of(b)) == b,
{
    let s = hex_lower_of(b);
    assert forall|i: int| 0 <= i < s.len() implies is_hex_digit(#[trigger] s[i]) by {
        if i % 2 == 0 {
            assert(s[i] == hex_digit_lower((b[i / 2] / 16) as u8));
        } else {
            assert(s[i] == hex_digit_lower((b[i / 2] % 16) as u8));
        }
    }
    assert forall|i: int| 0 <= i < b.len() implies #[trigger] hex_decode_of(s)[i] == b[i] by {
        assert(s[2 * i] == hex_digit_lower((b[i] / 16) as u8));
        assert(s[2 * i + 1] == hex_digit_lower((b[i] % 16) as u8));
        assert(hex_val(s[2 * i]) == b[i] / 16);
        assert(hex_val(s[2 * i + 1]) == b[i] % 16);
    }
    assert(hex_decode_of(s) =~= b);
}

} // verus!

//! Base64url encoding without padding (RFC 4648 §5), as ACME uses for JWS
//! envelope fields, key authorizations and JWK thumbprints.

use vstd::prelude::*;

verus! {

/// The base64url alphabet: the byte standing for a 6-bit value.
pub open spec fn b64_char(v: u8) -> u8 {
    if v < 26 {
        (v + 65) as u8  // 'A'..='Z'
    } else if v < 52 {
        (v + 71) as u8  // 'a'..='z'
    } else if v < 62 {
        (v - 4) as u8  // '0'..='9'
    } else if v == 62 {
        45u8  // '-'
    } else {
        95u8  // '_'
    }
}

/// Length of the unpadded encoding of `n` input bytes: ceil(4n/3).
pub open spec fn b64_len(n: nat) -> nat {
    (4 * n + 2) / 3
}

/// The 6-bit value encoded at output position `j`.
pub open spec fn b64_digit(s: Seq<u8>, j: int) -> u8 {
    let g = j / 4;
    let k = j % 4;
    if k == 0 {
        s[3 * g] >> 2
    } else if k == 1 {
        (((s[3 * g] & 3) << 4) | (if 3 * g + 1 < s.len() {
            s[3 * g + 1] >> 4
        } else {
            0
        })) as u8
    } else if k == 2 {
        (((s[3 * g + 1] & 15) << 2) | (if 3 * g + 2 < s.len() {
            s[3 * g + 2] >> 6
        } else {
            0
        })) as u8
    } else {
        (s[3 * g + 2] & 63) as u8
    }
}

/// The unpadded base64url encoding of a byte sequence.
pub open spec fn spec_b64url(s: Seq<u8>) -> Seq<u8> {
    Seq::new(b64_len(s.len()), |j: int| b64_char(b64_digit(s, j)))
}

/// Every byte of the alphabet is an ASCII letter, digit, `-` or `_`.
pub open spec fn is_b64_byte(b: u8) -> bool {
    (65 <= b <= 90) || (97 <= b <= 122) || (48 <= b <= 57) || b == 45 || b == 95
}

/// Every byte of an encoding lies in the base64url alphabet; in particular
/// none is a quote, backslash or control byte, so an encoding may stand
/// inside a JSON string without escaping.
pub proof fn lemma_b64url_alphabet(s: Seq<u8>)
    ensures
        forall|j: int|
            0 <= j < spec_b64url(s).len() ==> is_b64_byte(#[trigger] spec_b64url(s)[j]),
{
}

fn b64_char_exec(v: u8) -> (r: u8)
    requires
        v < 64,
    ensures
        r == b64_char(v),
{
    if v < 26 {
        v + 65
    } else if v < 52 {
        v + 71
    } else if v < 62 {
        v - 4
    } else if v == 62 {
        45
    } else {
        95
    }
}

/// Encode bytes as unpadded base64url.
pub fn b64url_encode(data: &[u8]) -> (r: Vec<u8>)
    ensures
        r@ == spec_b64url(data@),
{
    let ghost s = data@;
    let mut out: Vec<u8> = Vec::new();
    let mut i: usize = 0;
    while data.len() - i >= 3
        invariant
            s == data@,
            i % 3 == 0,
            i <= data.len(),
            out@.len() == 4 * (i / 3),
            forall|j: int| 0 <= j < out@.len() ==> out@[j] == b64_char(b64_digit(s, j)),
        decreases data.len() - i,
    {
        let b0 = data[i];
        let b1 = data[i + 1];
        let b2 = data[i + 2];
        let ghost g = i as int / 3;
        let ghost j0 = out@.len() as int;
        assert((b0 >> 2) < 64 && ((b0 & 3) << 4 | (b1 >> 4)) < 64 && ((b1 & 15) << 2 | (b2 >> 6))
            < 64 && (b2 & 63) < 64) by (bit_vector);
        out.push(b64_char_exec(b0 >> 2));
        out.push(b64_char_exec((b0 & 3) << 4 | (b1 >> 4)));
        out.push(b64_char_exec((b1 & 15) << 2 | (b2 >> 6)));
        out.push(b64_char_exec(b2 & 63));
        proof {
            assert(j0 == 4 * g) by (nonlinear_arith)
                requires
                    j0 == 4 * ((i as int) / 3),
                    g == (i as int) / 3,
            ;
            lemma_group_digits(s, g);
            assert(3 * g == i as int) by (nonlinear_arith)
                requires
                    i as int % 3 == 0,
                    g == (i as int) / 3,
            ;
        }
        i = i + 3;
        proof {
            assert(out@.len() == 4 * ((i as int) / 3)) by (nonlinear_arith)
                requires
                    out@.len() == j0 + 4,
                    j0 == 4 * (((i - 3) as int) / 3),
                    (i - 3) as int % 3 == 0,
                    i >= 3,
            ;
        }
    }
    if data.len() - i == 1 {
        let b0 = data[i];
        assert((b0 >> 2) < 64 && ((b0 & 3) << 4) < 64) by (bit_vector);
        out.push(b64_char_exec(b0 >> 2));
        out.push(b64_char_exec((b0 & 3) << 4));
        proof {
            lemma_tail_digits(s, i as int / 3);
        }
    } else if data.len() - i == 2 {
        let b0 = data[i];
        let b1 = data[i + 1];
        assert((b0 >> 2) < 64 && ((b0 & 3) << 4 | (b1 >> 4)) < 64 && ((b1 & 15) << 2) < 64)
            by (bit_vector);
        out.push(b64_char_exec(b0 >> 2));
        out.push(b64_char_exec((b0 & 3) << 4 | (b1 >> 4)));
        out.push(b64_char_exec((b1 & 15) << 2));
        proof {
            lemma_tail_digits(s, i as int / 3);
        }
    }
    proof {
        lemma_final_len(s, i as int, out@.len() as int);
        assert(out@ =~= spec_b64url(s));
    }
    out
}

/// Output positions `4g .. 4g+4` of a full 3-byte group read exactly the
/// bytes `3g .. 3g+3`.
proof fn lemma_group_digits(s: Seq<u8>, g: int)
    requires
        0 <= g,
        3 * g + 3 <= s.len(),
    ensures
        b64_digit(s, 4 * g) == s[3 * g] >> 2,
        b64_digit(s, 4 * g + 1) == ((s[3 * g] & 3) << 4 | (s[3 * g + 1] >> 4)) as u8,
        b64_digit(s, 4 * g + 2) == ((s[3 * g + 1] & 15) << 2 | (s[3 * g + 2] >> 6)) as u8,
        b64_digit(s, 4 * g + 3) == (s[3 * g + 2] & 63) as u8,
{
    assert((4 * g) / 4 == g && (4 * g) % 4 == 0 && (4 * g + 1) / 4 == g && (4 * g + 1) % 4 == 1 && (
    4 * g + 2) / 4 == g && (4 * g + 2) % 4 == 2 && (4 * g + 3) / 4 == g && (4 * g + 3) % 4 == 3)
        by (nonlinear_arith)
        requires
            0 <= g,
    ;
}

/// Output positions of a 1- or 2-byte tail group.
proof fn lemma_tail_digits(s: Seq<u8>, g: int)
    requires
        0 <= g,
        3 * g < s.len() < 3 * g + 3,
    ensures
        b64_digit(s, 4 * g) == s[3 * g] >> 2,
        s.len() == 3 * g + 1 ==> b64_digit(s, 4 * g + 1) == ((s[3 * g] & 3) << 4) as u8,
        s.len() == 3 * g + 2 ==> b64_digit(s, 4 * g + 1) == ((s[3 * g] & 3) << 4 | (s[3 * g + 1]
            >> 4)) as u8,
        s.len() == 3 * g + 2 ==> b64_digit(s, 4 * g + 2) == ((s[3 * g + 1] & 15) << 2) as u8,
{
    assert((4 * g) / 4 == g && (4 * g) % 4 == 0 && (4 * g + 1) / 4 == g && (4 * g + 1) % 4 == 1 && (
    4 * g + 2) / 4 == g && (4 * g + 2) % 4 == 2) by (nonlinear_arith)
        requires
            0 <= g,
    ;
    let x = s[3 * g];
    assert(((x & 3) << 4 | 0) == ((x & 3) << 4)) by (bit_vector);
    if s.len() == 3 * g + 2 {
        let y = s[3 * g + 1];
        assert(((y & 15) << 2 | 0) == ((y & 15) << 2)) by (bit_vector);
    }
}

/// After the tail is emitted the output length is exactly `b64_len`.
proof fn lemma_final_len(s: Seq<u8>, i: int, out_len: int)
    requires
        0 <= i <= s.len(),
        i % 3 == 0,
        s.len() < i + 3,
        s.len() == i ==> out_len == 4 * (i / 3),
        s.len() == i + 1 ==> out_len == 4 * (i / 3) + 2,
        s.len() == i + 2 ==> out_len == 4 * (i / 3) + 3,
    ensures
        out_len == b64_len(s.len()),
{
    assert(s.len() == i ==> 4 * (i / 3) == (4 * s.len() + 2) / 3) by (nonlinear_arith)
        requires
            i % 3 == 0,
            0 <= i,
    ;
    assert(s.len() == i + 1 ==> 4 * (i / 3) + 2 == (4 * s.len() + 2) / 3) by (nonlinear_arith)
        requires
            i % 3 == 0,
            0 <= i,
    ;
    assert(s.len() == i + 2 ==> 4 * (i / 3) + 3 == (4 * s.len() + 2) / 3) by (nonlinear_arith)
        requires
            i % 3 == 0,
            0 <= i,
    ;
}

} // verus!

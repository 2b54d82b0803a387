//! Base64 (RFC 4648, standard alphabet, padded), the body encoding of
//! ASCII armor.

use vstd::prelude::*;

verus! {

/// The character that encodes the 6-bit value `v`.
pub open spec fn char_of(v: u8) -> u8 {
    if v < 26 {
        (65 + v) as u8
    } else if v < 52 {
        (71 + v) as u8
    } else if v < 62 {
        (v - 4) as u8
    } else if v == 62 {
        43
    } else {
        47
    }
}

/// The 6-bit value that the character `c` encodes, if any.
pub open spec fn value_of(c: u8) -> Option<u8> {
    if 65 <= c <= 90 {
        Some((c - 65) as u8)
    } else if 97 <= c <= 122 {
        Some((c - 71) as u8)
    } else if 48 <= c <= 57 {
        Some((c + 4) as u8)
    } else if c == 43 {
        Some(62u8)
    } else if c == 47 {
        Some(63u8)
    } else {
        None
    }
}

/// The padding character.
pub const PAD: u8 = 61;

/// The four characters of three bytes.
pub open spec fn enc3(a: u8, b: u8, c: u8) -> Seq<u8> {
    seq![
        char_of(a >> 2u8),
        char_of(((a & 3u8) << 4u8) | (b >> 4u8)),
        char_of(((b & 15u8) << 2u8) | (c >> 6u8)),
        char_of(c & 63u8),
    ]
}

/// The four characters of two final bytes.
pub open spec fn enc2(a: u8, b: u8) -> Seq<u8> {
    seq![char_of(a >> 2u8), char_of(((a & 3u8) << 4u8) | (b >> 4u8)), char_of((b & 15u8) << 2u8), PAD]
}

/// The four characters of one final byte.
pub open spec fn enc1(a: u8) -> Seq<u8> {
    seq![char_of(a >> 2u8), char_of((a & 3u8) << 4u8), PAD, PAD]
}

/// The base64 encoding of `s`.
pub open spec fn encode(s: Seq<u8>) -> Seq<u8>
    decreases s.len(),
{
    if s.len() == 0 {
        Seq::<u8>::empty()
    } else if s.len() == 1 {
        enc1(s[0])
    } else if s.len() == 2 {
        enc2(s[0], s[1])
    } else {
        enc3(s[0], s[1], s[2]) + encode(s.skip(3))
    }
}

/// The bytes of a group of four characters, the last group of the text
/// where `last` holds; `None` where the group is malformed.
pub open spec fn dec4(q: Seq<u8>, last: bool) -> Option<Seq<u8>>
    recommends
        q.len() == 4,
{
    let (v0, v1, v2, v3) = (value_of(q[0]), value_of(q[1]), value_of(q[2]), value_of(q[3]));
    if v0 is Some && v1 is Some && v2 is Some && v3 is Some {
        let (s0, s1, s2, s3) = (v0->0, v1->0, v2->0, v3->0);
        Some(seq![(s0 << 2u8) | (s1 >> 4u8), ((s1 & 15u8) << 4u8) | (s2 >> 2u8), ((s2 & 3u8) << 6u8) | s3])
    } else if last && v0 is Some && v1 is Some && v2 is Some && q[3] == PAD {
        let (s0, s1, s2) = (v0->0, v1->0, v2->0);
        Some(seq![(s0 << 2u8) | (s1 >> 4u8), ((s1 & 15u8) << 4u8) | (s2 >> 2u8)])
    } else if last && v0 is Some && v1 is Some && q[2] == PAD && q[3] == PAD {
        let (s0, s1) = (v0->0, v1->0);
        Some(seq![(s0 << 2u8) | (s1 >> 4u8)])
    } else {
        None
    }
}

/// The bytes that the base64 text `t` encodes; `None` where it is
/// malformed.
pub open spec fn decode(t: Seq<u8>) -> Option<Seq<u8>>
    decreases t.len(),
{
    if t.len() == 0 {
        Some(Seq::<u8>::empty())
    } else if t.len() < 4 {
        None
    } else {
        match dec4(t.take(4), t.len() == 4) {
            None => None,
            Some(g) => match decode(t.skip(4)) {
                None => None,
                Some(r) => Some(g + r),
            },
        }
    }
}

proof fn lemma_char_value(v: u8)
    requires
        v < 64,
    ensures
        value_of(char_of(v)) == Some(v),
        char_of(v) != PAD,
{
}

pub(crate) proof fn lemma_bits3(a: u8, b: u8, c: u8)
    ensures
        a >> 2u8 < 64,
        ((a & 3u8) << 4u8) | (b >> 4u8) < 64,
        ((b & 15u8) << 2u8) | (c >> 6u8) < 64,
        c & 63u8 < 64,
        (a & 3u8) << 4u8 < 64,
        (b & 15u8) << 2u8 < 64,
        ((a >> 2u8) << 2u8) | ((((a & 3u8) << 4u8) | (b >> 4u8)) >> 4u8) == a,
        ((((((a & 3u8) << 4u8) | (b >> 4u8)) & 15u8) << 4u8) | ((((b & 15u8) << 2u8) | (c >> 6u8))
            >> 2u8)) == b,
        (((((b & 15u8) << 2u8) | (c >> 6u8)) & 3u8) << 6u8) | (c & 63u8) == c,
        ((a >> 2u8) << 2u8) | (((a & 3u8) << 4u8) >> 4u8) == a,
        ((((((a & 3u8) << 4u8) | (b >> 4u8)) & 15u8) << 4u8) | (((b & 15u8) << 2u8) >> 2u8)) == b,
{
    assert(a >> 2u8 < 64) by (bit_vector);
    assert(((a & 3u8) << 4u8) | (b >> 4u8) < 64) by (bit_vector);
    assert(((b & 15u8) << 2u8) | (c >> 6u8) < 64) by (bit_vector);
    assert(c & 63u8 < 64) by (bit_vector);
    assert((a & 3u8) << 4u8 < 64) by (bit_vector);
    assert((b & 15u8) << 2u8 < 64) by (bit_vector);
    assert(((a >> 2u8) << 2u8) | ((((a & 3u8) << 4u8) | (b >> 4u8)) >> 4u8) == a) by (bit_vector);
    assert(((((((a & 3u8) << 4u8) | (b >> 4u8)) & 15u8) << 4u8) | ((((b & 15u8) << 2u8) | (c
        >> 6u8)) >> 2u8)) == b) by (bit_vector);
    assert((((((b & 15u8) << 2u8) | (c >> 6u8)) & 3u8) << 6u8) | (c & 63u8) == c) by (bit_vector);
    assert(((a >> 2u8) << 2u8) | (((a & 3u8) << 4u8) >> 4u8) == a) by (bit_vector);
    assert(((((((a & 3u8) << 4u8) | (b >> 4u8)) & 15u8) << 4u8) | (((b & 15u8) << 2u8) >> 2u8))
        == b) by (bit_vector);
}

/// Decoding the encoding of any bytes gives those bytes back.
pub proof fn lemma_decode_encode(s: Seq<u8>)
    ensures
        decode(encode(s)) == Some(s),
    decreases s.len(),
{
    if s.len() == 0 {
    } else if s.len() == 1 {
        let a = s[0];
        lemma_bits3(a, 0, 0);
        lemma_char_value(a >> 2u8);
        lemma_char_value((a & 3u8) << 4u8);
        let t = enc1(a);
        assert(t.take(4) =~= t);
        assert(t.skip(4) =~= Seq::<u8>::empty());
        assert(decode(t.skip(4)) == Some(Seq::<u8>::empty()));
        assert(seq![a] + Seq::<u8>::empty() =~= s);
    } else if s.len() == 2 {
        let (a, b) = (s[0], s[1]);
        lemma_bits3(a, b, 0);
        lemma_char_value(a >> 2u8);
        lemma_char_value(((a & 3u8) << 4u8) | (b >> 4u8));
        lemma_char_value((b & 15u8) << 2u8);
        let t = enc2(a, b);
        assert(t.take(4) =~= t);
        assert(t.skip(4) =~= Seq::<u8>::empty());
        assert(decode(t.skip(4)) == Some(Seq::<u8>::empty()));
        assert(seq![a, b] + Seq::<u8>::empty() =~= s);
    } else {
        let (a, b, c) = (s[0], s[1], s[2]);
        lemma_bits3(a, b, c);
        lemma_char_value(a >> 2u8);
        lemma_char_value(((a & 3u8) << 4u8) | (b >> 4u8));
        lemma_char_value(((b & 15u8) << 2u8) | (c >> 6u8));
        lemma_char_value(c & 63u8);
        let rest = s.skip(3);
        lemma_decode_encode(rest);
        let t = enc3(a, b, c) + encode(rest);
        assert(t.take(4) =~= enc3(a, b, c));
        assert(t.skip(4) =~= encode(rest));
        assert(seq![a, b, c] + rest =~= s);
    }
}

pub(crate) fn char_for(v: u8) -> (r: u8)
    requires
        v < 64,
    ensures
        r == char_of(v),
{
    if v < 26 {
        65 + v
    } else if v < 52 {
        71 + v
    } else if v < 62 {
        v - 4
    } else if v == 62 {
        43
    } else {
        47
    }
}

fn value_for(c: u8) -> (r: Option<u8>)
    ensures
        r == value_of(c),
{
    if 65 <= c && c <= 90 {
        Some(c - 65)
    } else if 97 <= c && c <= 122 {
        Some(c - 71)
    } else if 48 <= c && c <= 57 {
        Some(c + 4)
    } else if c == 43 {
        Some(62)
    } else if c == 47 {
        Some(63)
    } else {
        None
    }
}

/// Appends the base64 encoding of `data` to `out`.
pub fn encode_into(data: &[u8], out: &mut Vec<u8>)
    ensures
        final(out)@ == old(out)@ + encode(data@),
{
    let n = data.len();
    let mut i: usize = 0;
    assert(data@.skip(0) =~= data@);
    while i < n
        invariant
            n == data@.len(),
            i <= n,
            out@ + encode(data@.skip(i as int)) == old(out)@ + encode(data@),
        decreases n - i,
    {
        let ghost before = out@;
        let ghost rest = data@.skip(i as int);
        let a = data[i];
        proof {
            lemma_bits3(a, 0, 0);
        }
        if n - i >= 3 {
            let b = data[i + 1];
            let c = data[i + 2];
            proof {
                lemma_bits3(a, b, c);
            }
            out.push(char_for(a >> 2));
            out.push(char_for(((a & 3) << 4) | (b >> 4)));
            out.push(char_for(((b & 15) << 2) | (c >> 6)));
            out.push(char_for(c & 63));
            assert(rest.skip(3) =~= data@.skip(i + 3));
            assert(out@ =~= before + enc3(a, b, c));
            i = i + 3;
        } else if n - i == 2 {
            let b = data[i + 1];
            proof {
                lemma_bits3(a, b, 0);
            }
            out.push(char_for(a >> 2));
            out.push(char_for(((a & 3) << 4) | (b >> 4)));
            out.push(char_for((b & 15) << 2));
            out.push(PAD);
            assert(out@ =~= before + enc2(a, b));
            i = n;
            assert(data@.skip(i as int) =~= Seq::<u8>::empty());
        } else {
            out.push(char_for(a >> 2));
            out.push(char_for((a & 3) << 4));
            out.push(PAD);
            out.push(PAD);
            assert(out@ =~= before + enc1(a));
            i = n;
            assert(data@.skip(i as int) =~= Seq::<u8>::empty());
        }
        assert(out@ + encode(data@.skip(i as int)) =~= old(out)@ + encode(data@));
    }
    assert(data@.skip(n as int) =~= Seq::<u8>::empty());
    assert(out@ =~= out@ + encode(data@.skip(n as int)));
}

/// `out` before whatever the rest decodes to, or `None` where the rest is
/// malformed.
pub open spec fn prefixed(out: Seq<u8>, rest: Option<Seq<u8>>) -> Option<Seq<u8>> {
    match rest {
        None => None,
        Some(r) => Some(out + r),
    }
}

/// The bytes that the base64 text `text` encodes, or `None` where it is
/// malformed.
pub fn decode_text(text: &[u8]) -> (r: Option<Vec<u8>>)
    ensures
        r matches Some(v) ==> decode(text@) == Some(v@),
        r is None ==> decode(text@) is None,
{
    let n = text.len();
    let mut out: Vec<u8> = Vec::new();
    let mut i: usize = 0;
    assert(text@.skip(0) =~= text@);
    proof {
        match decode(text@) {
            Some(x) => assert(out@ + x =~= x),
            None => {},
        }
    }
    while i < n
        invariant
            n == text@.len(),
            i <= n,
            decode(text@) == prefixed(out@, decode(text@.skip(i as int))),
        decreases n - i,
    {
        let ghost rest = text@.skip(i as int);
        let ghost before = out@;
        if n - i < 4 {
            return None;
        }
        let last = n - i == 4;
        let q0 = value_for(text[i]);
        let q1 = value_for(text[i + 1]);
        let q2 = value_for(text[i + 2]);
        let q3 = value_for(text[i + 3]);
        let p2 = text[i + 2] == PAD;
        let p3 = text[i + 3] == PAD;
        assert(rest.take(4) =~= seq![text@[i as int], text@[i + 1], text@[i + 2], text@[i + 3]]);
        assert(rest.skip(4) =~= text@.skip(i + 4));
        match (q0, q1, q2, q3) {
            (Some(s0), Some(s1), Some(s2), Some(s3)) => {
                out.push((s0 << 2) | (s1 >> 4));
                out.push(((s1 & 15) << 4) | (s2 >> 2));
                out.push(((s2 & 3) << 6) | s3);
            },
            (Some(s0), Some(s1), Some(s2), None) => {
                if !(last && p3) {
                    return None;
                }
                out.push((s0 << 2) | (s1 >> 4));
                out.push(((s1 & 15) << 4) | (s2 >> 2));
            },
            (Some(s0), Some(s1), None, None) => {
                if !(last && p2 && p3) {
                    return None;
                }
                out.push((s0 << 2) | (s1 >> 4));
            },
            _ => {
                return None;
            },
        }
        let ghost g = out@.skip(before.len() as int);
        assert(out@ =~= before + g);
        assert(dec4(rest.take(4), rest.len() == 4) == Some(g));
        i = i + 4;
        assert(prefixed(before, decode(rest)) == prefixed(out@, decode(text@.skip(i as int)))) by {
            match decode(text@.skip(i as int)) {
                Some(x) => {
                    assert(before + (g + x) =~= out@ + x);
                },
                None => {},
            }
        }
    }
    assert(text@.skip(n as int) =~= Seq::<u8>::empty());
    assert(out@ + Seq::<u8>::empty() =~= out@);
    Some(out)
}

} // verus!

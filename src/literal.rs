//! The literal data packet: the innermost frame of a message, which carries
//! its content with a format tag, a file name hint and a date.

use vstd::prelude::*;
use vstd::slice::slice_subrange;
use crate::bytes::push_all;
use crate::error::{Error, Result};

verus! {

/// How the content of a literal packet is to be read.
#[derive(Clone, Copy, Debug, PartialEq, Eq, Structural)]
pub enum LiteralFormat {
    /// Bytes.
    Binary,
    /// Text.
    Text,
    /// UTF-8 text.
    Unicode,
}

/// The octet that tags a format: `b`, `t` or `u`.
pub open spec fn format_octet(f: LiteralFormat) -> u8 {
    match f {
        LiteralFormat::Binary => 98,
        LiteralFormat::Text => 116,
        LiteralFormat::Unicode => 117,
    }
}

fn format_to_octet(f: LiteralFormat) -> (r: u8)
    ensures
        r == format_octet(f),
{
    match f {
        LiteralFormat::Binary => 98,
        LiteralFormat::Text => 116,
        LiteralFormat::Unicode => 117,
    }
}

/// The format that the octet `o` tags, if any.
pub open spec fn octet_format(o: u8) -> Option<LiteralFormat> {
    if o == 98 {
        Some(LiteralFormat::Binary)
    } else if o == 116 {
        Some(LiteralFormat::Text)
    } else if o == 117 {
        Some(LiteralFormat::Unicode)
    } else {
        None
    }
}

fn format_from_octet(o: u8) -> (r: Option<LiteralFormat>)
    ensures
        r == octet_format(o),
{
    if o == 98 {
        Some(LiteralFormat::Binary)
    } else if o == 116 {
        Some(LiteralFormat::Text)
    } else if o == 117 {
        Some(LiteralFormat::Unicode)
    } else {
        None
    }
}

/// The first octet of a literal packet: a new-format header with tag 11.
pub const LITERAL_TAG: u8 = 0xCB;

/// `n` as four big-endian bytes.
pub open spec fn be32(n: u32) -> Seq<u8> {
    seq![
        ((n >> 24u32) & 0xffu32) as u8,
        ((n >> 16u32) & 0xffu32) as u8,
        ((n >> 8u32) & 0xffu32) as u8,
        (n & 0xffu32) as u8,
    ]
}

/// The big-endian value of four bytes.
pub open spec fn from_be32(b: Seq<u8>) -> u32
    recommends
        b.len() == 4,
{
    ((b[0] as u32) << 24u32) | ((b[1] as u32) << 16u32) | ((b[2] as u32) << 8u32) | (b[3] as u32)
}

/// The octets that give a body length of `n`: one below 192, two below
/// 8384, and otherwise 255 followed by four.
pub open spec fn length_octets(n: u32) -> Seq<u8> {
    if n < 192 {
        seq![n as u8]
    } else if n < 8384 {
        seq![((((n - 192) as u32) >> 8u32) + 192) as u8, (((n - 192) as u32) & 0xffu32) as u8]
    } else {
        seq![255u8] + be32(n)
    }
}

/// The body of a literal packet.
pub open spec fn literal_body(f: LiteralFormat, name: Seq<u8>, date: u32, data: Seq<u8>) -> Seq<
    u8,
> {
    seq![format_octet(f), name.len() as u8] + name + be32(date) + data
}

/// The literal packet that carries `data`.
pub open spec fn literal_packet(f: LiteralFormat, name: Seq<u8>, date: u32, data: Seq<u8>) -> Seq<
    u8,
> {
    let body = literal_body(f, name, date, data);
    seq![LITERAL_TAG] + length_octets(body.len() as u32) + body
}

/// Whether a packet carrying these fields can be written: the name fits
/// its one-octet length and the body its four-octet length.
pub open spec fn literal_fits(name: Seq<u8>, data: Seq<u8>) -> bool {
    name.len() <= 255 && 6 + name.len() + data.len() <= u32::MAX
}

proof fn lemma_be32(n: u32)
    ensures
        from_be32(be32(n)) == n,
{
    assert((n >> 24u32) & 0xffu32 <= 255) by (bit_vector);
    assert((n >> 16u32) & 0xffu32 <= 255) by (bit_vector);
    assert((n >> 8u32) & 0xffu32 <= 255) by (bit_vector);
    assert(n & 0xffu32 <= 255) by (bit_vector);
    assert((((n >> 24u32) & 0xffu32) << 24u32) | (((n >> 16u32) & 0xffu32) << 16u32) | (((n
        >> 8u32) & 0xffu32) << 8u32) | (n & 0xffu32) == n) by (bit_vector);
}

/// The value of a two-octet body length.
pub open spec fn two_octet_value(b0: u8, b1: u8) -> u32 {
    ((((b0 - 192) as u32) << 8u32) + (b1 as u32) + 192) as u32
}

proof fn lemma_two_octets(n: u32)
    requires
        192 <= n < 8384,
    ensures
        length_octets(n)[0] >= 192,
        length_octets(n)[0] < 224,
        two_octet_value(length_octets(n)[0], length_octets(n)[1]) == n,
{
    let v = (n - 192) as u32;
    assert(v >> 8u32 < 32) by (bit_vector)
        requires
            v < 8192,
    ;
    assert(v & 0xffu32 <= 255) by (bit_vector);
    assert(((v >> 8u32) << 8u32) + (v & 0xffu32) == v) by (bit_vector);
    assert((v >> 8u32) << 8u32 <= v) by (bit_vector);
}

/// Reads `n` from four big-endian bytes at `at`.
fn read_be32(b: &[u8], at: usize) -> (r: u32)
    requires
        at + 4 <= b@.len(),
    ensures
        r == from_be32(b@.subrange(at as int, at + 4)),
{
    ((b[at] as u32) << 24) | ((b[at + 1] as u32) << 16) | ((b[at + 2] as u32) << 8) | (
    b[at + 3] as u32)
}

fn push_be32(out: &mut Vec<u8>, n: u32)
    ensures
        final(out)@ == old(out)@ + be32(n),
{
    out.push(((n >> 24) & 0xff) as u8);
    out.push(((n >> 16) & 0xff) as u8);
    out.push(((n >> 8) & 0xff) as u8);
    out.push((n & 0xff) as u8);
    assert(final(out)@ =~= old(out)@ + be32(n));
}

/// The literal packet that carries `data` in the given format, with the
/// file name hint `name` and the date `date` (seconds since the epoch). A
/// name longer than 255 bytes, or a body too long for a four-octet length,
/// is refused with `InvalidArgument`.
pub fn write_literal(format: LiteralFormat, name: &[u8], date: u32, data: &[u8]) -> (r: Result<
    Vec<u8>,
>)
    ensures
        r is Ok <==> literal_fits(name@, data@),
        r matches Ok(p) ==> p@ == literal_packet(format, name@, date, data@),
        r is Err ==> r->Err_0 is InvalidArgument,
{
    if name.len() > 255 {
        return Err(Error::InvalidArgument(String::from_str("file name too long")));
    }
    if data.len() > 0xFFFF_FFFF - 6 - name.len() {
        return Err(Error::InvalidArgument(String::from_str("content too long")));
    }
    let n: u32 = (6 + name.len() + data.len()) as u32;
    let mut out: Vec<u8> = Vec::new();
    out.push(LITERAL_TAG);
    if n < 192 {
        out.push(n as u8);
    } else if n < 8384 {
        let v = n - 192;
        proof {
            assert(v >> 8u32 < 32) by (bit_vector)
                requires
                    v < 8192,
            ;
            assert(v & 0xffu32 <= 255) by (bit_vector);
        }
        out.push(((v >> 8) + 192) as u8);
        out.push((v & 0xff) as u8);
    } else {
        out.push(255);
        push_be32(&mut out, n);
    }
    assert(out@ =~= seq![LITERAL_TAG] + length_octets(n));
    out.push(format_to_octet(format));
    out.push(name.len() as u8);
    push_all(&mut out, name);
    push_be32(&mut out, date);
    push_all(&mut out, data);
    proof {
        assert((n >> 24u32) & 0xffu32 <= 255) by (bit_vector);
        assert((n >> 16u32) & 0xffu32 <= 255) by (bit_vector);
        assert((n >> 8u32) & 0xffu32 <= 255) by (bit_vector);
        assert(n & 0xffu32 <= 255) by (bit_vector);
    }
    assert(out@ =~= literal_packet(format, name@, date, data@));
    Ok(out)
}

/// The body length that a packet `p` gives after its first octet, and how
/// many octets give it; `None` where the length is missing or is not a
/// definite one.
pub open spec fn length_at(p: Seq<u8>) -> Option<(u32, nat)> {
    if p.len() < 2 {
        None
    } else if p[1] < 192 {
        Some((p[1] as u32, 1))
    } else if p[1] < 224 {
        if p.len() < 3 {
            None
        } else {
            Some((two_octet_value(p[1], p[2]), 2))
        }
    } else if p[1] == 255 {
        if p.len() < 6 {
            None
        } else {
            Some((from_be32(p.subrange(2, 6)), 5))
        }
    } else {
        None
    }
}

/// The format, file name, date and content of the literal packet `p`;
/// `None` where `p` is not exactly one well-formed literal packet.
pub open spec fn literal_fields(p: Seq<u8>) -> Option<(LiteralFormat, Seq<u8>, u32, Seq<u8>)> {
    if p.len() == 0 || p[0] != LITERAL_TAG {
        None
    } else {
        match length_at(p) {
            None => None,
            Some((n, k)) => {
                let body = p.skip(1 + k as int);
                if 1 + k + n != p.len() || n < 6 {
                    None
                } else {
                    let m = body[1] as int;
                    match octet_format(body[0]) {
                        None => None,
                        Some(f) => if 6 + m > n {
                            None
                        } else {
                            Some(
                                (
                                    f,
                                    body.subrange(2, 2 + m),
                                    from_be32(body.subrange(2 + m, 6 + m)),
                                    body.skip(6 + m),
                                ),
                            )
                        },
                    }
                }
            },
        }
    }
}

/// Reading the literal packet written for some fields gives those fields
/// back.
pub proof fn lemma_read_written(f: LiteralFormat, name: Seq<u8>, date: u32, data: Seq<u8>)
    requires
        literal_fits(name, data),
    ensures
        literal_fields(literal_packet(f, name, date, data)) == Some((f, name, date, data)),
{
    let body = literal_body(f, name, date, data);
    let n = body.len() as u32;
    let p = literal_packet(f, name, date, data);
    let lo = length_octets(n);
    if n < 192 {
        assert(length_at(p) == Some((n, 1nat)));
    } else if n < 8384 {
        lemma_two_octets(n);
        assert(length_at(p) == Some((n, 2nat)));
    } else {
        lemma_be32(n);
        assert(p.subrange(2, 6) =~= be32(n));
        assert(length_at(p) == Some((n, 5nat)));
    }
    assert(p.skip(1 + lo.len() as int) =~= body);
    let m = name.len() as int;
    assert(body.subrange(2, 2 + m) =~= name);
    assert(body.subrange(2 + m, 6 + m) =~= be32(date));
    lemma_be32(date);
    assert(body.skip(6 + m) =~= data);
}

/// The fields of a literal packet.
pub struct Literal {
    pub format: LiteralFormat,
    pub filename: Vec<u8>,
    pub date: u32,
    pub body: Vec<u8>,
}

fn copy_of(s: &[u8]) -> (r: Vec<u8>)
    ensures
        r@ == s@,
{
    let mut v: Vec<u8> = Vec::new();
    push_all(&mut v, s);
    assert(v@ =~= s@);
    v
}

/// The fields of the literal packet `p`. Anything but exactly one
/// well-formed literal packet with a definite length is refused with
/// `InvalidArgument`.
pub fn read_literal(p: &[u8]) -> (r: Result<Literal>)
    ensures
        r matches Ok(l) ==> literal_fields(p@) == Some((l.format, l.filename@, l.date, l.body@)),
        r is Err ==> literal_fields(p@) is None && r->Err_0 is InvalidArgument,
{
    let len = p.len();
    if len < 2 || p[0] != LITERAL_TAG {
        return Err(Error::InvalidArgument(String::from_str("not a literal packet")));
    }
    let (n, k): (u32, usize) = if p[1] < 192 {
        (p[1] as u32, 1)
    } else if p[1] < 224 {
        if len < 3 {
            return Err(Error::InvalidArgument(String::from_str("truncated length")));
        }
        let hi = (p[1] - 192) as u32;
        assert(hi << 8u32 <= 7936) by (bit_vector)
            requires
                hi < 32,
        ;
        ((hi << 8) + (p[2] as u32) + 192, 2)
    } else if p[1] == 255 {
        if len < 6 {
            return Err(Error::InvalidArgument(String::from_str("truncated length")));
        }
        (read_be32(p, 2), 5)
    } else {
        return Err(Error::InvalidArgument(String::from_str("indefinite length")));
    };
    assert(length_at(p@) == Some((n, k as nat)));
    if len - 1 - k != n as usize || n < 6 {
        return Err(Error::InvalidArgument(String::from_str("length does not match")));
    }
    let start = 1 + k;
    let format = match format_from_octet(p[start]) {
        Some(f) => f,
        None => {
            return Err(Error::InvalidArgument(String::from_str("unknown format")));
        },
    };
    let m = p[start + 1] as usize;
    if 6 + m > n as usize {
        return Err(Error::InvalidArgument(String::from_str("file name too long")));
    }
    let ghost body = p@.skip(start as int);
    let filename = copy_of(slice_subrange(p, start + 2, start + 2 + m));
    let date = read_be32(p, start + 2 + m);
    let content = copy_of(slice_subrange(p, start + 6 + m, len));
    assert(filename@ =~= body.subrange(2, 2 + m));
    assert(p@.subrange(start + 2 + m, start + 6 + m) =~= body.subrange(2 + m, 6 + m));
    assert(content@ =~= body.skip(6 + m));
    Ok(Literal { format, filename, date, body: content })
}

} // verus!

//! ASCII armor: an envelope that carries binary OpenPGP data as text.
//!
//! The armor of some bytes is a header line naming the kind of object, an
//! empty line, the base64 encoding of the bytes in lines of 64 characters,
//! a checksum line (`=` and the base64 of the bytes' CRC-24) and a footer
//! line.

use vstd::prelude::*;
use vstd::slice::slice_subrange;
use crate::base64::{
    char_for, decode, decode_text, enc1, enc2, enc3, encode, encode_into, lemma_bits3,
    lemma_decode_encode, PAD,
};
use crate::bytes::push_all;
use crate::error::{Error, Result};

verus! {

/// The kind of object that an armor carries.
#[derive(Clone, Copy, Debug, PartialEq, Eq, Structural)]
pub enum Kind {
    Message,
    Signature,
    PublicKey,
    SecretKey,
}

/// The line feed that ends each line.
pub const LF: u8 = 10;

/// The width of a body line, in characters.
pub const LINE: usize = 64;

/// The initial value of the CRC-24 of OpenPGP.
pub const CRC24_INIT: u32 = 0xB704CE;

/// The generator polynomial of the CRC-24 of OpenPGP.
pub const CRC24_POLY: u32 = 0x1864CFB;

/// The label of the header and footer lines.
pub open spec fn label(kind: Kind) -> Seq<u8> {
    match kind {
        Kind::Message => seq![80u8, 71, 80, 32, 77, 69, 83, 83, 65, 71, 69],
        Kind::Signature => seq![80u8, 71, 80, 32, 83, 73, 71, 78, 65, 84, 85, 82, 69],
        Kind::PublicKey => seq![80u8, 71, 80, 32, 80, 85, 66, 76, 73, 67, 32, 75, 69, 89, 32, 66, 76, 79, 67, 75],
        Kind::SecretKey => seq![80u8, 71, 80, 32, 80, 82, 73, 86, 65, 84, 69, 32, 75, 69, 89, 32, 66, 76, 79, 67, 75],
    }
}

fn label_bytes(kind: Kind) -> (r: Vec<u8>)
    ensures
        r@ == label(kind),
{
    match kind {
        Kind::Message => vec![80u8, 71, 80, 32, 77, 69, 83, 83, 65, 71, 69],
        Kind::Signature => vec![80u8, 71, 80, 32, 83, 73, 71, 78, 65, 84, 85, 82, 69],
        Kind::PublicKey => vec![80u8, 71, 80, 32, 80, 85, 66, 76, 73, 67, 32, 75, 69, 89, 32, 66, 76, 79, 67, 75],
        Kind::SecretKey => vec![80u8, 71, 80, 32, 80, 82, 73, 86, 65, 84, 69, 32, 75, 69, 89, 32, 66, 76, 79, 67, 75],
    }
}

/// Five dashes.
pub open spec fn dashes() -> Seq<u8> {
    seq![45u8, 45, 45, 45, 45]
}

/// `-----BEGIN <label>-----`, a line feed and an empty line.
pub open spec fn header(kind: Kind) -> Seq<u8> {
    dashes() + seq![66u8, 69, 71, 73, 78, 32] + label(kind) + dashes() + seq![LF, LF]
}

/// `-----END <label>-----` and a line feed.
pub open spec fn footer(kind: Kind) -> Seq<u8> {
    dashes() + seq![69u8, 78, 68, 32] + label(kind) + dashes() + seq![LF]
}

/// One step of the CRC-24 shift register.
pub open spec fn crc_shift(c: u32) -> u32 {
    let d = c << 1u32;
    if d & 0x1000000u32 != 0 {
        d ^ CRC24_POLY
    } else {
        d
    }
}

/// `n` steps of the shift register.
pub open spec fn crc_shifts(c: u32, n: nat) -> u32
    decreases n,
{
    if n == 0 {
        c
    } else {
        crc_shifts(crc_shift(c), (n - 1) as nat)
    }
}

/// The register after the byte `b` went in.
pub open spec fn crc_update(c: u32, b: u8) -> u32 {
    crc_shifts(c ^ ((b as u32) << 16u32), 8) & 0xFFFFFFu32
}

/// The CRC-24 of `s`.
pub open spec fn crc24(s: Seq<u8>) -> u32
    decreases s.len(),
{
    if s.len() == 0 {
        CRC24_INIT
    } else {
        crc_update(crc24(s.drop_last()), s.last())
    }
}

/// The three bytes of a CRC-24, most significant first.
pub open spec fn crc_bytes(c: u32) -> Seq<u8> {
    seq![((c >> 16u32) & 0xffu32) as u8, ((c >> 8u32) & 0xffu32) as u8, (c & 0xffu32) as u8]
}

/// `e` in lines of 64 characters, each ended by a line feed.
pub open spec fn wrap(e: Seq<u8>) -> Seq<u8>
    decreases e.len(),
{
    if e.len() == 0 {
        Seq::<u8>::empty()
    } else if e.len() <= LINE {
        e.push(LF)
    } else {
        e.take(LINE as int).push(LF) + wrap(e.skip(LINE as int))
    }
}

/// The characters of the lines of `m`, without their line ends.
pub open spec fn unwrap(m: Seq<u8>) -> Seq<u8>
    decreases m.len(),
{
    if m.len() == 0 {
        Seq::<u8>::empty()
    } else if m.len() <= LINE + 1 {
        m.take(m.len() - 1)
    } else {
        m.take(LINE as int) + unwrap(m.skip(LINE + 1))
    }
}

/// The armor of `data`.
pub open spec fn armored(kind: Kind, data: Seq<u8>) -> Seq<u8> {
    header(kind) + wrap(encode(data)) + seq![PAD] + encode(crc_bytes(crc24(data))) + seq![LF]
        + footer(kind)
}

/// The bytes whose armor is `t`, or `None` where `t` is not the armor of
/// any bytes.
pub open spec fn dearmored(kind: Kind, t: Seq<u8>) -> Option<Seq<u8>> {
    let (h, f) = (header(kind).len(), footer(kind).len());
    if t.len() < h + f + 6 {
        None
    } else {
        match decode(unwrap(t.subrange(h as int, t.len() - f - 6))) {
            Some(b) => if armored(kind, b) == t {
                Some(b)
            } else {
                None
            },
            None => None,
        }
    }
}

proof fn lemma_unwrap_wrap(e: Seq<u8>)
    ensures
        unwrap(wrap(e)) == e,
    decreases e.len(),
{
    if e.len() == 0 {
    } else if e.len() <= LINE {
        assert(e.push(LF).take(e.len() as int) =~= e);
    } else {
        let rest = e.skip(LINE as int);
        let w = e.take(LINE as int).push(LF) + wrap(rest);
        lemma_unwrap_wrap(rest);
        assert(wrap(rest).len() > 0);
        assert(w.take(LINE as int) =~= e.take(LINE as int));
        assert(w.skip(LINE + 1) =~= wrap(rest));
        assert(e.take(LINE as int) + rest =~= e);
    }
}

/// Unarmoring the armor of any bytes gives those bytes back.
pub proof fn lemma_dearmored_armored(kind: Kind, data: Seq<u8>)
    ensures
        dearmored(kind, armored(kind, data)) == Some(data),
{
    let t = armored(kind, data);
    let w = wrap(encode(data));
    let (h, f) = (header(kind).len(), footer(kind).len());
    lemma_decode_encode(crc_bytes(crc24(data)));
    assert(encode(crc_bytes(crc24(data))).len() == 4) by {
        reveal_with_fuel(encode, 2);
    }
    assert(t.subrange(h as int, t.len() - f - 6) =~= w);
    lemma_unwrap_wrap(encode(data));
    lemma_decode_encode(data);
}

/// The register after the byte `b` went in.
fn crc_update_byte(c: u32, b: u8) -> (r: u32)
    ensures
        r == crc_update(c, b),
{
    let ghost c0 = c ^ ((b as u32) << 16u32);
    let mut c = c ^ ((b as u32) << 16);
    let mut k: usize = 0;
    while k < 8
        invariant
            k <= 8,
            crc_shifts(c, (8 - k) as nat) == crc_shifts(c0, 8),
        decreases 8 - k,
    {
        let d = c << 1;
        c = if d & 0x1000000 != 0 { d ^ CRC24_POLY } else { d };
        k = k + 1;
    }
    c & 0xFFFFFF
}

/// The CRC-24 of `data`.
pub fn crc24_of(data: &[u8]) -> (r: u32)
    ensures
        r == crc24(data@),
{
    let mut c: u32 = CRC24_INIT;
    let mut i: usize = 0;
    while i < data.len()
        invariant
            i <= data@.len(),
            c == crc24(data@.take(i as int)),
        decreases data@.len() - i,
    {
        c = crc_update_byte(c, data[i]);
        assert(data@.take(i + 1).drop_last() =~= data@.take(i as int));
        i = i + 1;
    }
    assert(data@.take(data@.len() as int) =~= data@);
    c
}

/// Appends `e` to `out` in lines of 64 characters, each ended by a line
/// feed.
fn wrap_into(e: &[u8], out: &mut Vec<u8>)
    ensures
        final(out)@ == old(out)@ + wrap(e@),
{
    let n = e.len();
    let mut i: usize = 0;
    assert(e@.skip(0) =~= e@);
    while i < n
        invariant
            n == e@.len(),
            i <= n,
            out@ + wrap(e@.skip(i as int)) == old(out)@ + wrap(e@),
        decreases n - i,
    {
        let ghost before = out@;
        let ghost rest = e@.skip(i as int);
        let end: usize = if n - i <= LINE { n } else { i + LINE };
        let mut k: usize = i;
        while k < end
            invariant
                i <= k <= end <= n,
                n == e@.len(),
                out@ == before + e@.subrange(i as int, k as int),
            decreases end - k,
        {
            out.push(e[k]);
            k = k + 1;
            assert(out@ =~= before + e@.subrange(i as int, k as int));
        }
        out.push(LF);
        if n - i <= LINE {
            assert(e@.subrange(i as int, n as int) =~= rest);
        } else {
            assert(e@.subrange(i as int, end as int) =~= rest.take(LINE as int));
            assert(rest.skip(LINE as int) =~= e@.skip(end as int));
        }
        i = end;
        assert(out@ + wrap(e@.skip(i as int)) =~= before + wrap(rest));
    }
    assert(e@.skip(n as int) =~= Seq::<u8>::empty());
    assert(out@ + Seq::<u8>::empty() =~= out@);
}

/// The characters of the lines of `m`, without their line ends.
fn unwrap_text(m: &[u8]) -> (r: Vec<u8>)
    ensures
        r@ == unwrap(m@),
{
    let n = m.len();
    let mut out: Vec<u8> = Vec::new();
    let mut pos: usize = 0;
    assert(m@.skip(0) =~= m@);
    assert(out@ + unwrap(m@) =~= unwrap(m@));
    while pos < n
        invariant
            n == m@.len(),
            pos <= n,
            out@ + unwrap(m@.skip(pos as int)) == unwrap(m@),
        decreases n - pos,
    {
        let ghost before = out@;
        let ghost rest = m@.skip(pos as int);
        let (end, next): (usize, usize) = if n - pos <= LINE + 1 {
            (n - 1, n)
        } else {
            (pos + LINE, pos + LINE + 1)
        };
        let mut k: usize = pos;
        while k < end
            invariant
                pos <= k <= end < n,
                n == m@.len(),
                out@ == before + m@.subrange(pos as int, k as int),
            decreases end - k,
        {
            out.push(m[k]);
            k = k + 1;
            assert(out@ =~= before + m@.subrange(pos as int, k as int));
        }
        if n - pos <= LINE + 1 {
            assert(m@.subrange(pos as int, end as int) =~= rest.take(rest.len() - 1));
        } else {
            assert(m@.subrange(pos as int, end as int) =~= rest.take(LINE as int));
            assert(rest.skip(LINE + 1) =~= m@.skip(next as int));
        }
        pos = next;
        assert(out@ + unwrap(m@.skip(pos as int)) =~= before + unwrap(rest));
    }
    assert(m@.skip(n as int) =~= Seq::<u8>::empty());
    assert(out@ + Seq::<u8>::empty() =~= out@);
    out
}

fn header_bytes(kind: Kind) -> (r: Vec<u8>)
    ensures
        r@ == header(kind),
{
    let mut r: Vec<u8> = vec![45u8, 45, 45, 45, 45, 66, 69, 71, 73, 78, 32];
    let l = label_bytes(kind);
    push_all(&mut r, l.as_slice());
    push_all(&mut r, &[45u8, 45, 45, 45, 45, LF, LF]);
    assert(r@ =~= header(kind));
    r
}

fn footer_bytes(kind: Kind) -> (r: Vec<u8>)
    ensures
        r@ == footer(kind),
{
    let mut r: Vec<u8> = vec![45u8, 45, 45, 45, 45, 69, 78, 68, 32];
    let l = label_bytes(kind);
    push_all(&mut r, l.as_slice());
    push_all(&mut r, &[45u8, 45, 45, 45, 45, LF]);
    assert(r@ =~= footer(kind));
    r
}

/// The armor of `data`, for an object of the given kind.
pub fn armor(kind: Kind, data: &[u8]) -> (r: Vec<u8>)
    ensures
        r@ == armored(kind, data@),
{
    let mut out = header_bytes(kind);
    let mut body: Vec<u8> = Vec::new();
    encode_into(data, &mut body);
    assert(body@ =~= encode(data@));
    wrap_into(body.as_slice(), &mut out);
    out.push(PAD);
    let c = crc24_of(data);
    let sum = [((c >> 16) & 0xff) as u8, ((c >> 8) & 0xff) as u8, (c & 0xff) as u8];
    assert(sum@ =~= crc_bytes(crc24(data@)));
    encode_into(&sum, &mut out);
    out.push(LF);
    let f = footer_bytes(kind);
    push_all(&mut out, f.as_slice());
    assert(out@ =~= armored(kind, data@));
    out
}

fn same_bytes(a: &[u8], b: &[u8]) -> (r: bool)
    ensures
        r == (a@ == b@),
{
    if a.len() != b.len() {
        return false;
    }
    let mut i: usize = 0;
    while i < a.len()
        invariant
            i <= a@.len(),
            a@.len() == b@.len(),
            a@.take(i as int) == b@.take(i as int),
        decreases a@.len() - i,
    {
        if a[i] != b[i] {
            return false;
        }
        assert(a@.take(i + 1) =~= a@.take(i as int).push(a@[i as int]));
        assert(b@.take(i + 1) =~= b@.take(i as int).push(b@[i as int]));
        i = i + 1;
    }
    assert(a@.take(a@.len() as int) =~= a@);
    assert(b@.take(b@.len() as int) =~= b@);
    true
}

/// The bytes that `input` is the armor of, for an object of the given
/// kind. Text that is not exactly such an armor (another kind, a damaged
/// line, a wrong checksum) is refused with `InvalidArgument`.
pub fn unarmor(kind: Kind, input: &[u8]) -> (r: Result<Vec<u8>>)
    ensures
        r matches Ok(v) ==> dearmored(kind, input@) == Some(v@),
        r is Err ==> dearmored(kind, input@) is None && r->Err_0 is InvalidArgument,
{
    let h = header_bytes(kind).len();
    let f = footer_bytes(kind).len();
    let n = input.len();
    if n < h || n - h < f || n - h - f < 6 {
        return Err(Error::InvalidArgument(String::from_str("armor too short")));
    }
    let m = slice_subrange(input, h, n - f - 6);
    let e = unwrap_text(m);
    match decode_text(e.as_slice()) {
        Some(b) => {
            let again = armor(kind, b.as_slice());
            if same_bytes(again.as_slice(), input) {
                Ok(b)
            } else {
                Err(Error::InvalidArgument(String::from_str("malformed armor")))
            }
        },
        None => Err(Error::InvalidArgument(String::from_str("malformed armor body"))),
    }
}

/// `e` with a line feed after every 64th character; a last, shorter line
/// is left open.
pub open spec fn lay(e: Seq<u8>) -> Seq<u8>
    decreases e.len(),
{
    if e.len() == 0 {
        Seq::<u8>::empty()
    } else if e.len() % (LINE as nat) == 0 {
        lay(e.drop_last()).push(e.last()).push(LF)
    } else {
        lay(e.drop_last()).push(e.last())
    }
}

proof fn lemma_lay_short(x: Seq<u8>)
    requires
        x.len() < LINE,
    ensures
        lay(x) == x,
    decreases x.len(),
{
    if x.len() > 0 {
        lemma_lay_short(x.drop_last());
        assert(x.drop_last().push(x.last()) =~= x);
    }
}

proof fn lemma_lay_append(a: Seq<u8>, b: Seq<u8>)
    requires
        a.len() % (LINE as nat) == 0,
    ensures
        lay(a + b) == lay(a) + lay(b),
    decreases b.len(),
{
    if b.len() == 0 {
        assert(a + b =~= a);
        assert(lay(a) + lay(b) =~= lay(a));
    } else {
        lemma_lay_append(a, b.drop_last());
        assert((a + b).drop_last() =~= a + b.drop_last());
        assert((a + b).last() == b.last());
        assert((a.len() + b.len()) % (LINE as nat) == b.len() % (LINE as nat)) by {
            vstd::arithmetic::div_mod::lemma_mod_adds(a.len() as int, b.len() as int, LINE as int);
        }
        if b.len() % (LINE as nat) == 0 {
            assert(lay(a) + lay(b.drop_last()).push(b.last()).push(LF) =~= (lay(a) + lay(
                b.drop_last(),
            )).push(b.last()).push(LF));
        } else {
            assert(lay(a) + lay(b.drop_last()).push(b.last()) =~= (lay(a) + lay(
                b.drop_last(),
            )).push(b.last()));
        }
    }
}

/// What closes the last line of `e`, if it is open.
pub open spec fn line_end(e: Seq<u8>) -> Seq<u8> {
    if e.len() % (LINE as nat) == 0 {
        Seq::<u8>::empty()
    } else {
        seq![LF]
    }
}

proof fn lemma_wrap_lay(e: Seq<u8>)
    ensures
        wrap(e) == lay(e) + line_end(e),
    decreases e.len(),
{
    if e.len() == 0 {
        assert(lay(e) + line_end(e) =~= Seq::<u8>::empty());
    } else if e.len() < LINE {
        lemma_lay_short(e);
        assert(e.len() % (LINE as nat) == e.len());
    } else {
        let first = e.take(LINE as int);
        let rest = e.skip(LINE as int);
        lemma_lay_short(first.drop_last());
        assert(first.drop_last().push(first.last()) =~= first);
        assert(lay(first) == first.push(LF));
        if e.len() == LINE {
            assert(first =~= e);
            assert(lay(e) + line_end(e) =~= e.push(LF));
        } else {
            lemma_wrap_lay(rest);
            assert(first + rest =~= e);
            lemma_lay_append(first, rest);
            assert(e.len() % (LINE as nat) == rest.len() % (LINE as nat)) by {
                vstd::arithmetic::div_mod::lemma_mod_adds(LINE as int, rest.len() as int, LINE as int);
            }
            assert(first.push(LF) + (lay(rest) + line_end(rest)) =~= lay(e) + line_end(e));
        }
    }
}

proof fn lemma_encode_append(g: Seq<u8>, p: Seq<u8>)
    requires
        g.len() % 3 == 0,
    ensures
        encode(g + p) == encode(g) + encode(p),
    decreases g.len(),
{
    if g.len() == 0 {
        assert(g + p =~= p);
        assert(encode(g) + encode(p) =~= encode(p));
    } else {
        lemma_encode_append(g.skip(3), p);
        assert((g + p).skip(3) =~= g.skip(3) + p);
        assert(encode(g) == enc3(g[0], g[1], g[2]) + encode(g.skip(3)));
        assert(encode(g + p) == enc3(g[0], g[1], g[2]) + encode((g + p).skip(3)));
        assert(enc3(g[0], g[1], g[2]) + (encode(g.skip(3)) + encode(p)) =~= encode(g) + encode(p));
    }
}

/// `s1` is `s0` followed by what `e1` adds to `e0`, which `e1` extends.
pub open spec fn appended(s0: Seq<u8>, s1: Seq<u8>, e0: Seq<u8>, e1: Seq<u8>) -> bool {
    &&& e0.is_prefix_of(e1)
    &&& s1 == s0 + e1.skip(e0.len() as int)
}

proof fn lemma_appended_refl(s: Seq<u8>, e: Seq<u8>)
    ensures
        appended(s, s, e, e),
{
    assert(e.take(e.len() as int) =~= e);
    assert(s + e.skip(e.len() as int) =~= s);
}

/// What two steps append, one after the other, the two together append.
pub proof fn lemma_appended_trans(
    s0: Seq<u8>,
    s1: Seq<u8>,
    s2: Seq<u8>,
    e0: Seq<u8>,
    e1: Seq<u8>,
    e2: Seq<u8>,
)
    requires
        appended(s0, s1, e0, e1),
        appended(s1, s2, e1, e2),
    ensures
        appended(s0, s2, e0, e2),
{
    assert(e2.take(e0.len() as int) =~= e1.take(e0.len() as int));
    assert(e2.skip(e0.len() as int) =~= e1.skip(e0.len() as int) + e2.skip(e1.len() as int));
    assert(s2 =~= s0 + e2.skip(e0.len() as int));
}

proof fn lemma_appended_tail(s0: Seq<u8>, e0: Seq<u8>, t: Seq<u8>)
    ensures
        appended(s0, s0 + t, e0, e0 + t),
{
    assert((e0 + t).take(e0.len() as int) =~= e0);
    assert((e0 + t).skip(e0.len() as int) =~= t);
}

/// A sink that received a writer's header (`s1 == s0 + e0`) and then, by
/// its writes and its finalization, what takes the writer's output from `e0`
/// to the armor `a`, holds exactly that armor after what it held before.
pub proof fn lemma_streamed_armor(s0: Seq<u8>, s1: Seq<u8>, s2: Seq<u8>, e0: Seq<u8>, a: Seq<u8>)
    requires
        s1 == s0 + e0,
        appended(s1, s2, e0, a),
    ensures
        s2 == s0 + a,
{
    assert(e0 + a.skip(e0.len() as int) =~= a);
    assert(s2 =~= s0 + a);
}

/// The armor of a message written piece by piece into a sink. Each byte
/// goes out encoded as soon as the group of three it belongs to is
/// complete; between calls the writer holds back no more than two bytes.
pub struct ArmorWriter {
    kind: Kind,
    pending: Vec<u8>,
    col: usize,
    crc: u32,
    data: Ghost<Seq<u8>>,
    enc: Ghost<Seq<u8>>,
    emitted: Ghost<Seq<u8>>,
}

impl ArmorWriter {
    /// The bytes written so far.
    pub closed spec fn data(&self) -> Seq<u8> {
        self.data@
    }

    /// The kind of object being armored.
    pub closed spec fn kind(&self) -> Kind {
        self.kind
    }

    /// What the writer has put out so far.
    pub closed spec fn emitted(&self) -> Seq<u8> {
        self.emitted@
    }

    /// The writer's state matches the bytes written so far.
    pub closed spec fn wf(&self) -> bool {
        let full = self.data@.take(self.data@.len() - self.pending@.len());
        &&& self.pending@.len() < 3
        &&& self.pending@.len() <= self.data@.len()
        &&& self.pending@ == self.data@.skip(self.data@.len() - self.pending@.len())
        &&& full.len() % 3 == 0
        &&& self.enc@ == encode(full)
        &&& self.emitted@ == header(self.kind) + lay(self.enc@)
        &&& self.col as nat == self.enc@.len() % (LINE as nat)
        &&& self.crc == crc24(self.data@)
    }

    /// A writer that has been given nothing yet; it puts the header out to
    /// `sink`.
    pub fn new(kind: Kind, sink: &mut Vec<u8>) -> (r: ArmorWriter)
        ensures
            r.wf(),
            r.kind() == kind,
            r.data() == Seq::<u8>::empty(),
            r.emitted() == header(kind),
            final(sink)@ == old(sink)@ + r.emitted(),
    {
        let h = header_bytes(kind);
        push_all(sink, h.as_slice());
        let r = ArmorWriter {
            kind,
            pending: Vec::new(),
            col: 0,
            crc: CRC24_INIT,
            data: Ghost(Seq::<u8>::empty()),
            enc: Ghost(Seq::<u8>::empty()),
            emitted: Ghost(header(kind)),
        };
        assert(r.emitted@ =~= header(kind) + lay(Seq::<u8>::empty()));
        assert(r.data@.take(0) =~= Seq::<u8>::empty());
        assert(r.data@.skip(0) =~= r.pending@);
        r
    }

    fn put_char(&mut self, c: u8, sink: &mut Vec<u8>)
        requires
            old(self).emitted@ == header(old(self).kind) + lay(old(self).enc@),
            old(self).col as nat == old(self).enc@.len() % (LINE as nat),
        ensures
            final(self).emitted@ == header(final(self).kind) + lay(final(self).enc@),
            final(self).col as nat == final(self).enc@.len() % (LINE as nat),
            final(self).enc@ == old(self).enc@.push(c),
            appended(old(sink)@, final(sink)@, old(self).emitted@, final(self).emitted@),
            final(self).kind == old(self).kind,
            final(self).pending == old(self).pending,
            final(self).crc == old(self).crc,
            final(self).data == old(self).data,
    {
        let ghost e = self.enc@.push(c);
        let ghost s0 = sink@;
        let ghost m0 = self.emitted@;
        assert(e.drop_last() =~= self.enc@);
        sink.push(c);
        if self.col + 1 == LINE {
            sink.push(LF);
            self.col = 0;
            proof {
                lemma_appended_tail(s0, m0, seq![c, LF]);
                assert(s0 + seq![c, LF] =~= sink@);
                assert(m0 + seq![c, LF] =~= header(self.kind) + lay(e));
            }
        } else {
            self.col = self.col + 1;
            proof {
                lemma_appended_tail(s0, m0, seq![c]);
                assert(s0 + seq![c] =~= sink@);
                assert(m0 + seq![c] =~= header(self.kind) + lay(e));
            }
        }
        self.enc = Ghost(e);
        self.emitted = Ghost(header(self.kind) + lay(e));
    }

    fn take_byte(&mut self, b: u8, sink: &mut Vec<u8>)
        requires
            old(self).wf(),
        ensures
            final(self).wf(),
            final(self).kind == old(self).kind,
            final(self).data@ == old(self).data@.push(b),
            appended(old(sink)@, final(sink)@, old(self).emitted@, final(self).emitted@),
    {
        let ghost d0 = self.data@;
        let ghost full0 = d0.take(d0.len() - self.pending@.len());
        let ghost d1 = d0.push(b);
        let ghost s0 = sink@;
        let ghost m0 = self.emitted@;
        proof {
            lemma_appended_refl(s0, m0);
        }
        assert(d1.drop_last() =~= d0);
        self.crc = crc_update_byte(self.crc, b);
        self.pending.push(b);
        self.data = Ghost(d1);
        assert(self.pending@ =~= d1.skip(d1.len() - self.pending@.len()));
        assert(d1.take(d1.len() - self.pending@.len()) =~= full0);
        if self.pending.len() == 3 {
            let (a, c1, c2) = (self.pending[0], self.pending[1], self.pending[2]);
            proof {
                lemma_bits3(a, c1, c2);
            }
            let ghost (s1, m1) = (sink@, self.emitted@);
            self.put_char(char_for(a >> 2), sink);
            let ghost (s2, m2) = (sink@, self.emitted@);
            self.put_char(char_for(((a & 3) << 4) | (c1 >> 4)), sink);
            let ghost (s3, m3) = (sink@, self.emitted@);
            self.put_char(char_for(((c1 & 15) << 2) | (c2 >> 6)), sink);
            let ghost (s4, m4) = (sink@, self.emitted@);
            self.put_char(char_for(c2 & 63), sink);
            self.pending.clear();
            proof {
                lemma_appended_trans(s1, s2, s3, m1, m2, m3);
                lemma_appended_trans(s1, s3, s4, m1, m3, m4);
                lemma_appended_trans(s1, s4, sink@, m1, m4, self.emitted@);
                let g = seq![a, c1, c2];
                lemma_encode_append(full0, g);
                reveal_with_fuel(encode, 2);
                assert(g.skip(3) =~= Seq::<u8>::empty());
                assert(encode(g) =~= enc3(a, c1, c2));
                assert(full0 + g =~= d1);
                assert(d1.take(d1.len() as int) =~= d1);
                assert(d1.skip(d1.len() as int) =~= Seq::<u8>::empty());
                assert(self.enc@ =~= encode(full0) + enc3(a, c1, c2));
            }
        }
    }

    /// Takes `buf` in and puts out to `sink` what of its armor is complete.
    pub fn write(&mut self, buf: &[u8], sink: &mut Vec<u8>)
        requires
            old(self).wf(),
        ensures
            final(self).wf(),
            final(self).kind() == old(self).kind(),
            final(self).data() == old(self).data() + buf@,
            appended(old(sink)@, final(sink)@, old(self).emitted(), final(self).emitted()),
    {
        let mut i: usize = 0;
        assert(old(self).data@ + buf@.take(0) =~= old(self).data@);
        proof {
            lemma_appended_refl(sink@, self.emitted@);
        }
        while i < buf.len()
            invariant
                self.wf(),
                i <= buf@.len(),
                self.kind == old(self).kind,
                self.data@ == old(self).data@ + buf@.take(i as int),
                appended(old(sink)@, sink@, old(self).emitted@, self.emitted@),
            decreases buf@.len() - i,
        {
            let ghost (s1, m1) = (sink@, self.emitted@);
            self.take_byte(buf[i], sink);
            proof {
                lemma_appended_trans(old(sink)@, s1, sink@, old(self).emitted@, m1, self.emitted@);
            }
            assert(old(self).data@ + buf@.take(i + 1) =~= (old(self).data@ + buf@.take(
                i as int,
            )).push(buf@[i as int]));
            i = i + 1;
        }
        assert(buf@.take(buf@.len() as int) =~= buf@);
    }

    fn put_last_group(&mut self, sink: &mut Vec<u8>)
        requires
            old(self).wf(),
        ensures
            final(self).emitted@ == header(final(self).kind) + lay(final(self).enc@),
            final(self).col as nat == final(self).enc@.len() % (LINE as nat),
            final(self).enc@ == encode(old(self).data@),
            final(self).kind == old(self).kind,
            final(self).crc == crc24(old(self).data@),
            appended(old(sink)@, final(sink)@, old(self).emitted@, final(self).emitted@),
    {
        let ghost d = self.data@;
        let ghost full = d.take(d.len() - self.pending@.len());
        let ghost p = self.pending@;
        let ghost (s0, m0) = (sink@, self.emitted@);
        proof {
            lemma_appended_refl(s0, m0);
        }
        let n = self.pending.len();
        if n == 2 {
            let (a, b) = (self.pending[0], self.pending[1]);
            proof {
                lemma_bits3(a, b, 0);
            }
            let ghost (s1, m1) = (sink@, self.emitted@);
            self.put_char(char_for(a >> 2), sink);
            let ghost (s2, m2) = (sink@, self.emitted@);
            self.put_char(char_for(((a & 3) << 4) | (b >> 4)), sink);
            let ghost (s3, m3) = (sink@, self.emitted@);
            self.put_char(char_for((b & 15) << 2), sink);
            let ghost (s4, m4) = (sink@, self.emitted@);
            self.put_char(PAD, sink);
            proof {
                lemma_appended_trans(s1, s2, s3, m1, m2, m3);
                lemma_appended_trans(s1, s3, s4, m1, m3, m4);
                lemma_appended_trans(s1, s4, sink@, m1, m4, self.emitted@);
            }
            assert(self.enc@ =~= encode(full) + enc2(a, b));
        } else if n == 1 {
            let a = self.pending[0];
            proof {
                lemma_bits3(a, 0, 0);
            }
            let ghost (s1, m1) = (sink@, self.emitted@);
            self.put_char(char_for(a >> 2), sink);
            let ghost (s2, m2) = (sink@, self.emitted@);
            self.put_char(char_for((a & 3) << 4), sink);
            let ghost (s3, m3) = (sink@, self.emitted@);
            self.put_char(PAD, sink);
            let ghost (s4, m4) = (sink@, self.emitted@);
            self.put_char(PAD, sink);
            proof {
                lemma_appended_trans(s1, s2, s3, m1, m2, m3);
                lemma_appended_trans(s1, s3, s4, m1, m3, m4);
                lemma_appended_trans(s1, s4, sink@, m1, m4, self.emitted@);
            }
            assert(self.enc@ =~= encode(full) + enc1(a));
        }
        proof {
            lemma_encode_append(full, p);
            assert(full + p =~= d);
            if n == 0 {
                assert(encode(p) =~= Seq::<u8>::empty());
                assert(self.enc@ =~= encode(d));
            }
        }
    }

    /// Puts out to `sink` the last group, the checksum line and the footer.
    /// What the writer put out, from its header on, is then the whole armor
    /// of the bytes written.
    pub fn finalize(self, sink: &mut Vec<u8>)
        requires
            self.wf(),
        ensures
            appended(old(sink)@, final(sink)@, self.emitted(), armored(self.kind(), self.data())),
    {
        let mut w = self;
        let ghost d = w.data@;
        let ghost (s0, m0) = (sink@, w.emitted@);
        w.put_last_group(sink);
        proof {
            lemma_wrap_lay(encode(d));
        }
        let mut tail: Vec<u8> = Vec::new();
        if w.col != 0 {
            tail.push(LF);
        }
        assert(w.emitted@ + tail@ =~= header(w.kind) + wrap(encode(d)));
        tail.push(PAD);
        let c = w.crc;
        let sum = [((c >> 16) & 0xff) as u8, ((c >> 8) & 0xff) as u8, (c & 0xff) as u8];
        assert(sum@ =~= crc_bytes(crc24(d)));
        encode_into(&sum, &mut tail);
        tail.push(LF);
        let f = footer_bytes(w.kind);
        push_all(&mut tail, f.as_slice());
        assert(w.emitted@ + tail@ =~= armored(w.kind, d));
        let ghost (s5, m5) = (sink@, w.emitted@);
        push_all(sink, tail.as_slice());
        proof {
            lemma_appended_tail(s5, m5, tail@);
            lemma_appended_trans(s0, s5, sink@, m0, m5, armored(w.kind, d));
        }
    }
}

} // verus!

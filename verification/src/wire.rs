//! The SSH wire-format codec: big-endian, 4-byte length-prefixed fields,
//! and the `mpint` encoding of arbitrary-precision integers.
//!
//! [`Reader`] extracts length-prefixed fields from a byte buffer,
//! advancing an internal cursor; [`Writer`] appends the same encodings to
//! an owned buffer. The spec functions [`read_field_at`], [`read_mpint_at`],
//! [`field_enc`] and [`mpint_enc`] say exactly which bytes each operation
//! consumes and produces.

use vstd::prelude::*;
use vstd::string::StringSliceAdditionalSpecFns;
use vstd::arithmetic::div_mod::lemma_fundamental_div_mod;
use vstd::arithmetic::div_mod::lemma_fundamental_div_mod_converse;
use crate::error::Error;

verus! {

/// The four big-endian base-256 digits of `n`, most significant first.
pub open spec fn be32_bytes(n: nat) -> Seq<u8>
    recommends
        n < 0x1_0000_0000,
{
    seq![
        ((n / 0x1000000) % 0x100) as u8,
        ((n / 0x10000) % 0x100) as u8,
        ((n / 0x100) % 0x100) as u8,
        (n % 0x100) as u8,
    ]
}

/// The value of four bytes read as a big-endian integer.
pub open spec fn be32_val(b: Seq<u8>) -> nat
    recommends
        b.len() == 4,
{
    (b[0] as nat) * 0x1000000 + (b[1] as nat) * 0x10000 + (b[2] as nat) * 0x100 + (b[3] as nat)
}

/// A length-prefixed wire field: 4 bytes of big-endian length, then the
/// content.
pub open spec fn field_enc(b: Seq<u8>) -> Seq<u8>
    recommends
        b.len() < 0x1_0000_0000,
{
    be32_bytes(b.len()) + b
}

/// Whether a magnitude's leading byte has its high bit set, which is what
/// forces the disambiguating `0x00` byte in the mpint encoding.
pub open spec fn mpint_high_bit(b: Seq<u8>) -> bool {
    b.len() > 0 && b[0] >= 0x80
}

/// A magnitude small enough that its mpint encoding's length prefix fits
/// in 4 bytes.
pub open spec fn mpint_ok(b: Seq<u8>) -> bool {
    if mpint_high_bit(b) {
        b.len() + 1 < 0x1_0000_0000
    } else {
        b.len() < 0x1_0000_0000
    }
}

/// The mpint encoding of a non-negative integer's big-endian magnitude:
/// a length-prefixed field, with one `0x00` byte prepended when the
/// leading byte has its high bit set.
pub open spec fn mpint_enc(b: Seq<u8>) -> Seq<u8>
    recommends
        mpint_ok(b),
{
    if mpint_high_bit(b) {
        field_enc(seq![0u8] + b)
    } else {
        field_enc(b)
    }
}

/// Reading a length-prefixed field of `buf` at position `i`: the content
/// and the position just past it, or `None` if fewer than 4 bytes remain
/// or the declared length exceeds the remaining buffer.
pub open spec fn read_field_at(buf: Seq<u8>, i: int) -> Option<(Seq<u8>, int)> {
    if 0 <= i && i + 4 <= buf.len() {
        let n = be32_val(buf.subrange(i, i + 4)) as int;
        if i + 4 + n <= buf.len() {
            Some((buf.subrange(i + 4, i + 4 + n), i + 4 + n))
        } else {
            None
        }
    } else {
        None
    }
}

/// The sign-disambiguation rule of the mpint decoding: strip exactly one
/// leading `0x00` byte if and only if the byte after it has its high bit
/// set.
pub open spec fn strip_mpint(f: Seq<u8>) -> Seq<u8> {
    if f.len() >= 2 && f[0] == 0 && f[1] >= 0x80 {
        f.drop_first()
    } else {
        f
    }
}

/// Reading an mpint of `buf` at position `i`: a length-prefixed field,
/// stripped per [`strip_mpint`]. A magnitude so long that it could not be
/// re-encoded (its length prefix would overflow 4 bytes) is rejected.
pub open spec fn read_mpint_at(buf: Seq<u8>, i: int) -> Option<(Seq<u8>, int)> {
    match read_field_at(buf, i) {
        Some((f, j)) => {
            let m = strip_mpint(f);
            if mpint_ok(m) {
                Some((m, j))
            } else {
                None
            }
        },
        None => None,
    }
}

pub proof fn lemma_be32_val_of_bytes(n: nat)
    requires
        n < 0x1_0000_0000,
    ensures
        be32_bytes(n).len() == 4,
        be32_val(be32_bytes(n)) == n,
{
    lemma_fundamental_div_mod(n as int, 0x100);
    lemma_fundamental_div_mod(n as int / 0x100, 0x100);
    lemma_fundamental_div_mod(n as int / 0x100 / 0x100, 0x100);
    assert(n as int / 0x100 / 0x100 == n as int / 0x10000) by (nonlinear_arith);
    assert(n as int / 0x100 / 0x100 / 0x100 == n as int / 0x1000000) by (nonlinear_arith);
    assert(n as int / 0x1000000 < 0x100) by (nonlinear_arith)
        requires
            n < 0x1_0000_0000,
    ;
    assert((n as int / 0x1000000) % 0x100 == n as int / 0x1000000);
}

pub proof fn lemma_be32_bytes_of_val(b: Seq<u8>)
    requires
        b.len() == 4,
    ensures
        be32_val(b) < 0x1_0000_0000,
        be32_bytes(be32_val(b)) =~= b,
{
    let v = be32_val(b) as int;
    let b0 = b[0] as int;
    let b1 = b[1] as int;
    let b2 = b[2] as int;
    let b3 = b[3] as int;
    assert(v == b0 * 0x1000000 + b1 * 0x10000 + b2 * 0x100 + b3);
    lemma_fundamental_div_mod_converse(v, 0x1000000, b0, b1 * 0x10000 + b2 * 0x100 + b3);
    lemma_fundamental_div_mod_converse(v, 0x10000, b0 * 0x100 + b1, b2 * 0x100 + b3);
    lemma_fundamental_div_mod_converse(v, 0x100, b0 * 0x10000 + b1 * 0x100 + b2, b3);
    lemma_fundamental_div_mod_converse(b0 * 0x100 + b1, 0x100, b0, b1);
    lemma_fundamental_div_mod_converse(b0 * 0x10000 + b1 * 0x100 + b2, 0x100, b0 * 0x100 + b1, b2);
    assert((v / 0x1000000) % 0x100 == b0);
    assert((v / 0x10000) % 0x100 == b1);
    assert((v / 0x100) % 0x100 == b2);
    assert(v % 0x100 == b3);
}

/// If `buf` carries `field_enc(c)` at position `i`, reading a field there
/// yields exactly `c` and stops just past it.
pub proof fn lemma_read_field_of_enc(buf: Seq<u8>, i: int, c: Seq<u8>)
    requires
        c.len() < 0x1_0000_0000,
        0 <= i,
        i + field_enc(c).len() <= buf.len(),
        buf.subrange(i, i + field_enc(c).len()) == field_enc(c),
    ensures
        read_field_at(buf, i) == Some((c, i + 4 + c.len() as int)),
{
    lemma_be32_val_of_bytes(c.len());
    let e = field_enc(c);
    assert(e.len() == 4 + c.len());
    assert(buf.subrange(i, i + 4) =~= e.subrange(0, 4));
    assert(e.subrange(0, 4) =~= be32_bytes(c.len()));
    assert(be32_val(buf.subrange(i, i + 4)) == c.len());
    assert(buf.subrange(i + 4, i + 4 + c.len() as int) =~= e.subrange(4, e.len() as int));
    assert(e.subrange(4, e.len() as int) =~= c);
}

/// Mpint round trip: reading back an encoded magnitude returns it
/// unchanged, provided the magnitude is in minimal form (no leading
/// `0x00` byte in front of a high-bit byte, which the encoding could not
/// tell apart from its own disambiguation byte).
pub proof fn lemma_mpint_round_trip(b: Seq<u8>)
    requires
        mpint_ok(b),
        strip_mpint(b) == b,
    ensures
        read_mpint_at(mpint_enc(b), 0) == Some((b, mpint_enc(b).len() as int)),
{
    lemma_mpint_round_trip_at(seq![], b, seq![]);
}

/// Positional form of the mpint round trip: inside any buffer laid out as
/// `pre + mpint_enc(b) + post`, reading an mpint at the end of `pre`
/// yields `b` and stops at the start of `post`.
#[verifier::rlimit(50)]
pub proof fn lemma_mpint_round_trip_at(pre: Seq<u8>, b: Seq<u8>, post: Seq<u8>)
    requires
        mpint_ok(b),
        strip_mpint(b) == b,
    ensures
        read_mpint_at(pre + mpint_enc(b) + post, pre.len() as int) == Some(
            (b, (pre.len() + mpint_enc(b).len()) as int),
        ),
{
    let e = mpint_enc(b);
    let buf = pre + e + post;
    let i = pre.len() as int;
    let c: Seq<u8> = if mpint_high_bit(b) {
        seq![0u8] + b
    } else {
        b
    };
    assert(e == field_enc(c));
    assert(e.len() == 4 + c.len());
    assert forall|k: int| 0 <= k < e.len() implies buf[i + k] == e[k] by {
        assert((pre + e)[i + k] == e[k]);
        assert(buf[i + k] == (pre + e)[i + k]);
    }
    assert(buf.subrange(i, i + e.len() as int) =~= e);
    lemma_read_field_of_enc(buf, i, c);
    assert(read_field_at(buf, i) == Some((c, i + 4 + c.len() as int)));
    if mpint_high_bit(b) {
        assert(c[0] == 0);
        assert(c[1] == b[0]);
        assert(b[0] >= 0x80);
        assert(c.len() >= 2);
        assert(c.drop_first() =~= b);
        assert(strip_mpint(c) == b);
    } else {
        assert(strip_mpint(c) == b);
    }
    assert(read_mpint_at(buf, i) == Some((b, i + 4 + c.len() as int)));
}

/// Positional field round trip: inside any buffer laid out as
/// `pre + field_enc(c) + post`, reading a field at the end of `pre`
/// yields `c` and stops at the start of `post`.
pub proof fn lemma_field_round_trip_at(pre: Seq<u8>, c: Seq<u8>, post: Seq<u8>)
    requires
        c.len() < 0x1_0000_0000,
    ensures
        read_field_at(pre + field_enc(c) + post, pre.len() as int) == Some(
            (c, (pre.len() + field_enc(c).len()) as int),
        ),
{
    let e = field_enc(c);
    let buf = pre + e + post;
    let i = pre.len() as int;
    assert(e.len() == 4 + c.len());
    assert forall|k: int| 0 <= k < e.len() implies buf[i + k] == e[k] by {
        assert((pre + e)[i + k] == e[k]);
        assert(buf[i + k] == (pre + e)[i + k]);
    }
    assert(buf.subrange(i, i + e.len() as int) =~= e);
    lemma_read_field_of_enc(buf, i, c);
}

/// Re-encoding what an mpint read returned reproduces the wire bytes,
/// provided the field was in the canonical non-negative form (its first
/// content byte does not have the high bit set).
pub proof fn lemma_mpint_reencode(buf: Seq<u8>, i: int)
    requires
        read_mpint_at(buf, i) matches Some((m, j)),
        ({
            let f = read_field_at(buf, i)->Some_0.0;
            f.len() == 0 || f[0] < 0x80
        }),
    ensures
        ({
            let (m, j) = read_mpint_at(buf, i)->Some_0;
            mpint_enc(m) =~= buf.subrange(i, j)
        }),
{
    let (f, j) = read_field_at(buf, i)->Some_0;
    let m = strip_mpint(f);
    lemma_be32_bytes_of_val(buf.subrange(i, i + 4));
    assert(buf.subrange(i, j) =~= buf.subrange(i, i + 4) + f);
    if f.len() >= 2 && f[0] == 0 && f[1] >= 0x80 {
        assert(m == f.drop_first());
        assert(mpint_high_bit(m));
        assert(seq![0u8] + m =~= f);
    } else {
        assert(m == f);
        assert(!mpint_high_bit(m));
    }
}

/// An append-only accumulator of wire-format bytes. Encoding never fails:
/// every operation's precondition is only that the field's length prefix
/// fits in 4 bytes.
pub struct Writer {
    buf: Vec<u8>,
}

impl Writer {
    /// The bytes accumulated so far.
    pub closed spec fn bytes(&self) -> Seq<u8> {
        self.buf@
    }

    pub fn new() -> (r: Writer)
        ensures
            r.bytes() == Seq::<u8>::empty(),
    {
        Writer { buf: Vec::new() }
    }

    fn push_be32(&mut self, n: u32)
        ensures
            final(self).bytes() == old(self).bytes() + be32_bytes(n as nat),
    {
        proof {
            lemma_be32_val_of_bytes(n as nat);
            assert(n as int / 0x1000000 < 0x100) by (nonlinear_arith)
                requires
                    n < 0x1_0000_0000,
            ;
            assert(n as int / 0x10000 % 0x100 < 0x100) by (nonlinear_arith);
            assert(n as int / 0x100 % 0x100 < 0x100) by (nonlinear_arith);
        }
        let b0 = (n / 0x1000000) as u8;
        let b1 = ((n / 0x10000) % 0x100) as u8;
        let b2 = ((n / 0x100) % 0x100) as u8;
        let b3 = (n % 0x100) as u8;
        proof {
            assert((n as int / 0x1000000) % 0x100 == n as int / 0x1000000);
        }
        self.buf.push(b0);
        self.buf.push(b1);
        self.buf.push(b2);
        self.buf.push(b3);
        proof {
            assert(self.bytes() =~= old(self).bytes() + be32_bytes(n as nat));
        }
    }

    fn push_slice(&mut self, b: &[u8])
        ensures
            final(self).bytes() == old(self).bytes() + b@,
    {
        let n = b.len();
        let mut i: usize = 0;
        while i < n
            invariant
                i <= n,
                n == b@.len(),
                self.bytes() == old(self).bytes() + b@.take(i as int),
            decreases n - i,
        {
            self.buf.push(*vstd::slice::slice_index_get(b, i));
            proof {
                assert(self.bytes() =~= old(self).bytes() + b@.take(i + 1));
            }
            i = i + 1;
        }
        proof {
            assert(old(self).bytes() + b@.take(n as int) =~= old(self).bytes() + b@);
        }
    }

    /// Appends a 4-byte big-endian length followed by the blob's bytes.
    pub fn write_bytes(&mut self, b: &[u8])
        requires
            b@.len() < 0x1_0000_0000,
        ensures
            final(self).bytes() == old(self).bytes() + field_enc(b@),
    {
        self.push_be32(b.len() as u32);
        self.push_slice(b);
        proof {
            assert(self.bytes() =~= old(self).bytes() + field_enc(b@));
        }
    }

    /// Appends a 4-byte big-endian length followed by the string's raw
    /// (UTF-8) bytes.
    pub fn write_string(&mut self, s: &str)
        requires
            s.spec_bytes().len() < 0x1_0000_0000,
        ensures
            final(self).bytes() == old(self).bytes() + field_enc(s.spec_bytes()),
    {
        self.write_bytes(s.as_bytes());
    }

    /// Appends the mpint encoding of a non-negative integer's big-endian
    /// magnitude: when the leading byte has its high bit set, a single
    /// `0x00` byte is prepended before length-prefixing, so that reading
    /// the field back reproduces the magnitude exactly.
    pub fn write_mpint(&mut self, b: &[u8])
        requires
            mpint_ok(b@),
        ensures
            final(self).bytes() == old(self).bytes() + mpint_enc(b@),
    {
        if b.len() > 0 && *vstd::slice::slice_index_get(b, 0) >= 0x80 {
            self.push_be32((b.len() + 1) as u32);
            self.buf.push(0u8);
            self.push_slice(b);
            proof {
                assert((seq![0u8] + b@).len() == b@.len() + 1);
                assert(self.bytes() =~= old(self).bytes() + field_enc(seq![0u8] + b@));
            }
        } else {
            self.write_bytes(b);
        }
    }

    /// Hands out the accumulated buffer.
    pub fn to_vec(self) -> (r: Vec<u8>)
        ensures
            r@ == self.bytes(),
    {
        self.buf
    }
}

/// A sequential, bounds-checked extractor of wire-format fields from a
/// byte buffer. All operations are call-order dependent; reading past the
/// end of the buffer is the single failure condition, reported as
/// [`Error::InvalidFormat`].
pub struct Reader<'a> {
    data: &'a [u8],
    pos: usize,
}

impl<'a> Reader<'a> {
    /// The whole buffer under the cursor.
    pub closed spec fn buf(&self) -> Seq<u8> {
        self.data@
    }

    /// The cursor: the position of the next unread byte.
    pub closed spec fn cursor(&self) -> int {
        self.pos as int
    }

    /// The cursor never passes the end of the buffer.
    pub closed spec fn wf(&self) -> bool {
        self.pos <= self.data@.len()
    }

    pub fn new(data: &'a [u8]) -> (r: Reader<'a>)
        ensures
            r.buf() == data@,
            r.cursor() == 0,
            r.wf(),
    {
        Reader { data, pos: 0 }
    }

    /// Reads a 4-byte big-endian length prefix, then that many bytes.
    /// Fails when fewer than 4 bytes remain or the declared length
    /// exceeds the remaining buffer; the cursor then stays put.
    pub fn read_bytes(&mut self) -> (r: Result<Vec<u8>, Error>)
        requires
            old(self).wf(),
        ensures
            final(self).wf(),
            final(self).buf() == old(self).buf(),
            match read_field_at(old(self).buf(), old(self).cursor()) {
                Some((f, j)) => r matches Ok(v) && v@ == f && final(self).cursor() == j,
                None => r matches Err(e) && e@ is InvalidFormat && final(self).cursor() == old(
                    self,
                ).cursor(),
            },
    {
        if self.data.len() - self.pos < 4 {
            return Err(Error::InvalidFormat);
        }
        let b0 = *vstd::slice::slice_index_get(self.data, self.pos);
        let b1 = *vstd::slice::slice_index_get(self.data, self.pos + 1);
        let b2 = *vstd::slice::slice_index_get(self.data, self.pos + 2);
        let b3 = *vstd::slice::slice_index_get(self.data, self.pos + 3);
        let n: usize = (b0 as usize) * 0x1000000 + (b1 as usize) * 0x10000 + (b2 as usize)
            * 0x100 + (b3 as usize);
        proof {
            assert(old(self).buf().subrange(self.cursor(), self.cursor() + 4) =~= seq![
                b0,
                b1,
                b2,
                b3,
            ]);
            assert(be32_val(seq![b0, b1, b2, b3]) == n);
        }
        if n > self.data.len() - (self.pos + 4) {
            return Err(Error::InvalidFormat);
        }
        let start = self.pos + 4;
        let end = start + n;
        let v = vstd::slice::slice_to_vec(vstd::slice::slice_subrange(self.data, start, end));
        self.pos = end;
        Ok(v)
    }

    /// Identical framing to [`Reader::read_bytes`]; semantically the field
    /// is a string, but interpreting the bytes as UTF-8 text is the
    /// caller's choice.
    pub fn read_string(&mut self) -> (r: Result<Vec<u8>, Error>)
        requires
            old(self).wf(),
        ensures
            final(self).wf(),
            final(self).buf() == old(self).buf(),
            match read_field_at(old(self).buf(), old(self).cursor()) {
                Some((f, j)) => r matches Ok(v) && v@ == f && final(self).cursor() == j,
                None => r matches Err(e) && e@ is InvalidFormat && final(self).cursor() == old(
                    self,
                ).cursor(),
            },
    {
        self.read_bytes()
    }

    /// Reads a length-prefixed field and strips its sign-disambiguation
    /// byte per [`strip_mpint`]: the result is the non-negative integer's
    /// big-endian magnitude as used on the wire.
    pub fn read_mpint(&mut self) -> (r: Result<Vec<u8>, Error>)
        requires
            old(self).wf(),
        ensures
            final(self).wf(),
            final(self).buf() == old(self).buf(),
            match read_mpint_at(old(self).buf(), old(self).cursor()) {
                Some((m, j)) => r matches Ok(v) && v@ == m && final(self).cursor() == j && mpint_ok(m),
                None => r matches Err(e) && e@ is InvalidFormat,
            },
    {
        let mut f = match self.read_bytes() {
            Ok(f) => f,
            Err(e) => {
                return Err(e);
            },
        };
        if f.len() >= 2 && f[0] == 0 && f[1] >= 0x80 {
            f.remove(0);
            proof {
                assert(f@ =~= strip_mpint(read_field_at(old(self).buf(), old(self).cursor())->Some_0.0));
            }
        }
        if f.len() == 0xFFFF_FFFF && f[0] >= 0x80 {
            return Err(Error::InvalidFormat);
        }
        Ok(f)
    }
}

} // verus!

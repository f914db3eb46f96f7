//! The key model and codec: the tagged representation of an SSH public
//! key, the per-algorithm decode and encode routines, and the derived
//! operations (algorithm identifier, bit size, fingerprint, textual
//! line).

use vstd::prelude::*;
use vstd::string::StringSliceAdditionalSpecFns;
use vstd::string::StrSliceExecFns;
use vstd::string::StringExecFns;
use vstd::utf8::encode_utf8;
use vstd::utf8::decode_utf8;
use vstd::utf8::valid_utf8;
use vstd::utf8::is_ascii_chars;
use vstd::utf8::is_ascii_chars_encode_utf8;
use vstd::utf8::encode_utf8_valid_utf8;
use vstd::utf8::encode_utf8_decode_utf8;

use crate::error::Error;
use crate::error::ErrorSpec;
use crate::wire::Reader;
use crate::wire::Writer;
use crate::wire::field_enc;
use crate::wire::mpint_enc;
use crate::wire::mpint_ok;
use crate::wire::strip_mpint;
use crate::wire::read_field_at;
use crate::wire::read_mpint_at;
use crate::wire::lemma_field_round_trip_at;
use crate::wire::lemma_mpint_round_trip_at;
use crate::b64::b64_encode;
use crate::b64::b64_decode;
use crate::b64::is_b64_char;
use crate::b64::b64_encode_exec;
use crate::b64::b64_decode_exec;
use crate::digest::sha256;
use crate::digest::sha256_exec;
use crate::text::is_ws_char;
use crate::text::tok_start;
use crate::text::tok_end;
use crate::text::char_pos;
use crate::text::dec_chars;
use crate::text::scan_tok_start;
use crate::text::scan_tok_end;
use crate::text::scan_char;
use crate::text::str_eq;
use crate::text::utf8_to_string;
use crate::text::usize_to_decimal;
use crate::text::lemma_tok_start_scan;
use crate::text::lemma_tok_end_scan;

verus! {

/// A named elliptic curve for ECDSA keys, constructed only from a
/// recognized curve identifier.
#[derive(Clone, Debug)]
pub enum Curve {
    Nistp256,
    Nistp384,
    Nistp521,
}

impl Curve {
    /// The curve's wire identifier, as a character sequence.
    pub open spec fn spec_curvetype(&self) -> Seq<char> {
        match self {
            Curve::Nistp256 => "nistp256"@,
            Curve::Nistp384 => "nistp384"@,
            Curve::Nistp521 => "nistp521"@,
        }
    }

    /// The curve's bit length.
    pub open spec fn spec_bits(&self) -> nat {
        match self {
            Curve::Nistp256 => 256,
            Curve::Nistp384 => 384,
            Curve::Nistp521 => 521,
        }
    }

    /// Resolves a curve identifier to the curve it names; an unrecognized
    /// identifier is rejected with [`Error::UnsupportedCurve`].
    pub fn get(curve: &str) -> (r: Result<Curve, Error>)
        ensures
            match r {
                Ok(c) => c.spec_curvetype() == curve@,
                Err(e) => e@ == ErrorSpec::UnsupportedCurve(curve@) && curve@ != "nistp256"@
                    && curve@ != "nistp384"@ && curve@ != "nistp521"@,
            },
    {
        if str_eq(curve, "nistp256") {
            Ok(Curve::Nistp256)
        } else if str_eq(curve, "nistp384") {
            Ok(Curve::Nistp384)
        } else if str_eq(curve, "nistp521") {
            Ok(Curve::Nistp521)
        } else {
            Err(Error::UnsupportedCurve(String::from_str(curve)))
        }
    }

    /// The curve identifier in the wire format's spelling.
    pub fn curvetype(&self) -> (r: &'static str)
        ensures
            r@ == self.spec_curvetype(),
    {
        match self {
            Curve::Nistp256 => "nistp256",
            Curve::Nistp384 => "nistp384",
            Curve::Nistp521 => "nistp521",
        }
    }
}

/// The algorithm-specific payload of a public key. Integer fields hold
/// the minimal big-endian magnitude used by the wire's mpint encoding;
/// they are never interpreted as host integers. Curve points are opaque
/// blobs, stored verbatim.
#[derive(Clone, Debug)]
pub enum Data {
    Rsa { exponent: Vec<u8>, modulus: Vec<u8> },
    Dsa { p: Vec<u8>, q: Vec<u8>, g: Vec<u8>, pub_key: Vec<u8> },
    Ed25519 { key: Vec<u8> },
    Ecdsa { curve: Curve, key: Vec<u8> },
}

/// Spec-level image of [`Data`], with byte sequences for the fields.
pub enum DataSpec {
    Rsa { exponent: Seq<u8>, modulus: Seq<u8> },
    Dsa { p: Seq<u8>, q: Seq<u8>, g: Seq<u8>, pub_key: Seq<u8> },
    Ed25519 { key: Seq<u8> },
    Ecdsa { curve: Curve, key: Seq<u8> },
}

impl View for Data {
    type V = DataSpec;

    closed spec fn view(&self) -> DataSpec {
        match self {
            Data::Rsa { exponent, modulus } => DataSpec::Rsa {
                exponent: exponent@,
                modulus: modulus@,
            },
            Data::Dsa { p, q, g, pub_key } => DataSpec::Dsa {
                p: p@,
                q: q@,
                g: g@,
                pub_key: pub_key@,
            },
            Data::Ed25519 { key } => DataSpec::Ed25519 { key: key@ },
            Data::Ecdsa { curve, key } => DataSpec::Ecdsa { curve: *curve, key: key@ },
        }
    }
}

/// The canonical algorithm identifier implied by a payload's variant
/// (and, for ECDSA, by its curve).
pub open spec fn keytype_chars(d: DataSpec) -> Seq<char> {
    match d {
        DataSpec::Rsa { .. } => "ssh-rsa"@,
        DataSpec::Dsa { .. } => "ssh-dss"@,
        DataSpec::Ed25519 { .. } => "ssh-ed25519"@,
        DataSpec::Ecdsa { curve, .. } => match curve {
            Curve::Nistp256 => "ecdsa-sha2-nistp256"@,
            Curve::Nistp384 => "ecdsa-sha2-nistp384"@,
            Curve::Nistp521 => "ecdsa-sha2-nistp521"@,
        },
    }
}

/// Well-formedness of a payload: every field is short enough for its
/// 4-byte length prefix on the wire. Decoding establishes this, and
/// encoding requires it.
pub open spec fn data_wf(d: DataSpec) -> bool {
    match d {
        DataSpec::Rsa { exponent, modulus } => mpint_ok(exponent) && mpint_ok(modulus),
        DataSpec::Dsa { p, q, g, pub_key } => mpint_ok(p) && mpint_ok(q) && mpint_ok(g)
            && mpint_ok(pub_key),
        DataSpec::Ed25519 { key } => key.len() < 0x1_0000_0000,
        DataSpec::Ecdsa { key, .. } => key.len() < 0x1_0000_0000,
    }
}

/// Minimality of a payload's integer fields: no magnitude carries a
/// leading `0x00` byte in front of a high-bit byte. Decoding establishes
/// this (such a byte is stripped), and re-encoding is the exact inverse
/// of decoding only for minimal payloads.
pub open spec fn data_minimal(d: DataSpec) -> bool {
    match d {
        DataSpec::Rsa { exponent, modulus } => strip_mpint(exponent) == exponent && strip_mpint(
            modulus,
        ) == modulus,
        DataSpec::Dsa { p, q, g, pub_key } => strip_mpint(p) == p && strip_mpint(q) == q
            && strip_mpint(g) == g && strip_mpint(pub_key) == pub_key,
        DataSpec::Ed25519 { .. } => true,
        DataSpec::Ecdsa { .. } => true,
    }
}

/// The canonical wire payload of a key: the algorithm identifier as a
/// length-prefixed string, then the variant's fields in their fixed
/// order.
pub open spec fn wire_enc(d: DataSpec) -> Seq<u8> {
    field_enc(encode_utf8(keytype_chars(d))) + match d {
        DataSpec::Rsa { exponent, modulus } => mpint_enc(exponent) + mpint_enc(modulus),
        DataSpec::Dsa { p, q, g, pub_key } => mpint_enc(p) + mpint_enc(q) + mpint_enc(g)
            + mpint_enc(pub_key),
        DataSpec::Ed25519 { key } => field_enc(key),
        DataSpec::Ecdsa { curve, key } => field_enc(encode_utf8(curve.spec_curvetype()))
            + field_enc(key),
    }
}

/// The key's size in bits: for RSA the modulus length in bits, for DSA
/// the length of the prime `p` in bits, a fixed 256 for Ed25519, and the
/// curve's bit length for ECDSA.
pub open spec fn spec_size(d: DataSpec) -> nat {
    match d {
        DataSpec::Rsa { modulus, .. } => 8 * modulus.len(),
        DataSpec::Dsa { p, .. } => 8 * p.len(),
        DataSpec::Ed25519 { .. } => 256,
        DataSpec::Ecdsa { curve, .. } => curve.spec_bits(),
    }
}

/// The keytype identifiers are short, non-empty ASCII tokens free of
/// whitespace.
pub proof fn lemma_keytype_token(d: DataSpec)
    ensures
        is_ascii_chars(keytype_chars(d)),
        encode_utf8(keytype_chars(d)).len() == keytype_chars(d).len(),
        0 < keytype_chars(d).len() < 0x1_0000_0000,
        forall|i: int|
            0 <= i < keytype_chars(d).len() ==> !is_ws_char(#[trigger] keytype_chars(d)[i]),
{
    reveal_strlit("ssh-rsa");
    reveal_strlit("ssh-dss");
    reveal_strlit("ssh-ed25519");
    reveal_strlit("ecdsa-sha2-nistp256");
    reveal_strlit("ecdsa-sha2-nistp384");
    reveal_strlit("ecdsa-sha2-nistp521");
    is_ascii_chars_encode_utf8(keytype_chars(d));
}

/// The curve identifiers are short, non-empty ASCII tokens.
pub proof fn lemma_curve_token(c: Curve)
    ensures
        is_ascii_chars(c.spec_curvetype()),
        encode_utf8(c.spec_curvetype()).len() == c.spec_curvetype().len(),
        0 < c.spec_curvetype().len() < 0x1_0000_0000,
{
    reveal_strlit("nistp256");
    reveal_strlit("nistp384");
    reveal_strlit("nistp521");
    is_ascii_chars_encode_utf8(c.spec_curvetype());
}

/// What parsing the RSA tail of a wire payload at position `i` yields:
/// the exponent and the modulus, two mpints in that order.
pub open spec fn spec_parse_rsa(buf: Seq<u8>, i: int) -> Result<DataSpec, ErrorSpec> {
    match read_mpint_at(buf, i) {
        Some((e, j)) => match read_mpint_at(buf, j) {
            Some((m, _)) => Ok(DataSpec::Rsa { exponent: e, modulus: m }),
            None => Err(ErrorSpec::InvalidFormat),
        },
        None => Err(ErrorSpec::InvalidFormat),
    }
}

/// What parsing the DSA tail of a wire payload at position `i` yields:
/// `p`, `q`, `g` and the public value, four mpints in that order.
pub open spec fn spec_parse_dsa(buf: Seq<u8>, i: int) -> Result<DataSpec, ErrorSpec> {
    match read_mpint_at(buf, i) {
        Some((p, j1)) => match read_mpint_at(buf, j1) {
            Some((q, j2)) => match read_mpint_at(buf, j2) {
                Some((g, j3)) => match read_mpint_at(buf, j3) {
                    Some((pk, _)) => Ok(DataSpec::Dsa { p, q, g, pub_key: pk }),
                    None => Err(ErrorSpec::InvalidFormat),
                },
                None => Err(ErrorSpec::InvalidFormat),
            },
            None => Err(ErrorSpec::InvalidFormat),
        },
        None => Err(ErrorSpec::InvalidFormat),
    }
}

/// What parsing the Ed25519 tail of a wire payload at position `i`
/// yields: one opaque blob, the point on the curve, stored verbatim.
pub open spec fn spec_parse_ed25519(buf: Seq<u8>, i: int) -> Result<DataSpec, ErrorSpec> {
    match read_field_at(buf, i) {
        Some((k, _)) => Ok(DataSpec::Ed25519 { key: k }),
        None => Err(ErrorSpec::InvalidFormat),
    }
}

/// What parsing the ECDSA tail of a wire payload at position `i` yields:
/// a curve-name string, which must be the one the algorithm identifier
/// calls for (a mismatched or unknown name is rejected with
/// `UnsupportedCurve`), then one opaque blob.
pub open spec fn spec_parse_ecdsa(buf: Seq<u8>, i: int, curve: Curve) -> Result<
    DataSpec,
    ErrorSpec,
> {
    match read_field_at(buf, i) {
        Some((cb, j)) => if !valid_utf8(cb) {
            Err(ErrorSpec::Utf8)
        } else if decode_utf8(cb) != curve.spec_curvetype() {
            Err(ErrorSpec::UnsupportedCurve(decode_utf8(cb)))
        } else {
            match read_field_at(buf, j) {
                Some((k, _)) => Ok(DataSpec::Ecdsa { curve, key: k }),
                None => Err(ErrorSpec::InvalidFormat),
            }
        },
        None => Err(ErrorSpec::InvalidFormat),
    }
}

/// What parsing a base64-decoded wire payload yields, given the line's
/// leading algorithm-id token `kt`: the embedded algorithm identifier is
/// read (it must be UTF-8 text equal to `kt`), and the variant's fields
/// follow per the dispatch on `kt`.
pub open spec fn spec_parse_data(buf: Seq<u8>, kt: Seq<char>) -> Result<DataSpec, ErrorSpec> {
    match read_field_at(buf, 0) {
        Some((ktb, i)) => if !valid_utf8(ktb) {
            Err(ErrorSpec::Utf8)
        } else if decode_utf8(ktb) != kt {
            Err(ErrorSpec::InvalidFormat)
        } else if kt == "ssh-rsa"@ {
            spec_parse_rsa(buf, i)
        } else if kt == "ssh-dss"@ {
            spec_parse_dsa(buf, i)
        } else if kt == "ssh-ed25519"@ {
            spec_parse_ed25519(buf, i)
        } else if kt == "ecdsa-sha2-nistp256"@ {
            spec_parse_ecdsa(buf, i, Curve::Nistp256)
        } else if kt == "ecdsa-sha2-nistp384"@ {
            spec_parse_ecdsa(buf, i, Curve::Nistp384)
        } else if kt == "ecdsa-sha2-nistp521"@ {
            spec_parse_ecdsa(buf, i, Curve::Nistp521)
        } else {
            Err(ErrorSpec::UnsupportedKeytype(kt))
        },
        None => Err(ErrorSpec::InvalidFormat),
    }
}

/// What parsing a whole key line yields: the line is split on whitespace
/// into the algorithm-id token, the base64 payload token and an optional
/// comment token; the payload is base64-decoded (malformed base64 is
/// `InvalidFormat`) and its fields are read per [`spec_parse_data`].
pub open spec fn spec_parse(s: Seq<char>) -> Result<PublicKeySpec, ErrorSpec> {
    let t0s = tok_start(s, 0);
    let t0e = tok_end(s, t0s);
    let t1s = tok_start(s, t0e);
    let t1e = tok_end(s, t1s);
    let t2s = tok_start(s, t1e);
    let t2e = tok_end(s, t2s);
    if t0s >= s.len() {
        Err(ErrorSpec::InvalidFormat)
    } else if t1s >= s.len() {
        Err(ErrorSpec::InvalidFormat)
    } else {
        let kt = s.subrange(t0s, t0e);
        let payload = s.subrange(t1s, t1e);
        let comment: Option<Seq<char>> = if t2s < s.len() {
            Some(s.subrange(t2s, t2e))
        } else {
            None
        };
        match b64_decode(payload) {
            Some(buf) => match spec_parse_data(buf, kt) {
                Ok(d) => Ok(PublicKeySpec { data: d, comment }),
                Err(e) => Err(e),
            },
            None => Err(ErrorSpec::InvalidFormat),
        }
    }
}

/// The comment's text, or empty when no comment is set.
pub open spec fn comment_text(c: Option<Seq<char>>) -> Seq<char> {
    match c {
        Some(t) => t,
        None => Seq::<char>::empty(),
    }
}

/// The textual key-file line of a key: the algorithm identifier, the
/// base64 text of the wire payload, and the comment (an empty trailing
/// field when none is set), separated by single spaces.
pub open spec fn spec_key_file(k: PublicKeySpec) -> Seq<char> {
    keytype_chars(k.data) + " "@ + b64_encode(wire_enc(k.data)) + " "@ + comment_text(k.comment)
}

/// The fingerprint text of a key: `SHA256:` followed by the base64 text
/// of the digest of the wire payload, cut at the first `=` padding
/// character.
pub open spec fn spec_fingerprint(d: DataSpec) -> Seq<char> {
    let f = b64_encode(sha256(wire_enc(d)));
    "SHA256:"@ + f.take(char_pos(f, '=', 0))
}

/// The friendly algorithm name used in the fingerprint line.
pub open spec fn friendly_name(d: DataSpec) -> Seq<char> {
    match d {
        DataSpec::Rsa { .. } => "RSA"@,
        DataSpec::Dsa { .. } => "DSA"@,
        DataSpec::Ed25519 { .. } => "ED25519"@,
        DataSpec::Ecdsa { .. } => "ECDSA"@,
    }
}

/// The comment's text, or `no comment` when none is set.
pub open spec fn comment_or_default(c: Option<Seq<char>>) -> Seq<char> {
    match c {
        Some(t) => t,
        None => "no comment"@,
    }
}

/// The fingerprint line of a key:
/// `<size> <fingerprint> <comment-or-"no comment"> (<FRIENDLY-TYPE>)`.
pub open spec fn spec_fingerprint_line(k: PublicKeySpec) -> Seq<char> {
    dec_chars(spec_size(k.data)) + " "@ + spec_fingerprint(k.data) + " "@ + comment_or_default(
        k.comment,
    ) + " ("@ + friendly_name(k.data) + ")"@
}

/// A public key: an algorithm-specific payload and an optional free-text
/// comment. Immutable except for comment replacement.
#[derive(Clone, Debug)]
pub struct PublicKey {
    data: Data,
    comment: Option<String>,
}

/// Spec-level image of a [`PublicKey`].
pub struct PublicKeySpec {
    pub data: DataSpec,
    pub comment: Option<Seq<char>>,
}

impl View for PublicKey {
    type V = PublicKeySpec;

    closed spec fn view(&self) -> PublicKeySpec {
        PublicKeySpec {
            data: self.data@,
            comment: match &self.comment {
                Some(c) => Some(c@),
                None => None,
            },
        }
    }
}

impl PublicKey {
    /// Well-formedness: the payload's fields fit the wire format.
    pub open spec fn wf(&self) -> bool {
        data_wf(self@.data)
    }

    /// Builds an RSA public key from its exponent and modulus, given as
    /// minimal big-endian magnitudes. No comment is set.
    pub fn from_rsa(e: Vec<u8>, n: Vec<u8>) -> (r: PublicKey)
        requires
            mpint_ok(e@),
            mpint_ok(n@),
        ensures
            r@ == (PublicKeySpec {
                data: DataSpec::Rsa { exponent: e@, modulus: n@ },
                comment: None,
            }),
            r.wf(),
    {
        PublicKey { data: Data::Rsa { exponent: e, modulus: n }, comment: None }
    }

    /// Builds a DSA public key from its parameters `p`, `q`, `g` and the
    /// public value, given as minimal big-endian magnitudes. No comment
    /// is set.
    pub fn from_dsa(p: Vec<u8>, q: Vec<u8>, g: Vec<u8>, pkey: Vec<u8>) -> (r: PublicKey)
        requires
            mpint_ok(p@),
            mpint_ok(q@),
            mpint_ok(g@),
            mpint_ok(pkey@),
        ensures
            r@ == (PublicKeySpec {
                data: DataSpec::Dsa { p: p@, q: q@, g: g@, pub_key: pkey@ },
                comment: None,
            }),
            r.wf(),
    {
        PublicKey { data: Data::Dsa { p, q, g, pub_key: pkey }, comment: None }
    }

    /// The canonical algorithm identifier, derived from the payload's
    /// variant (and curve), never stored redundantly.
    pub fn keytype(&self) -> (r: &'static str)
        ensures
            r@ == keytype_chars(self@.data),
    {
        match &self.data {
            Data::Rsa { .. } => "ssh-rsa",
            Data::Dsa { .. } => "ssh-dss",
            Data::Ed25519 { .. } => "ssh-ed25519",
            Data::Ecdsa { curve, .. } => match curve {
                Curve::Nistp256 => "ecdsa-sha2-nistp256",
                Curve::Nistp384 => "ecdsa-sha2-nistp384",
                Curve::Nistp521 => "ecdsa-sha2-nistp521",
            },
        }
    }

    /// The canonical wire payload of the key: the embedded algorithm
    /// identifier, then the variant's fields in their fixed order. This
    /// is the byte form used for both wire output and fingerprinting; it
    /// is not base64-encoded here.
    pub fn data(&self) -> (r: Vec<u8>)
        requires
            self.wf(),
        ensures
            r@ == wire_enc(self@.data),
    {
        proof {
            lemma_keytype_token(self@.data);
        }
        let mut w = Writer::new();
        w.write_string(self.keytype());
        match &self.data {
            Data::Rsa { exponent, modulus } => {
                w.write_mpint(exponent.as_slice());
                w.write_mpint(modulus.as_slice());
            },
            Data::Dsa { p, q, g, pub_key } => {
                w.write_mpint(p.as_slice());
                w.write_mpint(q.as_slice());
                w.write_mpint(g.as_slice());
                w.write_mpint(pub_key.as_slice());
            },
            Data::Ed25519 { key } => {
                w.write_bytes(key.as_slice());
            },
            Data::Ecdsa { curve, key } => {
                proof {
                    lemma_curve_token(*curve);
                }
                w.write_string(curve.curvetype());
                w.write_bytes(key.as_slice());
            },
        }
        let r = w.to_vec();
        proof {
            assert(r@ =~= wire_enc(self@.data));
        }
        r
    }

    /// Replaces the comment; the only supported mutation.
    pub fn set_comment(&mut self, comment: &str)
        ensures
            final(self)@.data == old(self)@.data,
            final(self)@.comment == Some(comment@),
    {
        self.comment = Some(String::from_str(comment));
    }

    /// Reads an SSH public key from a text line of the form
    /// `<algorithm-id> <base64-payload> [comment]`, per [`spec_parse`]:
    /// the line is split on whitespace, the payload is base64-decoded,
    /// the embedded algorithm identifier must equal the leading token,
    /// and the variant's fields are read in their fixed order. A parsed
    /// key is well-formed and its integer fields are minimal.
    #[verifier::rlimit(100)]
    #[verifier::spinoff_prover]
    pub fn parse(key: &str) -> (r: Result<PublicKey, Error>)
        ensures
            match r {
                Ok(k) => spec_parse(key@) == Ok::<PublicKeySpec, ErrorSpec>(k@) && k.wf()
                    && data_minimal(k@.data),
                Err(e) => spec_parse(key@) == Err::<PublicKeySpec, ErrorSpec>(e@),
            },
    {
        let n = key.unicode_len();
        let t0s = scan_tok_start(key, 0);
        if t0s == n {
            return Err(Error::InvalidFormat);
        }
        let t0e = scan_tok_end(key, t0s);
        let t1s = scan_tok_start(key, t0e);
        if t1s == n {
            return Err(Error::InvalidFormat);
        }
        let t1e = scan_tok_end(key, t1s);
        let t2s = scan_tok_start(key, t1e);
        let kt = key.substring_char(t0s, t0e);
        let payload = key.substring_char(t1s, t1e);
        let comment: Option<String> = if t2s < n {
            let t2e = scan_tok_end(key, t2s);
            Some(String::from_str(key.substring_char(t2s, t2e)))
        } else {
            None
        };
        let buf = match b64_decode_exec(payload) {
            Some(b) => b,
            None => {
                return Err(Error::InvalidFormat);
            },
        };
        let mut reader = Reader::new(buf.as_slice());
        let ktb = match reader.read_string() {
            Ok(v) => v,
            Err(e) => {
                return Err(e);
            },
        };
        let kts = match utf8_to_string(ktb.as_slice()) {
            Some(s) => s,
            None => {
                return Err(Error::Utf8);
            },
        };
        if !str_eq(kts.as_str(), kt) {
            return Err(Error::InvalidFormat);
        }
        let data = if str_eq(kt, "ssh-rsa") {
            let e = match reader.read_mpint() {
                Ok(v) => v,
                Err(er) => {
                    return Err(er);
                },
            };
            let m = match reader.read_mpint() {
                Ok(v) => v,
                Err(er) => {
                    return Err(er);
                },
            };
            Data::Rsa { exponent: e, modulus: m }
        } else if str_eq(kt, "ssh-dss") {
            let p = match reader.read_mpint() {
                Ok(v) => v,
                Err(er) => {
                    return Err(er);
                },
            };
            let q = match reader.read_mpint() {
                Ok(v) => v,
                Err(er) => {
                    return Err(er);
                },
            };
            let g = match reader.read_mpint() {
                Ok(v) => v,
                Err(er) => {
                    return Err(er);
                },
            };
            let pk = match reader.read_mpint() {
                Ok(v) => v,
                Err(er) => {
                    return Err(er);
                },
            };
            Data::Dsa { p, q, g, pub_key: pk }
        } else if str_eq(kt, "ssh-ed25519") {
            let k = match reader.read_bytes() {
                Ok(v) => v,
                Err(er) => {
                    return Err(er);
                },
            };
            Data::Ed25519 { key: k }
        } else if str_eq(kt, "ecdsa-sha2-nistp256") {
            match Self::parse_ecdsa_tail(&mut reader, Curve::Nistp256) {
                Ok(d) => d,
                Err(er) => {
                    return Err(er);
                },
            }
        } else if str_eq(kt, "ecdsa-sha2-nistp384") {
            match Self::parse_ecdsa_tail(&mut reader, Curve::Nistp384) {
                Ok(d) => d,
                Err(er) => {
                    return Err(er);
                },
            }
        } else if str_eq(kt, "ecdsa-sha2-nistp521") {
            match Self::parse_ecdsa_tail(&mut reader, Curve::Nistp521) {
                Ok(d) => d,
                Err(er) => {
                    return Err(er);
                },
            }
        } else {
            return Err(Error::UnsupportedKeytype(String::from_str(kt)));
        };
        Ok(PublicKey { data, comment })
    }

    /// The ECDSA-specific tail of the wire payload: the curve name, which
    /// must be the one the algorithm identifier calls for, then the
    /// opaque curve point.
    fn parse_ecdsa_tail(reader: &mut Reader<'_>, curve: Curve) -> (r: Result<Data, Error>)
        requires
            old(reader).wf(),
        ensures
            match r {
                Ok(d) => spec_parse_ecdsa(old(reader).buf(), old(reader).cursor(), curve)
                    == Ok::<DataSpec, ErrorSpec>(d@) && data_wf(d@) && data_minimal(d@),
                Err(e) => spec_parse_ecdsa(old(reader).buf(), old(reader).cursor(), curve)
                    == Err::<DataSpec, ErrorSpec>(e@),
            },
    {
        let cb = match reader.read_string() {
            Ok(v) => v,
            Err(e) => {
                return Err(e);
            },
        };
        let cs = match utf8_to_string(cb.as_slice()) {
            Some(s) => s,
            None => {
                return Err(Error::Utf8);
            },
        };
        let expected = curve.curvetype();
        if !str_eq(cs.as_str(), expected) {
            return Err(Error::UnsupportedCurve(cs));
        }
        let k = match reader.read_bytes() {
            Ok(v) => v,
            Err(e) => {
                return Err(e);
            },
        };
        Ok(Data::Ecdsa { curve, key: k })
    }

    /// The textual key-file line of the key, per [`spec_key_file`]:
    /// suitable as a line of an `authorized_keys`-style file. When no
    /// comment is set the trailing field is empty, not omitted.
    ///
    /// Round trip: when the key's integer fields are minimal (as every
    /// parsed key's are) and the comment is a whitespace-free token or
    /// absent, the rendered line parses back to this very key.
    pub fn to_key_file(&self) -> (r: String)
        requires
            self.wf(),
        ensures
            r@ == spec_key_file(self@),
            data_minimal(self@.data) && comment_token_ok(self@.comment) ==> spec_parse(r@) == Ok::<
                PublicKeySpec,
                ErrorSpec,
            >(self@),
    {
        let data = self.data();
        let payload = b64_encode_exec(data.as_slice());
        proof {
            if data_minimal(self@.data) && comment_token_ok(self@.comment) {
                assert(wire_enc(self@.data).len() >= 4);
                assert(payload@.len() > 0);
                lemma_key_file_round_trip(self@);
            }
        }
        let mut s = String::from_str(self.keytype());
        s.append(" ");
        s.append(payload.as_str());
        s.append(" ");
        match &self.comment {
            Some(c) => s.append(c.as_str()),
            None => {},
        }
        s
    }

    /// The fingerprint of the key, per [`spec_fingerprint`]: `SHA256:`
    /// followed by the base64 text of the digest of the wire payload,
    /// with any `=` padding trimmed off.
    pub fn fingerprint(&self) -> (r: String)
        requires
            self.wf(),
        ensures
            r@ == spec_fingerprint(self@.data),
    {
        let data = self.data();
        let hashed = sha256_exec(data.as_slice());
        let fp = b64_encode_exec(hashed.as_slice());
        let e = scan_char(fp.as_str(), '=', 0);
        let stripped = fp.as_str().substring_char(0, e);
        let mut s = String::from_str("SHA256:");
        s.append(stripped);
        proof {
            let f = b64_encode(sha256(wire_enc(self@.data)));
            assert(stripped@ =~= f.take(char_pos(f, '=', 0)));
        }
        s
    }

    /// The fingerprint line of the key, per [`spec_fingerprint_line`],
    /// as printed by fingerprint-listing tools: the bit size, the
    /// fingerprint, the comment (or `no comment`), and the friendly
    /// algorithm name in parentheses.
    pub fn to_fingerprint_string(&self) -> (r: String)
        requires
            self.wf(),
            spec_size(self@.data) <= usize::MAX,
        ensures
            r@ == spec_fingerprint_line(self@),
    {
        let mut s = usize_to_decimal(self.size());
        s.append(" ");
        let fp = self.fingerprint();
        s.append(fp.as_str());
        s.append(" ");
        match &self.comment {
            Some(c) => s.append(c.as_str()),
            None => s.append("no comment"),
        }
        s.append(" (");
        match &self.data {
            Data::Rsa { .. } => s.append("RSA"),
            Data::Dsa { .. } => s.append("DSA"),
            Data::Ed25519 { .. } => s.append("ED25519"),
            Data::Ecdsa { .. } => s.append("ECDSA"),
        }
        s.append(")");
        s
    }

    /// The key's size in bits, per [`spec_size`].
    pub fn size(&self) -> (r: usize)
        requires
            spec_size(self@.data) <= usize::MAX,
        ensures
            r as nat == spec_size(self@.data),
    {
        match &self.data {
            Data::Rsa { modulus, .. } => modulus.len() * 8,
            Data::Dsa { p, .. } => p.len() * 8,
            Data::Ed25519 { .. } => 256,
            Data::Ecdsa { curve, .. } => match curve {
                Curve::Nistp256 => 256,
                Curve::Nistp384 => 384,
                Curve::Nistp521 => 521,
            },
        }
    }
}

/// A comment that survives a render/parse round trip unchanged: absent,
/// or a non-empty token free of whitespace (line splitting would cut any
/// other).
pub open spec fn comment_token_ok(c: Option<Seq<char>>) -> bool {
    match c {
        None => true,
        Some(t) => t.len() > 0 && forall|i: int| 0 <= i < t.len() ==> !is_ws_char(#[trigger] t[i]),
    }
}

/// Law (wire round trip): the wire payload of a well-formed key whose
/// integer fields are minimal parses back to exactly that payload.
#[verifier::rlimit(100)]
#[verifier::spinoff_prover]
pub proof fn lemma_wire_parse(d: DataSpec)
    requires
        data_wf(d),
        data_minimal(d),
    ensures
        spec_parse_data(wire_enc(d), keytype_chars(d)) == Ok::<DataSpec, ErrorSpec>(d),
{
    reveal_strlit("ssh-rsa");
    reveal_strlit("ssh-dss");
    reveal_strlit("ssh-ed25519");
    reveal_strlit("ecdsa-sha2-nistp256");
    reveal_strlit("ecdsa-sha2-nistp384");
    reveal_strlit("ecdsa-sha2-nistp521");
    let kt = keytype_chars(d);
    let ktb = encode_utf8(kt);
    let w = wire_enc(d);
    lemma_keytype_token(d);
    encode_utf8_valid_utf8(kt);
    encode_utf8_decode_utf8(kt);
    let pre0 = field_enc(ktb);
    let i = pre0.len() as int;
    let rest = match d {
        DataSpec::Rsa { exponent, modulus } => mpint_enc(exponent) + mpint_enc(modulus),
        DataSpec::Dsa { p, q, g, pub_key } => mpint_enc(p) + mpint_enc(q) + mpint_enc(g)
            + mpint_enc(pub_key),
        DataSpec::Ed25519 { key } => field_enc(key),
        DataSpec::Ecdsa { curve, key } => field_enc(encode_utf8(curve.spec_curvetype()))
            + field_enc(key),
    };
    assert(w == pre0 + rest);
    assert(Seq::<u8>::empty() + pre0 + rest =~= w);
    lemma_field_round_trip_at(Seq::<u8>::empty(), ktb, rest);
    assert(read_field_at(w, 0) == Some((ktb, i)));
    match d {
        DataSpec::Rsa { exponent: e, modulus: m } => {
            let e1 = mpint_enc(e);
            let e2 = mpint_enc(m);
            assert(pre0 + e1 + e2 =~= w);
            lemma_mpint_round_trip_at(pre0, e, e2);
            assert(pre0 + e1 + e2 + Seq::<u8>::empty() =~= w);
            lemma_mpint_round_trip_at(pre0 + e1, m, Seq::<u8>::empty());
            assert(spec_parse_rsa(w, i) == Ok::<DataSpec, ErrorSpec>(d));
        },
        DataSpec::Dsa { p, q, g, pub_key } => {
            assert("ssh-dss"@[4] != "ssh-rsa"@[4]);
            let e1 = mpint_enc(p);
            let e2 = mpint_enc(q);
            let e3 = mpint_enc(g);
            let e4 = mpint_enc(pub_key);
            assert(pre0 + e1 + (e2 + e3 + e4) =~= w);
            lemma_mpint_round_trip_at(pre0, p, e2 + e3 + e4);
            assert(pre0 + e1 + e2 + (e3 + e4) =~= w);
            lemma_mpint_round_trip_at(pre0 + e1, q, e3 + e4);
            assert(pre0 + e1 + e2 + e3 + e4 =~= w);
            lemma_mpint_round_trip_at(pre0 + e1 + e2, g, e4);
            assert(pre0 + e1 + e2 + e3 + e4 + Seq::<u8>::empty() =~= w);
            lemma_mpint_round_trip_at(pre0 + e1 + e2 + e3, pub_key, Seq::<u8>::empty());
            assert(spec_parse_dsa(w, i) == Ok::<DataSpec, ErrorSpec>(d));
        },
        DataSpec::Ed25519 { key } => {
            assert(kt.len() != "ssh-rsa"@.len());
            let f1 = field_enc(key);
            assert(pre0 + f1 + Seq::<u8>::empty() =~= w);
            lemma_field_round_trip_at(pre0, key, Seq::<u8>::empty());
            assert(spec_parse_ed25519(w, i) == Ok::<DataSpec, ErrorSpec>(d));
        },
        DataSpec::Ecdsa { curve, key } => {
            assert(kt.len() != "ssh-rsa"@.len());
            assert(kt.len() != "ssh-ed25519"@.len());
            let ct = curve.spec_curvetype();
            let cb = encode_utf8(ct);
            lemma_curve_token(curve);
            encode_utf8_valid_utf8(ct);
            encode_utf8_decode_utf8(ct);
            let f1 = field_enc(cb);
            let f2 = field_enc(key);
            assert(pre0 + f1 + f2 =~= w);
            lemma_field_round_trip_at(pre0, cb, f2);
            assert(pre0 + f1 + f2 + Seq::<u8>::empty() =~= w);
            lemma_field_round_trip_at(pre0 + f1, key, Seq::<u8>::empty());
            match curve {
                Curve::Nistp256 => {
                    assert(spec_parse_ecdsa(w, i, Curve::Nistp256) == Ok::<
                        DataSpec,
                        ErrorSpec,
                    >(d));
                },
                Curve::Nistp384 => {
                    assert(kt[16] != "ecdsa-sha2-nistp256"@[16]);
                    assert(spec_parse_ecdsa(w, i, Curve::Nistp384) == Ok::<
                        DataSpec,
                        ErrorSpec,
                    >(d));
                },
                Curve::Nistp521 => {
                    assert(kt[16] != "ecdsa-sha2-nistp256"@[16]);
                    assert(kt[16] != "ecdsa-sha2-nistp384"@[16]);
                    assert(spec_parse_ecdsa(w, i, Curve::Nistp521) == Ok::<
                        DataSpec,
                        ErrorSpec,
                    >(d));
                },
            }
        },
    }
}

/// Law (line round trip): the rendered line of a well-formed key with
/// minimal integer fields and a round-trip-safe comment parses back to
/// the same key. The hypotheses on `b64_encode` and `b64_decode` are the
/// base64 codec's round-trip facts, stated by the trusted wrapper
/// `b64_encode_exec` and discharged at its call sites.
pub proof fn lemma_key_file_round_trip(k: PublicKeySpec)
    requires
        data_wf(k.data),
        data_minimal(k.data),
        comment_token_ok(k.comment),
        b64_decode(b64_encode(wire_enc(k.data))) == Some(wire_enc(k.data)),
        b64_encode(wire_enc(k.data)).len() > 0,
        forall|i: int|
            0 <= i < b64_encode(wire_enc(k.data)).len() ==> is_b64_char(
                #[trigger] b64_encode(wire_enc(k.data))[i],
            ),
    ensures
        spec_parse(spec_key_file(k)) == Ok::<PublicKeySpec, ErrorSpec>(k),
{
    reveal_strlit(" ");
    let kt = keytype_chars(k.data);
    let p = b64_encode(wire_enc(k.data));
    let c = comment_text(k.comment);
    let s = spec_key_file(k);
    lemma_keytype_token(k.data);
    assert(" "@ =~= seq![' ']);
    assert(is_ws_char(' '));
    let a1 = kt + " "@;
    let a2 = a1 + p;
    let a3 = a2 + " "@;
    assert(s == a3 + c);
    let n0 = kt.len() as int;
    let n1 = n0 + 1;
    let n2 = n1 + p.len() as int;
    let n3 = n2 + 1;
    assert(s.len() == n3 + c.len());
    assert forall|j: int| 0 <= j < n0 implies s[j] == kt[j] && !is_ws_char(s[j]) by {
        assert(a1[j] == kt[j]);
        assert(a2[j] == a1[j]);
        assert(a3[j] == a2[j]);
        assert(s[j] == a3[j]);
    }
    assert(s[n0] == ' ') by {
        assert(a1[n0] == " "@[0]);
        assert(a2[n0] == a1[n0]);
        assert(a3[n0] == a2[n0]);
        assert(s[n0] == a3[n0]);
    }
    assert forall|j: int| n1 <= j < n2 implies s[j] == p[j - n1] && !is_ws_char(s[j]) by {
        assert(a2[j] == p[j - n1]);
        assert(a3[j] == a2[j]);
        assert(s[j] == a3[j]);
        assert(is_b64_char(p[j - n1]));
    }
    assert(s[n2] == ' ') by {
        assert(a3[n2] == " "@[0]);
        assert(s[n2] == a3[n2]);
    }
    assert forall|j: int| n3 <= j < s.len() implies s[j] == c[j - n3] by {
        assert(s[j] == c[j - n3]);
    }
    lemma_tok_start_scan(s, 0, 0);
    lemma_tok_end_scan(s, 0, n0);
    lemma_tok_start_scan(s, n0, n1);
    lemma_tok_end_scan(s, n1, n2);
    assert(tok_start(s, 0) == 0);
    assert(tok_end(s, 0) == n0);
    assert(tok_start(s, n0) == n1);
    assert(tok_end(s, n1) == n2);
    assert(s.subrange(0, n0) =~= kt);
    assert(s.subrange(n1, n2) =~= p);
    match k.comment {
        None => {
            assert(c.len() == 0);
            assert(n3 == s.len());
            lemma_tok_start_scan(s, n2, n3);
            assert(tok_start(s, n2) == s.len());
        },
        Some(t) => {
            assert(c == t);
            assert(forall|j: int| n3 <= j < s.len() ==> !is_ws_char(#[trigger] s[j]));
            lemma_tok_start_scan(s, n2, n3);
            lemma_tok_end_scan(s, n3, s.len() as int);
            assert(tok_start(s, n2) == n3);
            assert(tok_end(s, n3) == s.len());
            assert(s.subrange(n3, s.len() as int) =~= t);
        },
    }
    lemma_wire_parse(k.data);
    assert(spec_parse(s) == Ok::<PublicKeySpec, ErrorSpec>(k));
}

/// Law (algorithm-id consistency): the canonical identifier of a parsed
/// key equals the line's leading token.
pub proof fn lemma_keytype_consistency(s: Seq<char>, k: PublicKeySpec)
    requires
        spec_parse(s) == Ok::<PublicKeySpec, ErrorSpec>(k),
    ensures
        keytype_chars(k.data) == s.subrange(tok_start(s, 0), tok_end(s, tok_start(s, 0))),
{
    let t0s = tok_start(s, 0);
    let t0e = tok_end(s, t0s);
    let t1s = tok_start(s, t0e);
    let t1e = tok_end(s, t1s);
    let kt = s.subrange(t0s, t0e);
    let payload = s.subrange(t1s, t1e);
    let buf = b64_decode(payload)->Some_0;
    let i = read_field_at(buf, 0)->Some_0.1;
    if kt == "ssh-rsa"@ {
        assert(spec_parse_rsa(buf, i) == Ok::<DataSpec, ErrorSpec>(k.data));
        assert(k.data is Rsa);
    } else if kt == "ssh-dss"@ {
        assert(k.data is Dsa);
    } else if kt == "ssh-ed25519"@ {
        assert(k.data is Ed25519);
    } else if kt == "ecdsa-sha2-nistp256"@ {
        assert(k.data matches DataSpec::Ecdsa { curve: Curve::Nistp256, .. });
    } else if kt == "ecdsa-sha2-nistp384"@ {
        assert(k.data matches DataSpec::Ecdsa { curve: Curve::Nistp384, .. });
    } else {
        assert(kt == "ecdsa-sha2-nistp521"@);
        assert(k.data matches DataSpec::Ecdsa { curve: Curve::Nistp521, .. });
    }
}

/// Law (comment mutation): replacing the comment changes the rendered
/// line only in the trailing comment field.
pub proof fn lemma_comment_mutation(k: PublicKeySpec, c: Seq<char>)
    ensures
        ({
            let head = keytype_chars(k.data) + " "@ + b64_encode(wire_enc(k.data)) + " "@;
            spec_key_file(PublicKeySpec { data: k.data, comment: Some(c) }) == head + c
                && spec_key_file(k) == head + comment_text(k.comment)
        }),
{
    let head = keytype_chars(k.data) + " "@ + b64_encode(wire_enc(k.data)) + " "@;
    assert(spec_key_file(PublicKeySpec { data: k.data, comment: Some(c) }) =~= head + c);
    assert(spec_key_file(k) =~= head + comment_text(k.comment));
}

/// Law (rejection): an unrecognized algorithm identifier is rejected
/// with `UnsupportedKeytype`, carrying the identifier.
pub proof fn lemma_rejects_unsupported_keytype(buf: Seq<u8>, kt: Seq<char>)
    requires
        read_field_at(buf, 0) matches Some((ktb, _)) && valid_utf8(ktb) && decode_utf8(ktb) == kt,
        kt != "ssh-rsa"@,
        kt != "ssh-dss"@,
        kt != "ssh-ed25519"@,
        kt != "ecdsa-sha2-nistp256"@,
        kt != "ecdsa-sha2-nistp384"@,
        kt != "ecdsa-sha2-nistp521"@,
    ensures
        spec_parse_data(buf, kt) == Err::<DataSpec, ErrorSpec>(ErrorSpec::UnsupportedKeytype(kt)),
{
}

/// Law (rejection): a wire payload too short for its embedded identifier
/// field is rejected with `InvalidFormat`.
pub proof fn lemma_rejects_truncated(buf: Seq<u8>, kt: Seq<char>)
    requires
        read_field_at(buf, 0) is None,
    ensures
        spec_parse_data(buf, kt) == Err::<DataSpec, ErrorSpec>(ErrorSpec::InvalidFormat),
{
}

/// Law (rejection): an embedded identifier that differs from the line's
/// leading token is rejected with `InvalidFormat`.
pub proof fn lemma_rejects_id_mismatch(buf: Seq<u8>, kt: Seq<char>)
    requires
        read_field_at(buf, 0) matches Some((ktb, _)) && valid_utf8(ktb) && decode_utf8(ktb) != kt,
    ensures
        spec_parse_data(buf, kt) == Err::<DataSpec, ErrorSpec>(ErrorSpec::InvalidFormat),
{
}

} // verus!


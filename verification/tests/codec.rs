use ssh_keys::Curve;
use ssh_keys::Error;
use ssh_keys::PublicKey;
use ssh_keys::wire::Reader;
use ssh_keys::wire::Writer;

const ED25519_NO_COMMENT: &'static str =
    "ssh-ed25519 AAAAC3NzaC1lZDI1NTE5AAAAIAhBr6++FQXB8kkgOMbdxBuyrHzuX5HkElswrN6DQoN/";

fn field(content: &[u8]) -> Vec<u8> {
    let mut out = vec![
        (content.len() >> 24) as u8,
        (content.len() >> 16) as u8,
        (content.len() >> 8) as u8,
        content.len() as u8,
    ];
    out.extend_from_slice(content);
    out
}

#[test]
fn mpint_round_trip_high_bit() {
    let mut w = Writer::new();
    w.write_mpint(&[0x80, 0x01]);
    let buf = w.to_vec();
    assert_eq!(buf, vec![0, 0, 0, 3, 0, 0x80, 0x01]);
    let mut r = Reader::new(&buf);
    assert_eq!(r.read_mpint().unwrap(), vec![0x80, 0x01]);
}

#[test]
fn mpint_round_trip_low_bit() {
    let mut w = Writer::new();
    w.write_mpint(&[0x12, 0x34]);
    let buf = w.to_vec();
    assert_eq!(buf, vec![0, 0, 0, 2, 0x12, 0x34]);
    let mut r = Reader::new(&buf);
    assert_eq!(r.read_mpint().unwrap(), vec![0x12, 0x34]);
}

#[test]
fn mpint_round_trip_empty() {
    let mut w = Writer::new();
    w.write_mpint(&[]);
    let buf = w.to_vec();
    assert_eq!(buf, vec![0, 0, 0, 0]);
    let mut r = Reader::new(&buf);
    assert_eq!(r.read_mpint().unwrap(), Vec::<u8>::new());
}

#[test]
fn field_round_trip() {
    let mut w = Writer::new();
    w.write_bytes(&[1, 2, 3]);
    w.write_string("abc");
    let buf = w.to_vec();
    assert_eq!(buf, vec![0, 0, 0, 3, 1, 2, 3, 0, 0, 0, 3, 0x61, 0x62, 0x63]);
    let mut r = Reader::new(&buf);
    assert_eq!(r.read_bytes().unwrap(), vec![1, 2, 3]);
    assert_eq!(r.read_string().unwrap(), vec![0x61, 0x62, 0x63]);
}

#[test]
fn reader_rejects_truncation() {
    let short = [0u8, 0, 0];
    let mut r = Reader::new(&short);
    assert!(matches!(r.read_bytes(), Err(Error::InvalidFormat)));
    let overlong = [0u8, 0, 0, 5, 1, 2];
    let mut r2 = Reader::new(&overlong);
    assert!(matches!(r2.read_bytes(), Err(Error::InvalidFormat)));
}

#[test]
fn parse_rejects_unknown_keytype() {
    let payload = base64::encode(&field(b"ssh-foo"));
    let line = format!("ssh-foo {}", payload);
    match PublicKey::parse(&line) {
        Err(Error::UnsupportedKeytype(t)) => assert_eq!(t, "ssh-foo"),
        other => panic!("expected UnsupportedKeytype, got {:?}", other),
    }
}

#[test]
fn parse_rejects_malformed_base64() {
    assert!(matches!(PublicKey::parse("ssh-rsa !!!"), Err(Error::InvalidFormat)));
}

#[test]
fn parse_rejects_truncated_payload() {
    // decodes to three bytes, fewer than one length prefix
    assert!(matches!(PublicKey::parse("ssh-rsa AAAA"), Err(Error::InvalidFormat)));
}

#[test]
fn parse_rejects_embedded_id_mismatch() {
    let payload = base64::encode(&field(b"ssh-dss"));
    let line = format!("ssh-rsa {}", payload);
    assert!(matches!(PublicKey::parse(&line), Err(Error::InvalidFormat)));
}

#[test]
fn parse_rejects_missing_fields() {
    assert!(matches!(PublicKey::parse(""), Err(Error::InvalidFormat)));
    assert!(matches!(PublicKey::parse("   "), Err(Error::InvalidFormat)));
    assert!(matches!(PublicKey::parse("ssh-rsa"), Err(Error::InvalidFormat)));
}

#[test]
fn parse_rejects_invalid_utf8_identifier() {
    let payload = base64::encode(&field(&[0xff, 0xfe]));
    let line = format!("ssh-rsa {}", payload);
    assert!(matches!(PublicKey::parse(&line), Err(Error::Utf8)));
}

#[test]
fn parse_rejects_mismatched_curve() {
    let mut wire = field(b"ecdsa-sha2-nistp256");
    wire.extend_from_slice(&field(b"nistp384"));
    wire.extend_from_slice(&field(&[4, 1, 2]));
    let line = format!("ecdsa-sha2-nistp256 {}", base64::encode(&wire));
    match PublicKey::parse(&line) {
        Err(Error::UnsupportedCurve(t)) => assert_eq!(t, "nistp384"),
        other => panic!("expected UnsupportedCurve, got {:?}", other),
    }
}

#[test]
fn parse_rejects_unknown_curve() {
    let mut wire = field(b"ecdsa-sha2-nistp256");
    wire.extend_from_slice(&field(b"nistp999"));
    wire.extend_from_slice(&field(&[4, 1, 2]));
    let line = format!("ecdsa-sha2-nistp256 {}", base64::encode(&wire));
    match PublicKey::parse(&line) {
        Err(Error::UnsupportedCurve(t)) => assert_eq!(t, "nistp999"),
        other => panic!("expected UnsupportedCurve, got {:?}", other),
    }
}

#[test]
fn parse_tolerates_whitespace_runs() {
    let line = "ssh-ed25519   AAAAC3NzaC1lZDI1NTE5AAAAIAhBr6++FQXB8kkgOMbdxBuyrHzuX5HkElswrN6DQoN/\t demos@siril";
    let key = PublicKey::parse(line).unwrap();
    assert_eq!(key.keytype(), "ssh-ed25519");
    assert_eq!(key.to_key_file(), "ssh-ed25519 AAAAC3NzaC1lZDI1NTE5AAAAIAhBr6++FQXB8kkgOMbdxBuyrHzuX5HkElswrN6DQoN/ demos@siril");
}

#[test]
fn parse_keeps_first_comment_token() {
    let line = format!("{} two words", ED25519_NO_COMMENT);
    let key = PublicKey::parse(&line).unwrap();
    assert_eq!(key.to_key_file(), format!("{} two", ED25519_NO_COMMENT));
}

#[test]
fn set_comment_appends_to_uncommented_key() {
    let mut key = PublicKey::parse(ED25519_NO_COMMENT).unwrap();
    key.set_comment("test");
    assert_eq!(key.to_key_file(), format!("{} test", ED25519_NO_COMMENT));
}

#[test]
fn uncommented_key_round_trips() {
    let key = PublicKey::parse(ED25519_NO_COMMENT).unwrap();
    // the trailing comment field is empty, not omitted
    let line = key.to_key_file();
    assert_eq!(line, format!("{} ", ED25519_NO_COMMENT));
    let again = PublicKey::parse(&line).unwrap();
    assert_eq!(again.to_key_file(), line);
}

#[test]
fn from_rsa_line_round_trips() {
    let key = PublicKey::from_rsa(vec![1, 0, 1], vec![0x99, 0xaa]);
    assert_eq!(key.keytype(), "ssh-rsa");
    assert_eq!(key.size(), 16);
    let line = key.to_key_file();
    let parsed = PublicKey::parse(&line).unwrap();
    assert_eq!(parsed.to_key_file(), line);
    assert_eq!(parsed.size(), 16);
}

#[test]
fn from_dsa_line_round_trips() {
    let key = PublicKey::from_dsa(vec![0xcb, 1], vec![0x07], vec![0x02], vec![0x05]);
    assert_eq!(key.keytype(), "ssh-dss");
    assert_eq!(key.size(), 16);
    let line = key.to_key_file();
    let parsed = PublicKey::parse(&line).unwrap();
    assert_eq!(parsed.to_key_file(), line);
    assert_eq!(parsed.keytype(), "ssh-dss");
}

#[test]
fn curve_get_round_trips() {
    assert_eq!(Curve::get("nistp256").unwrap().curvetype(), "nistp256");
    assert_eq!(Curve::get("nistp384").unwrap().curvetype(), "nistp384");
    assert_eq!(Curve::get("nistp521").unwrap().curvetype(), "nistp521");
    match Curve::get("nistp999") {
        Err(Error::UnsupportedCurve(t)) => assert_eq!(t, "nistp999"),
        other => panic!("expected UnsupportedCurve, got {:?}", other),
    }
}

#[test]
fn fingerprint_has_no_padding() {
    let key = PublicKey::parse(ED25519_NO_COMMENT).unwrap();
    let fp = key.fingerprint();
    assert!(fp.starts_with("SHA256:"));
    assert!(!fp.contains('='));
    assert_eq!(key.to_fingerprint_string(), format!("256 {} no comment (ED25519)", fp));
}

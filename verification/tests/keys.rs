use ssh_keys::PublicKey;

const TEST_RSA_KEY: &'static str = "ssh-rsa AAAAB3NzaC1yc2EAAAADAQABAAABAQCYH3vPUJThzriVlVKmKOg71EOVYm274oRa5KLWEoK0HmjMc9ru0j4ofouoeW/AVmRVujxfaIGR/8en/lUPkiv5DSeM6aXnDz5cExNptrAy/sMPLQhVALRrqQ+dkS9Ct/YA+A1Le5LPh4MJu79hCDLTwqSdKqDuUcYQzR0M7APslaDCR96zY+VUL4lKObUUd4wsP3opdTQ6G20qXEer14EPGr9N53S/u+JJGLoPlb1uPIH96oKY4t/SeLIRQsocdViRaiF/Aq7kPzWd/yCLVdXJSRt3CftboV4kLBHGteTS551J32MJoqjEi4Q/DucWYrQfx5H3qXVB+/G2HurKPIHL demos@siril";
const TEST_RSA_COMMENT_KEY: &'static str = "ssh-rsa AAAAB3NzaC1yc2EAAAADAQABAAABAQCYH3vPUJThzriVlVKmKOg71EOVYm274oRa5KLWEoK0HmjMc9ru0j4ofouoeW/AVmRVujxfaIGR/8en/lUPkiv5DSeM6aXnDz5cExNptrAy/sMPLQhVALRrqQ+dkS9Ct/YA+A1Le5LPh4MJu79hCDLTwqSdKqDuUcYQzR0M7APslaDCR96zY+VUL4lKObUUd4wsP3opdTQ6G20qXEer14EPGr9N53S/u+JJGLoPlb1uPIH96oKY4t/SeLIRQsocdViRaiF/Aq7kPzWd/yCLVdXJSRt3CftboV4kLBHGteTS551J32MJoqjEi4Q/DucWYrQfx5H3qXVB+/G2HurKPIHL test";
const TEST_DSA_KEY: &'static str = "ssh-dss AAAAB3NzaC1kc3MAAACBAIkd9CkqldM2St8f53rfJT7kPgiA8leZaN7hdZd48hYJyKzVLoPdBMaGFuOwGjv0Im3JWqWAewANe0xeLceQL0rSFbM/mZV+1gc1nm1WmtVw4KJIlLXl3gS7NYfQ9Ith4wFnZd/xhRz9Q+MBsA1DgXew1zz4dLYI46KmFivJ7XDzAAAAFQC8z4VIhI4HlHTvB7FdwAfqWsvcOwAAAIBEqPIkW3HHDTSEhUhhV2AlIPNwI/bqaCXy2zYQ6iTT3oUh+N4xlRaBSvW+h2NC97U8cxd7Y0dXIbQKPzwNzRX1KA1F9WAuNzrx9KkpCg2TpqXShhp+Sseb+l6uJjthIYM6/0dvr9cBDMeExabPPgBo3Eii2NLbFSqIe86qav8hZAAAAIBk5AetZrG8varnzv1khkKh6Xq/nX9r1UgIOCQos2XOi2ErjlB9swYCzReo1RT7dalITVi7K9BtvJxbutQEOvN7JjJnPJs+M3OqRMMF+anXPdCWUIBxZUwctbkAD5joEjGDrNXHQEw9XixZ9p3wudbISnPFgZhS1sbS9Rlw5QogKg== demos@siril";
const TEST_ED25519_KEY: &'static str = "ssh-ed25519 AAAAC3NzaC1lZDI1NTE5AAAAIAhBr6++FQXB8kkgOMbdxBuyrHzuX5HkElswrN6DQoN/ demos@siril";
const TEST_ECDSA256_KEY: &'static str = "ecdsa-sha2-nistp256 AAAAE2VjZHNhLXNoYTItbmlzdHAyNTYAAAAIbmlzdHAyNTYAAABBBIhfLQrww4DlhYzbSWXoX3ctOQ0jVosvfHfW+QWVotksbPzM2YgkIikTpoHUfZrYpJKWx7WYs5aqeLkdCDdk+jk= demos@siril";

#[test]
fn rsa_parse_to_string() {
    let key = PublicKey::parse(TEST_RSA_KEY).unwrap();
    let out = key.to_key_file();
    assert_eq!(TEST_RSA_KEY, out);
}

#[test]
fn rsa_size() {
    let key = PublicKey::parse(TEST_RSA_KEY).unwrap();
    assert_eq!(2048, key.size());
}

#[test]
fn rsa_keytype() {
    let key = PublicKey::parse(TEST_RSA_KEY).unwrap();
    assert_eq!("ssh-rsa", key.keytype());
}

#[test]
fn rsa_fingerprint() {
    let key = PublicKey::parse(TEST_RSA_KEY).unwrap();
    assert_eq!("SHA256:YTw/JyJmeAAle1/7zuZkPP0C73BQ+6XrFEt2/Wy++2o", key.fingerprint());
}

#[test]
fn rsa_fingerprint_string() {
    let key = PublicKey::parse(TEST_RSA_KEY).unwrap();
    assert_eq!(
        "2048 SHA256:YTw/JyJmeAAle1/7zuZkPP0C73BQ+6XrFEt2/Wy++2o demos@siril (RSA)",
        key.to_fingerprint_string()
    );
}

#[test]
fn rsa_set_comment() {
    let mut key = PublicKey::parse(TEST_RSA_KEY).unwrap();
    key.set_comment("test");
    let out = key.to_key_file();
    assert_eq!(TEST_RSA_COMMENT_KEY, out);
}

#[test]
fn dsa_parse_to_string() {
    let key = PublicKey::parse(TEST_DSA_KEY).unwrap();
    let out = key.to_key_file();
    assert_eq!(TEST_DSA_KEY, out);
}

#[test]
fn dsa_size() {
    let key = PublicKey::parse(TEST_DSA_KEY).unwrap();
    assert_eq!(1024, key.size());
}

#[test]
fn dsa_keytype() {
    let key = PublicKey::parse(TEST_DSA_KEY).unwrap();
    assert_eq!("ssh-dss", key.keytype());
}

#[test]
fn dsa_fingerprint() {
    let key = PublicKey::parse(TEST_DSA_KEY).unwrap();
    assert_eq!("SHA256:/Pyxrjot1Hs5PN2Dpg/4pK2wxxtP9Igc3sDTAWIEXT4", key.fingerprint());
}

#[test]
fn dsa_fingerprint_string() {
    let key = PublicKey::parse(TEST_DSA_KEY).unwrap();
    assert_eq!(
        "1024 SHA256:/Pyxrjot1Hs5PN2Dpg/4pK2wxxtP9Igc3sDTAWIEXT4 demos@siril (DSA)",
        key.to_fingerprint_string()
    );
}

#[test]
fn ed25519_parse_to_string() {
    let key = PublicKey::parse(TEST_ED25519_KEY).unwrap();
    let out = key.to_key_file();
    assert_eq!(TEST_ED25519_KEY, out);
}

#[test]
fn ed25519_size() {
    let key = PublicKey::parse(TEST_ED25519_KEY).unwrap();
    assert_eq!(256, key.size());
}

#[test]
fn ed25519_keytype() {
    let key = PublicKey::parse(TEST_ED25519_KEY).unwrap();
    assert_eq!("ssh-ed25519", key.keytype());
}

#[test]
fn ed25519_fingerprint() {
    let key = PublicKey::parse(TEST_ED25519_KEY).unwrap();
    assert_eq!("SHA256:A/lHzXxsgbp11dcKKfSDyNQIdep7EQgZEoRYVDBfNdI", key.fingerprint());
}

#[test]
fn ed25519_fingerprint_string() {
    let key = PublicKey::parse(TEST_ED25519_KEY).unwrap();
    assert_eq!(
        "256 SHA256:A/lHzXxsgbp11dcKKfSDyNQIdep7EQgZEoRYVDBfNdI demos@siril (ED25519)",
        key.to_fingerprint_string()
    );
}

#[test]
fn ecdsa256_parse_to_string() {
    let key = PublicKey::parse(TEST_ECDSA256_KEY).unwrap();
    let out = key.to_key_file();
    assert_eq!(TEST_ECDSA256_KEY, out);
}

#[test]
fn ecdsa256_size() {
    let key = PublicKey::parse(TEST_ECDSA256_KEY).unwrap();
    assert_eq!(256, key.size());
}

#[test]
fn ecdsa256_keytype() {
    let key = PublicKey::parse(TEST_ECDSA256_KEY).unwrap();
    assert_eq!("ecdsa-sha2-nistp256", key.keytype());
}

#[test]
fn ecdsa256_fingerprint() {
    let key = PublicKey::parse(TEST_ECDSA256_KEY).unwrap();
    assert_eq!("SHA256:BzS5YXMW/d2vFk8Oqh+nKmvKr8X/FTLBfJgDGLu5GAs", key.fingerprint());
}

#[test]
fn ecdsa256_fingerprint_string() {
    let key = PublicKey::parse(TEST_ECDSA256_KEY).unwrap();
    assert_eq!(
        "256 SHA256:BzS5YXMW/d2vFk8Oqh+nKmvKr8X/FTLBfJgDGLu5GAs demos@siril (ECDSA)",
        key.to_fingerprint_string()
    );
}

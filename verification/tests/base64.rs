use gemini_live::base64::encode;

#[test]
fn rfc_vectors() {
    assert_eq!(encode(b""), "");
    assert_eq!(encode(b"f"), "Zg==");
    assert_eq!(encode(b"fo"), "Zm8=");
    assert_eq!(encode(b"foo"), "Zm9v");
    assert_eq!(encode(b"foob"), "Zm9vYg==");
    assert_eq!(encode(b"fooba"), "Zm9vYmE=");
    assert_eq!(encode(b"foobar"), "Zm9vYmFy");
}

#[test]
fn every_symbol_occurs() {
    // The numbers 0 to 63, six bits each.
    let mut bytes: Vec<u8> = Vec::new();
    for group in 0..16u32 {
        let first = group * 4;
        let bits = first << 18 | (first + 1) << 12 | (first + 2) << 6 | (first + 3);
        bytes.push((bits >> 16) as u8);
        bytes.push((bits >> 8) as u8);
        bytes.push(bits as u8);
    }
    assert_eq!(
        encode(&bytes),
        "ABCDEFGHIJKLMNOPQRSTUVWXYZabcdefghijklmnopqrstuvwxyz0123456789+/"
    );
}

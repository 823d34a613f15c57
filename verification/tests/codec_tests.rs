use bilibili_manga_downloader::codec::{base64_decode, base64_encode, hex_lower, percent_decode_bytes};

#[test]
fn hex_lowercase() {
    assert_eq!(hex_lower(&vec![0x01, 0x02, 0x03, 0x0f, 0x10]), "0102030f10");
    assert_eq!(hex_lower(&vec![]), "");
    assert_eq!(hex_lower(&vec![0xff, 0xab]), "ffab");
}

#[test]
fn base64_round_trip() {
    let data: Vec<u8> = b"hello world!".to_vec();
    let enc = base64_encode(&data);
    assert_eq!(enc, "aGVsbG8gd29ybGQh");
    let dec = base64_decode(&enc.clone().into_bytes()).unwrap();
    assert_eq!(dec, data);
}

#[test]
fn base64_padding_forms() {
    assert_eq!(base64_encode(&vec![0xfb]), "+w==");
    assert_eq!(base64_encode(&vec![0xfb, 0xff]), "+/8=");
    assert_eq!(base64_encode(&vec![]), "");
    assert!(base64_decode(&b"not base64!".to_vec()).is_none());
}

#[test]
fn percent_decoding() {
    assert_eq!(percent_decode_bytes(&b"a%20b".to_vec()), b"a b".to_vec());
    assert_eq!(percent_decode_bytes(&b"a%2Fb%3d".to_vec()), b"a/b=".to_vec());
    assert_eq!(percent_decode_bytes(&b"plain".to_vec()), b"plain".to_vec());
    assert_eq!(percent_decode_bytes(&b"bad%zz".to_vec()), b"bad%zz".to_vec());
}

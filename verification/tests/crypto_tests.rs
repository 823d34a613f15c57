use bilibili_manga_downloader::crypto::{aes_cbc_decrypt, aes_cbc_encrypt};
use bilibili_manga_downloader::errors::DownloadError;
use bilibili_manga_downloader::imagewrap::{
    cpx_for_iv, cpx_param, decrypt_img_data, encode_wrapped, is_recognized_image,
    process_image_bytes,
};

fn sample_key() -> Vec<u8> {
    (0u8..32).collect()
}

fn sample_iv() -> Vec<u8> {
    (100u8..116).collect()
}

#[test]
fn cbc_round_trip() {
    let data: Vec<u8> = (0u8..64).collect();
    let key = sample_key();
    let iv = sample_iv();
    let enc = aes_cbc_encrypt(&data, &key, &iv);
    assert_eq!(enc.len(), 64);
    assert_ne!(enc, data);
    let dec = aes_cbc_decrypt(&enc, &key, &iv);
    assert_eq!(dec, data);
}

#[test]
fn wrapped_round_trip_exact_head() {
    // Plaintext exactly one encrypted head long.
    let p: Vec<u8> = (0..20496u32).map(|i| (i % 251) as u8).collect();
    let (data, cpx) = encode_wrapped(&p, &sample_key(), &sample_iv());
    assert_eq!(data.len(), p.len() + 37);
    assert_eq!(data[0], 1);
    let out = decrypt_img_data(data, &cpx).unwrap();
    assert_eq!(out, p);
}

#[test]
fn wrapped_round_trip_with_tail() {
    // An encrypted image with a plaintext tail: flag 1, 30000 data bytes,
    // a 20496-byte CBC head, the remainder in clear, the key at the end.
    let mut p: Vec<u8> = vec![0xff, 0xd8, 0xff];
    while p.len() < 30000 {
        p.push((p.len() % 250) as u8);
    }
    let (data, cpx) = encode_wrapped(&p, &sample_key(), &sample_iv());
    assert_eq!(data[0], 1);
    let dl = u32::from_be_bytes([data[1], data[2], data[3], data[4]]);
    assert_eq!(dl, 30000);
    assert!(!is_recognized_image(&data));
    let out = decrypt_img_data(data, &cpx).unwrap();
    assert_eq!(out, p);
    // The decrypted bytes begin with the JPEG magic again.
    assert!(is_recognized_image(&out));
}

#[test]
fn recognized_images_pass_through() {
    let jpeg: Vec<u8> = vec![0xff, 0xd8, 0xff, 0xe0, 1, 2, 3];
    let out = decrypt_img_data(jpeg.clone(), &b"whatever".to_vec()).unwrap();
    assert_eq!(out, jpeg);
}

#[test]
fn unknown_flag_is_wrapper_error() {
    let data: Vec<u8> = vec![7, 0, 0, 0, 1, 9, 9, 9];
    let r = decrypt_img_data(data, &b"x".to_vec());
    assert_eq!(r, Err(DownloadError::Wrapper));
}

#[test]
fn oversized_length_passes_through() {
    // data_length runs past the end: best-effort passthrough.
    let data: Vec<u8> = vec![1, 0, 0, 0xff, 0xff, 5, 6];
    let out = decrypt_img_data(data.clone(), &b"x".to_vec()).unwrap();
    assert_eq!(out, data);
}

#[test]
fn bad_key_length_is_crypto_error() {
    // Valid header, valid cpx, but only 4 trailing key bytes.
    let cpx = cpx_for_iv(&sample_iv());
    let mut data: Vec<u8> = vec![1, 0, 0, 0, 16];
    data.extend_from_slice(&[0u8; 16]);
    data.extend_from_slice(&[1, 2, 3, 4]);
    let r = decrypt_img_data(data, &cpx);
    assert_eq!(r, Err(DownloadError::Crypto));
}

#[test]
fn bad_cpx_is_crypto_error() {
    let mut data: Vec<u8> = vec![1, 0, 0, 0, 16];
    data.extend_from_slice(&[0u8; 16]);
    data.extend_from_slice(&sample_key());
    let r = decrypt_img_data(data, &b"!!!not-base64!!!".to_vec());
    assert_eq!(r, Err(DownloadError::Crypto));
}

#[test]
fn short_content_unpads() {
    // A short wrapped payload is decrypted whole and PKCS#7-unpadded.
    let key = sample_key();
    let iv = sample_iv();
    let mut padded: Vec<u8> = b"short image".to_vec();
    let pad = 16 - (padded.len() % 16);
    for _ in 0..pad {
        padded.push(pad as u8);
    }
    let content = aes_cbc_encrypt(&padded, &key, &iv);
    let mut data: Vec<u8> = vec![1];
    data.extend_from_slice(&(content.len() as u32).to_be_bytes());
    data.extend_from_slice(&content);
    data.extend_from_slice(&key);
    let cpx = cpx_for_iv(&iv);
    let out = decrypt_img_data(data, &cpx).unwrap();
    assert_eq!(out, b"short image".to_vec());
}

#[test]
fn cpx_extraction_from_url() {
    let url = "https://cdn.example/x.jpg?token=abc&cpx=QUJD%3D&other=1";
    let v = cpx_param(url).unwrap();
    assert_eq!(v, b"QUJD%3D".to_vec());
    assert_eq!(cpx_param("https://cdn.example/x.jpg?token=abc"), None);
    assert_eq!(cpx_param("no-query-here"), None);
    // Only a whole `cpx` key matches.
    assert_eq!(cpx_param("https://e/x?acpx=1&cpxy=2"), None);
}

#[test]
fn process_image_bytes_without_cpx_keeps_data() {
    let data: Vec<u8> = vec![1, 0, 0, 0, 99, 1, 2, 3];
    let out = process_image_bytes(data.clone(), "https://cdn.example/x.jpg?token=t").unwrap();
    assert_eq!(out, data);
}

#[test]
fn process_image_bytes_decrypts_with_cpx() {
    let p: Vec<u8> = (0..20500u32).map(|i| (i % 249) as u8).collect();
    let (data, cpx) = encode_wrapped(&p, &sample_key(), &sample_iv());
    let url = format!(
        "https://cdn.example/x.jpg?token=t&cpx={}",
        String::from_utf8(cpx).unwrap()
    );
    let out = process_image_bytes(data, &url).unwrap();
    assert_eq!(out, p);
}

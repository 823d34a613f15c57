use bilibili_manga_downloader::identity::{
    gen_aurora_eid, gen_buvid, gen_session_id, gen_trace_id, generate_android_id, trace_id_from,
};

#[test]
fn aurora_eid_of_zero_is_empty() {
    assert_eq!(gen_aurora_eid(0), "");
}

#[test]
fn aurora_eid_known_value() {
    assert_eq!(gen_aurora_eid(114514), "UFUFQ1AA");
}

#[test]
fn buvid_layout_from_fixed_android_id() {
    // md5("0123456789abcdef") = 4032af8d61035123906e58e067140cc5
    assert_eq!(
        gen_buvid("0123456789abcdef"),
        "XX35e4032af8d61035123906e58e067140cc5"
    );
}

#[test]
fn trace_id_from_fixed_inputs() {
    let d: Vec<u8> = (0u8..32).collect();
    let t = trace_id_from(&d, 1700000000);
    assert_eq!(t, "0123456789abcdefghijklmn6553f1uv:ghijklmn6553f1uv:0:0");
    assert_eq!(t.chars().count(), 53);
}

#[test]
fn random_identity_shapes() {
    let sid = gen_session_id();
    assert_eq!(sid.chars().count(), 8);
    assert!(sid.chars().all(|c| c.is_ascii_lowercase() || c.is_ascii_digit()));
    let aid = generate_android_id();
    assert_eq!(aid.chars().count(), 16);
    assert!(aid.chars().all(|c| c.is_ascii_hexdigit() && !c.is_ascii_uppercase()));
    let tid = gen_trace_id();
    assert_eq!(tid.chars().count(), 53);
    assert_eq!(&tid[32..33], ":");
    assert!(tid.ends_with(":0:0"));
}

use bilibili_manga_downloader::signing::app_sign;

fn pairs(v: &[(&str, &str)]) -> Vec<(String, String)> {
    v.iter().map(|(a, b)| (a.to_string(), b.to_string())).collect()
}

#[test]
fn app_sign_known_value() {
    let params = pairs(&[("b", "2"), ("a", "1")]);
    let sig = app_sign(&params, &"key".to_string(), &"sec".to_string());
    // md5("a=1&appkey=key&b=2" + "sec")
    assert_eq!(sig, "d01f37b1a172d0c6c75dfd8b6625b680");
}

#[test]
fn app_sign_order_independent() {
    let p1 = pairs(&[("b", "2"), ("a", "1"), ("zz", "9"), ("m", "x")]);
    let p2 = pairs(&[("m", "x"), ("zz", "9"), ("a", "1"), ("b", "2")]);
    let k = "1d8b6e7d45233436".to_string();
    let s = "560c52ccd288fed045859ed18bffd973".to_string();
    assert_eq!(app_sign(&p1, &k, &s), app_sign(&p2, &k, &s));
}

#[test]
fn app_sign_encodes_reserved_characters() {
    let p1 = pairs(&[("q", "a b&c")]);
    let p2 = pairs(&[("q", "a b&c")]);
    let k = "key".to_string();
    let s = "sec".to_string();
    assert_eq!(app_sign(&p1, &k, &s), app_sign(&p2, &k, &s));
    // A different value must sign differently.
    let p3 = pairs(&[("q", "a b&d")]);
    assert_ne!(app_sign(&p1, &k, &s), app_sign(&p3, &k, &s));
}

#[test]
fn app_sign_handles_empty_and_duplicate_keys() {
    let k = "key".to_string();
    let s = "sec".to_string();
    // Only the inserted appkey remains: md5("appkey=key" + "sec").
    let empty: Vec<(String, String)> = vec![];
    let sig = app_sign(&empty, &k, &s);
    assert_eq!(sig.len(), 32);
    // Duplicate keys are ordered by value, so the signature is still a
    // function of the multiset alone.
    let d1 = pairs(&[("k", "b"), ("k", "a")]);
    let d2 = pairs(&[("k", "a"), ("k", "b")]);
    assert_eq!(app_sign(&d1, &k, &s), app_sign(&d2, &k, &s));
}

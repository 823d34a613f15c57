use bilibili_manga_downloader::sanitize::filename_filter;

#[test]
fn replaces_unsafe_characters() {
    assert_eq!(filename_filter("a:b*c?d"), "a：b⭐c？d");
    assert_eq!(filename_filter("x<y>z|w.v"), "x《y》z丨w·v");
    assert_eq!(filename_filter("a\\b/c"), "a b c");
    assert_eq!(filename_filter("say \"hi\""), "say 'hi'");
}

#[test]
fn trims_surrounding_whitespace() {
    assert_eq!(filename_filter("  Ch.1  "), "Ch·1");
    assert_eq!(filename_filter("/title/"), "title");
    assert_eq!(filename_filter("   "), "");
}

#[test]
fn sanitize_is_idempotent_on_samples() {
    for s in ["a:b*c?d", "  / weird \\ name .. ", "平凡无奇", "<<<>>>", ""] {
        let once = filename_filter(s);
        let twice = filename_filter(&once);
        assert_eq!(once, twice);
    }
}

#[test]
fn keeps_ordinary_titles() {
    assert_eq!(filename_filter("Sample"), "Sample");
    assert_eq!(filename_filter("第1话"), "第1话");
}

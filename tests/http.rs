use ricq_multimsg::http::make_headers;

#[test]
fn make_headers_with_and_without_cookie() {
    let h = make_headers("8.9.33", String::new());
    assert_eq!(
        h,
        vec![
            ("User-Agent".to_string(), "QQ/8.9.33 CFNetwork/1126".to_string()),
            ("Net-Type".to_string(), "Wifi".to_string()),
        ]
    );
    let h = make_headers("1", "uin=o1".to_string());
    assert_eq!(h.len(), 3);
    assert_eq!(h[2], ("Cookie".to_string(), "uin=o1".to_string()));
}

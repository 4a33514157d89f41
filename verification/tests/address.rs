use era_connect::address::{
    download_filename, extract_filename, filename_of_segments, FilenameError,
};

#[test]
fn file_name_is_the_last_segment() {
    assert_eq!(extract_filename("https://example.com/foo/bar.jar").unwrap(), "bar.jar");
    assert_eq!(extract_filename("https://example.com/a/b.zip?q=1#f").unwrap(), "b.zip");
}

#[test]
fn file_name_may_be_empty() {
    assert_eq!(extract_filename("https://example.com").unwrap(), "");
    assert_eq!(extract_filename("https://example.com/foo/").unwrap(), "");
}

#[test]
fn file_name_is_percent_encoded() {
    assert_eq!(extract_filename("https://example.com/a b").unwrap(), "a%20b");
}

#[test]
fn file_name_is_a_single_segment() {
    for url in ["https://h/a\\b", "https://h/\u{e9}?x/y#z", "ftp://h/a%2fb#c?d", "x:/p/q?r"] {
        let name = extract_filename(url).unwrap();
        assert!(name.is_ascii());
        assert!(!name.contains(|c| c == '/' || c == '?' || c == '#'));
    }
    assert_eq!(download_filename("https://h/\u{e9}?x/y#z", None).unwrap(), "%C3%A9");
}

#[test]
fn dot_segments_are_resolved() {
    assert_eq!(extract_filename("https://example.com/a/b/../c").unwrap(), "c");
}

#[test]
fn text_that_is_no_address_is_refused() {
    match extract_filename("client.jar") {
        Err(FilenameError::Parse(message)) => {
            assert_eq!(message, "relative URL without a base")
        }
        other => panic!("{:?}", other),
    }
    assert_eq!(
        extract_filename("https://").unwrap_err().message(),
        "empty host"
    );
}

#[test]
fn address_without_segments_is_refused() {
    match extract_filename("data:text/plain,HelloWorld") {
        Err(FilenameError::InvalidUrl) => {}
        other => panic!("{:?}", other),
    }
}

#[test]
fn segments_decide_the_file_name() {
    let name = filename_of_segments(Ok(Some(vec!["a".to_string(), "b".to_string()])));
    assert_eq!(name.unwrap(), "b");
    assert_eq!(
        filename_of_segments(Ok(Some(Vec::new()))).unwrap_err().message(),
        "No filename found in URL"
    );
    assert_eq!(filename_of_segments(Ok(None)).unwrap_err().message(), "Invalid URL");
    assert_eq!(filename_of_segments(Err("bad".to_string())).unwrap_err().message(), "bad");
}

#[test]
fn given_name_comes_before_the_address() {
    assert_eq!(download_filename("nonsense", Some("x/y")).unwrap(), "x/y");
    assert_eq!(download_filename("https://h/z", None).unwrap(), "z");
    assert!(download_filename("nonsense", None).is_err());
}

use era_connect::checksum::{compare_digest, validate_sha1, HexError, Sha1Error};
use era_connect::files::{
    plan_client, plan_file, redownload_notice, DownloadMetadata, DownloadRequest, FoundFile,
};
use era_connect::progress::Progress;

const HELLO: &str = "2aae6c35c94fcfb415dbe95f408b9ce91ee846ed";
const EMPTY: &str = "da39a3ee5e6b4b0d3255bfef95601890afd80709";

#[test]
fn known_digests_are_accepted() {
    assert!(validate_sha1(b"hello world", "a", HELLO).is_ok());
    assert!(validate_sha1(b"", "a", EMPTY).is_ok());
    assert!(validate_sha1(b"abc", "a", "a9993e364706816aba3e25717850c26c9cd0d89d").is_ok());
}

#[test]
fn digest_case_is_ignored() {
    assert!(validate_sha1(b"hello world", "a", "2AAE6C35C94FCFB415DBE95F408B9CE91EE846ED").is_ok());
    assert!(validate_sha1(b"hello world", "a", "2AaE6c35c94fcfb415dbe95f408b9ce91ee846eD").is_ok());
}

#[test]
fn only_texts_of_forty_characters_are_accepted() {
    assert_eq!(HELLO.len(), 40);
    for text in ["", "2aae", &HELLO[..38], &format!("{}00", HELLO), &format!("00{}", HELLO)] {
        assert!(validate_sha1(b"hello world", "a", text).is_err());
    }
    assert!(validate_sha1(b"hello world", "a", &HELLO.to_ascii_uppercase()).is_ok());
}

#[test]
fn other_contents_are_refused_with_both_digests() {
    match validate_sha1(b"", "library/a.jar", HELLO) {
        Err(Sha1Error::Mismatch { message }) => assert_eq!(
            message,
            "\nlibrary/a.jar hash don't fit!\nget: da39a3ee5e6b4b0d3255bfef95601890afd80709\nexpected: 2aae6c35c94fcfb415dbe95f408b9ce91ee846ed\n"
        ),
        other => panic!("{:?}", other),
    }
}

#[test]
fn written_digest_is_read_back() {
    let message = match compare_digest(&[0x00, 0x0f, 0xf0, 0xff, 0xa5], "p", "") {
        Err(Sha1Error::Mismatch { message }) => message,
        other => panic!("{:?}", other),
    };
    assert_eq!(message, "\np hash don't fit!\nget: 000ff0ffa5\nexpected: \n");
    assert!(compare_digest(&[0x00, 0x0f, 0xf0, 0xff, 0xa5], "p", "000ff0ffa5").is_ok());
    assert!(compare_digest(&[], "p", "").is_ok());
    assert!(compare_digest(&[0x00, 0x0f], "p", "000ff0").is_err());
}

#[test]
fn odd_number_of_digits_is_refused_first() {
    match validate_sha1(b"abc", "p", "xyz") {
        Err(Sha1Error::InvalidHex(error)) => assert_eq!(error, HexError::OddLength),
        other => panic!("{:?}", other),
    }
    assert_eq!(
        validate_sha1(b"abc", "p", "123").unwrap_err().message(),
        "Odd number of digits"
    );
}

#[test]
fn first_invalid_character_is_reported() {
    match validate_sha1(b"abc", "p", "00gxyz") {
        Err(Sha1Error::InvalidHex(error)) => assert_eq!(
            error,
            HexError::InvalidHexCharacter { c: 'g', index: 2 }
        ),
        other => panic!("{:?}", other),
    }
    assert_eq!(
        validate_sha1(b"abc", "p", "00g0").unwrap_err().message(),
        "Invalid character 'g' at position 2"
    );
    assert_eq!(
        Sha1Error::InvalidHex(HexError::InvalidStringLength).message(),
        "Invalid string length"
    );
}

#[test]
fn positions_are_counted_in_bytes() {
    // Two bytes, 0xc3 and 0xa9, of which neither is a digit.
    match validate_sha1(b"abc", "p", "\u{e9}") {
        Err(Sha1Error::InvalidHex(error)) => assert_eq!(
            error,
            HexError::InvalidHexCharacter { c: '\u{c3}', index: 0 }
        ),
        other => panic!("{:?}", other),
    }
}

fn plan(found: FoundFile, progress: &mut Progress) -> (Option<String>, Option<DownloadRequest>) {
    let step = plan_file(found, "https://h/f", "dir/f", HELLO, 11, progress);
    (step.damage.map(|error| error.message()), step.request)
}

fn request() -> Option<DownloadRequest> {
    Some(DownloadRequest { url: "https://h/f".to_string(), path: "dir/f".to_string() })
}

#[test]
fn missing_file_is_fetched() {
    let mut progress = Progress::new();
    assert_eq!(plan(FoundFile::Missing, &mut progress), (None, request()));
    assert_eq!(progress, Progress { current: 0, total: 11 });
}

#[test]
fn intact_file_is_left_alone() {
    let mut progress = Progress::new();
    let found = FoundFile::Contents(b"hello world".to_vec());
    assert_eq!(plan(found, &mut progress), (None, None));
    assert_eq!(progress, Progress { current: 0, total: 0 });
}

#[test]
fn damaged_file_is_replaced() {
    let mut progress = Progress { current: 3, total: 5 };
    let (damage, asked) = plan(FoundFile::Contents(Vec::new()), &mut progress);
    assert_eq!(
        damage.unwrap(),
        format!("\ndir/f hash don't fit!\nget: {}\nexpected: {}\n", EMPTY, HELLO)
    );
    assert_eq!(asked, request());
    assert_eq!(progress, Progress { current: 3, total: 16 });
}

#[test]
fn unreadable_file_is_replaced() {
    let mut progress = Progress::new();
    let found = FoundFile::Unreadable("permission denied".to_string());
    assert_eq!(
        plan(found, &mut progress),
        (Some("permission denied".to_string()), request())
    );
    assert_eq!(progress.total, 11);
}

#[test]
fn notice_of_a_replaced_file() {
    assert_eq!(
        redownload_notice(&Sha1Error::Unreadable("gone".to_string())),
        "gone, \nredownloading."
    );
    assert_eq!(
        redownload_notice(&Sha1Error::InvalidHex(HexError::OddLength)),
        "Odd number of digits, \nredownloading."
    );
}

fn client(url: &str) -> DownloadMetadata {
    DownloadMetadata { sha1: HELLO.to_string(), size: 7, url: url.to_string() }
}

#[test]
fn client_goes_into_the_file_its_address_names() {
    let mut progress = Progress::new();
    let client = client("https://piston-data.mojang.com/v1/objects/0c3e/client.jar");
    let step = plan_client(&client, FoundFile::Missing, &mut progress).unwrap();
    assert_eq!(
        step.request,
        Some(DownloadRequest { url: client.url, path: "client.jar".to_string() })
    );
    assert!(step.damage.is_none());
    assert_eq!(progress.total, 7);
}

#[test]
fn intact_client_is_left_alone() {
    let mut progress = Progress::new();
    let found = FoundFile::Contents(b"hello world".to_vec());
    let step = plan_client(&client("https://h/client.jar"), found, &mut progress).unwrap();
    assert!(step.request.is_none());
    assert_eq!(progress.total, 0);
}

#[test]
fn client_without_a_usable_address_is_refused() {
    let mut progress = Progress { current: 1, total: 2 };
    let error = plan_client(&client("data:x"), FoundFile::Missing, &mut progress).unwrap_err();
    assert_eq!(error.message(), "Invalid URL");
    assert_eq!(progress, Progress { current: 1, total: 2 });
}

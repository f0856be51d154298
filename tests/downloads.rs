use icarus::{check_download, validate_download, FetchError, MirrorFailover};

const HELLO_SHA1: &str = "2ef7bde608ce5404e97d5f042f95f89f1c232871";
const EMPTY_SHA1: &str = "da39a3ee5e6b4b0d3255bfef95601890afd80709";

fn hello() -> Vec<u8> {
    b"Hello World!".to_vec()
}

fn mirrors(names: &[&str]) -> Vec<String> {
    names.iter().map(|m| m.to_string()).collect()
}

#[test]
fn no_hash_accepts_bytes() {
    let r = check_download("http://a/x", hello(), None).unwrap();
    assert_eq!(r, hello());
}

#[test]
fn matching_hash_accepts_bytes() {
    let r = check_download("http://a/x", hello(), Some(HELLO_SHA1)).unwrap();
    assert_eq!(r, hello());
}

#[test]
fn empty_body_has_known_digest() {
    let r = check_download("http://a/empty", Vec::new(), Some(EMPTY_SHA1)).unwrap();
    assert!(r.is_empty());
}

#[test]
fn mismatching_hash_is_checksum_failure() {
    let wrong = "0000000000000000000000000000000000000000";
    match check_download("http://a/x", hello(), Some(wrong)) {
        Err(FetchError::ChecksumFailure { hash, url }) => {
            assert_eq!(hash, wrong);
            assert_eq!(url, "http://a/x");
        }
        other => panic!("unexpected result {:?}", other),
    }
}

#[test]
fn hash_comparison_is_case_sensitive() {
    let upper = HELLO_SHA1.to_uppercase();
    let r = check_download("http://a/x", hello(), Some(upper.as_str()));
    assert!(matches!(r, Err(FetchError::ChecksumFailure { .. })));
}

#[test]
fn checking_twice_gives_same_outcome() {
    let ok1 = check_download("http://a/x", hello(), Some(HELLO_SHA1)).unwrap();
    let ok2 = check_download("http://a/x", hello(), Some(HELLO_SHA1)).unwrap();
    assert_eq!(ok1, ok2);
    let bad1 = check_download("http://a/x", hello(), Some(EMPTY_SHA1));
    let bad2 = check_download("http://a/x", hello(), Some(EMPTY_SHA1));
    assert!(matches!(bad1, Err(FetchError::ChecksumFailure { .. })));
    assert!(matches!(bad2, Err(FetchError::ChecksumFailure { .. })));
}

#[test]
fn validate_compares_given_digest() {
    let ok = validate_download("u", vec![1, 2, 3], Some("abc"), "abc").unwrap();
    assert_eq!(ok, vec![1, 2, 3]);
    match validate_download("u", vec![1, 2, 3], Some("abc"), "abd") {
        Err(FetchError::ChecksumFailure { hash, url }) => {
            assert_eq!(hash, "abc");
            assert_eq!(url, "u");
        }
        other => panic!("unexpected result {:?}", other),
    }
    let unchecked = validate_download("u", vec![9], None, "anything").unwrap();
    assert_eq!(unchecked, vec![9]);
}

#[test]
fn no_mirrors_is_an_error() {
    for base in ["", "/lib.jar"] {
        match MirrorFailover::new(base, Vec::new()) {
            Err(FetchError::Parse(m)) => assert_eq!(m, "No mirrors provided!"),
            Err(other) => panic!("unexpected error {:?}", other),
            Ok(_) => panic!("a failover without mirrors was started"),
        }
    }
}

#[test]
fn urls_join_mirror_and_path() {
    let f = MirrorFailover::new("org/lib.jar", mirrors(&["https://m1/"])).ok().unwrap();
    assert_eq!(f.url(), "https://m1/org/lib.jar");
}

#[test]
fn third_mirror_success_hides_earlier_errors() {
    let mut f = MirrorFailover::new("/x", mirrors(&["m1", "m2", "m3"])).ok().unwrap();
    assert_eq!(f.url(), "m1/x");
    assert!(f.record(Err(FetchError::Parse("first".to_string()))).is_none());
    assert_eq!(f.url(), "m2/x");
    let checksum = check_download("m2/x", hello(), Some(EMPTY_SHA1));
    assert!(f.record(checksum).is_none());
    assert_eq!(f.url(), "m3/x");
    let good = check_download("m3/x", hello(), Some(HELLO_SHA1));
    match f.record(good) {
        Some(Ok(bytes)) => assert_eq!(bytes, hello()),
        other => panic!("unexpected result {:?}", other),
    }
}

#[test]
fn all_mirrors_failing_gives_last_error() {
    let mut f = MirrorFailover::new("/x", mirrors(&["m1", "m2", "m3"])).ok().unwrap();
    assert!(f.record(Err(FetchError::Parse("first".to_string()))).is_none());
    assert!(f.record(Err(FetchError::Parse("second".to_string()))).is_none());
    match f.record(Err(FetchError::Parse("third".to_string()))) {
        Some(Err(FetchError::Parse(m))) => assert_eq!(m, "third"),
        other => panic!("unexpected result {:?}", other),
    }
}

#[test]
fn first_success_stops_the_failover() {
    let mut f = MirrorFailover::new("/x", mirrors(&["m1", "m2"])).ok().unwrap();
    match f.record(Ok(vec![7])) {
        Some(Ok(bytes)) => assert_eq!(bytes, vec![7]),
        other => panic!("unexpected result {:?}", other),
    }
    assert_eq!(f.url(), "m1/x");
}

#[test]
fn single_mirror_failure_is_returned() {
    let mut f = MirrorFailover::new("/x", mirrors(&["only"])).ok().unwrap();
    let failed = check_download("only/x", hello(), Some(EMPTY_SHA1));
    match f.record(failed) {
        Some(Err(FetchError::ChecksumFailure { hash, url })) => {
            assert_eq!(hash, EMPTY_SHA1);
            assert_eq!(url, "only/x");
        }
        other => panic!("unexpected result {:?}", other),
    }
}

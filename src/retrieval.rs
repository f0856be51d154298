use vstd::prelude::*;
use crate::FetchError;

verus! {

/// The SHA-1 digest of `bytes`, written as lowercase hexadecimal.
pub uninterp spec fn sha1_hex_of(bytes: Seq<u8>) -> Seq<char>;

/// `c` is a lowercase hexadecimal digit.
pub open spec fn is_lower_hex_digit(c: char) -> bool {
    ('0' <= c && c <= '9') || ('a' <= c && c <= 'f')
}

/// Relies on `sha1::Sha1::from` and `Sha1::hexdigest`: the digest of the bytes,
/// as five 32-bit words each written with eight lowercase hexadecimal digits.
#[verifier::external_body]
fn sha1_hash(bytes: &[u8]) -> (r: String)
    ensures
        r@ == sha1_hex_of(bytes@),
        r@.len() == 40,
        forall|i: int| 0 <= i < r@.len() ==> is_lower_hex_digit(#[trigger] r@[i]),
{
    sha1::Sha1::from(bytes).hexdigest()
}

/// The view of an optional string slice.
pub open spec fn opt_view(o: Option<&str>) -> Option<Seq<char>> {
    match o {
        Some(s) => Some(s@),
        None => None,
    }
}

/// The result of checking `bytes`, fetched from `url`, whose digest is
/// `actual`, against the `expected` digest: the bytes themselves when no
/// digest is expected or the two are equal, else a checksum failure that
/// names the expected digest and the URL.
pub open spec fn verdict(
    url: Seq<char>,
    bytes: Seq<u8>,
    expected: Option<Seq<char>>,
    actual: Seq<char>,
    r: Result<Vec<u8>, FetchError>,
) -> bool {
    match r {
        Ok(b) => b@ == bytes && (expected matches Some(h) ==> h == actual),
        Err(e) => match (expected, e) {
            (Some(h), FetchError::ChecksumFailure { hash, url: u }) => h != actual && hash@ == h
                && u@ == url,
            _ => false,
        },
    }
}

/// Checks downloaded `bytes` whose digest is `actual` against the `expected`
/// digest, comparing the two strings exactly.
pub fn validate_download(url: &str, bytes: Vec<u8>, expected: Option<&str>, actual: &str) -> (r:
    Result<Vec<u8>, FetchError>)
    ensures
        verdict(url@, bytes@, opt_view(expected), actual@, r),
{
    match expected {
        None => Ok(bytes),
        Some(hash) => {
            let wanted = String::from_str(hash);
            let got = String::from_str(actual);
            if wanted == got {
                Ok(bytes)
            } else {
                Err(FetchError::ChecksumFailure { hash: wanted, url: String::from_str(url) })
            }
        },
    }
}

/// The outcome owed for `bytes` fetched from `url` when `expected` is the
/// digest asked for.
pub open spec fn download_checked(
    url: Seq<char>,
    bytes: Seq<u8>,
    expected: Option<Seq<char>>,
    r: Result<Vec<u8>, FetchError>,
) -> bool {
    verdict(url, bytes, expected, sha1_hex_of(bytes), r)
}

/// Checks bytes fetched from `url` against the `expected` SHA-1 digest, if
/// one is given; the digest is only computed then.
pub fn check_download(url: &str, bytes: Vec<u8>, expected: Option<&str>) -> (r: Result<
    Vec<u8>,
    FetchError,
>)
    ensures
        download_checked(url@, bytes@, opt_view(expected), r),
{
    match expected {
        None => Ok(bytes),
        Some(_) => {
            let actual = sha1_hash(bytes.as_slice());
            validate_download(url, bytes, expected, actual.as_str())
        },
    }
}

/// Two results are the same outcome: both succeed with the same bytes, or
/// both fail with a checksum failure naming the same digest and URL.
pub open spec fn same_outcome(a: Result<Vec<u8>, FetchError>, b: Result<Vec<u8>, FetchError>) -> bool {
    match (a, b) {
        (Ok(x), Ok(y)) => x@ == y@,
        (
            Err(FetchError::ChecksumFailure { hash: h1, url: u1 }),
            Err(FetchError::ChecksumFailure { hash: h2, url: u2 }),
        ) => h1@ == h2@ && u1@ == u2@,
        _ => false,
    }
}

/// Checking the same bytes from the same URL against the same digest twice
/// gives the same outcome both times: nothing is carried between checks.
pub proof fn lemma_download_idempotent(
    url: Seq<char>,
    bytes: Seq<u8>,
    expected: Option<Seq<char>>,
    first: Result<Vec<u8>, FetchError>,
    second: Result<Vec<u8>, FetchError>,
)
    requires
        download_checked(url, bytes, expected, first),
        download_checked(url, bytes, expected, second),
    ensures
        same_outcome(first, second),
{
}

} // verus!

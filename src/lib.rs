//! Retrieval of game artifacts: Maven coordinates turned into repository
//! paths, downloads checked against a SHA-1 digest, and failover across an
//! ordered list of mirrors.

use vstd::prelude::*;

pub mod failover;
pub mod maven;
pub mod retrieval;

pub use failover::MirrorFailover;
pub use maven::{get_path_from_artifact, MavenError};
pub use retrieval::{check_download, validate_download};

verus! {

/// The error of the HTTP client, carried through unchanged.
#[verifier::external_type_specification]
#[verifier::external_body]
pub struct ExReqwestError(reqwest::Error);

/// The error of the JSON decoder, carried through unchanged.
#[verifier::external_type_specification]
#[verifier::external_body]
pub struct ExSerdeJsonError(serde_json::Error);

/// The error of a task that did not run to completion, carried through unchanged.
#[verifier::external_type_specification]
#[verifier::external_body]
pub struct ExJoinError(tokio::task::JoinError);

/// What can go wrong while fetching an artifact.
#[derive(Debug)]
pub enum FetchError {
    /// The downloaded bytes do not have the expected SHA-1 digest.
    ChecksumFailure {
        /// The digest that was expected.
        hash: String,
        /// The URL the bytes came from.
        url: String,
    },
    /// The Maven coordinate is malformed.
    Maven(MavenError),
    /// A document could not be decoded.
    Serde(serde_json::Error),
    /// The transfer failed.
    Reqwest(reqwest::Error),
    /// A worker task failed.
    Join(tokio::task::JoinError),
    /// An argument is unusable.
    Parse(String),
}

} // verus!

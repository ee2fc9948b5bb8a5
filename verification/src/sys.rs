//! Trusted items: the calls into `std` facilities that vstd does not
//! specify and into outside crates whose results depend on chance, time or
//! the host. Nothing is promised of their results beyond what is stated.
use vstd::prelude::*;

verus! {

/// `uuid::Uuid::new_v4().to_string()`: a random identifier in hyphenated
/// form (see `hyphenated_uuid`), which `uuid::Uuid::parse_str` reads back. Nothing else about its
/// value is stated.
#[verifier::external_body]
pub(crate) fn new_uuid() -> (r: String)
    ensures
        crate::download::hyphenated_uuid(r@),
{
    uuid::Uuid::new_v4().to_string()
}

/// `uuid::Uuid::new_v4().as_u128()`: a random number. Nothing about its value
/// is stated.
#[verifier::external_body]
pub(crate) fn random_u128() -> (r: u128) {
    uuid::Uuid::new_v4().as_u128()
}

/// Milliseconds since the Unix epoch from `SystemTime::now()`, or the text
/// of the error for a clock set before the epoch. Nothing about the value
/// is stated.
#[verifier::external_body]
pub(crate) fn unix_time_millis() -> (r: Result<u128, String>) {
    std::time::SystemTime::now()
        .duration_since(std::time::UNIX_EPOCH)
        .map(|duration| duration.as_millis())
        .map_err(|error| error.to_string())
}

/// `std::path::MAIN_SEPARATOR`: `'\\'` on Windows hosts, `'/'` elsewhere.
/// Nothing about its value is stated.
#[verifier::external_body]
pub(crate) fn main_separator() -> (r: char) {
    std::path::MAIN_SEPARATOR
}

/// `std::path::Path::new(path).exists()`: whether something is at `path` on
/// disk now. Nothing about the answer is stated.
#[verifier::external_body]
pub(crate) fn path_exists(path: &str) -> (r: bool) {
    std::path::Path::new(path).exists()
}

/// `std::path::Path::is_file`: whether a regular file exists at `path`
/// now. Nothing about the answer is stated.
#[verifier::external_body]
pub(crate) fn path_is_file(path: &str) -> (r: bool) {
    std::path::Path::new(path).is_file()
}

/// Whether this host uses Windows path rules, told by its main path separator.
pub fn windows_host() -> bool {
    main_separator() == '\\'
}

} // verus!

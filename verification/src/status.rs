//! HTTP status codes.

use vstd::prelude::*;

verus! {

/// The status says that the request was understood and accepted.
pub open spec fn success(status: u16) -> bool {
    200 <= status < 300
}

/// The status says to go elsewhere.
pub open spec fn redirection(status: u16) -> bool {
    300 <= status < 400
}

/// Whether the status says that the request was understood and accepted.
pub fn is_success(status: u16) -> (r: bool)
    ensures
        r == success(status),
{
    200 <= status && status < 300
}

/// Whether the status says to go elsewhere.
pub fn is_redirection(status: u16) -> (r: bool)
    ensures
        r == redirection(status),
{
    300 <= status && status < 400
}

/// How `reqwest::StatusCode` writes a status: the number and what it stands
/// for.
pub uninterp spec fn status_written(status: u16) -> Seq<char>;

/// `Display` of a `reqwest::StatusCode`. There are codes of three digits only.
#[verifier::external_body]
pub(crate) fn write_status(status: u16) -> (r: String)
    requires
        100 <= status <= 999,
    ensures
        r@ == status_written(status),
{
    reqwest::StatusCode::from_u16(status).unwrap().to_string()
}

} // verus!

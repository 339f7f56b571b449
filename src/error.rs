use vstd::prelude::*;

verus! {

/// What can go wrong while renewing the credential or fetching data.
#[derive(Debug)]
pub enum FitbitError {
    /// The request could not be sent, or its response could not be read.
    HttpError(String),
    /// The request's address is not a valid URL.
    UrlError(String),
    /// The response does not have the shape that was asked for.
    InvalidData,
    /// The upstream service reports that the access token has expired.
    AccessTokenExpired,
    /// The token endpoint refused the renewal secret.
    InvalidGrant,
    /// Any other failure of a renewal exchange.
    TokenError(String),
    /// A day range whose start lies after its end, or outside the calendar.
    InvalidRange,
}

} // verus!

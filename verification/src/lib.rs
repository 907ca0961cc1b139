use vstd::prelude::*;

pub mod api;
pub mod groups;
pub mod articles;
pub mod numbers;
pub mod query;
pub mod results;
pub mod upcoming;

pub use api::HltvApi;
pub use api::HttpsClient;
pub use api::Month;
pub use api::HLTV_URL;

verus! {

/// General error type for this crate.
///
/// Every fallible operation of the library reports one of these three causes:
/// the transport failed, a structural query was malformed, or the page did not
/// hold the expected structure or value.
#[derive(Debug, PartialEq, Eq)]
pub enum Error {
    /// The HTTPS transport failed; the payload is the client's message.
    HttpsClient(String),
    /// A structural query (a CSS selector) could not be parsed.
    CssParse(String),
    /// An expected element, attribute or text was missing, or a value found
    /// in the page did not have the expected format.
    HltvParse(String),
}

/// The view of an optional string: the character sequence it holds, if any.
pub open spec fn opt_view(o: Option<String>) -> Option<Seq<char>> {
    match o {
        Some(s) => Some(s@),
        None => None,
    }
}

/// Whether `r` is the page-structure failure carrying exactly the message
/// `msg`: an expected element, attribute or text was missing, or a found
/// value had the wrong format.
pub open spec fn fails_with<T>(r: Result<T, Error>, msg: Seq<char>) -> bool {
    r matches Err(e) && e matches Error::HltvParse(m) && m@ == msg
}

/// Turn an absent optional value into a `CssParse` failure carrying `msg`.
pub fn css_err<T>(v: Option<T>, msg: &str) -> (r: Result<T, Error>)
    ensures
        v matches Some(x) ==> r == Ok::<T, Error>(x),
        v is None ==> (r matches Err(e) && e matches Error::CssParse(m) && m@ == msg@),
{
    match v {
        Some(x) => Ok(x),
        None => Err(Error::CssParse(msg.to_owned())),
    }
}

/// Turn an absent optional value into an `HltvParse` failure carrying `msg`.
pub fn hltv_parse_err<T>(v: Option<T>, msg: &str) -> (r: Result<T, Error>)
    ensures
        v matches Some(x) ==> r == Ok::<T, Error>(x),
        v is None ==> (r matches Err(e) && e matches Error::HltvParse(m) && m@ == msg@),
{
    match v {
        Some(x) => Ok(x),
        None => Err(Error::HltvParse(msg.to_owned())),
    }
}

} // verus!

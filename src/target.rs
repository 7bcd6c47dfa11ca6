//! Resolving the host that requests name from the target URL.
use vstd::prelude::*;

verus! {

/// What the `url` crate makes of a text: `None` where it is no URL,
/// otherwise the URL's host, if it has one.
pub uninterp spec fn parsed_host(s: Seq<char>) -> Option<Option<Seq<char>>>;

/// Relies on `url::Url::parse` and `Url::host_str`: the result depends on
/// the text alone.
#[verifier::external_body]
fn url_host(site: &str) -> (r: Option<Option<String>>)
    ensures
        r.deep_view() == parsed_host(site@),
{
    match url::Url::parse(site) {
        Ok(u) => match u.host_str() {
            Some(h) => Some(Some(h.to_string())),
            None => Some(None),
        },
        Err(_) => None,
    }
}

/// Why a target cannot be used.
#[derive(Clone, Copy, Debug, PartialEq, Eq, Structural)]
pub enum TargetError {
    /// The target is not a URL.
    InvalidUrl,
}

/// The host named in requests: the URL's own, or `localhost` where the URL
/// has none.
pub open spec fn host_for(p: Option<Option<Seq<char>>>) -> Result<Seq<char>, TargetError> {
    match p {
        None => Err(TargetError::InvalidUrl),
        Some(None) => Ok("localhost"@),
        Some(Some(h)) => Ok(h),
    }
}

/// The host to name, given what parsing the URL gave.
pub fn host_from_parsed(p: Option<Option<String>>) -> (r: Result<String, TargetError>)
    ensures
        match (r, host_for(p.deep_view())) {
            (Ok(h), Ok(x)) => h@ == x,
            (Err(e), Err(x)) => e == x,
            _ => false,
        },
{
    match p {
        None => Err(TargetError::InvalidUrl),
        Some(None) => Ok("localhost".to_owned()),
        Some(Some(h)) => Ok(h),
    }
}

/// The host to name in requests to `site`; an error where `site` is no URL.
pub fn resolve_host(site: &str) -> (r: Result<String, TargetError>)
    ensures
        match (r, host_for(parsed_host(site@))) {
            (Ok(h), Ok(x)) => h@ == x,
            (Err(e), Err(x)) => e == x,
            _ => false,
        },
{
    let p = url_host(site);
    host_from_parsed(p)
}

} // verus!

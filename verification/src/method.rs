//! The HTTP method of a request, and the resolution of a method token.

use vstd::prelude::*;
use crate::strutil::{to_upper, str_eq, upper_seq};

verus! {

/// The methods a request can carry.  A token that names none of them
/// resolves to `Get`; that fallback is a policy, not an error.
#[derive(Clone, Copy, Debug, PartialEq, Eq, Structural)]
pub enum Method {
    Get,
    Head,
    Post,
    Put,
    Patch,
    Delete,
}

/// The method a token resolves to: matched against the known method names
/// without regard to ASCII case, and `Get` for every other token.
pub open spec fn method_of_token(s: Seq<char>) -> Method {
    let u = upper_seq(s);
    if u == "GET"@ {
        Method::Get
    } else if u == "HEAD"@ {
        Method::Head
    } else if u == "POST"@ {
        Method::Post
    } else if u == "PUT"@ {
        Method::Put
    } else if u == "PATCH"@ {
        Method::Patch
    } else if u == "DELETE"@ {
        Method::Delete
    } else {
        Method::Get
    }
}

/// Resolves a method token.  Total: an unrecognized token yields `Get`.
pub fn parse_method(token: &str) -> (m: Method)
    ensures
        m == method_of_token(token@),
{
    let u = to_upper(token);
    if str_eq(u.as_str(), "GET") {
        Method::Get
    } else if str_eq(u.as_str(), "HEAD") {
        Method::Head
    } else if str_eq(u.as_str(), "POST") {
        Method::Post
    } else if str_eq(u.as_str(), "PUT") {
        Method::Put
    } else if str_eq(u.as_str(), "PATCH") {
        Method::Patch
    } else if str_eq(u.as_str(), "DELETE") {
        Method::Delete
    } else {
        Method::Get
    }
}

/// A token that uppercases to none of the six method names resolves to `Get`:
/// the fallback can never surface as an error.
pub proof fn lemma_unknown_token_resolves_to_get(s: Seq<char>)
    requires
        upper_seq(s) != "GET"@,
        upper_seq(s) != "HEAD"@,
        upper_seq(s) != "POST"@,
        upper_seq(s) != "PUT"@,
        upper_seq(s) != "PATCH"@,
        upper_seq(s) != "DELETE"@,
    ensures
        method_of_token(s) == Method::Get,
{
}

/// The canonical name of a method, as it stands in a request line.
pub open spec fn method_name_spec(m: Method) -> Seq<char> {
    match m {
        Method::Get => "GET"@,
        Method::Head => "HEAD"@,
        Method::Post => "POST"@,
        Method::Put => "PUT"@,
        Method::Patch => "PATCH"@,
        Method::Delete => "DELETE"@,
    }
}

impl Method {
    /// The canonical name of the method.
    pub fn name(&self) -> (r: &'static str)
        ensures
            r@ == method_name_spec(*self),
    {
        match self {
            Method::Get => "GET",
            Method::Head => "HEAD",
            Method::Post => "POST",
            Method::Put => "PUT",
            Method::Patch => "PATCH",
            Method::Delete => "DELETE",
        }
    }
}

} // verus!

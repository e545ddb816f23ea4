//! The format-conversion selector: which source and destination formats a
//! two-letter conversion code names.  The conversions themselves are single
//! serde calls made by the caller.

use vstd::prelude::*;
use crate::strutil::{str_eq, to_upper, upper_seq};

verus! {

/// A data format the converter knows.
#[derive(Debug, Clone, Copy, PartialEq, Eq, Hash, Structural)]
pub enum Format {
    Json,
    Yaml,
    Toml,
}

/// The source and destination formats a conversion code names, matched
/// without regard to ASCII case; `None` for an unsupported code.
pub open spec fn conversion_of(s: Seq<char>) -> Option<(Format, Format)> {
    let u = upper_seq(s);
    if u == "JY"@ {
        Some((Format::Json, Format::Yaml))
    } else if u == "JT"@ {
        Some((Format::Json, Format::Toml))
    } else if u == "YJ"@ {
        Some((Format::Yaml, Format::Json))
    } else if u == "YT"@ {
        Some((Format::Yaml, Format::Toml))
    } else if u == "TJ"@ {
        Some((Format::Toml, Format::Json))
    } else if u == "TY"@ {
        Some((Format::Toml, Format::Yaml))
    } else {
        None
    }
}

/// Resolves a conversion code into source and destination formats.  Fails
/// exactly on the codes that name no supported conversion.
pub fn parse_conversion(conversion: &str) -> (r: Result<(Format, Format), String>)
    ensures
        r matches Ok(c) ==> conversion_of(conversion@) == Some(c),
        r is Err ==> conversion_of(conversion@) is None,
        r matches Err(e) ==> e@ == "conversion unsupported"@,
{
    let u = to_upper(conversion);
    if str_eq(u.as_str(), "JY") {
        Ok((Format::Json, Format::Yaml))
    } else if str_eq(u.as_str(), "JT") {
        Ok((Format::Json, Format::Toml))
    } else if str_eq(u.as_str(), "YJ") {
        Ok((Format::Yaml, Format::Json))
    } else if str_eq(u.as_str(), "YT") {
        Ok((Format::Yaml, Format::Toml))
    } else if str_eq(u.as_str(), "TJ") {
        Ok((Format::Toml, Format::Json))
    } else if str_eq(u.as_str(), "TY") {
        Ok((Format::Toml, Format::Yaml))
    } else {
        Err("conversion unsupported".to_owned())
    }
}

} // verus!

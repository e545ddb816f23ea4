//! The wordlist sources of the passphrase generator: three hosted lists of
//! fixed name and address, or a file of the user's own.  Downloading and
//! caching are the caller's.

use vstd::prelude::*;
use crate::strutil::{lower_seq, str_eq, to_lower};

verus! {

/// The hosted address of the short wordlist.
pub const SHORT_LIST_SOURCE: &'static str =
    "https://www.eff.org/files/2016/09/08/eff_short_wordlist_1.txt";

/// The hosted address of the medium wordlist.
pub const MEDIUM_LIST_SOURCE: &'static str =
    "https://www.eff.org/files/2016/09/08/eff_short_wordlist_2_0.txt";

/// The hosted address of the large wordlist.
pub const LARGE_LIST_SOURCE: &'static str =
    "https://www.eff.org/files/2016/07/18/eff_large_wordlist.txt";

/// The cache file name of the short wordlist.
pub const SHORT_LIST: &'static str = "short.txt";

/// The cache file name of the medium wordlist.
pub const MEDIUM_LIST: &'static str = "short1.txt";

/// The cache file name of the large wordlist.
pub const LARGE_LIST: &'static str = "large.txt";

/// A wordlist source: one of the three hosted lists, or a file of the
/// user's own.
#[derive(Debug, Clone, PartialEq, Eq)]
pub enum Source {
    Short,
    Medium,
    Large,
    Custom(String),
}

/// The mathematical image of a source.
pub enum SourceKindView {
    Short,
    Medium,
    Large,
    Custom(Seq<char>),
}

impl View for Source {
    type V = SourceKindView;

    open spec fn view(&self) -> SourceKindView {
        match self {
            Source::Short => SourceKindView::Short,
            Source::Medium => SourceKindView::Medium,
            Source::Large => SourceKindView::Large,
            Source::Custom(p) => SourceKindView::Custom(p@),
        }
    }
}

/// What a source flag resolves to: empty text and the three list names
/// (matched without regard to ASCII case) name the hosted lists; any other
/// text is a path of the user's own, accepted exactly when it exists.
pub open spec fn source_of(s: Seq<char>, path_exists: bool) -> Result<SourceKindView, Seq<char>> {
    if s.len() == 0 {
        Ok(SourceKindView::Short)
    } else {
        let l = lower_seq(s);
        if l == "short"@ {
            Ok(SourceKindView::Short)
        } else if l == "medium"@ {
            Ok(SourceKindView::Medium)
        } else if l == "large"@ {
            Ok(SourceKindView::Large)
        } else if path_exists {
            Ok(SourceKindView::Custom(s))
        } else {
            Err("Invalid source or path"@)
        }
    }
}

impl Source {
    /// Resolves a source flag.  `path_exists` says whether the flag's text,
    /// taken as a path, names an existing file — the one fact only the
    /// caller can know.
    pub fn resolve(s: &str, path_exists: bool) -> (r: Result<Source, String>)
        ensures
            r matches Ok(src) ==> source_of(s@, path_exists) == Ok::<SourceKindView, Seq<char>>(
                src@,
            ),
            r matches Err(e) ==> source_of(s@, path_exists) == Err::<SourceKindView, Seq<char>>(
                e@,
            ),
    {
        if s.is_empty() {
            return Ok(Source::Short);
        }
        let l = to_lower(s);
        if str_eq(l.as_str(), "short") {
            Ok(Source::Short)
        } else if str_eq(l.as_str(), "medium") {
            Ok(Source::Medium)
        } else if str_eq(l.as_str(), "large") {
            Ok(Source::Large)
        } else if path_exists {
            Ok(Source::Custom(s.to_owned()))
        } else {
            Err("Invalid source or path".to_owned())
        }
    }

    /// The display name of the source.
    pub fn label(&self) -> (r: &'static str)
        ensures
            r@ == match self@ {
                SourceKindView::Short => "short"@,
                SourceKindView::Medium => "medium"@,
                SourceKindView::Large => "large"@,
                SourceKindView::Custom(_) => "custom"@,
            },
    {
        match self {
            Source::Short => "short",
            Source::Medium => "medium",
            Source::Large => "large",
            Source::Custom(_) => "custom",
        }
    }

    /// The cache file name and hosted address of a hosted list, and `None`
    /// for a file of the user's own, which needs no download.
    pub fn wordlist(&self) -> (r: Option<(&'static str, &'static str)>)
        ensures
            self@ is Short ==> (r matches Some(w) && w.0@ == SHORT_LIST@ && w.1@
                == SHORT_LIST_SOURCE@),
            self@ is Medium ==> (r matches Some(w) && w.0@ == MEDIUM_LIST@ && w.1@
                == MEDIUM_LIST_SOURCE@),
            self@ is Large ==> (r matches Some(w) && w.0@ == LARGE_LIST@ && w.1@
                == LARGE_LIST_SOURCE@),
            self@ is Custom ==> r is None,
    {
        match self {
            Source::Short => Some((SHORT_LIST, SHORT_LIST_SOURCE)),
            Source::Medium => Some((MEDIUM_LIST, MEDIUM_LIST_SOURCE)),
            Source::Large => Some((LARGE_LIST, LARGE_LIST_SOURCE)),
            Source::Custom(_) => None,
        }
    }
}

} // verus!

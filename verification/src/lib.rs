//! Small command-line utilities, with the HTTP request pipeline at the core:
//! configuration is turned into a single well-formed request, sent once, and
//! the response is rendered.  The request construction, header assembly,
//! authentication resolution and response rendering decisions are verified;
//! the surrounding I/O lives outside this library.

pub mod client;
pub mod commitmsg;
pub mod config;
pub mod convert;
pub mod errors;
pub mod headers;
pub mod json;
pub mod method;
pub mod request;
pub mod response;
pub mod slugger;
pub mod strutil;
pub mod timemap;
pub mod wordlist;

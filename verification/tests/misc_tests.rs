use rusty_bits::commitmsg::{format_msg, CommitType};
use rusty_bits::config::{classify_source, ValueSource};
use rusty_bits::convert::{parse_conversion, Format};
use rusty_bits::errors::RqError;
use rusty_bits::response::u64_to_string;
use rusty_bits::timemap::{default_headers, parse, timemap_url};
use rusty_bits::wordlist::Source;

#[test]
fn classify_source_reads_the_at_prefix() {
    assert_eq!(classify_source("@my_file"), ValueSource::FileRef(String::from("my_file")));
    assert_eq!(classify_source("my string"), ValueSource::Literal(String::from("my string")));
    assert_eq!(classify_source(""), ValueSource::Literal(String::from("")));
}

#[test]
fn conversion_codes_resolve_case_insensitively() {
    assert_eq!(parse_conversion("jy").unwrap(), (Format::Json, Format::Yaml));
    assert_eq!(parse_conversion("JT").unwrap(), (Format::Json, Format::Toml));
    assert_eq!(parse_conversion("yj").unwrap(), (Format::Yaml, Format::Json));
    assert_eq!(parse_conversion("Yt").unwrap(), (Format::Yaml, Format::Toml));
    assert_eq!(parse_conversion("tj").unwrap(), (Format::Toml, Format::Json));
    assert_eq!(parse_conversion("TY").unwrap(), (Format::Toml, Format::Yaml));
    assert_eq!(parse_conversion("xx").unwrap_err(), "conversion unsupported");
}

#[test]
fn wordlist_sources_resolve() {
    assert_eq!(Source::resolve("short", false).unwrap(), Source::Short);
    assert_eq!(Source::resolve("MEDIUM", false).unwrap(), Source::Medium);
    assert_eq!(Source::resolve("Large", false).unwrap(), Source::Large);
    assert_eq!(Source::resolve("", false).unwrap(), Source::Short);
    assert_eq!(
        Source::resolve("/my/list.txt", true).unwrap(),
        Source::Custom(String::from("/my/list.txt"))
    );
    assert_eq!(Source::resolve("/no/such", false).unwrap_err(), "Invalid source or path");
}

#[test]
fn wordlist_locations_are_fixed() {
    assert_eq!(
        Source::Short.wordlist(),
        Some(("short.txt", "https://www.eff.org/files/2016/09/08/eff_short_wordlist_1.txt"))
    );
    assert_eq!(
        Source::Large.wordlist(),
        Some(("large.txt", "https://www.eff.org/files/2016/07/18/eff_large_wordlist.txt"))
    );
    assert_eq!(Source::Custom(String::from("x")).wordlist(), None);
    assert_eq!(Source::Medium.label(), "medium");
    assert_eq!(Source::Custom(String::from("x")).label(), "custom");
}

#[test]
fn commit_message_is_assembled() {
    assert_eq!(
        format_msg(
            CommitType::Feat,
            &Some(String::from("api")),
            "add the thing",
            true,
            &Some(String::from("body text")),
            &Some(vec![String::from("Reviewed-by: z"), String::from("Refs: 1")]),
        ),
        "feat(api)!: add the thing\n\nbody text\n\nReviewed-by: z\nRefs: 1"
    );
    assert_eq!(
        format_msg(CommitType::Fix, &None, "patch it", false, &None, &None),
        "fix: patch it"
    );
}

#[test]
fn numbers_render_in_decimal() {
    assert_eq!(u64_to_string(0), "0");
    assert_eq!(u64_to_string(7), "7");
    assert_eq!(u64_to_string(1234567890), "1234567890");
    assert_eq!(u64_to_string(u64::MAX), "18446744073709551615");
}

#[test]
fn error_lines_name_the_offender() {
    assert_eq!(RqError::FileNotFound(String::from("x.bin")).describe(), "failed to open x.bin");
    assert_eq!(
        RqError::MalformedHeader(String::from("NoEq")).describe(),
        "malformed header: NoEq"
    );
    assert_eq!(
        RqError::Transport(String::from("refused")).describe(),
        "transport failure: refused"
    );
    assert_eq!(RqError::Timeout(String::from("30s")).describe(), "timed out: 30s");
}

#[test]
fn timemap_parse_reads_rel_tags() {
    let data = "<http://a.example/orig>; rel=\"original\",\n\
                <http://a.example/t1>; rel=\"first memento\"; datetime=\"Tue, 28 Jan 2025 21:30:48 GMT\",\n\
                <http://a.example/t2>; rel=\"memento\"; datetime=\"Wed, 29 Jan 2025 10:00:00 GMT\",\n\
                <http://a.example/t3>; rel=\"memento\"; datetime=\"Thu, 30 Jan 2025 17:48:44 GMT\",\n\
                <http://a.example/t4>; rel=\"last memento\"; datetime=\"Thu, 30 Jan 2025 17:48:44 GMT\"";
    let tm = parse(data);
    assert_eq!(tm.original.as_deref(), Some("http://a.example/orig"));
    assert_eq!(tm.first.as_deref(), Some("http://a.example/t1"));
    assert_eq!(tm.last.as_deref(), Some("http://a.example/t4"));
    assert_eq!(tm.mementos.len(), 2);
    assert_eq!(tm.mementos[0].url, "http://a.example/t2");
    assert_eq!(tm.mementos[0].datetime, "Wed, 29 Jan 2025 10:00:00 GMT");
    assert_eq!(tm.selected(false), Some(&String::from("http://a.example/t1")));
    assert_eq!(tm.selected(true), Some(&String::from("http://a.example/t4")));
}

#[test]
fn timemap_parse_of_empty_text_is_empty() {
    let tm = parse("");
    assert!(tm.original.is_none());
    assert!(tm.first.is_none());
    assert!(tm.last.is_none());
    assert_eq!(tm.mementos.len(), 0);
}

#[test]
fn memento_without_datetime_is_dropped() {
    let tm = parse("<http://a.example/t2>; rel=\"memento\"");
    assert_eq!(tm.mementos.len(), 0);
}

#[test]
fn timemap_request_pieces() {
    assert_eq!(timemap_url("https://x.example/p"), "https://archive.is/timemap/https://x.example/p");
    let h = default_headers();
    assert_eq!(h.len(), 2);
    assert_eq!(h.get("user-agent").unwrap(), "github.com/davemolk/rusty-bits/no_paywall");
    assert_eq!(h.get("content-type").unwrap(), "application/json");
}

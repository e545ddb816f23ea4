//! The executor's decisions and the response handler: what is sent, what is
//! printed, and how a response body is rendered.

use vstd::prelude::*;
use crate::config::{Config, ConfigView};
use crate::json::{json_canon, pretty_json, pretty_of};
use crate::method::method_name_spec;
use crate::headers::HeaderSeq;
use crate::request::{Request, RequestView};
use crate::strutil::strings_of;

verus! {

/// Whether the executor sends at all: debug mode builds and prints the
/// request and never makes a network call.
pub fn should_send(cfg: &Config) -> (r: bool)
    ensures
        r == !cfg@.debug,
{
    !cfg.debug
}

/// Whether the request dump is printed before (or instead of) sending:
/// in verbose mode and in debug mode.
pub fn should_dump(cfg: &Config) -> (r: bool)
    ensures
        r == (cfg@.verbose || cfg@.debug),
{
    cfg.verbose || cfg.debug
}

/// Whether a status code reports success.  A failing status is not an
/// error: it is reported once as a diagnostic and the response is still
/// rendered.
pub fn status_is_success(code: u16) -> (r: bool)
    ensures
        r == (200 <= code && code < 300),
{
    200 <= code && code < 300
}

/// How the response body is disposed of, in fixed priority: streamed to the
/// download file, pretty-printed, or printed raw.
#[derive(Debug, Clone, PartialEq, Eq)]
pub enum RenderMode {
    Download(String),
    Pretty,
    Raw,
}

/// The mathematical image of a render mode.
pub enum RenderModeView {
    Download(Seq<char>),
    Pretty,
    Raw,
}

impl View for RenderMode {
    type V = RenderModeView;

    open spec fn view(&self) -> RenderModeView {
        match self {
            RenderMode::Download(p) => RenderModeView::Download(p@),
            RenderMode::Pretty => RenderModeView::Pretty,
            RenderMode::Raw => RenderModeView::Raw,
        }
    }
}

/// The render mode a configuration calls for: download wins over
/// pretty-printing, which wins over raw output.
pub open spec fn render_mode_spec(cfg: ConfigView) -> RenderModeView {
    match cfg.download {
        Some(p) => RenderModeView::Download(p),
        None => if cfg.pretty_print {
            RenderModeView::Pretty
        } else {
            RenderModeView::Raw
        },
    }
}

/// Picks the render mode for this configuration.
pub fn render_mode(cfg: &Config) -> (m: RenderMode)
    ensures
        m@ == render_mode_spec(cfg@),
{
    match &cfg.download {
        Some(p) => RenderMode::Download(p.clone()),
        None => if cfg.pretty_print {
            RenderMode::Pretty
        } else {
            RenderMode::Raw
        },
    }
}

/// Renders a response body.  Without pretty-printing the body is returned
/// unchanged.  With it, a body that parses as JSON is re-emitted as its
/// indented serialization, which keeps its semantic content: the result
/// parses back to the very same value (its canonical serialization is
/// unchanged).  A body that does not parse is returned unchanged — the
/// parse failure is recovered locally, never an error.
pub fn render_body(pretty: bool, body: &str) -> (r: String)
    ensures
        !pretty ==> r@ == body@,
        pretty && json_canon(body@) is None ==> r@ == body@,
        pretty && json_canon(body@) is Some ==> r@ == pretty_of(body@) && json_canon(r@)
            == json_canon(body@),
{
    if pretty {
        match pretty_json(body) {
            Some(p) => p,
            None => body.to_owned(),
        }
    } else {
        body.to_owned()
    }
}

/// The character of one decimal digit.
pub open spec fn digit_char(d: nat) -> char {
    if d == 0 {
        '0'
    } else if d == 1 {
        '1'
    } else if d == 2 {
        '2'
    } else if d == 3 {
        '3'
    } else if d == 4 {
        '4'
    } else if d == 5 {
        '5'
    } else if d == 6 {
        '6'
    } else if d == 7 {
        '7'
    } else if d == 8 {
        '8'
    } else {
        '9'
    }
}

/// The decimal rendering of a number, most significant digit first.
pub open spec fn dec_str(n: nat) -> Seq<char>
    decreases n,
{
    if n < 10 {
        seq![digit_char(n)]
    } else {
        dec_str(n / 10).push(digit_char(n % 10))
    }
}

/// Reversing after appending puts the new element in front.
proof fn lemma_reverse_push(s: Seq<char>, x: char)
    ensures
        s.push(x).reverse() =~= seq![x] + s.reverse(),
{
}

/// The character of one decimal digit.
fn digit_of(d: u64) -> (c: char)
    requires
        d < 10,
    ensures
        c == digit_char(d as nat),
{
    if d == 0 {
        '0'
    } else if d == 1 {
        '1'
    } else if d == 2 {
        '2'
    } else if d == 3 {
        '3'
    } else if d == 4 {
        '4'
    } else if d == 5 {
        '5'
    } else if d == 6 {
        '6'
    } else if d == 7 {
        '7'
    } else if d == 8 {
        '8'
    } else {
        '9'
    }
}

/// Renders a number in decimal.
#[verifier::loop_isolation(false)]
pub fn u64_to_string(n: u64) -> (r: String)
    ensures
        r@ == dec_str(n as nat),
{
    let mut digits: Vec<char> = Vec::new();
    let mut m = n;
    proof {
        assert(digits@.reverse() =~= Seq::<char>::empty());
        assert(dec_str(n as nat) + digits@.reverse() =~= dec_str(n as nat));
    }
    while m >= 10
        invariant
            dec_str(n as nat) == dec_str(m as nat) + digits@.reverse(),
        decreases m,
    {
        let d = m % 10;
        let ghost ds0 = digits@;
        digits.push(digit_of(d));
        proof {
            lemma_reverse_push(ds0, digit_char(d as nat));
            assert(dec_str(m as nat) == dec_str((m / 10) as nat).push(digit_char(d as nat)));
            assert(dec_str((m / 10) as nat).push(digit_char(d as nat)) + ds0.reverse()
                =~= dec_str((m / 10) as nat) + digits@.reverse());
        }
        m = m / 10;
    }
    let ghost ds0 = digits@;
    digits.push(digit_of(m));
    proof {
        lemma_reverse_push(ds0, digit_char(m as nat));
        assert(dec_str(m as nat) + ds0.reverse() =~= seq![digit_char(m as nat)] + ds0.reverse());
        assert(dec_str(n as nat) == digits@.reverse());
    }
    let mut r = String::new();
    let mut k: usize = 0;
    while k < digits.len()
        invariant
            k <= digits@.len(),
            r@ == digits@.reverse().subrange(0, k as int),
        decreases digits@.len() - k,
    {
        r.push(digits[digits.len() - 1 - k]);
        k = k + 1;
        proof {
            assert(r@ =~= digits@.reverse().subrange(0, k as int));
        }
    }
    proof {
        assert(r@ =~= digits@.reverse());
    }
    r
}

/// The diagnostic lines a request is dumped as: the method, the resolved
/// URL, each header as `name: value` in map order, and the request-scoped
/// timeout when one is set.
pub open spec fn dump_lines_spec(rv: RequestView) -> Seq<Seq<char>> {
    let base = seq![method_name_spec(rv.method), rv.url] + header_lines(rv.headers);
    match rv.timeout_seconds {
        Some(t) => base.push("timeout: "@ + dec_str(t as nat) + "s"@),
        None => base,
    }
}

/// One line per header entry, `name: value`.
pub open spec fn header_lines(hs: HeaderSeq) -> Seq<Seq<char>> {
    Seq::new(hs.len(), |i: int| hs[i].0 + ": "@ + hs[i].1)
}

/// The diagnostic dump of a request, one line per entry.
#[verifier::loop_isolation(false)]
pub fn dump_lines(req: &Request) -> (r: Vec<String>)
    ensures
        strings_of(r@) == dump_lines_spec(req@),
{
    let mut out: Vec<String> = Vec::new();
    out.push(req.method.name().to_owned());
    out.push(req.url.clone());
    let mut i: usize = 0;
    while i < req.headers.len()
        invariant
            i <= req@.headers.len(),
            out@.len() == 2 + i,
            strings_of(out@) =~= seq![method_name_spec(req@.method), req@.url] + header_lines(
                req@.headers,
            ).subrange(0, i as int),
        decreases req@.headers.len() - i,
    {
        let line = req.headers.key_at(i).clone().concat(": ").concat(
            req.headers.value_at(i).as_str(),
        );
        proof {
            assert(line@ == req@.headers[i as int].0 + ": "@ + req@.headers[i as int].1);
            assert(line@ == header_lines(req@.headers)[i as int]);
        }
        let ghost prev = strings_of(out@);
        out.push(line);
        i = i + 1;
        proof {
            let hl = header_lines(req@.headers);
            let head = seq![method_name_spec(req@.method), req@.url];
            assert(strings_of(out@) =~= prev.push(hl[i - 1]));
            assert(hl.subrange(0, i as int) =~= hl.subrange(0, i - 1).push(hl[i - 1]));
            assert((head + hl.subrange(0, i - 1)).push(hl[i - 1]) =~= head + hl.subrange(
                0,
                i - 1,
            ).push(hl[i - 1]));
            assert(strings_of(out@) =~= head + hl.subrange(0, i as int));
        }
    }
    proof {
        assert(header_lines(req@.headers).subrange(0, req@.headers.len() as int) =~= header_lines(
            req@.headers,
        ));
    }
    match req.timeout_seconds {
        None => {},
        Some(t) => {
            let ghost o0 = strings_of(out@);
            let line = String::from_str("timeout: ").concat(u64_to_string(t).as_str()).concat("s");
            out.push(line);
            proof {
                assert(strings_of(out@) =~= o0.push("timeout: "@ + dec_str(t as nat) + "s"@));
            }
        },
    }
    proof {
        assert(strings_of(out@) =~= dump_lines_spec(req@));
    }
    out
}

} // verus!

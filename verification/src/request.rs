//! The request builder: configuration plus the resolved file inputs yield an
//! immutable request, or the first error of the pipeline — URL, headers,
//! cookies, authentication, body, form, in that order, fail-fast.
//!
//! File contents are inputs here: the caller reads every referenced file and
//! hands over what it found, so the builder itself is a function from plain
//! values to a request.

use vstd::prelude::*;
use vstd::string::StrSliceExecFns;
use crate::config::{Config, ConfigView, ValueSource, ValueSourceView};
use crate::errors::{ErrorView, RqError};
use crate::headers::{
    apply_pairs, insert_spec, lemma_apply_pairs_snoc, wf_headers, HeaderSeq,
    Headers,
};
use crate::json::{parse_json_object, json_object_of, JsonField, JsonFieldView, JsonObj, JsonObjView};
use crate::client::url_norm_of;
use crate::method::Method;
use crate::strutil::{find_char, index_of_char, str_eq, strings_of};

verus! {

/// The authentication a request carries: basic credentials or a bearer
/// token.  When both are configured, basic is applied first and bearer then
/// overwrites it, so bearer always wins.
#[derive(Debug, Clone, PartialEq, Eq)]
pub enum Auth {
    Basic { user: String, pass: String },
    Bearer(String),
}

/// The mathematical image of the authentication.
pub enum AuthView {
    Basic { user: Seq<char>, pass: Seq<char> },
    Bearer(Seq<char>),
}

impl View for Auth {
    type V = AuthView;

    open spec fn view(&self) -> AuthView {
        match self {
            Auth::Basic { user, pass } => AuthView::Basic { user: user@, pass: pass@ },
            Auth::Bearer(t) => AuthView::Bearer(t@),
        }
    }
}

/// One part of a multipart form: a file attachment or a plain text field.
#[derive(Debug, Clone, PartialEq, Eq)]
pub enum FormPart {
    FilePart { name: String, path: String },
    TextPart { name: String, value: String },
}

/// The mathematical image of a form part.
pub enum FormPartView {
    FilePart { name: Seq<char>, path: Seq<char> },
    TextPart { name: Seq<char>, value: Seq<char> },
}

impl View for FormPart {
    type V = FormPartView;

    open spec fn view(&self) -> FormPartView {
        match self {
            FormPart::FilePart { name, path } => FormPartView::FilePart {
                name: name@,
                path: path@,
            },
            FormPart::TextPart { name, value } => FormPartView::TextPart {
                name: name@,
                value: value@,
            },
        }
    }
}

/// The payload of a request.
#[derive(Debug, Clone, PartialEq, Eq)]
pub enum Body {
    /// No payload.
    Empty,
    /// The literal text given inline.
    Text(String),
    /// The contents of the named file, streamed when the request is sent.
    FileStream(String),
    /// A multipart form of the given parts, in order.
    Multipart(Vec<FormPart>),
}

/// The mathematical image of a payload.
pub enum BodyView {
    Empty,
    Text(Seq<char>),
    FileStream(Seq<char>),
    Multipart(Seq<FormPartView>),
}

impl View for Body {
    type V = BodyView;

    open spec fn view(&self) -> BodyView {
        match self {
            Body::Empty => BodyView::Empty,
            Body::Text(s) => BodyView::Text(s@),
            Body::FileStream(p) => BodyView::FileStream(p@),
            Body::Multipart(ps) => BodyView::Multipart(
                Seq::new(ps@.len(), |i: int| ps@[i]@),
            ),
        }
    }
}

/// The immutable request: the only entity that is transmitted.
#[derive(Debug)]
pub struct Request {
    pub method: Method,
    /// The resolved URL, in its parsed serialization.
    pub url: String,
    /// The assembled header map.
    pub headers: Headers,
    /// The resolved authentication, bearer overriding basic.
    pub auth: Option<Auth>,
    /// The payload, a multipart form replacing any earlier body.
    pub body: Body,
    /// A request-scoped deadline overriding the client default.
    pub timeout_seconds: Option<u64>,
}

/// The mathematical image of a request.
pub struct RequestView {
    pub method: Method,
    pub url: Seq<char>,
    pub headers: HeaderSeq,
    pub auth: Option<AuthView>,
    pub body: BodyView,
    pub timeout_seconds: Option<u64>,
}

impl View for Request {
    type V = RequestView;

    open spec fn view(&self) -> RequestView {
        RequestView {
            method: self.method,
            url: self.url@,
            headers: self.headers@,
            auth: match &self.auth {
                Some(a) => Some(a@),
                None => None,
            },
            body: self.body@,
            timeout_seconds: self.timeout_seconds,
        }
    }
}

/// What the caller found in one referenced file: `None` when the file could
/// not be read.
#[derive(Debug, Clone)]
pub struct FileRead {
    pub path: String,
    pub contents: Option<String>,
}

/// The mathematical image of a file read.
pub struct FileReadView {
    pub path: Seq<char>,
    pub contents: Option<Seq<char>>,
}

impl View for FileRead {
    type V = FileReadView;

    open spec fn view(&self) -> FileReadView {
        FileReadView {
            path: self.path@,
            contents: match &self.contents {
                Some(c) => Some(c@),
                None => None,
            },
        }
    }
}

/// Everything the builder needs from the file system, gathered up front:
/// the contents of the referenced files, and which paths exist.
#[derive(Debug, Clone)]
pub struct FileInputs {
    /// Read outcomes for the files that headers and cookies reference.
    pub reads: Vec<FileRead>,
    /// The paths, among those the body and form name, that exist.
    pub existing: Vec<String>,
}

/// The mathematical image of the file inputs.
pub struct FileInputsView {
    pub reads: Seq<FileReadView>,
    pub existing: Seq<Seq<char>>,
}

impl View for FileInputs {
    type V = FileInputsView;

    open spec fn view(&self) -> FileInputsView {
        FileInputsView {
            reads: Seq::new(self.reads@.len(), |i: int| self.reads@[i]@),
            existing: Seq::new(self.existing@.len(), |i: int| self.existing@[i]@),
        }
    }
}

/// The contents recorded for path `p`: those of the first read with that
/// path, and `None` when no read has it or the read failed.
pub open spec fn read_of(reads: Seq<FileReadView>, p: Seq<char>) -> Option<Seq<char>>
    decreases reads.len(),
{
    if reads.len() == 0 {
        None
    } else if reads[0].path == p {
        reads[0].contents
    } else {
        read_of(reads.drop_first(), p)
    }
}

/// Whether `p` is among the existing paths.
pub open spec fn path_listed(ps: Seq<Seq<char>>, p: Seq<char>) -> bool {
    exists|i: int| 0 <= i < ps.len() && ps[i] == p
}

/// The image of a plain pair vector.
pub open spec fn pairs_of(v: Seq<(String, String)>) -> HeaderSeq {
    Seq::new(v.len(), |i: int| (v[i].0@, v[i].1@))
}

/// The header pairs of a JSON object's fields, `acc` first: every field must
/// hold a string value, and the first that does not fails the build with
/// `BadHeaderValue` under that field's key.
pub open spec fn fields_pairs(
    acc: HeaderSeq,
    fields: Seq<(Seq<char>, JsonFieldView)>,
) -> Result<HeaderSeq, ErrorView>
    decreases fields.len(),
{
    if fields.len() == 0 {
        Ok(acc)
    } else {
        match fields[0].1 {
            JsonFieldView::Other => Err(ErrorView::BadHeaderValue(fields[0].0)),
            JsonFieldView::Str(v) => fields_pairs(acc.push((fields[0].0, v)), fields.drop_first()),
        }
    }
}

/// A header file with a non-string value always fails, with `BadHeaderValue`,
/// and a file whose values are all strings never does.
pub proof fn lemma_non_string_value_fails(acc: HeaderSeq, fields: Seq<(Seq<char>, JsonFieldView)>)
    ensures
        fields_pairs(acc, fields) is Err <==> exists|i: int|
            0 <= i < fields.len() && fields[i].1 is Other,
        fields_pairs(acc, fields) is Err ==> (fields_pairs(acc, fields) matches Err(e) && e
            is BadHeaderValue),
    decreases fields.len(),
{
    if fields.len() > 0 {
        let t = fields.drop_first();
        assert(forall|j: int| 0 <= j < t.len() ==> t[j] == fields[j + 1]);
        match fields[0].1 {
            JsonFieldView::Other => {
                assert(fields[0].1 is Other);
            },
            JsonFieldView::Str(v) => {
                lemma_non_string_value_fails(acc.push((fields[0].0, v)), t);
                if fields_pairs(acc, fields) is Err {
                    let i = choose|i: int| 0 <= i < t.len() && t[i].1 is Other;
                    assert(fields[i + 1].1 is Other);
                }
                if exists|i: int| 0 <= i < fields.len() && fields[i].1 is Other {
                    let i = choose|i: int| 0 <= i < fields.len() && fields[i].1 is Other;
                    assert(i >= 1 && t[i - 1].1 is Other);
                }
            },
        }
    }
}

/// The header pairs one source contributes: an inline `Key=Value` entry is
/// split on its first `=`, and a file reference is read and parsed as a JSON
/// object of string values.
pub open spec fn source_pairs(
    src: ValueSourceView,
    reads: Seq<FileReadView>,
) -> Result<HeaderSeq, ErrorView> {
    match src {
        ValueSourceView::Literal(s) => {
            let i = index_of_char(s, '=');
            if i < 0 {
                Err(ErrorView::MalformedHeader(s))
            } else {
                Ok(seq![(s.subrange(0, i), s.subrange(i + 1, s.len() as int))])
            }
        },
        ValueSourceView::FileRef(p) => match read_of(reads, p) {
            None => Err(ErrorView::HeaderFileError(p)),
            Some(text) => match json_object_of(text) {
                JsonObjView::NotJson => Err(ErrorView::HeaderFileError(p)),
                JsonObjView::NotObject => Ok(Seq::empty()),
                JsonObjView::Object(fields) => fields_pairs(Seq::empty(), fields),
            },
        },
    }
}

/// The header pairs of all sources in declared order, `acc` first; the first
/// failing source fails the whole assembly.
pub open spec fn flatten_headers(
    acc: HeaderSeq,
    srcs: Seq<ValueSourceView>,
    reads: Seq<FileReadView>,
) -> Result<HeaderSeq, ErrorView>
    decreases srcs.len(),
{
    if srcs.len() == 0 {
        Ok(acc)
    } else {
        match source_pairs(srcs[0], reads) {
            Err(e) => Err(e),
            Ok(h) => flatten_headers(acc + h, srcs.drop_first(), reads),
        }
    }
}

/// The Cookie header value a cookie source yields: an inline value is used
/// verbatim, and a file reference contributes the file's raw text verbatim.
pub open spec fn cookie_value(
    c: Option<ValueSourceView>,
    reads: Seq<FileReadView>,
) -> Result<Option<Seq<char>>, ErrorView> {
    match c {
        None => Ok(None),
        Some(ValueSourceView::Literal(s)) => Ok(Some(s)),
        Some(ValueSourceView::FileRef(p)) => match read_of(reads, p) {
            None => Err(ErrorView::FileNotFound(p)),
            Some(text) => Ok(Some(text)),
        },
    }
}

/// The resolved authentication: basic credentials split on the first colon
/// (no colon fails with `MalformedAuth`), and a bearer token overriding any
/// basic credentials.
pub open spec fn auth_spec(
    basic: Option<Seq<char>>,
    bearer: Option<Seq<char>>,
) -> Result<Option<AuthView>, ErrorView> {
    let b = match basic {
        None => Ok(None),
        Some(s) => {
            let i = index_of_char(s, ':');
            if i < 0 {
                Err(ErrorView::MalformedAuth(s))
            } else {
                Ok(
                    Some(
                        AuthView::Basic {
                            user: s.subrange(0, i),
                            pass: s.subrange(i + 1, s.len() as int),
                        },
                    ),
                )
            }
        },
    };
    match b {
        Err(e) => Err(e),
        Ok(ba) => match bearer {
            Some(t) => Ok(Some(AuthView::Bearer(t))),
            None => Ok(ba),
        },
    }
}

/// The payload the body step yields: inline text as given, and a file
/// reference streamed — a path that does not exist fails with
/// `FileNotFound`.
pub open spec fn body_spec(
    data: Option<ValueSourceView>,
    existing: Seq<Seq<char>>,
) -> Result<BodyView, ErrorView> {
    match data {
        None => Ok(BodyView::Empty),
        Some(ValueSourceView::Literal(s)) => Ok(BodyView::Text(s)),
        Some(ValueSourceView::FileRef(p)) => if path_listed(existing, p) {
            Ok(BodyView::FileStream(p))
        } else {
            Err(ErrorView::FileNotFound(p))
        },
    }
}

/// The form parts of a JSON object's fields, `acc` first: a string value
/// whose path exists becomes a file part, any other string a text part, and
/// a non-string value is skipped without error.
pub open spec fn form_parts(
    acc: Seq<FormPartView>,
    fields: Seq<(Seq<char>, JsonFieldView)>,
    existing: Seq<Seq<char>>,
) -> Seq<FormPartView>
    decreases fields.len(),
{
    if fields.len() == 0 {
        acc
    } else {
        let rest = fields.drop_first();
        match fields[0].1 {
            JsonFieldView::Other => form_parts(acc, rest, existing),
            JsonFieldView::Str(v) => {
                let part = if path_listed(existing, v) {
                    FormPartView::FilePart { name: fields[0].0, path: v }
                } else {
                    FormPartView::TextPart { name: fields[0].0, value: v }
                };
                form_parts(acc.push(part), rest, existing)
            },
        }
    }
}

/// The multipart form a form description yields: text that is not JSON fails
/// with `BadFormData`; JSON that is not an object yields an empty form; an
/// object yields its parts in field order.
pub open spec fn form_spec(
    form: Option<Seq<char>>,
    existing: Seq<Seq<char>>,
) -> Result<Option<Seq<FormPartView>>, ErrorView> {
    match form {
        None => Ok(None),
        Some(f) => match json_object_of(f) {
            JsonObjView::NotJson => Err(ErrorView::BadFormData(f)),
            JsonObjView::NotObject => Ok(Some(Seq::empty())),
            JsonObjView::Object(fields) => Ok(Some(form_parts(Seq::empty(), fields, existing))),
        },
    }
}

/// What the builder returns: the request, fully populated, or the first
/// error in pipeline order — URL resolution, header assembly, cookies,
/// authentication, body, form.  A multipart form replaces any payload the
/// body step set.
pub open spec fn build_spec(cfg: ConfigView, files: FileInputsView) -> Result<
    RequestView,
    ErrorView,
> {
    match url_norm_of(cfg.url) {
        None => Err(ErrorView::InvalidUrl(cfg.url)),
        Some(u) => match flatten_headers(Seq::empty(), cfg.headers, files.reads) {
            Err(e) => Err(e),
            Ok(ps) => {
                let m0 = apply_pairs(Seq::empty(), ps);
                match cookie_value(cfg.cookies, files.reads) {
                    Err(e) => Err(e),
                    Ok(cv) => {
                        let m1 = match cv {
                            Some(v) => insert_spec(m0, "Cookie"@, v),
                            None => m0,
                        };
                        match auth_spec(cfg.basic, cfg.bearer) {
                            Err(e) => Err(e),
                            Ok(a) => match body_spec(cfg.data, files.existing) {
                                Err(e) => Err(e),
                                Ok(b0) => match form_spec(cfg.form, files.existing) {
                                    Err(e) => Err(e),
                                    Ok(fp) => Ok(
                                        RequestView {
                                            method: cfg.method,
                                            url: u,
                                            headers: m1,
                                            auth: a,
                                            body: match fp {
                                                Some(parts) => BodyView::Multipart(parts),
                                                None => b0,
                                            },
                                            timeout_seconds: cfg.timeout_seconds,
                                        },
                                    ),
                                },
                            },
                        }
                    },
                }
            },
        },
    }
}

/// A body taken from a file that does not exist always fails the build:
/// no request is constructed, whole or partial.
pub proof fn lemma_missing_body_file_fails(cfg: ConfigView, files: FileInputsView, p: Seq<char>)
    requires
        cfg.data == Some(ValueSourceView::FileRef(p)),
        !path_listed(files.existing, p),
    ensures
        build_spec(cfg, files) is Err,
{
}

/// When every step before the body succeeds, a body file that does not
/// exist fails with exactly `FileNotFound` naming that path.
pub proof fn lemma_missing_body_file_error(cfg: ConfigView, files: FileInputsView, p: Seq<char>)
    requires
        cfg.data == Some(ValueSourceView::FileRef(p)),
        !path_listed(files.existing, p),
        url_norm_of(cfg.url) is Some,
        flatten_headers(Seq::empty(), cfg.headers, files.reads) is Ok,
        cookie_value(cfg.cookies, files.reads) is Ok,
        auth_spec(cfg.basic, cfg.bearer) is Ok,
    ensures
        build_spec(cfg, files) == Err::<RequestView, ErrorView>(ErrorView::FileNotFound(p)),
{
}

/// When basic credentials and a bearer token are both configured and the
/// build succeeds, the request carries the bearer token, never the basic
/// credentials.
pub proof fn lemma_bearer_overrides_basic(
    cfg: ConfigView,
    files: FileInputsView,
    req: RequestView,
    t: Seq<char>,
)
    requires
        cfg.bearer == Some(t),
        build_spec(cfg, files) == Ok::<RequestView, ErrorView>(req),
    ensures
        req.auth == Some(AuthView::Bearer(t)),
{
}

/// The image of a vector of file reads.
pub open spec fn reads_of(v: Seq<FileRead>) -> Seq<FileReadView> {
    Seq::new(v.len(), |i: int| v[i]@)
}

/// The recorded contents of path `p`, if a successful read has it.
#[verifier::loop_isolation(false)]
fn lookup_read<'a>(reads: &'a Vec<FileRead>, p: &str) -> (r: Option<&'a String>)
    ensures
        match r {
            Some(c) => read_of(reads_of(reads@), p@) == Some(c@),
            None => read_of(reads_of(reads@), p@) is None,
        },
{
    let ghost rv = reads_of(reads@);
    proof {
        assert(rv.skip(0) =~= rv);
    }
    let mut i: usize = 0;
    while i < reads.len()
        invariant
            i <= reads@.len(),
            read_of(rv, p@) == read_of(rv.skip(i as int), p@),
        decreases reads@.len() - i,
    {
        proof {
            assert(rv.skip(i as int)[0] == rv[i as int]);
            assert(rv.skip(i as int).drop_first() =~= rv.skip(i as int + 1));
        }
        if str_eq(reads[i].path.as_str(), p) {
            return match &reads[i].contents {
                Some(c) => Some(c),
                None => None,
            };
        }
        i = i + 1;
    }
    proof {
        assert(rv.skip(reads@.len() as int) =~= Seq::<FileReadView>::empty());
    }
    None
}

/// Whether path `p` stands in the list of existing paths.
#[verifier::loop_isolation(false)]
fn path_listed_exec(ps: &Vec<String>, p: &str) -> (r: bool)
    ensures
        r == path_listed(strings_of(ps@), p@),
{
    let mut i: usize = 0;
    while i < ps.len()
        invariant
            i <= ps@.len(),
            forall|j: int| 0 <= j < i ==> strings_of(ps@)[j] != p@,
        decreases ps@.len() - i,
    {
        if str_eq(ps[i].as_str(), p) {
            assert(strings_of(ps@)[i as int] == p@);
            return true;
        }
        i = i + 1;
    }
    false
}

/// The header pairs one source contributes.
#[verifier::loop_isolation(false)]
fn source_pairs_exec(src: &ValueSource, reads: &Vec<FileRead>) -> (r: Result<
    Vec<(String, String)>,
    RqError,
>)
    ensures
        r matches Ok(v) ==> source_pairs(src@, reads_of(reads@)) == Ok::<HeaderSeq, ErrorView>(
            pairs_of(v@),
        ),
        r matches Err(e) ==> source_pairs(src@, reads_of(reads@)) == Err::<HeaderSeq, ErrorView>(
            e@,
        ),
{
    match src {
        ValueSource::Literal(s) => {
            let n = s.as_str().unicode_len();
            match find_char(s.as_str(), '=') {
                None => Err(RqError::MalformedHeader(s.clone())),
                Some(ci) => {
                    proof {
                        crate::strutil::lemma_index_of_char(s@, '=');
                    }
                    let key = s.as_str().substring_char(0, ci).to_owned();
                    let value = s.as_str().substring_char(ci + 1, n).to_owned();
                    let pairs = vec![(key, value)];
                    proof {
                        assert(pairs_of(pairs@) =~= seq![
                            (s@.subrange(0, ci as int), s@.subrange(ci + 1, s@.len() as int)),
                        ]);
                    }
                    Ok(pairs)
                },
            }
        },
        ValueSource::FileRef(p) => match lookup_read(reads, p.as_str()) {
            None => Err(RqError::HeaderFileError(p.clone())),
            Some(text) => match parse_json_object(text.as_str()) {
                JsonObj::NotJson => Err(RqError::HeaderFileError(p.clone())),
                JsonObj::NotObject => {
                    let pairs: Vec<(String, String)> = Vec::new();
                    proof {
                        assert(pairs_of(pairs@) =~= Seq::<(Seq<char>, Seq<char>)>::empty());
                    }
                    Ok(pairs)
                },
                JsonObj::Object(fields) => {
                    let ghost fv = Seq::new(fields@.len(), |i: int| (fields@[i].0@, fields@[i].1@));
                    let mut pairs: Vec<(String, String)> = Vec::new();
                    let mut j: usize = 0;
                    proof {
                        assert(pairs_of(pairs@) =~= Seq::<(Seq<char>, Seq<char>)>::empty());
                        assert(fv.skip(0) =~= fv);
                    }
                    while j < fields.len()
                        invariant
                            j <= fields@.len(),
                            fields_pairs(Seq::empty(), fv) == fields_pairs(
                                pairs_of(pairs@),
                                fv.skip(j as int),
                            ),
                        decreases fields@.len() - j,
                    {
                        proof {
                            assert(fv.skip(j as int)[0] == fv[j as int]);
                            assert(fv.skip(j as int).drop_first() =~= fv.skip(j as int + 1));
                        }
                        match &fields[j].1 {
                            JsonField::Other => {
                                return Err(RqError::BadHeaderValue(fields[j].0.clone()));
                            },
                            JsonField::Str(v) => {
                                let ghost p0 = pairs_of(pairs@);
                                pairs.push((fields[j].0.clone(), v.clone()));
                                proof {
                                    assert(pairs_of(pairs@) =~= p0.push((fv[j as int].0, v@)));
                                }
                            },
                        }
                        j = j + 1;
                    }
                    proof {
                        assert(fv.skip(fields@.len() as int) =~= Seq::<
                            (Seq<char>, JsonFieldView),
                        >::empty());
                    }
                    Ok(pairs)
                },
            },
        },
    }
}

/// Builds the request from the configuration and the gathered file inputs,
/// or returns the first error in pipeline order.  Succeeds exactly when the
/// URL parses, every header source resolves, the cookie file (if referenced)
/// was read, the basic credentials (if given) carry a colon, the body file
/// (if referenced) exists, and the form description (if given) is JSON.
#[verifier::loop_isolation(false)]
pub fn build_request(cfg: &Config, files: &FileInputs) -> (r: Result<Request, RqError>)
    ensures
        r is Ok <==> build_spec(cfg@, files@) is Ok,
        r matches Ok(req) ==> build_spec(cfg@, files@) == Ok::<RequestView, ErrorView>(req@),
        r matches Err(e) ==> build_spec(cfg@, files@) == Err::<RequestView, ErrorView>(e@),
{
    let url = match crate::client::parse_url_norm(cfg.url.as_str()) {
        None => {
            return Err(RqError::InvalidUrl(cfg.url.clone()));
        },
        Some(u) => u,
    };
    let mut headers = Headers::new();
    let ghost mut ps_acc: HeaderSeq = Seq::empty();
    proof {
        assert(cfg@.headers.skip(0) =~= cfg@.headers);
    }
    let mut i: usize = 0;
    while i < cfg.headers.len()
        invariant
            i <= cfg.headers@.len(),
            wf_headers(headers@),
            headers@ == apply_pairs(Seq::empty(), ps_acc),
            flatten_headers(Seq::empty(), cfg@.headers, files@.reads) == flatten_headers(
                ps_acc,
                cfg@.headers.skip(i as int),
                files@.reads,
            ),
        decreases cfg.headers@.len() - i,
    {
        proof {
            assert(cfg@.headers.skip(i as int)[0] == cfg@.headers[i as int]);
            assert(cfg@.headers.skip(i as int).drop_first() =~= cfg@.headers.skip(i as int + 1));
        }
        let pairs = match source_pairs_exec(&cfg.headers[i], &files.reads) {
            Err(e) => {
                return Err(e);
            },
            Ok(v) => v,
        };
        let ghost h = pairs_of(pairs@);
        proof {
            assert(h.take(0) =~= Seq::<(Seq<char>, Seq<char>)>::empty());
            assert(ps_acc + h.take(0) =~= ps_acc);
        }
        let mut j: usize = 0;
        while j < pairs.len()
            invariant
                j <= pairs@.len(),
                h == pairs_of(pairs@),
                wf_headers(headers@),
                headers@ == apply_pairs(Seq::empty(), ps_acc + h.take(j as int)),
            decreases pairs@.len() - j,
        {
            proof {
                lemma_apply_pairs_snoc(Seq::empty(), ps_acc + h.take(j as int), h[j as int]);
                assert((ps_acc + h.take(j as int)).push(h[j as int]) =~= ps_acc + h.take(
                    j as int + 1,
                ));
            }
            headers.insert(pairs[j].0.clone(), pairs[j].1.clone());
            j = j + 1;
        }
        proof {
            assert(h.take(pairs@.len() as int) =~= h);
            ps_acc = ps_acc + h;
        }
        i = i + 1;
    }
    proof {
        assert(cfg@.headers.skip(cfg.headers@.len() as int) =~= Seq::<ValueSourceView>::empty());
    }
    match &cfg.cookies {
        None => {},
        Some(ValueSource::Literal(s)) => {
            headers.insert("Cookie".to_owned(), s.clone());
        },
        Some(ValueSource::FileRef(p)) => match lookup_read(&files.reads, p.as_str()) {
            None => {
                return Err(RqError::FileNotFound(p.clone()));
            },
            Some(text) => {
                let t = text.clone();
                headers.insert("Cookie".to_owned(), t);
            },
        },
    }
    let auth = match &cfg.basic {
        None => match &cfg.bearer {
            Some(t) => Some(Auth::Bearer(t.clone())),
            None => None,
        },
        Some(s) => {
            let n = s.as_str().unicode_len();
            match find_char(s.as_str(), ':') {
                None => {
                    return Err(RqError::MalformedAuth(s.clone()));
                },
                Some(ci) => {
                    proof {
                        crate::strutil::lemma_index_of_char(s@, ':');
                    }
                    let user = s.as_str().substring_char(0, ci).to_owned();
                    let pass = s.as_str().substring_char(ci + 1, n).to_owned();
                    match &cfg.bearer {
                        Some(t) => Some(Auth::Bearer(t.clone())),
                        None => Some(Auth::Basic { user, pass }),
                    }
                },
            }
        },
    };
    let body0 = match &cfg.data {
        None => Body::Empty,
        Some(ValueSource::Literal(s)) => Body::Text(s.clone()),
        Some(ValueSource::FileRef(p)) => {
            if path_listed_exec(&files.existing, p.as_str()) {
                Body::FileStream(p.clone())
            } else {
                return Err(RqError::FileNotFound(p.clone()));
            }
        },
    };
    let body = match &cfg.form {
        None => body0,
        Some(f) => match parse_json_object(f.as_str()) {
            JsonObj::NotJson => {
                return Err(RqError::BadFormData(f.clone()));
            },
            JsonObj::NotObject => {
                let parts: Vec<FormPart> = Vec::new();
                proof {
                    assert(Seq::new(parts@.len(), |k: int| parts@[k]@) =~= Seq::<
                        FormPartView,
                    >::empty());
                }
                Body::Multipart(parts)
            },
            JsonObj::Object(fields) => {
                let ghost fv = Seq::new(fields@.len(), |k: int| (fields@[k].0@, fields@[k].1@));
                let ghost ex = files@.existing;
                let mut parts: Vec<FormPart> = Vec::new();
                proof {
                    assert(Seq::new(parts@.len(), |k: int| parts@[k]@) =~= Seq::<
                        FormPartView,
                    >::empty());
                    assert(fv.skip(0) =~= fv);
                }
                let mut j: usize = 0;
                while j < fields.len()
                    invariant
                        j <= fields@.len(),
                        form_parts(Seq::empty(), fv, ex) == form_parts(
                            Seq::new(parts@.len(), |k: int| parts@[k]@),
                            fv.skip(j as int),
                            ex,
                        ),
                    decreases fields@.len() - j,
                {
                    proof {
                        assert(fv.skip(j as int)[0] == fv[j as int]);
                        assert(fv.skip(j as int).drop_first() =~= fv.skip(j as int + 1));
                    }
                    let ghost p0 = Seq::new(parts@.len(), |k: int| parts@[k]@);
                    match &fields[j].1 {
                        JsonField::Other => {},
                        JsonField::Str(v) => {
                            if path_listed_exec(&files.existing, v.as_str()) {
                                parts.push(
                                    FormPart::FilePart {
                                        name: fields[j].0.clone(),
                                        path: v.clone(),
                                    },
                                );
                            } else {
                                parts.push(
                                    FormPart::TextPart {
                                        name: fields[j].0.clone(),
                                        value: v.clone(),
                                    },
                                );
                            }
                            proof {
                                assert(Seq::new(parts@.len(), |k: int| parts@[k]@) =~= p0.push(
                                    parts@.last()@,
                                ));
                            }
                        },
                    }
                    j = j + 1;
                }
                proof {
                    assert(fv.skip(fields@.len() as int) =~= Seq::<
                        (Seq<char>, JsonFieldView),
                    >::empty());
                }
                Body::Multipart(parts)
            },
        },
    };
    let req = Request {
        method: cfg.method,
        url,
        headers,
        auth,
        body,
        timeout_seconds: cfg.timeout_seconds,
    };
    proof {
        assert(build_spec(cfg@, files@) == Ok::<RequestView, ErrorView>(req@));
    }
    Ok(req)
}

/// The pairs the fields contribute as form-part candidates, `acc` first:
/// every string-valued field, in order.
pub open spec fn candidates_acc(
    acc: Seq<(Seq<char>, Seq<char>)>,
    fields: Seq<(Seq<char>, JsonFieldView)>,
) -> Seq<(Seq<char>, Seq<char>)>
    decreases fields.len(),
{
    if fields.len() == 0 {
        acc
    } else {
        match fields[0].1 {
            JsonFieldView::Str(v) => candidates_acc(
                acc.push((fields[0].0, v)),
                fields.drop_first(),
            ),
            JsonFieldView::Other => candidates_acc(acc, fields.drop_first()),
        }
    }
}

/// The string-valued fields of a form description, in order; empty when the
/// description is not a JSON object.  These are the values whose paths the
/// caller must test for existence before building.
pub open spec fn form_candidates_spec(form: Seq<char>) -> Seq<(Seq<char>, Seq<char>)> {
    match json_object_of(form) {
        JsonObjView::Object(fields) => candidates_acc(Seq::empty(), fields),
        _ => Seq::empty(),
    }
}

/// The string-valued fields of the form description, for the caller to test
/// for existence.
#[verifier::loop_isolation(false)]
pub fn form_candidates(form: &str) -> (r: Vec<(String, String)>)
    ensures
        pairs_of(r@) == form_candidates_spec(form@),
{
    let mut out: Vec<(String, String)> = Vec::new();
    proof {
        assert(pairs_of(out@) =~= Seq::<(Seq<char>, Seq<char>)>::empty());
    }
    match parse_json_object(form) {
        JsonObj::NotJson => out,
        JsonObj::NotObject => out,
        JsonObj::Object(fields) => {
            let ghost fv = Seq::new(fields@.len(), |k: int| (fields@[k].0@, fields@[k].1@));
            proof {
                assert(fv.skip(0) =~= fv);
            }
            let mut j: usize = 0;
            while j < fields.len()
                invariant
                    j <= fields@.len(),
                    candidates_acc(Seq::empty(), fv) == candidates_acc(
                        pairs_of(out@),
                        fv.skip(j as int),
                    ),
                decreases fields@.len() - j,
            {
                proof {
                    assert(fv.skip(j as int)[0] == fv[j as int]);
                    assert(fv.skip(j as int).drop_first() =~= fv.skip(j as int + 1));
                }
                match &fields[j].1 {
                    JsonField::Other => {},
                    JsonField::Str(v) => {
                        let ghost p0 = pairs_of(out@);
                        out.push((fields[j].0.clone(), v.clone()));
                        proof {
                            assert(pairs_of(out@) =~= p0.push((fv[j as int].0, v@)));
                        }
                    },
                }
                j = j + 1;
            }
            proof {
                assert(fv.skip(fields@.len() as int) =~= Seq::<(Seq<char>, JsonFieldView)>::empty());
            }
            out
        },
    }
}

/// The paths the sources reference, `acc` first.
pub open spec fn refs_acc(acc: Seq<Seq<char>>, srcs: Seq<ValueSourceView>) -> Seq<Seq<char>>
    decreases srcs.len(),
{
    if srcs.len() == 0 {
        acc
    } else {
        match srcs[0] {
            ValueSourceView::FileRef(p) => refs_acc(acc.push(p), srcs.drop_first()),
            ValueSourceView::Literal(_) => refs_acc(acc, srcs.drop_first()),
        }
    }
}

/// Every file path the header and cookie sources reference, in order.
pub open spec fn file_refs_spec(cfg: ConfigView) -> Seq<Seq<char>> {
    let hs = refs_acc(Seq::empty(), cfg.headers);
    match cfg.cookies {
        Some(ValueSourceView::FileRef(p)) => hs.push(p),
        _ => hs,
    }
}

/// The paths of every file the headers and cookies reference: the files the
/// caller must read before building.
#[verifier::loop_isolation(false)]
pub fn file_refs(cfg: &Config) -> (r: Vec<String>)
    ensures
        strings_of(r@) == file_refs_spec(cfg@),
{
    let mut out: Vec<String> = Vec::new();
    proof {
        assert(strings_of(out@) =~= Seq::<Seq<char>>::empty());
        assert(cfg@.headers.skip(0) =~= cfg@.headers);
    }
    let mut i: usize = 0;
    while i < cfg.headers.len()
        invariant
            i <= cfg.headers@.len(),
            refs_acc(Seq::empty(), cfg@.headers) == refs_acc(
                strings_of(out@),
                cfg@.headers.skip(i as int),
            ),
        decreases cfg.headers@.len() - i,
    {
        proof {
            assert(cfg@.headers.skip(i as int)[0] == cfg@.headers[i as int]);
            assert(cfg@.headers.skip(i as int).drop_first() =~= cfg@.headers.skip(i as int + 1));
        }
        match &cfg.headers[i] {
            ValueSource::Literal(_) => {},
            ValueSource::FileRef(p) => {
                let ghost o0 = strings_of(out@);
                out.push(p.clone());
                proof {
                    assert(strings_of(out@) =~= o0.push(p@));
                }
            },
        }
        i = i + 1;
    }
    proof {
        assert(cfg@.headers.skip(cfg.headers@.len() as int) =~= Seq::<ValueSourceView>::empty());
    }
    match &cfg.cookies {
        Some(ValueSource::FileRef(p)) => {
            let ghost o0 = strings_of(out@);
            out.push(p.clone());
            proof {
                assert(strings_of(out@) =~= o0.push(p@));
            }
        },
        _ => {},
    }
    out
}

} // verus!

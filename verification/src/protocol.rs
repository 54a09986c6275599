//! The two questions that callers ask, and what is answered.
//!
//! A request names an endpoint and carries a payload. Decoding the payload
//! is the caller's part: what reaches this module is the decoded request, or
//! the decoder's message where the payload could not be read. Every outcome,
//! failures too, is a response that is sent with the same status; a failure
//! is told from an answer by its `error` field.

use crate::archive::join;
use crate::index::{
    GitArchiveIndex, GitRepoAnswer, GitRepoAnswerView, HuggingfaceArchiveIndex, RepoRecord,
    RepoRecordView, answer_of, keyed_by_lowercase, known_ignoring_case,
    lemma_key_among_variants_is_listed, lemma_listed_addresses_differ,
};
use crate::normalize::{
    NormalizeError, has_scheme, has_suffix, lemma_own_variant, lemma_variants_shape, normalize,
    variants_of, without_suffix,
};
use crate::text::{lowercase_of, texts_of};
use vstd::prelude::*;
use vstd::string::*;

verus! {

/// The status with which every response is sent.
pub const SUCCESS_STATUS: u16 = 200;

/// The JSON text of a string: the string between quotes, with every
/// character escaped that JSON wants escaped.
pub uninterp spec fn json_string_of(s: Seq<char>) -> Seq<char>;

/// Wraps the text into `serde_json::Value::String` and calls `to_string` on
/// it, which writes the value in compact JSON. Nothing is proved of the
/// escaping: the result is only given the name `json_string_of`.
#[verifier::external_body]
fn json_string(s: &str) -> (r: String)
    ensures
        r@ == json_string_of(s@),
{
    serde_json::Value::String(s.to_owned()).to_string()
}

/// The question whether a git repository is known.
#[derive(Debug, PartialEq, Eq)]
pub struct HasGitRepoRequest {
    /// The candidate address.
    pub url: String,
}

/// The question whether a model repository is known.
#[derive(Debug, PartialEq, Eq)]
pub struct HasHuggingfaceRequest {
    /// The candidate identifier.
    pub repo: String,
}

/// Where a request is addressed.
#[derive(Clone, Copy, Debug, PartialEq, Eq, Structural)]
pub enum Endpoint {
    HasGitRepo,
    HasHuggingfaceRepo,
    Invalid,
}

/// The endpoint that a path names: the two known paths, written exactly, and
/// nothing else.
pub open spec fn endpoint_of(path: Seq<char>) -> Endpoint {
    if path == "/has_git_repo"@ {
        Endpoint::HasGitRepo
    } else if path == "/has_huggingface_repo"@ {
        Endpoint::HasHuggingfaceRepo
    } else {
        Endpoint::Invalid
    }
}

/// The endpoint that `path` names.
pub fn route(path: &str) -> (endpoint: Endpoint)
    ensures
        endpoint == endpoint_of(path@),
{
    if path.eq("/has_git_repo") {
        Endpoint::HasGitRepo
    } else if path.eq("/has_huggingface_repo") {
        Endpoint::HasHuggingfaceRepo
    } else {
        Endpoint::Invalid
    }
}

/// A request as it reaches the handler: the decoded payload of a known
/// endpoint, or the decoder's message, or a request to no known endpoint.
#[derive(Debug, PartialEq, Eq)]
pub enum Request {
    HasGitRepo(Result<HasGitRepoRequest, String>),
    HasHuggingfaceRepo(Result<HasHuggingfaceRequest, String>),
    Unknown,
}

/// A request, as plain values.
pub ghost enum RequestView {
    HasGitRepo(Result<Seq<char>, Seq<char>>),
    HasHuggingfaceRepo(Result<Seq<char>, Seq<char>>),
    Unknown,
}

impl View for Request {
    type V = RequestView;

    open spec fn view(&self) -> RequestView {
        match self {
            Request::HasGitRepo(Ok(req)) => RequestView::HasGitRepo(Ok(req.url@)),
            Request::HasGitRepo(Err(details)) => RequestView::HasGitRepo(Err(details@)),
            Request::HasHuggingfaceRepo(Ok(req)) => RequestView::HasHuggingfaceRepo(Ok(req.repo@)),
            Request::HasHuggingfaceRepo(Err(details)) => RequestView::HasHuggingfaceRepo(
                Err(details@),
            ),
            Request::Unknown => RequestView::Unknown,
        }
    }
}

/// What is sent back.
#[derive(Debug, PartialEq, Eq)]
pub enum Response {
    /// The answer about a git repository.
    GitRepo(GitRepoAnswer),
    /// The answer about a model repository.
    HuggingfaceRepo { exists: bool },
    /// A failure, told in the response itself.
    Failure { error: String, details: Option<String> },
}

/// A response, as plain values.
pub ghost enum ResponseView {
    GitRepo(GitRepoAnswerView),
    HuggingfaceRepo { exists: bool },
    Failure { error: Seq<char>, details: Option<Seq<char>> },
}

impl View for Response {
    type V = ResponseView;

    open spec fn view(&self) -> ResponseView {
        match self {
            Response::GitRepo(answer) => ResponseView::GitRepo(answer@),
            Response::HuggingfaceRepo { exists } => ResponseView::HuggingfaceRepo {
                exists: *exists,
            },
            Response::Failure { error, details } => ResponseView::Failure {
                error: error@,
                details: match details {
                    Some(d) => Some(d@),
                    None => None,
                },
            },
        }
    }
}

/// The failure that tells of a payload that could not be read.
pub open spec fn parse_failure(details: Seq<char>) -> ResponseView {
    ResponseView::Failure { error: "json parse error"@, details: Some(details) }
}

/// The failure that tells of a request that could not be handled.
pub open spec fn handling_failure(details: Seq<char>) -> ResponseView {
    ResponseView::Failure { error: "error handling request"@, details: Some(details) }
}

/// The failure that tells that no archive of model repositories was given.
pub open spec fn not_configured() -> ResponseView {
    ResponseView::Failure {
        error: "instance started without huggingface archive provided"@,
        details: None,
    }
}

/// The failure that tells of a request to no known endpoint.
pub open spec fn invalid_endpoint() -> ResponseView {
    ResponseView::Failure { error: "invalid endpoint"@, details: None }
}

impl Response {
    /// The failure that tells of a payload that could not be read.
    pub fn parse_failure(details: &str) -> (response: Response)
        ensures
            response@ == parse_failure(details@),
    {
        Response::Failure {
            error: String::from_str("json parse error"),
            details: Some(details.to_owned()),
        }
    }

    /// The failure that tells of a request that could not be handled.
    pub fn handling_failure(details: &str) -> (response: Response)
        ensures
            response@ == handling_failure(details@),
    {
        Response::Failure {
            error: String::from_str("error handling request"),
            details: Some(details.to_owned()),
        }
    }

    /// The failure that tells that no archive of model repositories was
    /// given when the service was started.
    pub fn not_configured() -> (response: Response)
        ensures
            response@ == not_configured(),
    {
        Response::Failure {
            error: String::from_str("instance started without huggingface archive provided"),
            details: None,
        }
    }

    /// The failure that tells of a request to no known endpoint.
    pub fn invalid_endpoint() -> (response: Response)
        ensures
            response@ == invalid_endpoint(),
    {
        Response::Failure { error: String::from_str("invalid endpoint"), details: None }
    }

    /// The status with which the response is sent: the same for all.
    pub fn status(&self) -> (status: u16)
        ensures
            status == SUCCESS_STATUS,
    {
        SUCCESS_STATUS
    }
}

/// The response that is owed to a request, given the index of git
/// repositories and, where one was configured, that of model repositories.
pub open spec fn response_of(
    request: RequestView,
    git: Map<Seq<char>, RepoRecordView>,
    huggingface: Option<Set<Seq<char>>>,
) -> ResponseView {
    match request {
        RequestView::HasGitRepo(Err(details)) => parse_failure(details),
        RequestView::HasGitRepo(Ok(url)) => ResponseView::GitRepo(
            answer_of(git, variants_of(lowercase_of(url))),
        ),
        RequestView::HasHuggingfaceRepo(Err(details)) => parse_failure(details),
        RequestView::HasHuggingfaceRepo(Ok(repo)) => match huggingface {
            None => not_configured(),
            Some(ids) => ResponseView::HuggingfaceRepo { exists: known_ignoring_case(ids, repo) },
        },
        RequestView::Unknown => invalid_endpoint(),
    }
}

/// The model of the index of model repositories, where there is one.
pub open spec fn ids_of(huggingface: Option<&HuggingfaceArchiveIndex>) -> Option<Set<Seq<char>>> {
    match huggingface {
        Some(index) => Some(index@),
        None => None,
    }
}

/// Answers whether the repository of the candidate address is known: the
/// address is normalized, and each of its variants is looked up.
pub fn handle_has_git_repo_req(req: &HasGitRepoRequest, index: &GitArchiveIndex) -> (r: Result<
    GitRepoAnswer,
    NormalizeError,
>)
    ensures
        r matches Ok(answer) && answer@ == answer_of(index@, variants_of(lowercase_of(req.url@))),
{
    match normalize(req.url.as_str()) {
        Ok(variants) => Ok(index.find(variants.as_slice())),
        Err(e) => Err(e),
    }
}

/// Answers whether the model repository is known, without regard to case.
pub fn handle_has_huggingface_repo_req(
    req: &HasHuggingfaceRequest,
    index: &HuggingfaceArchiveIndex,
) -> (exists: bool)
    ensures
        exists == known_ignoring_case(index@, req.repo@),
{
    index.contains_ignoring_case(req.repo.as_str())
}

/// The response to a request about a git repository.
pub fn respond_has_git_repo(decoded: &Result<HasGitRepoRequest, String>, git: &GitArchiveIndex) -> (response:
    Response)
    ensures
        response@ == match decoded {
            Ok(req) => response_of(RequestView::HasGitRepo(Ok(req.url@)), git@, None),
            Err(details) => parse_failure(details@),
        },
{
    match decoded {
        Ok(req) => match handle_has_git_repo_req(req, git) {
            Ok(answer) => Response::GitRepo(answer),
            Err(e) => Response::handling_failure(e.message().as_str()),
        },
        Err(details) => Response::parse_failure(details.as_str()),
    }
}

/// The response to a request about a model repository. A payload that
/// cannot be read is reported before the missing archive is.
pub fn respond_has_huggingface_repo(
    decoded: &Result<HasHuggingfaceRequest, String>,
    huggingface: Option<&HuggingfaceArchiveIndex>,
) -> (response: Response)
    ensures
        response@ == match decoded {
            Ok(req) => match huggingface {
                Some(index) => ResponseView::HuggingfaceRepo {
                    exists: known_ignoring_case(index@, req.repo@),
                },
                None => not_configured(),
            },
            Err(details) => parse_failure(details@),
        },
{
    match decoded {
        Ok(req) => match huggingface {
            Some(index) => Response::HuggingfaceRepo {
                exists: handle_has_huggingface_repo_req(req, index),
            },
            None => Response::not_configured(),
        },
        Err(details) => Response::parse_failure(details.as_str()),
    }
}

/// The response to a request.
pub fn respond(
    request: &Request,
    git: &GitArchiveIndex,
    huggingface: Option<&HuggingfaceArchiveIndex>,
) -> (response: Response)
    ensures
        response@ == response_of(request@, git@, ids_of(huggingface)),
{
    match request {
        Request::HasGitRepo(decoded) => respond_has_git_repo(decoded, git),
        Request::HasHuggingfaceRepo(decoded) => respond_has_huggingface_repo(decoded, huggingface),
        Request::Unknown => Response::invalid_endpoint(),
    }
}

/// The JSON text of a truth value.
pub open spec fn json_bool_of(b: bool) -> Seq<char> {
    if b {
        "true"@
    } else {
        "false"@
    }
}

/// The JSON text of a list of strings.
pub open spec fn json_list_of(items: Seq<Seq<char>>) -> Seq<char> {
    "["@ + join(items.map_values(|item: Seq<char>| json_string_of(item)), ',') + "]"@
}

/// The JSON text of a record: an object of its five fields, the keys in
/// alphabetical order.
pub open spec fn json_record_of(record: RepoRecordView) -> Seq<char> {
    "{\"commit_date\":"@ + json_string_of(record.commit_date) + ",\"commit_hash\":"@
        + json_string_of(record.commit_hash) + ",\"last_fetch\":"@ + json_string_of(
        record.last_fetch,
    ) + ",\"path\":"@ + json_string_of(record.path) + ",\"url\":"@ + json_string_of(record.url)
        + "}"@
}

/// The body of a response: one JSON object in compact form, the keys in
/// alphabetical order. The metadata of an answer and the details of a
/// failure are written only where there are any.
pub open spec fn rendered(response: ResponseView) -> Seq<char> {
    match response {
        ResponseView::GitRepo(answer) => {
            let head = "{\"existing\":"@ + json_list_of(answer.existing) + ",\"exists\":"@
                + json_bool_of(answer.exists);
            match answer.metadata {
                Some(record) => head + ",\"metadata\":"@ + json_record_of(record) + "}"@,
                None => head + "}"@,
            }
        },
        ResponseView::HuggingfaceRepo { exists } => "{\"exists\":"@ + json_bool_of(exists) + "}"@,
        ResponseView::Failure { error, details } => match details {
            Some(d) => "{\"details\":"@ + json_string_of(d) + ",\"error\":"@ + json_string_of(
                error,
            ) + "}"@,
            None => "{\"error\":"@ + json_string_of(error) + "}"@,
        },
    }
}

/// The JSON text of a truth value.
fn render_bool(b: bool) -> (text: &'static str)
    ensures
        text@ == json_bool_of(b),
{
    if b {
        "true"
    } else {
        "false"
    }
}

/// The JSON text of a list of strings.
fn render_list(items: &Vec<String>) -> (text: String)
    ensures
        text@ == json_list_of(texts_of(items@)),
{
    let ghost quoted = texts_of(items@).map_values(|item: Seq<char>| json_string_of(item));
    let mut inner = String::new();
    let mut i: usize = 0;
    while i < items.len()
        invariant
            i <= items@.len(),
            quoted == texts_of(items@).map_values(|item: Seq<char>| json_string_of(item)),
            inner@ == join(quoted.take(i as int), ','),
        decreases items.len() - i,
    {
        if i > 0 {
            inner.append(",");
        }
        let item = json_string(items[i].as_str());
        inner.append(item.as_str());
        proof {
            reveal_strlit(",");
            assert(quoted.take(i + 1).drop_last() =~= quoted.take(i as int));
        }
        i += 1;
    }
    assert(quoted.take(i as int) =~= quoted);
    let mut text = String::from_str("[");
    text.append(inner.as_str());
    text.append("]");
    text
}

/// The JSON text of a record.
fn render_record(record: &RepoRecord) -> (text: String)
    ensures
        text@ == json_record_of(record@),
{
    let mut text = String::from_str("{\"commit_date\":");
    text.append(json_string(record.commit_date.as_str()).as_str());
    text.append(",\"commit_hash\":");
    text.append(json_string(record.commit_hash.as_str()).as_str());
    text.append(",\"last_fetch\":");
    text.append(json_string(record.last_fetch.as_str()).as_str());
    text.append(",\"path\":");
    text.append(json_string(record.path.as_str()).as_str());
    text.append(",\"url\":");
    text.append(json_string(record.url.as_str()).as_str());
    text.append("}");
    text
}

/// The body of a response.
pub fn render(response: &Response) -> (body: String)
    ensures
        body@ == rendered(response@),
{
    match response {
        Response::GitRepo(answer) => {
            let mut body = String::from_str("{\"existing\":");
            body.append(render_list(&answer.existing).as_str());
            body.append(",\"exists\":");
            body.append(render_bool(answer.exists));
            match &answer.metadata {
                Some(record) => {
                    body.append(",\"metadata\":");
                    body.append(render_record(record).as_str());
                },
                None => {},
            }
            body.append("}");
            body
        },
        Response::HuggingfaceRepo { exists } => {
            let mut body = String::from_str("{\"exists\":");
            body.append(render_bool(*exists));
            body.append("}");
            body
        },
        Response::Failure { error, details } => {
            let mut body = String::new();
            match details {
                Some(d) => {
                    body.append("{\"details\":");
                    body.append(json_string(d.as_str()).as_str());
                    body.append(",\"error\":");
                },
                None => {
                    body.append("{\"error\":");
                },
            }
            body.append(json_string(error.as_str()).as_str());
            body.append("}");
            body
        },
    }
}

/// Every recorded repository is found by its own address: where the index
/// holds a record under the lowercase form of `url`, the answer to `url`
/// lists the address of that record. This does not hold of an address that
/// carries the suffix but no scheme, such as `example.org/repo.git`: none of
/// its variants is the address itself.
pub proof fn lemma_recorded_address_is_found(index: Map<Seq<char>, RepoRecordView>, url: Seq<char>)
    requires
        index.contains_key(lowercase_of(url)),
        !(has_suffix(lowercase_of(url)) && !has_scheme(without_suffix(lowercase_of(url)))),
    ensures
        answer_of(index, variants_of(lowercase_of(url))).exists,
        answer_of(index, variants_of(lowercase_of(url))).existing.contains(
            index[lowercase_of(url)].url,
        ),
{
    lemma_own_variant(lowercase_of(url));
    lemma_key_among_variants_is_listed(index, variants_of(lowercase_of(url)), lowercase_of(url));
}

/// No recorded repository is listed twice in an answer.
pub proof fn lemma_each_match_is_listed_once(index: Map<Seq<char>, RepoRecordView>, url: Seq<char>)
    requires
        keyed_by_lowercase(index),
    ensures
        answer_of(index, variants_of(lowercase_of(url))).existing.no_duplicates(),
{
    lemma_variants_shape(lowercase_of(url));
    lemma_listed_addresses_differ(index, variants_of(lowercase_of(url)));
}

} // verus!

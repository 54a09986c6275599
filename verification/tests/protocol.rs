use repo_archive::index::{GitArchiveIndex, GitRepoAnswer, HuggingfaceArchiveIndex, RepoRecord};
use repo_archive::protocol::{
    render, respond, respond_has_git_repo, respond_has_huggingface_repo, route, Endpoint,
    HasGitRepoRequest, HasHuggingfaceRequest, Request, Response, SUCCESS_STATUS,
};
use serde_json::Value;

fn git_index() -> GitArchiveIndex {
    let mut index = GitArchiveIndex::new();
    index.insert(RepoRecord::new(
        "https://github.com/rust-lang/rust.git",
        "rust-lang/rust.git",
        "abc123",
        "2025-01-01 12:00:00",
        "never",
    ));
    index.insert(RepoRecord::new("git://github.com/rust-lang/rust", "other", "def", "d", "f"));
    index
}

fn model_index() -> HuggingfaceArchiveIndex {
    let mut index = HuggingfaceArchiveIndex::new();
    index.insert("meta-llama/Llama-2-7b-hf");
    index
}

fn git_request(url: &str) -> Request {
    Request::HasGitRepo(Ok(HasGitRepoRequest { url: url.to_string() }))
}

fn model_request(repo: &str) -> Request {
    Request::HasHuggingfaceRepo(Ok(HasHuggingfaceRequest { repo: repo.to_string() }))
}

fn failure(error: &str, details: Option<&str>) -> Response {
    Response::Failure { error: error.to_string(), details: details.map(|d| d.to_string()) }
}

fn parsed(response: &Response) -> Value {
    serde_json::from_str(&render(response)).unwrap()
}

#[test]
fn route_knows_the_two_endpoints() {
    assert_eq!(route("/has_git_repo"), Endpoint::HasGitRepo);
    assert_eq!(route("/has_huggingface_repo"), Endpoint::HasHuggingfaceRepo);
}

#[test]
fn route_takes_paths_exactly() {
    for path in [
        "",
        "/",
        "has_git_repo",
        "/has_git_repo/",
        "/HAS_GIT_REPO",
        "/has_git_repo?x=1",
        "/has_huggingface_repo ",
        "/has_git_rep",
        "/other",
    ] {
        assert_eq!(route(path), Endpoint::Invalid, "{path:?}");
    }
}

#[test]
fn a_known_git_repository_is_answered_with_metadata() {
    let response = respond(&git_request("github.com/rust-lang/rust"), &git_index(), None);
    assert_eq!(
        response,
        Response::GitRepo(GitRepoAnswer {
            exists: true,
            existing: vec![
                "https://github.com/rust-lang/rust.git".to_string(),
                "git://github.com/rust-lang/rust".to_string(),
            ],
            metadata: Some(RepoRecord::new(
                "https://github.com/rust-lang/rust.git",
                "rust-lang/rust.git",
                "abc123",
                "2025-01-01 12:00:00",
                "never",
            )),
        })
    );
}

#[test]
fn an_unknown_git_repository_is_answered_without_metadata() {
    let response =
        respond(&git_request("https://github.com/rust-lang/miri.git"), &git_index(), None);
    assert_eq!(
        response,
        Response::GitRepo(GitRepoAnswer { exists: false, existing: vec![], metadata: None })
    );
    let json = parsed(&response);
    assert_eq!(json["exists"].as_bool(), Some(false));
    assert_eq!(json["existing"].as_array().map(|a| a.len()), Some(0));
    assert!(json.get("metadata").is_none());
    assert!(json.get("error").is_none());
}

#[test]
fn a_malformed_candidate_is_answered_all_the_same() {
    for url in ["", "://", "not a url at all", ".git", "\u{0}"] {
        let response = respond(&git_request(url), &git_index(), None);
        assert_eq!(
            response,
            Response::GitRepo(GitRepoAnswer { exists: false, existing: vec![], metadata: None })
        );
    }
}

#[test]
fn an_unreadable_payload_is_a_parse_error() {
    let request = Request::HasGitRepo(Err("missing field `url` at line 1 column 2".to_string()));
    let response = respond(&request, &git_index(), None);
    assert_eq!(
        response,
        failure("json parse error", Some("missing field `url` at line 1 column 2"))
    );
    let request = Request::HasHuggingfaceRepo(Err("expected value".to_string()));
    let response = respond(&request, &git_index(), Some(&model_index()));
    assert_eq!(response, failure("json parse error", Some("expected value")));
}

#[test]
fn a_parse_error_is_no_answer() {
    let request = Request::HasGitRepo(Err("eof".to_string()));
    let json = parsed(&respond(&request, &git_index(), None));
    assert_eq!(json["error"].as_str(), Some("json parse error"));
    assert_eq!(json["details"].as_str(), Some("eof"));
    assert!(json.get("exists").is_none());
}

#[test]
fn a_model_repository_is_answered_without_regard_to_case() {
    let index = model_index();
    assert_eq!(
        respond(&model_request("META-LLAMA/llama-2-7B-HF"), &git_index(), Some(&index)),
        Response::HuggingfaceRepo { exists: true }
    );
    assert_eq!(
        respond(&model_request("meta-llama/llama-3"), &git_index(), Some(&index)),
        Response::HuggingfaceRepo { exists: false }
    );
}

#[test]
fn without_an_archive_of_model_repositories_the_question_fails() {
    let response = respond(&model_request("meta-llama/Llama-2-7b-hf"), &git_index(), None);
    assert_eq!(
        response,
        failure("instance started without huggingface archive provided", None)
    );
    assert_eq!(
        render(&response),
        "{\"error\":\"instance started without huggingface archive provided\"}"
    );
    let json = parsed(&response);
    assert!(json.get("exists").is_none());
}

#[test]
fn an_unreadable_payload_is_reported_before_the_missing_archive() {
    let request = Request::HasHuggingfaceRepo(Err("bad".to_string()));
    assert_eq!(respond(&request, &git_index(), None), failure("json parse error", Some("bad")));
}

#[test]
fn an_unknown_endpoint_is_invalid() {
    let response = respond(&Request::Unknown, &git_index(), Some(&model_index()));
    assert_eq!(response, failure("invalid endpoint", None));
    assert_eq!(render(&response), "{\"error\":\"invalid endpoint\"}");
}

#[test]
fn the_responders_of_the_endpoints_agree_with_respond() {
    let git = git_index();
    let models = model_index();
    let decoded = Ok(HasGitRepoRequest { url: "GITHUB.com/rust-lang/rust".to_string() });
    assert_eq!(
        respond_has_git_repo(&decoded, &git),
        respond(&git_request("GITHUB.com/rust-lang/rust"), &git, None)
    );
    assert_eq!(
        respond_has_git_repo(&Err("x".to_string()), &git),
        failure("json parse error", Some("x"))
    );
    let decoded = Ok(HasHuggingfaceRequest { repo: "a/b".to_string() });
    assert_eq!(
        respond_has_huggingface_repo(&decoded, Some(&models)),
        Response::HuggingfaceRepo { exists: false }
    );
    assert_eq!(respond_has_huggingface_repo(&decoded, None), Response::not_configured());
}

#[test]
fn the_named_failures() {
    assert_eq!(Response::invalid_endpoint(), failure("invalid endpoint", None));
    assert_eq!(
        Response::not_configured(),
        failure("instance started without huggingface archive provided", None)
    );
    assert_eq!(Response::parse_failure("why"), failure("json parse error", Some("why")));
    assert_eq!(
        Response::handling_failure("logic error"),
        failure("error handling request", Some("logic error"))
    );
}

#[test]
fn every_response_has_the_same_status() {
    assert_eq!(SUCCESS_STATUS, 200);
    assert_eq!(Response::invalid_endpoint().status(), 200);
    assert_eq!(Response::HuggingfaceRepo { exists: true }.status(), 200);
    assert_eq!(Response::parse_failure("x").status(), 200);
    assert_eq!(
        Response::GitRepo(GitRepoAnswer { exists: false, existing: vec![], metadata: None })
            .status(),
        200
    );
}

#[test]
fn render_writes_an_answer_with_metadata() {
    let response = Response::GitRepo(GitRepoAnswer {
        exists: true,
        existing: vec!["https://h/a.git".to_string(), "h/a".to_string()],
        metadata: Some(RepoRecord::new("https://h/a.git", "a.git", "abc", "2025-01-01", "never")),
    });
    assert_eq!(
        render(&response),
        "{\"existing\":[\"https://h/a.git\",\"h/a\"],\"exists\":true,\
         \"metadata\":{\"commit_date\":\"2025-01-01\",\"commit_hash\":\"abc\",\
         \"last_fetch\":\"never\",\"path\":\"a.git\",\"url\":\"https://h/a.git\"}}"
    );
}

#[test]
fn render_writes_an_answer_without_metadata() {
    let response =
        Response::GitRepo(GitRepoAnswer { exists: false, existing: vec![], metadata: None });
    assert_eq!(render(&response), "{\"existing\":[],\"exists\":false}");
}

#[test]
fn render_writes_the_answer_about_a_model_repository() {
    assert_eq!(render(&Response::HuggingfaceRepo { exists: true }), "{\"exists\":true}");
    assert_eq!(render(&Response::HuggingfaceRepo { exists: false }), "{\"exists\":false}");
}

#[test]
fn render_writes_failures() {
    assert_eq!(
        render(&Response::parse_failure("expected value at line 1 column 1")),
        "{\"details\":\"expected value at line 1 column 1\",\"error\":\"json parse error\"}"
    );
    assert_eq!(
        render(&Response::handling_failure("logic error")),
        "{\"details\":\"logic error\",\"error\":\"error handling request\"}"
    );
}

#[test]
fn render_escapes_what_json_wants_escaped() {
    let response = Response::parse_failure("a \"quoted\" \\ line\nbreak\ttab \u{1} é");
    assert_eq!(
        render(&response),
        "{\"details\":\"a \\\"quoted\\\" \\\\ line\\nbreak\\ttab \\u0001 é\",\
         \"error\":\"json parse error\"}"
    );
    let json = parsed(&response);
    assert_eq!(json["details"].as_str(), Some("a \"quoted\" \\ line\nbreak\ttab \u{1} é"));
}

#[test]
fn render_is_read_back_as_the_same_values() {
    let record = RepoRecord::new("u\"rl", "p,ath", "h", "2025-01-01 12:00:00", "never");
    let response = Response::GitRepo(GitRepoAnswer {
        exists: true,
        existing: vec!["one".to_string(), "t\"wo".to_string(), "".to_string()],
        metadata: Some(record),
    });
    let json = parsed(&response);
    assert_eq!(json["exists"].as_bool(), Some(true));
    let existing: Vec<&str> =
        json["existing"].as_array().unwrap().iter().filter_map(|v| v.as_str()).collect();
    assert_eq!(existing, vec!["one", "t\"wo", ""]);
    assert_eq!(json["metadata"]["url"].as_str(), Some("u\"rl"));
    assert_eq!(json["metadata"]["path"].as_str(), Some("p,ath"));
    assert_eq!(json["metadata"]["commit_hash"].as_str(), Some("h"));
    assert_eq!(json["metadata"]["commit_date"].as_str(), Some("2025-01-01 12:00:00"));
    assert_eq!(json["metadata"]["last_fetch"].as_str(), Some("never"));
    assert_eq!(json.as_object().unwrap().len(), 3);
    assert_eq!(json["metadata"].as_object().unwrap().len(), 5);
}

#[test]
fn render_writes_what_the_json_library_writes() {
    // The same value built with the library's own types and written by it.
    let mut metadata = serde_json::Map::new();
    metadata.insert("url".to_string(), Value::String("https://h/a.git".to_string()));
    metadata.insert("path".to_string(), Value::String("a.git".to_string()));
    metadata.insert("commit_hash".to_string(), Value::String("abc".to_string()));
    metadata.insert("commit_date".to_string(), Value::String("2025".to_string()));
    metadata.insert("last_fetch".to_string(), Value::String("never".to_string()));
    let mut object = serde_json::Map::new();
    object.insert("exists".to_string(), Value::Bool(true));
    object.insert(
        "existing".to_string(),
        Value::Array(vec![Value::String("https://h/a.git".to_string())]),
    );
    object.insert("metadata".to_string(), Value::Object(metadata));
    let expected = Value::Object(object);

    let response = Response::GitRepo(GitRepoAnswer {
        exists: true,
        existing: vec!["https://h/a.git".to_string()],
        metadata: Some(RepoRecord::new("https://h/a.git", "a.git", "abc", "2025", "never")),
    });
    assert_eq!(parsed(&response), expected);
}

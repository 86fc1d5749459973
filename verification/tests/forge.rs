use depotd::adapters::forge::{
    acl_verdict, api_base, check_runs_path, classify_check_runs, file_credentials, gh_credentials,
    open_pull_requests_path, owner_only, pull_request_path, pulls_path, read_answer, read_found,
    read_opened, read_pull_request, required_text, token_acl_is_restricted, truncated,
    CheckRun, CheckRunListing, CheckRunPage, Checks, CredentialSource, ForgeError, OpenedFields,
    PrState, PullRequestFields, RepoSlug, TokenAclIdentity, created_answer,
};
use depotd::adapters::process::Output;

#[test]
fn accepts_only_the_owner_set() {
    assert!(token_acl_is_restricted(&[
        TokenAclIdentity::CurrentUser,
        TokenAclIdentity::Owner,
        TokenAclIdentity::Administrators,
        TokenAclIdentity::System,
    ]));
    assert!(token_acl_is_restricted(&[]));
}

#[test]
fn refuses_any_other_allow_ace() {
    assert!(!token_acl_is_restricted(&[
        TokenAclIdentity::CurrentUser,
        TokenAclIdentity::Other,
    ]));
}

fn run(status: Option<&str>, conclusion: Option<&str>) -> CheckRun {
    CheckRun {
        status: status.map(str::to_owned),
        conclusion: conclusion.map(str::to_owned),
    }
}

#[test]
fn a_repository_path_is_owner_slash_name() {
    assert_eq!(RepoSlug::new("nunoras", "depot").path(), "nunoras/depot");
}

#[test]
fn no_check_runs_is_unknown() {
    assert_eq!(classify_check_runs("u", "b", &vec![]).unwrap(), Checks::Unknown);
}

#[test]
fn a_running_check_makes_the_checks_pending() {
    let runs = vec![
        run(Some("completed"), Some("failure")),
        run(Some("in_progress"), None),
    ];
    assert_eq!(classify_check_runs("u", "b", &runs).unwrap(), Checks::Pending);
}

#[test]
fn a_failing_conclusion_fails_the_checks_and_neutral_ones_pass() {
    let failing = vec![
        run(Some("completed"), Some("success")),
        run(Some("completed"), Some("timed_out")),
    ];
    assert_eq!(classify_check_runs("u", "b", &failing).unwrap(), Checks::Failing);
    let passing = vec![
        run(Some("completed"), Some("success")),
        run(Some("completed"), Some("skipped")),
        run(Some("completed"), Some("neutral")),
    ];
    assert_eq!(classify_check_runs("u", "b", &passing).unwrap(), Checks::Passing);
}

#[test]
fn an_unknown_conclusion_is_malformed() {
    let runs = vec![run(Some("completed"), Some("weird"))];
    match classify_check_runs("https://x/y", "body", &runs) {
        Err(ForgeError::Malformed { url, detail }) => {
            assert_eq!(url, "https://x/y");
            assert_eq!(detail, "\"weird\" is not a check conclusion depot knows");
        }
        other => panic!("unexpected {other:?}"),
    }
    let runs = vec![run(None, None)];
    match classify_check_runs("u", "  the body  ", &runs) {
        Err(ForgeError::Malformed { detail, .. }) => {
            assert_eq!(detail, "a check run has no status in the body")
        }
        other => panic!("unexpected {other:?}"),
    }
}

#[test]
fn a_long_answer_is_quoted_in_its_first_two_hundred_characters() {
    let body = format!("  {}  ", "a".repeat(250));
    let quoted = truncated(&body);
    assert_eq!(quoted, format!("{}...", "a".repeat(200)));
    assert_eq!(truncated("  short  "), "short");
}

#[test]
fn answers_map_statuses_to_errors() {
    assert_eq!(read_answer("u", 200, "ok".to_owned()).unwrap(), "ok");
    assert!(matches!(read_answer("u", 401, String::new()), Err(ForgeError::Unauthorized { .. })));
    assert!(matches!(read_answer("u", 403, String::new()), Err(ForgeError::Unauthorized { .. })));
    assert!(matches!(read_answer("u", 404, String::new()), Err(ForgeError::NotFound { .. })));
    match read_answer("u", 500, " oops \n".to_owned()) {
        Err(ForgeError::Status { status, body, .. }) => {
            assert_eq!(status, 500);
            assert_eq!(body, "oops");
        }
        other => panic!("unexpected {other:?}"),
    }
    assert!(created_answer("u", 201, "").is_ok());
    assert!(matches!(created_answer("u", 200, ""), Err(ForgeError::Status { status: 200, .. })));
}

#[test]
fn error_messages_name_what_failed() {
    let error = ForgeError::Status { url: "https://api/x".to_owned(), status: 502, body: "bad".to_owned() };
    assert_eq!(error.message(), "GitHub answered 502 for https://api/x: bad");
    let error = ForgeError::EmptyToken { path: "/h/github-token".to_owned() };
    assert_eq!(error.message(), "/h/github-token holds no token");
}

#[test]
fn check_runs_are_read_page_by_page() {
    let full: Vec<CheckRun> = (0..100).map(|_| run(Some("completed"), Some("success"))).collect();
    let mut listing = CheckRunListing::first(
        "p1".to_owned(),
        "b1".to_owned(),
        CheckRunPage { total_count: Some(101), check_runs: Some(full) },
    )
    .unwrap();
    assert_eq!(listing.next_page().unwrap(), Some(2));
    listing
        .add_page(
            2,
            "p2".to_owned(),
            "b2".to_owned(),
            CheckRunPage { total_count: Some(101), check_runs: Some(vec![run(Some("completed"), Some("failure"))]) },
        )
        .unwrap();
    assert_eq!(listing.next_page().unwrap(), None);
    assert_eq!(listing.verdict().unwrap(), Checks::Failing);
}

#[test]
fn a_page_with_another_total_is_refused_and_a_short_list_never_passes() {
    let full: Vec<CheckRun> = (0..100).map(|_| run(Some("completed"), Some("success"))).collect();
    let mut listing = CheckRunListing::first(
        "p1".to_owned(),
        "b1".to_owned(),
        CheckRunPage { total_count: Some(150), check_runs: Some(full) },
    )
    .unwrap();
    match listing.add_page(2, "p2".to_owned(), "b2".to_owned(), CheckRunPage { total_count: Some(151), check_runs: Some(vec![]) }) {
        Err(ForgeError::Malformed { detail, .. }) => {
            assert_eq!(detail, "check-runs total_count changed from 150 to 151 across pages")
        }
        other => panic!("unexpected {other:?}"),
    }
    let short = CheckRunListing::first(
        "p1".to_owned(),
        "b1".to_owned(),
        CheckRunPage { total_count: Some(3), check_runs: Some(vec![run(Some("completed"), Some("success"))]) },
    )
    .unwrap();
    assert_eq!(short.next_page().unwrap(), None);
    match short.verdict() {
        Err(ForgeError::Malformed { detail, .. }) => assert_eq!(
            detail,
            "check-runs listed 3 runs but only returned 1; a truncated list is never treated as passing"
        ),
        other => panic!("unexpected {other:?}"),
    }
    assert!(CheckRunListing::first("p".to_owned(), "b".to_owned(), CheckRunPage { total_count: None, check_runs: None }).is_err());
}

#[test]
fn a_pull_request_answer_reads_its_state() {
    let fields = |state: &str, merged: Option<bool>| PullRequestFields {
        number: Some(7),
        html_url: Some("https://github.com/o/r/pull/7".to_owned()),
        state: Some(state.to_owned()),
        head_sha: Some("abc".to_owned()),
        merged,
    };
    let open = read_pull_request("u", "b", fields("open", None)).unwrap();
    assert_eq!(open.state, PrState::Open);
    assert_eq!(open.number, 7);
    assert_eq!(open.head, "abc");
    assert_eq!(read_pull_request("u", "b", fields("closed", Some(true))).unwrap().state, PrState::Merged);
    assert_eq!(read_pull_request("u", "b", fields("closed", Some(false))).unwrap().state, PrState::Closed);
    assert!(read_pull_request("u", "b", fields("closed", None)).is_err());
    match read_pull_request("u", "b", fields("draft", None)) {
        Err(ForgeError::Malformed { detail, .. }) => {
            assert_eq!(detail, "\"draft\" is not a pull request state depot knows")
        }
        other => panic!("unexpected {other:?}"),
    }
}

#[test]
fn opened_and_found_pull_requests_need_a_number_and_a_url() {
    let opened = read_opened("u", "b", OpenedFields { number: Some(3), html_url: Some("h".to_owned()) }).unwrap();
    assert_eq!(opened.number, 3);
    assert_eq!(opened.url, "h");
    assert!(read_opened("u", "b", OpenedFields { number: Some(3), html_url: Some(String::new()) }).is_err());
    assert_eq!(read_found("u", "b", None).unwrap(), None);
    match required_text("u", None, "html_url", "{}") {
        Err(ForgeError::Malformed { detail, .. }) => assert_eq!(detail, "no html_url in {}"),
        other => panic!("unexpected {other:?}"),
    }
}

#[test]
fn request_paths_name_the_repository() {
    let repo = RepoSlug::new("o", "r");
    assert_eq!(check_runs_path(&repo, "abc", 2), "/repos/o/r/commits/abc/check-runs?per_page=100&page=2");
    assert_eq!(pull_request_path(&repo, 12), "/repos/o/r/pulls/12");
    assert_eq!(open_pull_requests_path(&repo, "feat"), "/repos/o/r/pulls?state=open&head=o%3Afeat");
    assert_eq!(pulls_path(&repo), "/repos/o/r/pulls");
    assert_eq!(api_base("https://api.github.com//"), "https://api.github.com");
}

#[test]
fn credentials_come_from_gh_or_a_token_file() {
    let ok = Output { status: Some(0), stdout: " tok \n".to_owned(), stderr: String::new() };
    let creds = gh_credentials(Some(&ok)).unwrap();
    assert_eq!(creds.token, "tok");
    assert_eq!(creds.source, CredentialSource::GhCli);
    let failed = Output { status: Some(1), stdout: "tok".to_owned(), stderr: String::new() };
    assert!(gh_credentials(Some(&failed)).is_none());
    assert!(gh_credentials(None).is_none());
    let from_file = file_credentials("/h/github-token", "secret\n").unwrap();
    assert_eq!(from_file.source, CredentialSource::TokenFile("/h/github-token".to_owned()));
    assert!(matches!(file_credentials("/h/t", "  \n"), Err(ForgeError::EmptyToken { .. })));
}

#[test]
fn a_token_file_must_be_owner_only() {
    assert!(owner_only("/t", 0o100600).is_ok());
    match owner_only("/t", 0o100644) {
        Err(ForgeError::InsecureTokenFile { detail, .. }) => assert_eq!(detail, "mode 644"),
        other => panic!("unexpected {other:?}"),
    }
    assert!(acl_verdict("/t", &[TokenAclIdentity::Owner]).is_ok());
    assert!(acl_verdict("/t", &[TokenAclIdentity::Other]).is_err());
}

use depotd::adapters::forge::{
    check_run_page_answer, first_opened_answer, opened_fields_answer, pull_request_fields_answer,
    ForgeError as AnswerError,
};

#[test]
fn answers_are_read_into_the_fields_depot_uses() {
    let page = check_run_page_answer(
        "u",
        "{\"total_count\":2,\"check_runs\":[{\"status\":\"completed\",\"conclusion\":\"success\"},{\"status\":\"queued\"}]}",
    )
    .unwrap();
    assert_eq!(page.total_count, Some(2));
    let runs = page.check_runs.unwrap();
    assert_eq!(runs[0].conclusion.as_deref(), Some("success"));
    assert_eq!(runs[1].conclusion, None);
    assert!(matches!(check_run_page_answer("u", "not json"), Err(AnswerError::Malformed { .. })));
    let fields = pull_request_fields_answer(
        "u",
        "{\"number\":3,\"html_url\":\"https://x/3\",\"state\":\"open\",\"head\":{\"sha\":\"abc\"},\"merged\":false}",
    )
    .unwrap();
    assert_eq!(fields.number, Some(3));
    assert_eq!(fields.head_sha.as_deref(), Some("abc"));
    assert_eq!(fields.merged, Some(false));
    let opened = opened_fields_answer("u", "{\"number\":5,\"html_url\":\"https://x/5\"}").unwrap();
    assert_eq!(opened.number, Some(5));
    assert_eq!(first_opened_answer("u", "[]").unwrap(), None);
    assert_eq!(first_opened_answer("u", "[{\"number\":6}]").unwrap().unwrap().number, Some(6));
}

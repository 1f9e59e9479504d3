use remendo::git::{Credential, FakeGit, GitCall, GitCli, GitError, GitOutput, parse_credential};
use remendo::git::command::{GitQuery, call_args, call_dir, config_value, credential_outcome, credential_request, join_words, query_args, remote_url_outcome, repo_root_outcome, run_outcome, spawn_error, trimmed};

#[test]
fn credential_output_is_parsed() {
    let stdout = "protocol=https\nhost=gerrit.corp\nusername=guilherme\npassword=s3cret\n";
    let cred = parse_credential(stdout, "gerrit.corp").ok().unwrap();
    assert_eq!(cred.username, "guilherme");
    assert_eq!(cred.password, "s3cret");
}

#[test]
fn a_password_containing_equals_survives_parsing() {
    let cred = parse_credential("username=u\npassword=ab==cd=\n", "h").ok().unwrap();
    assert_eq!(cred.password, "ab==cd=");
}

#[test]
fn a_helper_returning_no_password_is_no_credential() {
    let err = parse_credential("username=u\n", "gerrit.corp").err().unwrap();
    assert!(matches!(err, GitError::NoCredential { .. }));
    assert!(err.describe().contains("gerrit.corp"), "names the host");
}

#[test]
fn unrecognized_lines_are_ignored() {
    let stdout = "capability[]=authtype\nusername=u\npassword=p\nquit=0\n";
    assert!(parse_credential(stdout, "h").is_ok());
}

#[test]
fn a_later_line_for_the_same_key_wins() {
    let cred = parse_credential("username=a\npassword=1\nusername=b\r\n", "h").ok().unwrap();
    assert_eq!(cred.username, "b");
    assert_eq!(cred.password, "1");
}

#[test]
fn debug_redacts_the_password() {
    let cred = Credential { username: "guilherme".into(), password: "s3cret".into() };
    let shown = cred.redacted();
    assert!(shown.contains("guilherme"));
    assert!(!shown.contains("s3cret"), "password leaked: {shown}");
    assert!(shown.contains("redacted"));
}

#[test]
fn a_clone_fake_answers_root_and_origin() {
    let git = FakeGit::in_clone("/repo", "https://gerrit.corp/a/proj");
    assert_eq!(git.repo_root().unwrap(), "/repo");
    assert_eq!(git.remote_url("origin").unwrap(), "https://gerrit.corp/a/proj");
}

#[test]
fn outside_a_clone_repo_root_fails() {
    let err = FakeGit::outside_a_clone().repo_root().unwrap_err();
    assert!(matches!(err, GitError::NotAClone { .. }));
}

#[test]
fn an_unset_config_key_is_none() {
    let git = FakeGit::in_clone("/repo", "u").with_config("http.sslCAInfo", "/ca.pem");
    assert_eq!(git.config_get("http.sslCAInfo").unwrap().as_deref(), Some("/ca.pem"));
    assert_eq!(git.config_get("http.other").unwrap(), None);
}

#[test]
fn a_fake_without_a_credential_names_the_host() {
    let git = FakeGit::in_clone("/repo", "u").without_credential();
    let err = git.fill_credential("gerrit.corp").err().unwrap();
    assert!(err.describe().contains("gerrit.corp"));
}

#[test]
fn mutating_calls_are_recorded_in_order() {
    let mut git = FakeGit::in_clone("/repo", "u");
    git.fetch("origin", "refs/changes/45/12345/3").unwrap();
    git.stage("/wt", "src/a.rs").unwrap();
    git.push("/wt", "HEAD:refs/for/main").unwrap();
    assert_eq!(
        git.calls(),
        vec![
            GitCall::Fetch { remote: "origin".into(), refspec: "refs/changes/45/12345/3".into() },
            GitCall::Stage { worktree: "/wt".into(), path: "src/a.rs".into() },
            GitCall::Push { worktree: "/wt".into(), refspec: "HEAD:refs/for/main".into() },
        ]
    );
}

#[test]
fn amend_records_whether_the_message_was_rewritten() {
    let mut git = FakeGit::in_clone("/repo", "u");
    git.commit_amend("/wt", None).unwrap();
    git.commit_amend("/wt", Some("new subject")).unwrap();
    assert_eq!(
        git.calls(),
        vec![
            GitCall::CommitAmend { worktree: "/wt".into(), message: None },
            GitCall::CommitAmend { worktree: "/wt".into(), message: Some("new subject".into()) },
        ]
    );
}

#[test]
fn a_missing_remote_on_the_fake_names_itself() {
    let err = FakeGit::in_clone("/repo", "u").remote_url("nope").unwrap_err();
    assert!(err.describe().contains("nope"), "{}", err.describe());
}

fn failed(status: &str, stderr: &str) -> GitOutput {
    GitOutput { success: false, status: status.into(), stdout: String::new(), stderr: stderr.into() }
}

fn succeeded(stdout: &str) -> GitOutput {
    GitOutput { success: true, status: "exit status: 0".into(), stdout: stdout.into(), stderr: String::new() }
}

#[test]
fn an_unset_config_key_is_none_not_an_error() {
    let query = GitQuery::ConfigGet { key: "remendo.definitely.unset.key".into() };
    assert_eq!(query_args(&query), vec!["config", "--get", "remendo.definitely.unset.key"]);
    // git exits 1 for a key that is not set.
    let value = config_value(&failed("exit status: 1", ""));
    assert_eq!(value, None, "an unset key is not a failure");
}

#[test]
fn a_missing_remote_names_itself() {
    let query = GitQuery::RemoteUrl { remote: "nope".into() };
    assert_eq!(query_args(&query), vec!["remote", "get-url", "nope"]);
    let err = remote_url_outcome("nope", &failed("exit status: 2", "error: No such remote 'nope'")).unwrap_err();
    let msg = err.describe();
    assert!(msg.contains("nope"), "{msg}");
}

#[test]
fn a_set_config_value_is_trimmed() {
    assert_eq!(config_value(&succeeded("  /etc/ssl/corp.pem\n")), Some("/etc/ssl/corp.pem".to_string()));
    assert_eq!(config_value(&succeeded(" \n")), None, "an empty value counts as unset");
}

#[test]
fn a_remote_url_is_trimmed() {
    assert_eq!(remote_url_outcome("origin", &succeeded("ssh://me@gerrit.corp:29418/proj\n")).unwrap(), "ssh://me@gerrit.corp:29418/proj");
}

#[test]
fn outside_a_clone_rev_parse_fails_naming_the_directory() {
    assert_eq!(query_args(&GitQuery::RepoRoot), vec!["rev-parse", "--show-toplevel"]);
    let err = repo_root_outcome("/tmp/elsewhere", &failed("exit status: 128", "fatal: not a git repository")).unwrap_err();
    assert_eq!(err, GitError::NotAClone { cwd: "/tmp/elsewhere".into() });
    assert_eq!(repo_root_outcome("/repo/src", &succeeded("/repo\n")).unwrap(), "/repo");
}

#[test]
fn a_failed_command_reports_its_command_line_status_and_stderr() {
    let args = call_args(&GitCall::Push { worktree: "/state/wt".into(), refspec: "HEAD:refs/for/main".into() });
    assert_eq!(args, vec!["push", "origin", "HEAD:refs/for/main"]);
    let err = run_outcome(&args, &failed("exit status: 1", "  remote rejected: no new changes\n")).unwrap_err();
    assert_eq!(
        err,
        GitError::CommandFailed {
            command: "push origin HEAD:refs/for/main".into(),
            status: "exit status: 1".into(),
            stderr: "remote rejected: no new changes".into(),
        }
    );
    assert_eq!(run_outcome(&args, &succeeded(" done \n")).unwrap(), "done");
}

#[test]
fn an_amend_keeps_the_message_unless_one_is_given() {
    let keep = GitCall::CommitAmend { worktree: "/wt".into(), message: None };
    assert_eq!(call_args(&keep), vec!["commit", "--amend", "--no-edit"]);
    let rewrite = GitCall::CommitAmend { worktree: "/wt".into(), message: Some("Tighten the parser".into()) };
    assert_eq!(call_args(&rewrite), vec!["commit", "--amend", "-m", "Tighten the parser"]);
    assert_eq!(call_dir(&rewrite), Some("/wt"));
}

#[test]
fn worktree_calls_run_in_the_worktree_and_the_rest_in_the_clone() {
    let add = GitCall::WorktreeAdd { path: "/state/wt".into(), revision: "sha3".into() };
    assert_eq!(call_args(&add), vec!["worktree", "add", "--detach", "/state/wt", "sha3"]);
    assert_eq!(call_dir(&add), None);
    let fetch = GitCall::Fetch { remote: "origin".into(), refspec: "refs/changes/45/12345/3".into() };
    assert_eq!(call_args(&fetch), vec!["fetch", "origin", "refs/changes/45/12345/3"]);
    let stage = GitCall::Stage { worktree: "/state/wt".into(), path: "src/a.rs".into() };
    assert_eq!(call_args(&stage), vec!["add", "--", "src/a.rs"]);
    assert_eq!(call_dir(&stage), Some("/state/wt"));
}

#[test]
fn a_credential_request_names_https_and_the_host() {
    assert_eq!(credential_request("gerrit.corp"), "protocol=https\nhost=gerrit.corp\n\n");
    assert_eq!(query_args(&GitQuery::CredentialFill), vec!["credential", "fill"]);
    match credential_outcome("gerrit.corp", &failed("exit status: 1", "")) {
        Err(err) => assert_eq!(err, GitError::NoCredential { host: "gerrit.corp".into() }),
        Ok(_) => panic!("a failed helper gave a credential"),
    }
    let cred = credential_outcome("gerrit.corp", &succeeded("username=u\npassword=p\n")).unwrap();
    assert_eq!(cred.username, "u");
    assert_eq!(cred.password, "p");
}

#[test]
fn a_missing_git_is_told_apart_from_other_spawn_failures() {
    assert_eq!(spawn_error(true, "fetch", "No such file"), GitError::GitNotFound);
    assert_eq!(
        spawn_error(false, "fetch", "permission denied"),
        GitError::Spawn { command: "fetch".into(), message: "permission denied".into() }
    );
}

#[test]
fn words_join_with_single_spaces() {
    assert_eq!(join_words(&[]), "");
    assert_eq!(join_words(&["fetch".to_string()]), "fetch");
    assert_eq!(join_words(&["fetch".to_string(), "origin".to_string()]), "fetch origin");
    assert_eq!(trimmed("\t x y \n"), "x y");
}

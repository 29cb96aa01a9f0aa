use hive::executor::{ExecutorError, OutputFile};
use hive::github_push::{commit_message, GitHubAnswer, GitHubCall, GitHubPush, PushPhase, TreeEntry};
use hive::webhook::webhook_outcome;

fn file(path: &str, content: &str, binary: bool) -> OutputFile {
    OutputFile { path: path.to_string(), content: content.to_string(), binary }
}

fn got(s: &str) -> GitHubAnswer {
    GitHubAnswer::Got(s.to_string())
}

#[test]
fn push_to_existing_branch() {
    let files = vec![file("out/a.txt", "hello", false), file("out/b.bin", "Man", true)];
    let (push, call) = GitHubPush::start("acme/site", "results", files, "Update".to_string());
    let mut p = push.unwrap();
    assert_eq!(p.owner, "acme");
    assert_eq!(p.repo, "site");
    assert!(matches!(call, GitHubCall::GetRef { reference } if reference == "heads/results"));
    match p.step(got("base1")) {
        GitHubCall::CreateBlob { content, encoding } => {
            assert_eq!(content, "hello");
            assert_eq!(encoding, "utf-8");
        }
        other => panic!("unexpected {:?}", other),
    }
    match p.step(got("blob1")) {
        GitHubCall::CreateBlob { content, encoding } => {
            assert_eq!(content, "TWFu");
            assert_eq!(encoding, "base64");
        }
        other => panic!("unexpected {:?}", other),
    }
    match p.step(got("blob2")) {
        GitHubCall::CreateTree { base, entries } => {
            assert_eq!(base, "base1");
            assert_eq!(
                entries,
                vec![
                    TreeEntry { path: "out/a.txt".to_string(), mode: "100644".to_string(), sha: "blob1".to_string() },
                    TreeEntry { path: "out/b.bin".to_string(), mode: "100644".to_string(), sha: "blob2".to_string() },
                ]
            );
        }
        other => panic!("unexpected {:?}", other),
    }
    match p.step(got("tree1")) {
        GitHubCall::CreateCommit { message, tree, parent } => {
            assert_eq!((message.as_str(), tree.as_str(), parent.as_str()), ("Update", "tree1", "base1"));
        }
        other => panic!("unexpected {:?}", other),
    }
    assert!(matches!(p.step(got("c1")), GitHubCall::UpdateRef { reference, sha, force } if reference == "heads/results" && sha == "c1" && !force));
    assert!(matches!(p.step(GitHubAnswer::Done), GitHubCall::Finish(Ok(()))));
    assert_eq!(p.phase, PushPhase::Finished);
}

#[test]
fn push_creates_missing_branch() {
    let (push, _) = GitHubPush::start("acme/site", "new", vec![], "m".to_string());
    let mut p = push.unwrap();
    assert!(matches!(p.step(GitHubAnswer::Failed("404".to_string())), GitHubCall::GetRepo));
    assert!(matches!(p.step(got("main")), GitHubCall::GetRef { reference } if reference == "heads/main"));
    assert!(matches!(p.step(got("m1")), GitHubCall::CreateRef { reference, sha } if reference == "refs/heads/new" && sha == "m1"));
    assert!(matches!(p.step(GitHubAnswer::Done), GitHubCall::CreateTree { base, entries } if base == "m1" && entries.is_empty()));
    assert!(matches!(p.step(got("t")), GitHubCall::CreateCommit { .. }));
    match p.step(GitHubAnswer::NoSha) {
        GitHubCall::Finish(Err(ExecutorError::GitPushFailed(m))) => assert_eq!(m, "Missing commit sha"),
        other => panic!("unexpected {:?}", other),
    }
}

#[test]
fn push_failures() {
    match GitHubPush::start("not-a-repo", "b", vec![], "m".to_string()) {
        (None, GitHubCall::Finish(Err(ExecutorError::GitPushFailed(m)))) => {
            assert_eq!(m, "Invalid repo format: not-a-repo. Expected 'owner/repo'")
        }
        other => panic!("unexpected {:?}", other),
    }
    let (push, _) = GitHubPush::start("a/b", "x", vec![file("f", "Ma", true)], "m".to_string());
    let mut p = push.unwrap();
    assert!(matches!(p.step(got("base")), GitHubCall::CreateBlob { content, .. } if content == "TWE="));
    match p.step(GitHubAnswer::Failed("quota".to_string())) {
        GitHubCall::Finish(Err(ExecutorError::GitPushFailed(m))) => assert_eq!(m, "quota"),
        other => panic!("unexpected {:?}", other),
    }
}

#[test]
fn base64_padding() {
    let (push, _) = GitHubPush::start("a/b", "x", vec![file("f", "M", true), file("g", "hello", true)], "m".to_string());
    let mut p = push.unwrap();
    assert!(matches!(p.step(got("base")), GitHubCall::CreateBlob { content, .. } if content == "TQ=="));
    assert!(matches!(p.step(got("b1")), GitHubCall::CreateBlob { content, .. } if content == "aGVsbG8="));
}

#[test]
fn commit_messages_and_webhooks() {
    assert_eq!(commit_message(&None), "Update from adi-executor");
    assert_eq!(commit_message(&Some("Results".to_string())), "Results");
    assert!(webhook_outcome(200, None).is_ok());
    assert!(webhook_outcome(204, Some("")).is_ok());
    match webhook_outcome(404, Some("nope")) {
        Err(ExecutorError::WebhookFailed(m)) => assert_eq!(m, "HTTP 404 Not Found: nope"),
        other => panic!("unexpected {:?}", other),
    }
    match webhook_outcome(599, None) {
        Err(ExecutorError::WebhookFailed(m)) => assert_eq!(m, "HTTP 599 <unknown status code>: unknown"),
        other => panic!("unexpected {:?}", other),
    }
}

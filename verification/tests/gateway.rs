use ironforge_git::cli_gateway::{GitCommandGateway, GitOutput, DEFAULT_TIMEOUT_SECS};
use ironforge_git::ops::{
    archive, base_update_outcome, blob_at, committer_time, conflict_outcome, delete_ref,
    rebase_start, replay_order, rev_parse, signature_verdict,
    try_rev_parse, update_ref, verify_commit, ArchiveFormat, OpsError, RebaseOutcome, RebaseStart,
    ReplayNode,
};

fn output(stdout: &[u8], stderr: &[u8], exit_code: Option<i32>, command: &str) -> GitOutput {
    GitOutput {
        stdout: stdout.to_vec(),
        stderr: stderr.to_vec(),
        exit_code,
        command: command.to_string(),
    }
}

fn version_output() -> GitOutput {
    output(b"git version 2.43.0\n", b"", Some(0), "--version")
}

#[test]
fn test_build_command_line() {
    let gateway = GitCommandGateway::new(&version_output()).unwrap();
    let args = gateway.build_command_line(&["clone", "--bare", "url"], Some("/tmp"));
    assert_eq!(args, vec!["-C", "/tmp", "clone", "--bare", "url"]);
}

#[test]
fn command_line_without_repository_is_the_arguments() {
    let gateway = GitCommandGateway::default();
    assert_eq!(gateway.build_command_line(&["--version"], None), vec!["--version"]);
}

#[test]
fn gateway_is_admitted_only_by_git_version_output() {
    let g = GitCommandGateway::new(&version_output()).unwrap();
    assert_eq!((g.timeout_secs(), g.timeout_subsec_nanos()), (DEFAULT_TIMEOUT_SECS, 0));
    let g = GitCommandGateway::with_timeout(30, 0, &version_output()).unwrap();
    assert_eq!((g.timeout_secs(), g.timeout_subsec_nanos()), (30, 0));
    let half = std::time::Duration::from_millis(1500);
    let g = GitCommandGateway::with_timeout(half.as_secs(), half.subsec_nanos(), &version_output()).unwrap();
    assert_eq!(std::time::Duration::new(g.timeout_secs(), g.timeout_subsec_nanos()), half);
    let err = GitCommandGateway::new(&output(b"  hub 1.0 \n", b"", Some(0), "--version")).unwrap_err();
    assert_eq!(err, "unexpected git --version output: hub 1.0");
}

#[test]
fn test_failing_command() {
    let out = output(b"", b"git: 'nope' is not a git command.\n", Some(1), "nope");
    assert!(!out.success());
    assert_eq!(
        out.ensure_success().unwrap_err(),
        "git nope failed (1): git: 'nope' is not a git command."
    );
    let gateway = GitCommandGateway::default();
    assert!(gateway.run_or_bail(&out).is_err());
}

#[test]
fn signal_exit_is_reported_as_signal() {
    let out = output(b"", b" killed ", None, "gc");
    assert_eq!(out.ensure_success().unwrap_err(), "git gc failed (signal): killed");
    assert!(output(b"x", b"", Some(0), "status").ensure_success().is_ok());
}

#[test]
fn output_text_is_decoded_leniently() {
    let out = output(b"ok\xff", b"", Some(0), "x");
    assert_eq!(out.stdout_str(), "ok\u{fffd}");
}

#[test]
fn repository_errors_name_the_failing_step() {
    let missing = "/nonexistent/ironforge/repo.git";
    assert_eq!(
        rev_parse(missing, "HEAD"),
        Err(OpsError::OpenFailed { path: missing.to_string() })
    );
    assert_eq!(
        try_rev_parse(missing, "HEAD"),
        Err(OpsError::OpenFailed { path: missing.to_string() })
    );
    assert_eq!(
        verify_commit(missing, "abc"),
        Err(OpsError::OpenFailed { path: missing.to_string() })
    );
    assert_eq!(
        OpsError::OpenFailed { path: "r".to_string() }.describe(),
        "failed to open repository: r"
    );
    assert_eq!(
        OpsError::UnresolvedRevision { spec: "v9".to_string() }.describe(),
        "failed to resolve revision 'v9'"
    );
    assert_eq!(OpsError::NotACommit { sha: "t".to_string() }.describe(), "'t' is not a commit");
}

#[test]
fn only_a_valid_signature_verifies() {
    assert!(signature_verdict(Some(true)));
    assert!(!signature_verdict(Some(false)));
    assert!(!signature_verdict(None));
}

fn node(id: &str, time: i64, is_merge: bool, parents: &[&str]) -> ReplayNode {
    ReplayNode {
        id: id.to_string(),
        time,
        is_merge,
        parents_in_set: parents.iter().map(|p| p.to_string()).collect(),
    }
}

#[test]
fn replay_puts_parents_first_and_drops_merges() {
    // feature: b then merge of side branch s; newest first as a walk lists them.
    let nodes = vec![
        node("m", 30, true, &["b", "s"]),
        node("s", 20, false, &[]),
        node("b", 10, false, &[]),
    ];
    assert_eq!(replay_order(nodes).ok().unwrap(), vec!["b", "s"]);
}

#[test]
fn replay_breaks_time_ties_by_position() {
    let nodes = vec![node("x", 5, false, &[]), node("y", 5, false, &[]), node("z", 1, false, &["y"])];
    assert_eq!(replay_order(nodes).ok().unwrap(), vec!["x", "y", "z"]);
}

#[test]
fn replay_refuses_a_cycle() {
    let nodes = vec![node("a", 1, false, &["b"]), node("b", 2, false, &["a"])];
    assert!(replay_order(nodes).is_err());
    assert!(replay_order(Vec::new()).ok().unwrap().is_empty());
}

#[test]
fn conflict_outcome_names_the_commit_and_base() {
    match conflict_outcome(&"abc123".to_string(), "main") {
        RebaseOutcome::Conflict(m) => {
            assert_eq!(m, "commit abc123 conflicts while rebasing onto main");
            assert!(m.contains("conflicts while rebasing onto main"));
        }
        other => panic!("expected a conflict, got {:?}", other),
    }
}

#[test]
fn reference_and_object_operations_report_the_failing_step() {
    let missing = "/nonexistent/ironforge/other.git";
    let open_failed = Err(OpsError::OpenFailed { path: missing.to_string() });
    assert_eq!(update_ref(missing, "refs/heads/x", "abc", "push"), open_failed.clone());
    assert_eq!(delete_ref(missing, "refs/heads/x"), open_failed);
    assert_eq!(blob_at(missing, "HEAD", "README.md"), Err(OpsError::OpenFailed { path: missing.to_string() }));
    assert_eq!(
        archive(missing, "HEAD", ArchiveFormat::Zip),
        Err(OpsError::OpenFailed { path: missing.to_string() })
    );
    assert_eq!(
        OpsError::UnresolvedNewValue { new_sha: "n".to_string(), ref_name: "r".to_string() }.describe(),
        "failed to resolve new value 'n' for 'r'"
    );
    assert_eq!(
        OpsError::RefUpdateFailed { ref_name: "r".to_string(), new_sha: "n".to_string() }.describe(),
        "failed to update ref 'r' to n"
    );
    assert_eq!(
        OpsError::NotABlob { path: "p".to_string(), rev: "v".to_string(), kind: "tree".to_string() }.describe(),
        "'p' in 'v' is not a blob but tree"
    );
    assert_eq!(OpsError::ArchiveFailed.describe(), "failed to write archive");
}

#[test]
fn rebase_decisions() {
    let s = |x: &str| x.to_string();
    assert_eq!(rebase_start(&s("a"), &s("a"), &s("a")), RebaseStart::UpToDate);
    assert_eq!(rebase_start(&s("a"), &s("b"), &s("a")), RebaseStart::FastForward);
    assert_eq!(rebase_start(&s("a"), &s("b"), &s("c")), RebaseStart::Replay);
    assert!(matches!(base_update_outcome(s("h"), true), RebaseOutcome::Rebased(h) if h == "h"));
    assert!(matches!(base_update_outcome(s("h"), false), RebaseOutcome::BaseAdvanced));
    assert_eq!(committer_time(1_700_000_000), "1700000000 +0000");
    assert_eq!(committer_time(-5), "-5 +0000");
}

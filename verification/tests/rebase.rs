use ironforge_git::ops::{
    blob_at, blob_outcome, rebase_merge, rev_parse, try_rev_parse, ObjectKind, OpsError, RebaseOutcome,
};

/// A fresh bare repository under /tmp.
fn fresh_repo(tag: &str) -> (String, gix::Repository) {
    let nanos = std::time::SystemTime::now()
        .duration_since(std::time::UNIX_EPOCH)
        .expect("clock after epoch")
        .as_nanos();
    let path = format!("/tmp/ironforge-rebase-{tag}-{nanos}");
    let repo = gix::init_bare(&path).expect("init repository");
    (path, repo)
}

fn tree_of(repo: &gix::Repository, files: &[(&str, &str)]) -> gix::ObjectId {
    let mut entries: Vec<gix::objs::tree::Entry> = files
        .iter()
        .map(|(name, content)| gix::objs::tree::Entry {
            mode: gix::objs::tree::EntryKind::Blob.into(),
            filename: (*name).into(),
            oid: repo.write_blob(content.as_bytes()).expect("write blob").detach(),
        })
        .collect();
    entries.sort();
    repo.write_object(&gix::objs::Tree { entries })
        .expect("write tree")
        .detach()
}

/// Commit the files (the whole tree) with the parents, by
/// `Tester <tester@example.com>` at `time`, and point the branch at it.
fn commit(
    repo: &gix::Repository,
    branch: &str,
    parents: &[gix::ObjectId],
    files: &[(&str, &str)],
    message: &str,
    time: i64,
) -> gix::ObjectId {
    let tree = tree_of(repo, files);
    let time = format!("{time} +0000");
    let signature = gix::actor::SignatureRef {
        name: "Tester".into(),
        email: "tester@example.com".into(),
        time: time.as_str(),
    };
    let id = repo
        .new_commit_as(signature, signature, format!("{message}\n"), tree, parents.iter().copied())
        .expect("write commit")
        .id;
    repo.reference(
        format!("refs/heads/{branch}").as_str(),
        id,
        gix::refs::transaction::PreviousValue::Any,
        "test setup",
    )
    .expect("set branch");
    id
}

fn rev(path: &str, spec: &str) -> String {
    rev_parse(path, spec).expect("revision resolves")
}

fn show(path: &str, file: &str) -> String {
    match blob_at(path, "refs/heads/main", file).expect("tree readable") {
        Some((_, bytes)) => String::from_utf8(bytes).expect("utf-8").trim_end().to_string(),
        None => panic!("{file} missing on main"),
    }
}

/// Subject, author email and committer email of the newest `n` commits on
/// the first-parent chain of main.
fn log(path: &str, n: usize) -> Vec<(String, String, String)> {
    let repo = gix::open(path).expect("open repository");
    let mut id = repo
        .rev_parse_single("refs/heads/main")
        .expect("main resolves")
        .detach();
    let mut out = Vec::new();
    while out.len() < n {
        let commit = repo.find_commit(id).expect("commit readable");
        let message = String::from_utf8_lossy(commit.message_raw().expect("message")).to_string();
        let subject = message.lines().next().unwrap_or("").to_string();
        let author = commit.author().expect("author").email.to_string();
        let committer = commit.committer().expect("committer").email.to_string();
        out.push((subject, author, committer));
        let parent = commit.parent_ids().next().map(|parent| parent.detach());
        match parent {
            Some(parent) => id = parent,
            None => break,
        }
    }
    out
}

fn subjects(path: &str, n: usize) -> Vec<String> {
    log(path, n).into_iter().map(|(s, _, _)| s).collect()
}

#[test]
fn rebase_replays_linear_commits_preserving_authors() {
    let (path, repo) = fresh_repo("linear");
    let a = commit(&repo, "main", &[], &[("a.txt", "one\n")], "a", 1_700_000_000);
    let b = commit(&repo, "feature", &[a], &[("a.txt", "one\n"), ("b.txt", "b\n")], "b", 1_700_000_010);
    commit(
        &repo,
        "feature",
        &[b],
        &[("a.txt", "one\n"), ("b.txt", "b\n"), ("c.txt", "c\n")],
        "c",
        1_700_000_020,
    );
    commit(&repo, "main", &[a], &[("a.txt", "one\n"), ("d.txt", "d\n")], "d", 1_700_000_030);
    let main_before = rev(&path, "refs/heads/main");
    let feature_head = rev(&path, "refs/heads/feature");

    let outcome = rebase_merge(&path, "main", "feature").expect("rebase runs");
    let new_base = match outcome {
        RebaseOutcome::Rebased(new_base) => new_base,
        other => panic!("expected Rebased, got {other:?}"),
    };

    // The base moved to a fresh chain; the head ref stays untouched.
    assert_ne!(new_base, main_before);
    assert_ne!(new_base, feature_head);
    assert_eq!(rev(&path, "refs/heads/main"), new_base);
    assert_eq!(rev(&path, "refs/heads/feature"), feature_head);

    // Final tree merges both sides.
    for (file, content) in [("a.txt", "one\n"), ("b.txt", "b\n"), ("c.txt", "c\n"), ("d.txt", "d\n")] {
        assert_eq!(show(&path, file), content.trim_end());
    }
    // Newest two commits on main are the replayed b and c; authors are
    // preserved and the committer is IronForge.
    let newest = log(&path, 2);
    assert_eq!(
        newest.iter().map(|(s, _, _)| s.as_str()).collect::<Vec<_>>(),
        vec!["c", "b"]
    );
    assert_eq!(
        newest.iter().map(|(_, a, _)| a.as_str()).collect::<Vec<_>>(),
        vec!["tester@example.com", "tester@example.com"]
    );
    assert_eq!(
        newest.iter().map(|(_, _, c)| c.as_str()).collect::<Vec<_>>(),
        vec!["noreply@ironforge.local", "noreply@ironforge.local"]
    );
}

#[test]
fn rebase_skips_already_applied_commits() {
    let (path, repo) = fresh_repo("applied");
    let a = commit(&repo, "main", &[], &[("a.txt", "one\n")], "a", 1_700_000_000);
    commit(&repo, "feature", &[a], &[("a.txt", "one\n"), ("x.txt", "x\n")], "x", 1_700_000_010);
    // The same change, cherry-picked onto main.
    commit(&repo, "main", &[a], &[("a.txt", "one\n"), ("x.txt", "x\n")], "x", 1_700_000_020);
    let main_before = rev(&path, "refs/heads/main");

    let outcome = rebase_merge(&path, "main", "feature").expect("rebase runs");
    let new_base = match outcome {
        RebaseOutcome::Rebased(new_base) => new_base,
        other => panic!("expected Rebased, got {other:?}"),
    };

    // The replayed commit is empty, so the base does not move.
    assert_eq!(new_base, main_before);
    assert_eq!(rev(&path, "refs/heads/main"), main_before);
}

#[test]
fn rebase_drops_merge_commits_and_replays_side_branch() {
    let (path, repo) = fresh_repo("merges");
    let a = commit(&repo, "main", &[], &[("a.txt", "one\n")], "a", 1_700_000_000);
    let b = commit(&repo, "feature", &[a], &[("a.txt", "one\n"), ("b.txt", "b\n")], "b", 1_700_000_010);
    let s = commit(
        &repo,
        "side",
        &[b],
        &[("a.txt", "one\n"), ("b.txt", "b\n"), ("s.txt", "s\n")],
        "s",
        1_700_000_020,
    );
    // `git merge --no-ff side` on feature.
    commit(
        &repo,
        "feature",
        &[b, s],
        &[("a.txt", "one\n"), ("b.txt", "b\n"), ("s.txt", "s\n")],
        "merge side",
        1_700_000_030,
    );
    commit(&repo, "main", &[a], &[("a.txt", "one\n"), ("d.txt", "d\n")], "d", 1_700_000_040);

    let outcome = rebase_merge(&path, "main", "feature").expect("rebase runs");
    let new_base = match outcome {
        RebaseOutcome::Rebased(new_base) => new_base,
        other => panic!("expected Rebased, got {other:?}"),
    };

    // Both b and the side-branch commit s are replayed, the merge commit is
    // dropped.
    assert_eq!(show(&path, "s.txt"), "s");
    assert_eq!(show(&path, "b.txt"), "b");
    assert_eq!(show(&path, "d.txt"), "d");
    // Newest first: s, b, then d (the base tip).
    assert_eq!(subjects(&path, 3).join("\n"), "s\nb\nd");
    assert_ne!(new_base, "");
}

#[test]
fn rebase_conflict_leaves_base_untouched() {
    let (path, repo) = fresh_repo("conflict");
    let a = commit(&repo, "main", &[], &[("a.txt", "one\n")], "a", 1_700_000_000);
    commit(&repo, "feature", &[a], &[("a.txt", "feature\n")], "c", 1_700_000_010);
    commit(&repo, "main", &[a], &[("a.txt", "main\n")], "d", 1_700_000_020);
    let main_before = rev(&path, "refs/heads/main");

    let outcome = rebase_merge(&path, "main", "feature").expect("rebase runs");
    let message = match outcome {
        RebaseOutcome::Conflict(message) => message,
        other => panic!("expected Conflict, got {other:?}"),
    };
    assert!(message.contains("conflicts while rebasing onto main"));

    // Base ref untouched.
    assert_eq!(rev(&path, "refs/heads/main"), main_before);
}

#[test]
fn rebase_fast_forwards_when_head_descends_from_base() {
    let (path, repo) = fresh_repo("fastforward");
    let a = commit(&repo, "main", &[], &[("a.txt", "one\n")], "a", 1_700_000_000);
    commit(&repo, "feature", &[a], &[("a.txt", "one\n"), ("b.txt", "b\n")], "b", 1_700_000_010);
    let feature_head = rev(&path, "refs/heads/feature");

    let outcome = rebase_merge(&path, "main", "feature").expect("rebase runs");
    let new_base = match outcome {
        RebaseOutcome::Rebased(new_base) => new_base,
        other => panic!("expected Rebased, got {other:?}"),
    };

    // Head is a strict descendant: plain fast-forward, no rewriting.
    assert_eq!(new_base, feature_head);
    assert_eq!(rev(&path, "refs/heads/main"), feature_head);
    assert_eq!(subjects(&path, 1), vec!["b".to_string()]);
}

#[test]
fn rebase_of_head_onto_itself_changes_nothing() {
    let (path, repo) = fresh_repo("uptodate");
    commit(&repo, "main", &[], &[("a.txt", "one\n")], "a", 1_700_000_000);
    let main_before = rev(&path, "refs/heads/main");
    match rebase_merge(&path, "main", "refs/heads/main").expect("rebase runs") {
        RebaseOutcome::Rebased(new_base) => assert_eq!(new_base, main_before),
        other => panic!("expected Rebased, got {other:?}"),
    }
}

#[test]
fn rebase_errors_name_what_failed() {
    let (path, repo) = fresh_repo("errors");
    commit(&repo, "main", &[], &[("a.txt", "one\n")], "a", 1_700_000_000);
    let missing_base = rebase_merge(&path, "nope", "refs/heads/main").unwrap_err();
    assert_eq!(missing_base.describe(), "base branch 'nope' not found");
    let missing_head = rebase_merge(&path, "main", "nothing-here").unwrap_err();
    assert_eq!(missing_head.describe(), "head revision 'nothing-here' not found");
    let no_repo = rebase_merge("/nonexistent/ironforge/repo.git", "main", "x").unwrap_err();
    assert_eq!(
        no_repo.describe(),
        "failed to open repository: /nonexistent/ironforge/repo.git"
    );
}

#[test]
fn blob_at_answers_missing_blob_and_directory() {
    let (path, repo) = fresh_repo("blob-at");
    let sub = tree_of(&repo, &[("inner.txt", "inner\n")]);
    let blob = repo.write_blob(b"one\n").expect("write blob").detach();
    let mut entries = vec![
        gix::objs::tree::Entry {
            mode: gix::objs::tree::EntryKind::Blob.into(),
            filename: "a.txt".into(),
            oid: blob,
        },
        gix::objs::tree::Entry {
            mode: gix::objs::tree::EntryKind::Tree.into(),
            filename: "dir".into(),
            oid: sub,
        },
    ];
    entries.sort();
    let tree = repo.write_object(&gix::objs::Tree { entries }).expect("write tree").detach();
    let signature = gix::actor::SignatureRef {
        name: "Tester".into(),
        email: "tester@example.com".into(),
        time: "1700000000 +0000",
    };
    let id = repo
        .new_commit_as(signature, signature, "a\n", tree, Vec::<gix::ObjectId>::new())
        .expect("write commit")
        .id;
    repo.reference("refs/heads/main", id, gix::refs::transaction::PreviousValue::Any, "test setup")
        .expect("set branch");

    assert_eq!(blob_at(&path, "refs/heads/main", "missing.txt").expect("tree readable"), None);
    let (sha, bytes) = blob_at(&path, "refs/heads/main", "a.txt").expect("tree readable").expect("a.txt present");
    assert_eq!(sha, rev(&path, "refs/heads/main:a.txt"));
    assert_eq!(bytes, b"one\n".to_vec());
    let (_, inner) = blob_at(&path, "refs/heads/main", "dir/inner.txt").expect("tree readable").expect("nested file present");
    assert_eq!(inner, b"inner\n".to_vec());
    match blob_at(&path, "refs/heads/main", "dir") {
        Err(OpsError::NotABlob { path: p, rev: r, kind }) => {
            assert_eq!(p, "dir");
            assert_eq!(r, "refs/heads/main");
            assert_eq!(kind, "tree");
        },
        other => panic!("expected NotABlob, got {other:?}"),
    }
    assert!(matches!(
        blob_at(&path, "refs/heads/nothing", "a.txt"),
        Err(OpsError::UnresolvedRevision { .. })
    ));
}

#[test]
fn blob_outcome_of_each_lookup() {
    assert_eq!(blob_outcome("x", "main", None), Ok(None));
    assert_eq!(
        blob_outcome("x", "main", Some(("ab".to_string(), ObjectKind::Blob, "blob".to_string(), vec![1, 2]))),
        Ok(Some(("ab".to_string(), vec![1, 2])))
    );
    assert_eq!(
        blob_outcome("x", "main", Some(("ab".to_string(), ObjectKind::Tree, "tree".to_string(), vec![]))),
        Err(OpsError::NotABlob { path: "x".to_string(), rev: "main".to_string(), kind: "tree".to_string() })
    );
}

#[test]
fn try_rev_parse_answers_what_rev_parse_answers() {
    let (path, repo) = fresh_repo("try-rev-parse");
    commit(&repo, "main", &[], &[("a.txt", "one\n")], "a", 1_700_000_000);
    for spec in ["refs/heads/main", "refs/heads/main^{tree}", "refs/heads/absent", "not a revision"] {
        let lifted = match rev_parse(&path, spec) {
            Ok(sha) => Ok(Some(sha)),
            Err(OpsError::UnresolvedRevision { .. }) => Ok(None),
            Err(e) => Err(e),
        };
        assert_eq!(try_rev_parse(&path, spec), lifted, "{spec}");
    }
    assert!(try_rev_parse(&path, "refs/heads/main").unwrap().is_some());
    assert_eq!(try_rev_parse(&path, "refs/heads/absent"), Ok(None));
}

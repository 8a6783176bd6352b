use ironforge_git::api::audit::{audit_log_window, login_attempt_window};
use ironforge_git::api::repo_content::{
    author_date, file_error_is_conflict, file_operation_response,
    get_blob_content, get_blob_size, get_commit_log, get_latest_commit_sha, is_empty_repo,
    list_branch_names, list_tag_names, list_tree_entries, probe_commit_signature, valid_commit_sha,
    SignatureProbe,
};

fn bare_repo(tag: &str) -> (String, gix::Repository) {
    let nanos = std::time::SystemTime::now()
        .duration_since(std::time::UNIX_EPOCH)
        .expect("clock after epoch")
        .as_nanos();
    let path = format!("/tmp/ironforge-content-{tag}-{nanos}");
    let repo = gix::init_bare(&path).expect("init repository");
    (path, repo)
}

fn blob_entry(repo: &gix::Repository, name: &str, content: &[u8]) -> gix::objs::tree::Entry {
    gix::objs::tree::Entry {
        mode: gix::objs::tree::EntryKind::Blob.into(),
        filename: name.into(),
        oid: repo.write_blob(content).expect("write blob").detach(),
    }
}

fn write_tree(repo: &gix::Repository, mut entries: Vec<gix::objs::tree::Entry>) -> gix::ObjectId {
    entries.sort();
    repo.write_object(&gix::objs::Tree { entries })
        .expect("write tree")
        .detach()
}

/// A tree with `README.md`, `bin.dat` and `src/lib.rs`.
fn project_tree(repo: &gix::Repository) -> gix::ObjectId {
    let src = write_tree(repo, vec![blob_entry(repo, "lib.rs", b"fn x() {}\n")]);
    write_tree(
        repo,
        vec![
            blob_entry(repo, "README.md", b"hi\n"),
            blob_entry(repo, "bin.dat", &[0u8, 1, 2]),
            gix::objs::tree::Entry {
                mode: gix::objs::tree::EntryKind::Tree.into(),
                filename: "src".into(),
                oid: src,
            },
        ],
    )
}

fn commit_to(
    repo: &gix::Repository,
    reference: &str,
    tree: gix::ObjectId,
    parents: &[gix::ObjectId],
    message: &str,
    time: &str,
) -> gix::ObjectId {
    let signature = gix::actor::SignatureRef {
        name: "Tester".into(),
        email: "tester@example.com".into(),
        time,
    };
    let id = repo
        .new_commit_as(signature, signature, message, tree, parents.iter().copied())
        .expect("write commit")
        .id;
    repo.reference(reference, id, gix::refs::transaction::PreviousValue::Any, "test setup")
        .expect("set reference");
    id
}

/// A repository with two commits on main, a `feature` branch and a tag.
fn project(tag: &str) -> (String, gix::ObjectId, gix::ObjectId) {
    let (path, repo) = bare_repo(tag);
    let tree = project_tree(&repo);
    let first = commit_to(&repo, "refs/heads/main", tree, &[], "first commit\n\nbody\n", "1700000000 +0000");
    let second = commit_to(&repo, "refs/heads/main", tree, &[first], "second commit\n", "1700000060 +0000");
    repo.reference("refs/heads/feature", first, gix::refs::transaction::PreviousValue::Any, "test setup")
        .expect("set branch");
    repo.reference("refs/tags/v1", first, gix::refs::transaction::PreviousValue::Any, "test setup")
        .expect("set tag");
    (path, first, second)
}

#[test]
fn tree_entries_of_root_and_sub_path() {
    let (path, _, _) = project("tree");
    let root = list_tree_entries(&path, "refs/heads/main", "").expect("tree listed");
    let summary: Vec<(String, String, String, Option<i64>)> = root
        .iter()
        .map(|e| (e.name.clone(), e.path.clone(), e.kind.clone(), e.size))
        .collect();
    assert_eq!(
        summary,
        vec![
            ("README.md".to_string(), "README.md".to_string(), "blob".to_string(), Some(3)),
            ("bin.dat".to_string(), "bin.dat".to_string(), "blob".to_string(), Some(3)),
            ("src".to_string(), "src".to_string(), "tree".to_string(), None),
        ]
    );
    assert!(root.iter().all(|e| e.sha.as_ref().is_some_and(|s| s.len() == 40)));

    let sub = list_tree_entries(&path, "refs/heads/main", "src").expect("sub-tree listed");
    assert_eq!(sub.len(), 1);
    assert_eq!(sub[0].path, "src/lib.rs");
    assert_eq!(sub[0].size, Some(10));

    assert_eq!(
        list_tree_entries(&path, "refs/heads/main", "nope").err(),
        Some("path not found: nope".to_string())
    );
    assert!(list_tree_entries(&path, "zzz", "")
        .err()
        .expect("unknown ref")
        .starts_with("failed to resolve ref 'zzz': "));
    assert_eq!(
        list_tree_entries("/nonexistent/ironforge/content.git", "main", "").err(),
        Some("failed to open repository: \"/nonexistent/ironforge/content.git\"".to_string())
    );
}

#[test]
fn blob_contents_text_and_binary() {
    let (path, _, _) = project("blob");
    let text = get_blob_content(&path, "refs/heads/main", "README.md").expect("blob read");
    assert_eq!(text.content, "hi\n");
    assert_eq!(text.encoding, "utf-8");
    assert_eq!(text.size, 3);
    assert!(!text.is_binary);
    assert_eq!(text.path, "README.md");

    let binary = get_blob_content(&path, "refs/heads/main", "bin.dat").expect("blob read");
    assert!(binary.is_binary);
    assert_eq!(binary.encoding, "base64");
    assert_eq!(binary.content, "AAEC");

    assert!(get_blob_content(&path, "refs/heads/main", "nope")
        .err()
        .expect("missing path")
        .starts_with("path 'nope' not found at ref 'refs/heads/main': "));
    assert!(get_blob_content(&path, "refs/heads/main", "src")
        .err()
        .expect("directory")
        .starts_with("path 'src' is not a file: "));

    assert_eq!(get_blob_size(&path, &text.sha), Ok(3));
    assert!(get_blob_size(&path, "xyz").err().expect("bad id").starts_with("invalid SHA: "));
    assert!(get_blob_size(&path, "1111111111111111111111111111111111111111")
        .err()
        .expect("missing object")
        .starts_with("object not found: "));
}

#[test]
fn commit_log_is_newest_first_and_limited() {
    let (path, first, second) = project("log");
    let log = get_commit_log(&path, "refs/heads/main", "", 10).expect("log read");
    assert_eq!(log.len(), 2);
    assert_eq!(log[0].sha, second.to_string());
    assert_eq!(log[0].message, "second commit");
    assert_eq!(log[1].sha, first.to_string());
    assert_eq!(log[1].message, "first commit");
    assert_eq!(log[1].author_name, "Tester");
    assert_eq!(log[1].author_email, "tester@example.com");
    assert_eq!(log[1].author_date, "2023-11-14T22:13:20+00:00");
    assert!(log[0].gpg_signature.is_none());

    assert_eq!(get_commit_log(&path, "refs/heads/main", "", 1).expect("log read").len(), 1);
    assert!(get_commit_log(&path, "refs/heads/main", "", 0).expect("log read").is_empty());
    assert!(get_commit_log(&path, "refs/heads/main", "", -3).expect("log read").is_empty());
    assert!(get_commit_log(&path, "no-such-ref", "", 5).expect("log read").is_empty());
}

#[test]
fn branches_tags_and_tips() {
    let (path, first, second) = project("names");
    let branches = list_branch_names(&path).expect("branches listed");
    assert!(branches.contains(&"main".to_string()));
    assert!(branches.contains(&"feature".to_string()));
    assert_eq!(list_tag_names(&path).expect("tags listed"), vec!["v1".to_string()]);
    assert_eq!(get_latest_commit_sha(&path, "feature"), Ok(first.to_string()));
    assert_eq!(get_latest_commit_sha(&path, "main"), Ok(second.to_string()));
    assert!(get_latest_commit_sha(&path, "nope")
        .err()
        .expect("missing branch")
        .starts_with("failed to resolve branch 'nope': "));
}

#[test]
fn empty_repositories_and_signature_probes() {
    let (empty, _) = bare_repo("empty");
    assert!(is_empty_repo(&empty));
    assert!(!is_empty_repo("/nonexistent/ironforge/content.git"));

    let (path, first, _) = project("probe");
    assert!(!is_empty_repo(&path));
    assert!(matches!(
        probe_commit_signature(&path, &first.to_string()),
        Ok(SignatureProbe::Unsigned)
    ));
    assert_eq!(
        probe_commit_signature(&path, "nope").err(),
        Some("commit nope not found".to_string())
    );
}

#[test]
fn commit_sha_forms() {
    assert!(valid_commit_sha("abc1234"));
    assert!(valid_commit_sha("ABCDEF0123"));
    assert!(!valid_commit_sha("abc12"));
    assert!(!valid_commit_sha("xyz1234"));
}

#[test]
fn listing_time_windows() {
    let start = Some("2024-01-01T00:00:00Z".to_string());
    let end = Some("2024-01-02T00:00:00+00:00".to_string());
    assert_eq!(
        login_attempt_window(&start, &end),
        Ok((Some((1_704_067_200, 0)), Some((1_704_153_600, 0))))
    );
    assert_eq!(
        login_attempt_window(&end, &start),
        Err("start_time must be earlier than or equal to end_time".to_string())
    );
    let bad = Some("yesterday".to_string());
    assert_eq!(login_attempt_window(&bad, &end), Err("start_time must be ISO 8601".to_string()));
    assert_eq!(login_attempt_window(&None, &bad), Err("end_time must be ISO 8601".to_string()));
    assert_eq!(login_attempt_window(&None, &None), Ok((None, None)));
    assert_eq!(audit_log_window(&bad, &end), (None, Some((1_704_153_600, 0))));
}

#[test]
fn author_dates_in_rfc3339() {
    assert_eq!(author_date("1700000000 +0000"), "2023-11-14T22:13:20+00:00");
    assert_eq!(author_date("0 +0200"), "1970-01-01T00:00:00+00:00");
    assert_eq!(author_date("garbage"), "1970-01-01T00:00:00+00:00");
    assert_eq!(author_date("9223372036854775807 +0000"), "");
}

#[test]
fn file_edit_outcomes() {
    assert!(file_error_is_conflict("blob SHA mismatch: expected abc"));
    assert!(!file_error_is_conflict("branch not found"));
    let (path, _, second) = project("edit");
    let done = file_operation_response(&path, "main", "README.md".to_string(), false);
    assert!(done.success);
    assert_eq!(done.file_path, "README.md");
    assert_eq!(done.commit_sha, second.to_string());
    assert_eq!(done.message, "File created/updated successfully");
    let gone = file_operation_response(&path, "nope", "x".to_string(), true);
    assert_eq!(gone.commit_sha, "");
    assert_eq!(gone.message, "File deleted successfully");
}

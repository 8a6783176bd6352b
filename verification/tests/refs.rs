use ironforge_git::ops::verify_commit_with_repo;
use ironforge_git::pkt_line::PktLine;
use ironforge_git::protocol::receive_pack::{update_ref, write_ref_updates, RefUpdate};
use ironforge_git::refs::{
    build_ref_list, get_object_size, get_tag_peel, known_objects, list_refs, listed_refs,
    ls_refs_answer, ls_refs_lines, resolve_head_sha, RefRecord, RefTarget,
};

fn bare_repo(tag: &str) -> (String, gix::Repository) {
    let nanos = std::time::SystemTime::now()
        .duration_since(std::time::UNIX_EPOCH)
        .expect("clock after epoch")
        .as_nanos();
    let path = format!("/tmp/ironforge-refs-{tag}-{nanos}");
    let repo = gix::init_bare(&path).expect("init repository");
    (path, repo)
}

fn signature(time: &str) -> gix::actor::SignatureRef<'_> {
    gix::actor::SignatureRef {
        name: "Tester".into(),
        email: "tester@example.com".into(),
        time,
    }
}

/// The branch HEAD names, e.g. `refs/heads/main`.
fn head_branch(repo: &gix::Repository) -> String {
    repo.head_name()
        .expect("HEAD readable")
        .expect("HEAD names a branch")
        .as_bstr()
        .to_string()
}

/// One commit holding `file` on the branch HEAD names; returns the commit id
/// and the blob id.
fn first_commit(repo: &gix::Repository, file: &str, content: &str) -> (String, String) {
    let blob = repo.write_blob(content.as_bytes()).expect("write blob").detach();
    let tree = gix::objs::Tree {
        entries: vec![gix::objs::tree::Entry {
            mode: gix::objs::tree::EntryKind::Blob.into(),
            filename: file.into(),
            oid: blob,
        }],
    };
    let tree = repo.write_object(&tree).expect("write tree").detach();
    let no_parents: [gix::ObjectId; 0] = [];
    let time = "1700000000 +0000";
    let id = repo
        .new_commit_as(signature(time), signature(time), "first\n", tree, no_parents)
        .expect("write commit")
        .id;
    repo.reference(
        head_branch(repo).as_str(),
        id,
        gix::refs::transaction::PreviousValue::Any,
        "test setup",
    )
    .expect("set branch");
    (id.to_string(), blob.to_string())
}

fn annotated_tag(repo: &gix::Repository, name: &str, target: &str) -> String {
    let target = gix::ObjectId::from_hex(target.as_bytes()).expect("hex id");
    let time = "1700000100 +0000";
    repo.tag(
        name,
        target,
        gix::objs::Kind::Commit,
        Some(signature(time)),
        "release\n",
        gix::refs::transaction::PreviousValue::Any,
    )
    .expect("write tag");
    repo.rev_parse_single(format!("refs/tags/{name}").as_str())
        .expect("tag resolves")
        .to_string()
}

fn texts(lines: &[PktLine]) -> Vec<String> {
    lines
        .iter()
        .map(|line| match line {
            PktLine::Data(bytes) => String::from_utf8(bytes.clone()).expect("utf-8"),
            PktLine::Flush => "0000".to_string(),
            PktLine::Delim => "0001".to_string(),
            PktLine::ResponseEnd => "0002".to_string(),
        })
        .collect()
}

#[test]
fn listed_refs_keep_objects_and_resolved_head() {
    let listing = vec![
        Some(RefRecord { name: "HEAD".to_string(), target: RefTarget::Symbolic }),
        Some(RefRecord { name: "refs/heads/main".to_string(), target: RefTarget::Object("aa".to_string()) }),
        None,
        Some(RefRecord { name: "refs/remotes/origin/HEAD".to_string(), target: RefTarget::Symbolic }),
        Some(RefRecord { name: "refs/tags/v1".to_string(), target: RefTarget::Object("bb".to_string()) }),
    ];
    assert_eq!(
        listed_refs(&listing, &Some("cc".to_string())),
        vec![
            ("cc".to_string(), "HEAD".to_string()),
            ("aa".to_string(), "refs/heads/main".to_string()),
            ("bb".to_string(), "refs/tags/v1".to_string()),
        ]
    );
    assert_eq!(
        listed_refs(&listing, &None),
        vec![
            ("aa".to_string(), "refs/heads/main".to_string()),
            ("bb".to_string(), "refs/tags/v1".to_string()),
        ]
    );
}

#[test]
fn refs_of_an_empty_repository() {
    let (path, repo) = bare_repo("empty");
    assert_eq!(resolve_head_sha(&path), None);
    assert_eq!(list_refs(&path).expect("refs readable"), Vec::<(String, String)>::new());
    assert_eq!(
        build_ref_list(&path),
        vec![(
            "0000000000000000000000000000000000000000".to_string(),
            "capabilities^{}".to_string()
        )]
    );
    let branch = head_branch(&repo);
    let lines = ls_refs_lines(&path, &Vec::new(), false, true, true).expect("ls-refs answers");
    assert_eq!(
        texts(&lines),
        vec![format!("unborn HEAD symref-target:{branch}\n"), "0000".to_string()]
    );
    let unborn_only = ls_refs_lines(&path, &Vec::new(), false, false, true).expect("ls-refs answers");
    assert_eq!(
        texts(&unborn_only),
        vec![format!("unborn HEAD symref-target:{branch}\n"), "0000".to_string()]
    );
    let without_unborn = ls_refs_lines(&path, &Vec::new(), false, true, false).expect("ls-refs answers");
    assert_eq!(texts(&without_unborn), vec!["0000".to_string()]);
    assert_eq!(
        list_refs("/nonexistent/ironforge/refs.git").unwrap_err().describe(),
        "failed to open repository"
    );
    assert_eq!(
        ls_refs_lines("/nonexistent/ironforge/refs.git", &Vec::new(), false, false, false)
            .unwrap_err()
            .describe(),
        "failed to open repository for ls-refs"
    );
}

#[test]
fn refs_of_a_repository_with_a_tag() {
    let (path, repo) = bare_repo("tagged");
    let (commit, blob) = first_commit(&repo, "hello.txt", "hello\n");
    let tag = annotated_tag(&repo, "v1", &commit);
    let branch = head_branch(&repo);

    assert_eq!(resolve_head_sha(&path), Some(commit.clone()));
    let refs = list_refs(&path).expect("refs readable");
    assert!(refs.contains(&(commit.clone(), branch.clone())));
    assert!(refs.contains(&(tag.clone(), "refs/tags/v1".to_string())));
    let offered = build_ref_list(&path);
    assert!(offered.contains(&(commit.clone(), "HEAD".to_string())));

    // A tag peels to its commit; other objects peel to themselves.
    assert_eq!(get_tag_peel(&path, &tag), Some(commit.clone()));
    assert_eq!(get_tag_peel(&path, &commit), Some(commit.clone()));
    assert_eq!(get_tag_peel(&path, "not-hex"), None);

    assert_eq!(get_object_size(&path, &blob).expect("blob readable"), 6);
    let missing = "1111111111111111111111111111111111111111";
    assert_eq!(
        get_object_size(&path, missing).unwrap_err().describe(),
        format!("object {missing} not found")
    );
    assert!(get_object_size(&path, "xyz")
        .unwrap_err()
        .describe()
        .starts_with("invalid object ID: "));

    assert_eq!(
        known_objects(&path, &vec![commit.clone(), missing.to_string(), "zz".to_string(), blob.clone()]),
        vec![commit.clone(), blob.clone()]
    );
    assert_eq!(known_objects("/nonexistent/ironforge/refs.git", &vec![commit.clone()]), Vec::<String>::new());

    let lines = ls_refs_lines(&path, &Vec::new(), true, true, true).expect("ls-refs answers");
    let lines = texts(&lines);
    assert_eq!(lines[0], format!("{commit} HEAD symref-target:{branch}\n"));
    assert!(lines.contains(&format!("{commit} {branch}\n")));
    assert!(lines.contains(&format!("{tag} refs/tags/v1 peeled:{commit}\n")));
    assert_eq!(lines.last().map(String::as_str), Some("0000"));

    // Prefixes select the refs listed.
    let only_tags = ls_refs_lines(&path, &vec!["refs/tags/".to_string()], false, false, false)
        .expect("ls-refs answers");
    assert_eq!(
        texts(&only_tags),
        vec![format!("{tag} refs/tags/v1\n"), "0000".to_string()]
    );
}

#[test]
fn pushed_refs_are_written_or_reported() {
    let (path, repo) = bare_repo("push");
    let (commit, _) = first_commit(&repo, "a.txt", "a\n");
    let zeros = "0000000000000000000000000000000000000000".to_string();
    let update = |refname: &str, new_sha: &str, status: &str, message: &str| RefUpdate {
        old_sha: zeros.clone(),
        new_sha: new_sha.to_string(),
        refname: refname.to_string(),
        status: status.to_string(),
        message: message.to_string(),
    };
    let written = write_ref_updates(
        &path,
        &vec![
            update("refs/heads/feature", &commit, "ok", ""),
            update("refs/heads/locked", &commit, "error", "protected"),
            update("refs/heads/bad", "not-a-sha", "ok", ""),
        ],
    );
    assert_eq!(written[0].status, "ok");
    assert_eq!(written[0].message, "ok");
    assert_eq!(written[1].status, "error");
    assert_eq!(written[1].message, "protected");
    assert_eq!(written[2].status, "error");
    assert!(written[2].message.starts_with("invalid SHA: "));
    let refs = list_refs(&path).expect("refs readable");
    assert!(refs.contains(&(commit.clone(), "refs/heads/feature".to_string())));
    assert!(!refs.iter().any(|(_, name)| name == "refs/heads/locked"));

    assert_eq!(
        update_ref("/nonexistent/ironforge/refs.git", "refs/heads/x", &commit),
        Err("failed to open repository".to_string())
    );
    assert!(update_ref(&path, "refs/heads/..bad", &commit)
        .unwrap_err()
        .starts_with("failed to update ref refs/heads/..bad: "));
}

#[test]
fn commit_signatures_on_an_open_repository() {
    let (_, repo) = bare_repo("verify");
    let (commit, blob) = first_commit(&repo, "a.txt", "a\n");
    assert_eq!(verify_commit_with_repo(&repo, &commit), Ok(false));
    assert_eq!(
        verify_commit_with_repo(&repo, "nope").unwrap_err().describe(),
        "failed to resolve commit 'nope'"
    );
    assert_eq!(
        verify_commit_with_repo(&repo, &blob).unwrap_err().describe(),
        format!("'{blob}' is not a commit")
    );
}

#[test]
fn ls_refs_answer_orders_filters_and_peels() {
    let a = "a".repeat(40);
    let b = "b".repeat(40);
    let c = "c".repeat(40);
    let others = vec![
        (a.clone(), "refs/heads/main".to_string()),
        (b.clone(), "refs/tags/v1".to_string()),
        (a.clone(), "HEAD".to_string()),
        (c.clone(), "refs/notes/x".to_string()),
    ];
    let peeled = vec![None, Some(c.clone()), None, None];
    let lines = ls_refs_answer(
        &Some(a.clone()),
        &Some("refs/heads/main".to_string()),
        &others,
        &peeled,
        &vec!["refs/heads/".to_string(), "refs/tags/".to_string(), "HEAD".to_string()],
        true,
        true,
        true,
    );
    assert_eq!(
        texts(&lines),
        vec![
            format!("{a} HEAD symref-target:refs/heads/main\n"),
            format!("{a} refs/heads/main\n"),
            format!("{b} refs/tags/v1 peeled:{c}\n"),
            "0000".to_string(),
        ]
    );
    let plain = ls_refs_answer(&None, &Some("refs/heads/dev".to_string()), &others, &peeled, &Vec::new(), false, false, true);
    assert_eq!(
        texts(&plain),
        vec![
            "unborn HEAD symref-target:refs/heads/dev\n".to_string(),
            format!("{a} refs/heads/main\n"),
            format!("{b} refs/tags/v1\n"),
            format!("{c} refs/notes/x\n"),
            "0000".to_string(),
        ]
    );
}

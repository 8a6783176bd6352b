use ironforge_git::pkt_line::{encode_all, PktLine};
use ironforge_git::cli_gateway::GitOutput;
use ironforge_git::protocol::receive_pack::{
    apply_rejections, enforce_signed_commits, parse_update_command, ref_matches_rejection_pattern,
    report_status_lines, rev_list_commits, signature_checks_needed, signature_step, RefUpdate,
    SignatureCheck, SignatureWalk,
};
use ironforge_git::protocol::upload_pack::{negotiation_step, Negotiation, NegotiationStep};
use ironforge_git::protocol::v2::shallow::{
    compute_depth_boundaries, compute_filtered_boundaries, find_boundaries, pack_objects_args,
    pack_objects_input, plan_shallow_update, rev_list_args, shallow_info, shallow_update,
    BoundaryRule, CommitGraph, ShallowUpdate,
};
use ironforge_git::protocol::v2::{
    acknowledgments, capability_advertisement, caps, fetch_response_head, needs_acknowledgments,
    validate_fetch_features,
    CommandRequest, CommandScan, ScanStep, ShallowRequest, V2Error, ADVERTISED_CAPABILITIES,
    PROTOCOL_VERSION,
};

fn strings(v: &[&str]) -> Vec<String> {
    v.iter().map(|s| s.to_string()).collect()
}

fn graph(entries: &[(&str, &[&str])]) -> CommitGraph {
    CommitGraph {
        entries: entries
            .iter()
            .map(|(c, ps)| (c.to_string(), strings(ps)))
            .collect(),
    }
}

#[test]
fn matches_exact_branches_and_wildcard_tags() {
    assert!(ref_matches_rejection_pattern("refs/heads/main", "refs/heads/main"));
    assert!(!ref_matches_rejection_pattern("refs/heads/feature", "refs/heads/main"));
    assert!(ref_matches_rejection_pattern("refs/tags/v1.2.3", "refs/tags/v*"));
    assert!(ref_matches_rejection_pattern(
        "refs/tags/release/2026/07",
        "refs/tags/release/**"
    ));
    assert!(!ref_matches_rejection_pattern("refs/tags/test-1", "refs/tags/v*"));
}

#[test]
fn glob_without_wildcards_is_equality() {
    assert!(ref_matches_rejection_pattern("refs/heads/a", "refs/heads/a"));
    assert!(!ref_matches_rejection_pattern("refs/heads/ab", "refs/heads/a"));
    assert!(!ref_matches_rejection_pattern("refs/heads/a", "refs/heads/ab"));
    assert!(ref_matches_rejection_pattern("", "*"));
    assert!(!ref_matches_rejection_pattern("refs/x", "refs/?"));
    assert!(ref_matches_rejection_pattern("refs/?", "refs/?"));
}

#[test]
fn update_command_parses_and_refuses_deletions() {
    let u = parse_update_command(b"aaa bbb refs/heads/main\0report-status side-band-64k\n").unwrap();
    assert_eq!(u.old_sha, "aaa");
    assert_eq!(u.new_sha, "bbb");
    assert_eq!(u.refname, "refs/heads/main");
    assert_eq!(u.status, "ok");
    let d = parse_update_command(b"aaa 0000000000000000000000000000000000000000 refs/heads/x\n").unwrap();
    assert_eq!(d.status, "error");
    assert_eq!(d.message, "deletion not supported");
    assert!(parse_update_command(b"only two\n").is_none());
    assert!(parse_update_command(b"").is_none());
}

#[test]
fn rejection_rules_mark_matching_updates() {
    let mut updates = vec![
        parse_update_command(b"a b refs/heads/main\n").unwrap(),
        parse_update_command(b"a b refs/heads/topic\n").unwrap(),
    ];
    apply_rejections(
        &mut updates,
        &[("refs/heads/main".to_string(), "protected branch".to_string())],
    );
    assert_eq!(updates[0].status, "error");
    assert_eq!(updates[0].message, "protected branch");
    assert_eq!(updates[1].status, "ok");
}

#[test]
fn report_status_lists_each_update() {
    let mut bad = parse_update_command(b"a b refs/heads/x\n").unwrap();
    bad.status = "error".to_string();
    bad.message = "boom".to_string();
    let ok = parse_update_command(b"a b refs/heads/y\n").unwrap();
    let lines = report_status_lines(&[ok, bad]);
    assert_eq!(
        lines,
        vec![
            PktLine::text("unpack ok"),
            PktLine::text("ok refs/heads/y"),
            PktLine::text("ng refs/heads/x boom"),
        ]
    );
}

#[test]
fn negotiation_collects_wants_and_haves_until_done() {
    let mut n = Negotiation { wants: vec![], haves: vec![], capabilities: vec![] };
    assert_eq!(
        negotiation_step(&mut n, &PktLine::text("want 1111\0side-band-64k ofs-delta")),
        NegotiationStep::Continue
    );
    assert_eq!(negotiation_step(&mut n, &PktLine::text("have 2222")), NegotiationStep::Continue);
    assert_eq!(negotiation_step(&mut n, &PktLine::text("done")), NegotiationStep::Done);
    assert_eq!(n.wants, strings(&["1111"]));
    assert_eq!(n.haves, strings(&["2222"]));
    assert_eq!(n.capabilities, strings(&["side-band-64k", "ofs-delta"]));
}

#[test]
fn test_capability_advertisement_format() {
    assert_eq!(PROTOCOL_VERSION, "2");
    assert_eq!(caps::LS_REFS, "ls-refs");
    assert_eq!(caps::FETCH, "fetch");
    assert!(ADVERTISED_CAPABILITIES.contains(&caps::FETCH_SHALLOW));
    assert!(caps::FETCH_SHALLOW.contains("filter"));
}

#[test]
fn serialized_advertisement_includes_only_supported_fetch_features() {
    let bytes = encode_all(&capability_advertisement()).unwrap();
    let output = String::from_utf8(bytes).unwrap();
    assert!(output.contains("fetch=shallow filter\n"));
    assert!(output.starts_with("000eversion 2\n"));
    assert!(output.ends_with("0000"));
}

#[test]
fn fetch_feature_validation_accepts_shallow_and_rejects_invalid_combinations() {
    let mut request = ShallowRequest::default();
    assert!(validate_fetch_features(&request, &None).is_ok());
    assert!(validate_fetch_features(&request, &Some("blob:none".into())).is_ok());
    assert!(validate_fetch_features(&request, &Some("blob:limit=1 m".into())).is_err());

    request.deepen = Some(0);
    assert!(validate_fetch_features(&request, &None).is_err());
    request.deepen = None;
    request.deepen_relative = true;
    assert!(validate_fetch_features(&request, &None).is_err());
    request.deepen = Some(2);
    assert!(validate_fetch_features(&request, &None).is_ok());
}

#[test]
fn fetch_feature_validation_names_each_error() {
    let mut request = ShallowRequest::default();
    assert_eq!(validate_fetch_features(&request, &Some(String::new())), Err(V2Error::InvalidFilter));
    request.deepen = Some(0);
    assert_eq!(validate_fetch_features(&request, &None), Err(V2Error::ZeroDepth));
    request.deepen = None;
    request.deepen_relative = true;
    assert_eq!(validate_fetch_features(&request, &None), Err(V2Error::RelativeWithoutDepth));
    request.deepen_relative = false;
    request.deepen = Some(3);
    request.deepen_since = Some(1_700_000_000);
    assert_eq!(validate_fetch_features(&request, &None), Err(V2Error::ConflictingDeepen));
}

#[test]
fn done_request_skips_acknowledgments_section() {
    let haves = vec!["a".repeat(40)];
    assert!(needs_acknowledgments(&haves, false));
    assert!(!needs_acknowledgments(&haves, true));
    assert!(!needs_acknowledgments(&[], false));
}

#[test]
fn ready_precedes_the_packfile_section_delimiter() {
    let oid = "a".repeat(40);
    let (lines, ready) = acknowledgments(std::slice::from_ref(&oid));
    assert!(ready);
    let serialized = String::from_utf8(encode_all(&lines).unwrap()).unwrap();
    let ack = serialized.find(&format!("ACK {oid}\n")).unwrap();
    let ready_at = serialized.find("ready\n").unwrap();
    assert!(ack < ready_at);
    assert!(serialized.ends_with("0001"));
}

#[test]
fn nak_ends_negotiation_without_a_following_section() {
    let (lines, ready) = acknowledgments(&[]);
    assert!(!ready);
    let serialized = String::from_utf8(encode_all(&lines).unwrap()).unwrap();
    assert!(serialized.contains("NAK\n"));
    assert!(serialized.ends_with("0000"));
    assert!(!serialized.ends_with("0001"));
}

#[test]
fn command_scan_reads_a_fetch_request() {
    let mut scan = CommandScan::new();
    let packets = [
        PktLine::text("command=fetch"),
        PktLine::text("agent=git/2.43"),
        PktLine::Delim,
        PktLine::text("want 1111"),
        PktLine::text("have 2222"),
        PktLine::text("deepen 3"),
        PktLine::text("done"),
    ];
    for p in &packets {
        assert_eq!(scan.step(p), ScanStep::Continue);
    }
    assert_eq!(scan.step(&PktLine::Flush), ScanStep::Complete);
    match scan.finish().unwrap() {
        CommandRequest::Fetch { wants, haves, shallow, done, .. } => {
            assert_eq!(wants, strings(&["1111"]));
            assert_eq!(haves, strings(&["2222"]));
            assert_eq!(shallow.deepen, Some(3));
            assert!(done);
        }
        other => panic!("expected a fetch request, got {:?}", other),
    }
}

#[test]
fn command_scan_refuses_a_bad_depth() {
    let mut scan = CommandScan::new();
    scan.step(&PktLine::text("command=fetch"));
    scan.step(&PktLine::Delim);
    scan.step(&PktLine::text("deepen many"));
    scan.step(&PktLine::Flush);
    assert!(matches!(scan.finish(), Err(V2Error::InvalidDeepen)));
}

#[test]
fn shallow_boundaries_are_commits_with_excluded_parents() {
    let graph = graph(&[("a", &["b"]), ("b", &["c"]), ("c", &[])]);
    assert_eq!(find_boundaries(&graph, &strings(&["a"])), ["a"]);
    assert_eq!(find_boundaries(&graph, &strings(&["a", "b"])), ["b"]);
    assert!(find_boundaries(&graph, &strings(&["a", "b", "c"])).is_empty());
}

#[test]
fn boundaries_come_out_sorted_and_once() {
    let graph = graph(&[("d", &["x"]), ("b", &["y"]), ("c", &["z"]), ("b", &["y"])]);
    assert_eq!(find_boundaries(&graph, &strings(&["d", "b", "c", "b"])), ["b", "c", "d"]);
}

#[test]
fn commit_graph_parses_rev_list_parents_output() {
    let g = CommitGraph::parse(&"c1 p1 p2\nc2\n\nc3 p3\n".to_string());
    assert_eq!(g.entries.len(), 3);
    assert_eq!(g.parents(&"c1".to_string()), Some(&strings(&["p1", "p2"])));
    assert_eq!(g.parents(&"c2".to_string()), Some(&Vec::new()));
    assert_eq!(g.parents(&"zz".to_string()), None);
}

#[test]
fn depth_counts_from_the_wants() {
    let g = graph(&[("a", &["b"]), ("b", &["c"]), ("c", &["d"]), ("d", &[])]);
    let starts = strings(&["a"]);
    assert_eq!(compute_depth_boundaries(&g, &starts, 1, false).unwrap(), ["a"]);
    assert_eq!(compute_depth_boundaries(&g, &starts, 2, false).unwrap(), ["b"]);
    assert_eq!(compute_depth_boundaries(&g, &starts, 2, true).unwrap(), ["c"]);
    assert!(compute_depth_boundaries(&g, &starts, 10, false).unwrap().is_empty());
    assert!(compute_depth_boundaries(&g, &starts, 0, false).unwrap().is_empty());
    assert_eq!(compute_depth_boundaries(&g, &[], 2, false), Err(V2Error::NoStartingCommit));
}

#[test]
fn depth_follows_every_parent_of_a_merge() {
    let g = graph(&[("m", &["x", "y"]), ("x", &["base"]), ("y", &["base"]), ("base", &[])]);
    assert_eq!(compute_depth_boundaries(&g, &strings(&["m"]), 2, false).unwrap(), ["x", "y"]);
}

#[test]
fn filtered_boundaries_are_graph_commits_with_missing_parents() {
    let g = graph(&[("a", &["b"]), ("b", &["old"])]);
    assert_eq!(compute_filtered_boundaries(&g), ["b"]);
}

#[test]
fn shallow_plan_follows_the_request() {
    let wants = strings(&["w1"]);
    let mut r = ShallowRequest::default();
    assert!(plan_shallow_update(&wants, &r).unwrap().is_none());
    r.deepen = Some(2);
    let q = plan_shallow_update(&wants, &r).unwrap().unwrap();
    assert_eq!(q.starts, wants);
    assert_eq!(q.rule, BoundaryRule::Depth { depth: 2, relative: false });
    assert_eq!(q.rev_list_args(), strings(&["rev-list", "--parents", "w1"]));
    assert_eq!(plan_shallow_update(&[], &r).err(), Some(V2Error::NoStartingCommit));
    r.deepen_relative = true;
    assert_eq!(plan_shallow_update(&wants, &r).err(), Some(V2Error::RelativeWithoutShallow));
    r.shallows = strings(&["s1"]);
    let q = plan_shallow_update(&wants, &r).unwrap().unwrap();
    assert_eq!(q.starts, strings(&["s1"]));
    let mut f = ShallowRequest::default();
    f.deepen_since = Some(-5);
    f.deepen_not = strings(&["refs/heads/old"]);
    let q = plan_shallow_update(&wants, &f).unwrap().unwrap();
    assert_eq!(q.rule, BoundaryRule::Filtered);
    assert_eq!(
        q.rev_list_args(),
        strings(&["rev-list", "--parents", "--max-age=-5", "w1", "--not", "refs/heads/old"])
    );
}

#[test]
fn shallow_update_announces_changes_and_client_ends_with_the_boundaries() {
    let u = shallow_update(strings(&["b", "c"]), &strings(&["a", "b"]));
    assert_eq!(u.response_lines, strings(&["shallow c", "unshallow a"]));
    let info = shallow_info(&u);
    assert_eq!(
        info,
        vec![
            PktLine::text("shallow-info"),
            PktLine::text("shallow c"),
            PktLine::text("unshallow a"),
            PktLine::Delim,
        ]
    );
    // Applying the lines to the client's old boundaries gives the new ones.
    let mut client: Vec<String> = strings(&["a", "b"]);
    for line in &u.response_lines {
        if let Some(s) = line.strip_prefix("shallow ") {
            client.push(s.to_string());
        } else if let Some(s) = line.strip_prefix("unshallow ") {
            client.retain(|x| x != s);
        }
    }
    client.sort();
    assert_eq!(client, strings(&["b", "c"]));
    assert!(shallow_info(&shallow_update(strings(&["a"]), &strings(&["a"]))).is_empty());
}

#[test]
fn pack_objects_input_resends_history_for_shallow_clients() {
    let u = shallow_update(strings(&["b"]), &[]);
    assert_eq!(
        pack_objects_input(Some(&u), &strings(&["w"]), &strings(&["h"])),
        "--shallow b\nw\n"
    );
    assert_eq!(pack_objects_input(None, &strings(&["w"]), &strings(&["h"])), "w\n^h\n");
    assert_eq!(
        pack_objects_args(Some(&u), Some(&"blob:none".to_string())),
        strings(&["pack-objects", "--revs", "--stdout", "--thin", "--shallow", "--filter=blob:none"])
    );
    assert_eq!(
        pack_objects_args(None, None),
        strings(&["pack-objects", "--revs", "--stdout", "--thin"])
    );
    assert_eq!(
        rev_list_args(&strings(&["a"]), None, &[]),
        strings(&["rev-list", "--parents", "a"])
    );
}

#[test]
fn rev_list_output_lists_commits_or_fails_the_check() {
    let ok = GitOutput {
        stdout: b"aaa\nbbb\n".to_vec(),
        stderr: Vec::new(),
        exit_code: Some(0),
        command: "git rev-list".to_string(),
    };
    match rev_list_commits(&ok) {
        Ok(commits) => assert_eq!(commits, vec!["aaa".to_string(), "bbb".to_string()]),
        Err(_) => panic!("expected the commits"),
    }
    let failed = GitOutput {
        stdout: Vec::new(),
        stderr: b"fatal: bad revision\n".to_vec(),
        exit_code: Some(128),
        command: "git rev-list".to_string(),
    };
    match rev_list_commits(&failed) {
        Err(SignatureCheck::RevListFailed { stderr }) => assert_eq!(stderr, "fatal: bad revision\n"),
        _ => panic!("expected a failed rev-list"),
    }
}

#[test]
fn signed_commit_policy_over_a_push() {
    let update = |refname: &str, status: &str| RefUpdate {
        old_sha: "0".repeat(40),
        new_sha: "1".repeat(40),
        refname: refname.to_string(),
        status: status.to_string(),
        message: String::new(),
    };
    let updates = vec![
        update("refs/heads/main", "ok"),
        update("refs/heads/topic", "ok"),
        update("refs/heads/release", "error"),
        update("refs/heads/release", "ok"),
    ];
    let patterns = vec!["refs/heads/main".to_string(), "refs/heads/rel*".to_string()];
    assert_eq!(signature_checks_needed(&updates, &patterns), vec![true, false, false, true]);
    let checks = vec![
        SignatureCheck::Unsigned { sha: "abc".to_string() },
        SignatureCheck::Unsigned { sha: "ignored".to_string() },
        SignatureCheck::AllSigned,
        SignatureCheck::AllSigned,
    ];
    let out = enforce_signed_commits(&updates, &patterns, &checks);
    assert_eq!(out.len(), 4);
    assert_eq!(out[0].status, "error");
    assert_eq!(out[0].message, "commit abc does not have a cryptographically valid signature");
    assert_eq!((out[1].status.as_str(), out[1].message.as_str()), ("ok", ""));
    assert_eq!(out[2].status, "error");
    assert_eq!((out[3].status.as_str(), out[3].message.as_str()), ("ok", ""));
}

fn frames(lines: &[PktLine]) -> Vec<String> {
    lines
        .iter()
        .map(|line| match line {
            PktLine::Data(bytes) => String::from_utf8(bytes.clone()).expect("utf-8"),
            PktLine::Flush => "0000".to_string(),
            PktLine::Delim => "0001".to_string(),
            PktLine::ResponseEnd => "0002".to_string(),
        })
        .collect()
}

#[test]
fn fetch_response_sections_come_in_order() {
    let wants = strings(&["a".repeat(40).as_str()]);
    let haves = strings(&["b".repeat(40).as_str()]);
    let (head, more) = fetch_response_head(&[], &haves, false, &Vec::new(), &None);
    assert_eq!((frames(&head), more), (strings(&["packfile\n", "0000"]), false));
    let (head, more) = fetch_response_head(&wants, &haves, false, &Vec::new(), &None);
    assert_eq!((frames(&head), more), (strings(&["acknowledgments\n", "NAK\n", "0000"]), false));
    let (head, more) = fetch_response_head(&wants, &haves, false, &haves, &None);
    let ack = format!("ACK {}\n", "b".repeat(40));
    assert_eq!(
        (frames(&head), more),
        (strings(&["acknowledgments\n", ack.as_str(), "ready\n", "0001", "packfile\n"]), true)
    );
    let update = Some(ShallowUpdate { boundaries: strings(&["c"]), response_lines: strings(&["shallow c"]) });
    let (head, more) = fetch_response_head(&wants, &haves, true, &Vec::new(), &update);
    assert_eq!(
        (frames(&head), more),
        (strings(&["shallow-info\n", "shallow c\n", "0001", "packfile\n"]), true)
    );
    let (head, more) = fetch_response_head(&wants, &[], false, &Vec::new(), &None);
    assert_eq!((frames(&head), more), (strings(&["packfile\n"]), true));
}

#[test]
fn signature_walk_stops_at_the_first_unsigned_commit() {
    let commits = strings(&["c1", "c2"]);
    assert!(matches!(signature_step(&commits, 0, false), SignatureWalk::Verify { sha } if sha == "c1"));
    assert!(matches!(signature_step(&commits, 1, true), SignatureWalk::Verify { sha } if sha == "c2"));
    assert!(matches!(
        signature_step(&commits, 1, false),
        SignatureWalk::Finished(SignatureCheck::Unsigned { sha }) if sha == "c1"
    ));
    assert!(matches!(signature_step(&commits, 2, true), SignatureWalk::Finished(SignatureCheck::AllSigned)));
    assert!(matches!(signature_step(&Vec::new(), 0, true), SignatureWalk::Finished(SignatureCheck::AllSigned)));
}

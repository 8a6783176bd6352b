use ironforge_git::api::notifications::ListNotificationsQuery;
use ironforge_git::api::artifacts::{is_json_upload, raw_upload_name};
use ironforge_git::api::issues::{label_names, reaction_error_kind, ReactionErrorKind};
use ironforge_git::text::contains_text;
use ironforge_git::api::archive::{parse_archive_name, read_access, ReadAccess};
use ironforge_git::api::artifacts::{
    artifact_name_from_headers, parse_filename_from_disposition as artifact_disposition,
    sanitize_artifact_name,
};
use ironforge_git::api::audit::{
    check_time_window, first_forwarded_for, login_attempt_filters, login_metadata, page_window,
    LoginAttemptQuery,
};
use ironforge_git::api::auth::{extract_token_from_cookie, strip_auth_cookie, CookieEdit};
use ironforge_git::api::ci::{
    check_cancelable, check_manual_playable, is_active_status, ref_candidates, resolve_commit_sha,
    trigger_ref_name,
};
use ironforge_git::api::ci_environments::{
    allowed_approvers, approval_gate, approvals_release, check_environment_request,
    default_required_approvals, may_approve, valid_name, EnvironmentRequest,
};
use ironforge_git::api::ci_oidc::{bearer, discovery_document, issuer, valid_audience};
use ironforge_git::api::ci_secrets::valid_secret_name;
use ironforge_git::api::collaborators::default_permission;
use ironforge_git::api::deploy_keys::default_read_only;
use ironforge_git::api::imports::default_true;
use ironforge_git::api::issues::{summarize_reactions, ReactionRow};
use ironforge_git::api::lfs::{lfs_access, lfs_download_user, LfsAccess};
use ironforge_git::api::mirrors::default_interval;
use ironforge_git::api::packages::{
    build_base_url, escape_xml, hex_val, parse_filename_from_disposition, percent_decode,
};
use ironforge_git::api::repo_content::{
    base64_encode, blob_content, commit_subject, entry_kind, parse_signature_log,
    signature_log_args, signature_seconds, tree_entry_path, unsigned_signature,
};

#[test]
fn audience_validation_is_strict() {
    assert!(valid_audience("sts.amazonaws.com"));
    assert!(!valid_audience(""));
    assert!(!valid_audience("two words"));
}

#[test]
fn audience_length_counts_bytes() {
    assert!(valid_audience(&"a".repeat(255)));
    assert!(!valid_audience(&"a".repeat(256)));
    assert!(!valid_audience(&"é".repeat(128)));
}

#[test]
fn validates_secret_names() {
    assert!(valid_secret_name("DEPLOY_TOKEN_2"));
    assert!(!valid_secret_name("deploy_token"));
    assert!(!valid_secret_name("CI_JOB_TOKEN"));
}

#[test]
fn secret_names_start_with_a_letter_or_underscore() {
    assert!(valid_secret_name("_X"));
    assert!(!valid_secret_name("2X"));
    assert!(!valid_secret_name(""));
    assert!(!valid_secret_name("PATH"));
    assert!(valid_secret_name(&"A".repeat(100)));
    assert!(!valid_secret_name(&"A".repeat(101)));
}

#[test]
fn defaults_of_request_fields() {
    assert_eq!(default_required_approvals(), 1);
    assert_eq!(default_permission(), "read");
    assert!(default_read_only());
    assert!(default_true());
    assert_eq!(default_interval(), 86400);
}

#[test]
fn bearer_and_issuer() {
    assert_eq!(bearer(Some("Bearer abc.def")), Some("abc.def".to_string()));
    assert_eq!(bearer(Some("Basic abc")), None);
    assert_eq!(bearer(None), None);
    assert_eq!(
        issuer(Some("https://forge.example//"), Some("ignored")).unwrap(),
        "https://forge.example/api/v1/ci/oidc"
    );
    assert_eq!(issuer(None, Some("localhost:8080")).unwrap(), "http://localhost:8080/api/v1/ci/oidc");
    assert_eq!(
        issuer(None, None).unwrap_err(),
        "Host header is required when external_url is not configured"
    );
    let d = discovery_document("https://f/api/v1/ci/oidc".to_string());
    assert_eq!(d.jwks_uri, "https://f/api/v1/ci/oidc/jwks");
    assert_eq!(d.token_endpoint, "https://f/api/v1/ci/oidc/token");
    assert_eq!(d.id_token_signing_alg_values_supported, ["EdDSA"]);
}

#[test]
fn environment_names_and_requests() {
    assert!(valid_name("production"));
    assert!(!valid_name(""));
    assert!(!valid_name("bad\u{7}name"));
    let mut body = EnvironmentRequest {
        name: "  prod  ".to_string(),
        protected: true,
        required_approvals: 2,
        allowed_approver_ids: vec![9, 3, 5],
    };
    assert_eq!(check_environment_request(&body).unwrap(), vec![3, 5, 9]);
    body.allowed_approver_ids = vec![3, 3];
    assert_eq!(
        check_environment_request(&body).unwrap_err(),
        "allowed_approver_ids must not contain duplicates"
    );
    body.allowed_approver_ids = vec![3];
    assert_eq!(
        check_environment_request(&body).unwrap_err(),
        "required approvals exceed the approver list"
    );
    body.required_approvals = 11;
    assert_eq!(
        check_environment_request(&body).unwrap_err(),
        "required_approvals must be between 1 and 10"
    );
    body.name = "   ".to_string();
    assert_eq!(
        check_environment_request(&body).unwrap_err(),
        "environment name must contain 1-255 printable characters"
    );
}

#[test]
fn approvals_gate_and_release() {
    assert_eq!(approval_gate("waiting_approval", "waiting_approval", Some(4)), Ok(4));
    assert_eq!(
        approval_gate("running", "waiting_approval", Some(4)),
        Err("job is not awaiting environment approval".to_string())
    );
    assert_eq!(
        approval_gate("waiting_approval", "waiting_approval", None),
        Err("job has no protected environment".to_string())
    );
    assert_eq!(allowed_approvers(Some("[1, 2]")), vec![1, 2]);
    assert!(allowed_approvers(Some("not json")).is_empty());
    assert!(allowed_approvers(None).is_empty());
    assert!(may_approve(false, &[1, 2], 2));
    assert!(!may_approve(false, &[1, 2], 3));
    assert!(may_approve(true, &[], 3));
    assert!(approvals_release(2, 2));
    assert!(!approvals_release(1, 2));
    assert!(!approvals_release(5, -1));
}

#[test]
fn artifact_names() {
    assert_eq!(sanitize_artifact_name("../etc/pass wd.txt"), "..etcpasswd.txt");
    assert_eq!(sanitize_artifact_name("///"), "artifact.bin");
    assert_eq!(
        artifact_disposition("attachment; filename=\"build.zip\""),
        Some("build.zip".to_string())
    );
    assert_eq!(artifact_disposition("inline"), None);
    assert_eq!(
        artifact_name_from_headers(Some("  logs.txt "), Some("attachment; filename=a")),
        Some("logs.txt".to_string())
    );
    assert_eq!(
        artifact_name_from_headers(Some("   "), Some("attachment; filename=a")),
        Some("a".to_string())
    );
    assert_eq!(artifact_name_from_headers(None, None), None);
}

#[test]
fn package_helpers() {
    assert_eq!(hex_val(b'7'), Ok(7));
    assert_eq!(hex_val(b'c'), Ok(12));
    assert_eq!(hex_val(b'F'), Ok(15));
    assert_eq!(hex_val(b'g'), Err(()));
    assert_eq!(percent_decode("a%20b%C3%A9"), Ok("a bé".to_string()));
    assert_eq!(percent_decode("plain"), Ok("plain".to_string()));
    assert_eq!(percent_decode("bad%2"), Err(()));
    assert_eq!(percent_decode("bad%zz"), Err(()));
    assert_eq!(percent_decode("%ff"), Err(()));
    assert_eq!(
        parse_filename_from_disposition("attachment; filename*=UTF-8''na%C3%AFve.tgz"),
        Some("naïve.tgz".to_string())
    );
    assert_eq!(
        parse_filename_from_disposition("attachment; filename=\"x.nupkg\"; filename*=UTF-8''y"),
        Some("x.nupkg".to_string())
    );
    assert_eq!(parse_filename_from_disposition("attachment"), None);
    assert_eq!(escape_xml("a<b & \"c\" 'd'>"), "a&lt;b &amp; &quot;c&quot; &apos;d&apos;&gt;");
    assert_eq!(build_base_url(Some("localhost:3000")), "http://localhost:3000");
    assert_eq!(build_base_url(Some("127.0.0.1")), "http://127.0.0.1");
    assert_eq!(build_base_url(Some("forge.example")), "https://forge.example");
    assert_eq!(build_base_url(None), "http://localhost");
}

#[test]
fn session_cookie_handling() {
    assert_eq!(
        extract_token_from_cookie(Some("theme=dark; ironforge_token=abc; x=1")),
        Some("abc".to_string())
    );
    assert_eq!(extract_token_from_cookie(Some("ironforge_token=; ironforge_token=z")), Some("z".to_string()));
    assert_eq!(extract_token_from_cookie(Some("theme=dark")), None);
    assert_eq!(extract_token_from_cookie(None), None);
    match strip_auth_cookie(Some("a=1; ironforge_token=t;b=2")) {
        CookieEdit::Replace(h) => assert_eq!(h, "a=1; b=2"),
        _ => panic!("expected the other cookies to remain"),
    }
    assert!(matches!(strip_auth_cookie(Some("ironforge_token=t")), CookieEdit::Remove));
    assert!(matches!(strip_auth_cookie(None), CookieEdit::Keep));
}

#[test]
fn reactions_are_summarized_per_content() {
    let rows = vec![
        ReactionRow { content: "+1".to_string(), user_id: 1 },
        ReactionRow { content: "heart".to_string(), user_id: 2 },
        ReactionRow { content: "+1".to_string(), user_id: 2 },
    ];
    let s = summarize_reactions(rows, Some(2));
    assert_eq!(s.len(), 2);
    assert_eq!((s[0].content.as_str(), s[0].count, s[0].reacted_by_me), ("+1", 2, true));
    assert_eq!((s[1].content.as_str(), s[1].count, s[1].reacted_by_me), ("heart", 1, true));
    assert!(summarize_reactions(Vec::new(), None).is_empty());
}

#[test]
fn signatures_blobs_and_logs() {
    assert_eq!(
        signature_log_args("abc"),
        vec!["log", "--format=%G?%n%GK%n%GN%n%GE", "-1", "abc"]
    );
    let g = parse_signature_log("G\nKEY1\nAlice\nalice@example.com\n");
    assert!(g.verified);
    assert_eq!(g.status, "valid");
    assert_eq!(g.signer_key.as_deref(), Some("KEY1"));
    assert_eq!(g.signer_email.as_deref(), Some("alice@example.com"));
    let g = parse_signature_log("Q\n\n");
    assert!(!g.verified);
    assert_eq!(g.status, "unknown_Q");
    assert_eq!(g.signer_key, None);
    assert_eq!(parse_signature_log("").status, "no_signature");
    assert_eq!(parse_signature_log("Y\n").status, "expired_key");
    assert_eq!(unsigned_signature().status, "no_signature");

    assert_eq!(base64_encode(b""), "");
    assert_eq!(base64_encode(b"f"), "Zg==");
    assert_eq!(base64_encode(b"fo"), "Zm8=");
    assert_eq!(base64_encode(b"foo"), "Zm9v");
    assert_eq!(base64_encode(b"foobar"), "Zm9vYmFy");
    assert_eq!(base64_encode(&[0xff, 0xfe, 0x00]), "//4A");
    let b = blob_content("bin/x", "sha1".to_string(), &[0, 1, 2]);
    assert!(b.is_binary);
    assert_eq!(b.encoding, "base64");
    assert_eq!(b.content, "AAEC");
    assert_eq!(b.size, 3);
    let t = blob_content("a.txt", "sha2".to_string(), b"hi\n");
    assert!(!t.is_binary);
    assert_eq!(t.content, "hi\n");
    assert_eq!(t.encoding, "utf-8");

    assert_eq!(tree_entry_path("", "a.rs"), "a.rs");
    assert_eq!(tree_entry_path("src", "a.rs"), "src/a.rs");
    assert_eq!(entry_kind(true), "tree");
    assert_eq!(entry_kind(false), "blob");
    assert_eq!(commit_subject("fix bug\n\nlong body"), "fix bug");
    assert_eq!(commit_subject(""), "");
    assert_eq!(signature_seconds("1700000000 +0000"), 1_700_000_000);
    assert_eq!(signature_seconds("garbage"), 0);
    assert_eq!(signature_seconds(""), 0);
}

#[test]
fn archive_names_and_access() {
    let q = parse_archive_name("abc1234def.tar.gz").unwrap();
    assert_eq!(q.sha, "abc1234def");
    assert_eq!(q.format_flag, "tar.gz");
    assert_eq!(q.mime, "application/gzip");
    assert_eq!(q.git_args(), vec!["archive", "--format=tar.gz", "abc1234def"]);
    assert_eq!(q.content_disposition("repo"), "attachment; filename=\"repo-abc1234.tar.gz\"");
    let z = parse_archive_name("main.zip").unwrap();
    assert_eq!(z.content_disposition("r"), "attachment; filename=\"r-main.zip\"");
    assert_eq!(parse_archive_name("v1.tgz").unwrap().ext, "tgz");
    assert!(parse_archive_name("v1.rar").is_none());
    assert_eq!(read_access(true, false, false, true), ReadAccess::Allowed);
    assert_eq!(read_access(false, true, true, true), ReadAccess::Allowed);
    assert_eq!(read_access(false, true, false, true), ReadAccess::Unauthorized);
    assert_eq!(read_access(false, false, false, true), ReadAccess::Forbidden);
    assert_eq!(read_access(false, true, false, false), ReadAccess::Forbidden);
}

#[test]
fn listing_windows_and_filters() {
    assert_eq!(page_window(None, None), (1, 20));
    assert_eq!(page_window(Some(0), Some(0)), (1, 1));
    assert_eq!(page_window(Some(3), Some(500)), (3, 100));
    let mut q = LoginAttemptQuery {
        page: None,
        per_page: None,
        username: Some("  alice ".to_string()),
        auth_provider: Some("   ".to_string()),
        success: None,
        start_time: None,
        end_time: None,
    };
    assert_eq!(login_attempt_filters(&q), Ok((Some("alice".to_string()), None)));
    q.auth_provider = Some("x".repeat(21));
    assert_eq!(
        login_attempt_filters(&q),
        Err("auth_provider filter must not exceed 20 characters".to_string())
    );
    q.username = Some("é".repeat(256));
    assert_eq!(
        login_attempt_filters(&q),
        Err("username filter must not exceed 255 characters".to_string())
    );
    assert!(check_time_window(Some((10, 0)), Some((10, 0))).is_ok());
    assert!(check_time_window(Some((10, 1)), None).is_ok());
    assert_eq!(
        check_time_window(Some((11, 0)), Some((10, 999))),
        Err("start_time must be earlier than or equal to end_time".to_string())
    );
    assert_eq!(first_forwarded_for(" not-an-ip , 192.0.2.1"), "not-an-ip");
    let ua = "a".repeat(600);
    let (ip, agent) = login_metadata(None, Some("2001:db8::1".to_string()), Some(&ua));
    assert_eq!(ip.as_deref(), Some("2001:db8::1"));
    assert_eq!(agent.unwrap().len(), 512);
    assert_eq!(login_metadata(Some("192.0.2.1".to_string()), None, None), (Some("192.0.2.1".to_string()), None));
}

#[test]
fn pipeline_cancel_and_lfs_access() {
    assert!(is_active_status("running"));
    assert!(is_active_status("waiting_approval"));
    assert!(!is_active_status("success"));
    assert!(check_cancelable("pending").is_ok());
    assert_eq!(check_cancelable("failed"), Err("pipeline is not active".to_string()));
    assert_eq!(lfs_download_user(false, None), Ok(None));
    assert_eq!(lfs_download_user(true, None), Err("authentication required".to_string()));
    assert_eq!(lfs_download_user(true, Some("abc")), Err("invalid token subject".to_string()));
    assert_eq!(lfs_download_user(true, Some("42")), Ok(Some(42)));
    assert_eq!(lfs_access(Ok(None), false), LfsAccess::Allowed);
    assert_eq!(lfs_access(Ok(Some(42)), false), LfsAccess::Forbidden);
    assert_eq!(lfs_access(Ok(Some(42)), true), LfsAccess::Allowed);
    assert_eq!(
        lfs_access(Err("authentication required".to_string()), true),
        LfsAccess::Unauthorized("authentication required".to_string())
    );
}

#[test]
fn pipeline_ref_resolution_order() {
    assert_eq!(
        ref_candidates("main"),
        ("refs/heads/main".to_string(), "main".to_string())
    );
    assert_eq!(
        ref_candidates("refs/heads/dev"),
        ("refs/heads/dev".to_string(), "dev".to_string())
    );
    assert_eq!(
        ref_candidates("refs/tags/v1"),
        ("refs/tags/v1".to_string(), "refs/tags/v1".to_string())
    );
    assert_eq!(resolve_commit_sha("/nonexistent/repository/path.git", "main"), None);
}

#[test]
fn pipeline_trigger_and_manual_play() {
    assert_eq!(trigger_ref_name(None), "refs/heads/main");
    assert_eq!(trigger_ref_name(Some("refs/heads/x".to_string())), "refs/heads/x");
    assert_eq!(check_manual_playable("manual", "manual", "manual"), Ok(()));
    assert_eq!(
        check_manual_playable("running", "manual", "manual"),
        Err("job is not awaiting manual action".to_string())
    );
    assert_eq!(
        check_manual_playable("manual", "manual", "on_success"),
        Err("job is not awaiting manual action".to_string())
    );
}

#[test]
fn reaction_errors_are_classified_by_message() {
    assert_eq!(reaction_error_kind("issue not found"), ReactionErrorKind::NotFound);
    assert_eq!(
        reaction_error_kind("reaction already exists for user"),
        ReactionErrorKind::Conflict
    );
    assert_eq!(
        reaction_error_kind("invalid reaction content: :x:"),
        ReactionErrorKind::BadRequest
    );
    assert_eq!(reaction_error_kind("database is down"), ReactionErrorKind::Internal);
    // The first rule that applies wins.
    assert_eq!(
        reaction_error_kind("reaction already exists; comment not found"),
        ReactionErrorKind::NotFound
    );
}

#[test]
fn substring_search() {
    assert!(contains_text("hello world", "lo w"));
    assert!(contains_text("abc", ""));
    assert!(contains_text("abc", "abc"));
    assert!(!contains_text("abc", "abcd"));
    assert!(!contains_text("aab", "ba"));
}

#[test]
fn artifact_upload_forms() {
    assert!(is_json_upload(Some("application/json; charset=utf-8")));
    assert!(!is_json_upload(Some("application/octet-stream")));
    assert!(!is_json_upload(None));
    assert_eq!(raw_upload_name(0, Some("x.txt".to_string())), Err("artifact upload body is empty".to_string()));
    assert_eq!(raw_upload_name(3, None), Ok("artifact.bin".to_string()));
    assert_eq!(raw_upload_name(3, Some("../../etc/passwd".to_string())), Ok(ironforge_git::api::artifacts::sanitize_artifact_name("../../etc/passwd")));
}

#[test]
fn labels_filter_is_split_trimmed_and_emptied_out() {
    assert_eq!(label_names(" bug, ,feature ,,"), vec!["bug".to_string(), "feature".to_string()]);
    assert_eq!(label_names(""), Vec::<String>::new());
    assert_eq!(label_names("help wanted"), vec!["help wanted".to_string()]);
}

#[test]
fn login_metadata_rejects_fake_ips_and_bounds_user_agents() {
    // `X-Forwarded-For: not-an-ip, 192.0.2.1` names "not-an-ip" first, which
    // parses to no address; `X-Real-IP: 2001:db8::1` does.
    assert_eq!(first_forwarded_for("not-an-ip, 192.0.2.1"), "not-an-ip");
    let forwarded: Option<String> = None;
    let ua = "a".repeat(600);
    let (ip, user_agent) = login_metadata(forwarded, Some("2001:db8::1".to_string()), Some(&ua));
    assert_eq!(ip.as_deref(), Some("2001:db8::1"));
    assert_eq!(user_agent.unwrap().len(), 512);
}

#[test]
fn notification_list_reads_only_unread_when_asked() {
    assert!(ListNotificationsQuery { unread_only: Some(true) }.only_unread());
    assert!(!ListNotificationsQuery { unread_only: Some(false) }.only_unread());
    assert!(!ListNotificationsQuery { unread_only: None }.only_unread());
}

use ironforge_git::api::archive::ReadAccess;
use ironforge_git::api::attachments::{
    assets_base, attachment_disposition, attachment_read_access, browser_download_url,
    may_change_attachments, safe_attachment_name, upload_content_type, upload_file_name,
    upload_size_after, TargetKind, MAX_ATTACHMENT_SIZE,
};

#[test]
fn attachment_paths_per_target() {
    assert_eq!(
        assets_base("alice", "proj", TargetKind::Issue, 7),
        "/api/v1/repos/alice/proj/issues/7/assets"
    );
    assert_eq!(
        assets_base("alice", "proj", TargetKind::PullRequest, 12),
        "/api/v1/repos/alice/proj/pulls/12/assets"
    );
    assert_eq!(
        assets_base("alice", "proj", TargetKind::IssueComment, 300),
        "/api/v1/repos/alice/proj/issues/comments/300/assets"
    );
    assert_eq!(
        assets_base("alice", "proj", TargetKind::ReviewComment, -4),
        "/api/v1/repos/alice/proj/pulls/comments/-4/assets"
    );
}

#[test]
fn attachment_download_url_ends_with_id() {
    assert_eq!(
        browser_download_url("o", "r", TargetKind::Issue, 3, 42),
        "/api/v1/repos/o/r/issues/3/assets/42"
    );
}

#[test]
fn attachment_access_decisions() {
    assert_eq!(attachment_read_access(true, false), ReadAccess::Allowed);
    assert_eq!(attachment_read_access(false, false), ReadAccess::Unauthorized);
    assert_eq!(attachment_read_access(false, true), ReadAccess::Forbidden);
    assert!(may_change_attachments(5, 5, false));
    assert!(may_change_attachments(5, 6, true));
    assert!(!may_change_attachments(5, 6, false));
}

#[test]
fn attachment_upload_size_limit() {
    assert_eq!(MAX_ATTACHMENT_SIZE, 100 * 1024 * 1024);
    assert_eq!(upload_size_after(10, 20), Some(30));
    assert_eq!(upload_size_after(MAX_ATTACHMENT_SIZE - 1, 1), Some(MAX_ATTACHMENT_SIZE));
    assert_eq!(upload_size_after(MAX_ATTACHMENT_SIZE, 1), None);
    assert_eq!(upload_size_after(u64::MAX, 1), None);
}

#[test]
fn attachment_upload_names() {
    assert_eq!(
        upload_file_name(Some("a.txt".to_string()), Some("b.txt".to_string())),
        "a.txt"
    );
    assert_eq!(upload_file_name(None, Some("b.txt".to_string())), "b.txt");
    assert_eq!(upload_file_name(None, None), "");
    assert_eq!(upload_content_type(Some("image/png".to_string())), "image/png");
    assert_eq!(upload_content_type(None), "application/octet-stream");
}

#[test]
fn attachment_names_are_quoted_safely() {
    assert_eq!(safe_attachment_name("a\"b\\c.txt"), "a_b_c.txt");
    assert_eq!(safe_attachment_name("plain.txt"), "plain.txt");
    assert_eq!(
        attachment_disposition("x\".png"),
        "attachment; filename=\"x_.png\""
    );
}

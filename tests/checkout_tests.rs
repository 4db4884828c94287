use diffbot::change::{filter_on_status, status_to_sha, ChangeKind, FileChange};
use diffbot::checkout::{
    clean_up_references, head_branch_name, head_refspec, is_job_reference, pull_branch_name,
    references_to_delete, target_commit,
};

#[test]
fn branch_names() {
    assert_eq!(pull_branch_name("aa", "bb"), "mdb-aa-bb");
    assert_eq!(head_branch_name("aa", "bb"), "mdb-pull-aa-bb");
    assert_eq!(head_refspec(75440, "mdb-aa-bb"), "pull/75440/head:mdb-aa-bb");
    assert_eq!(head_refspec(0, "x"), "pull/0/head:x");
}

#[test]
fn different_sha_pairs_get_different_branches() {
    assert_ne!(head_branch_name("ab", "cd"), head_branch_name("ab", "ce"));
    assert_ne!(head_branch_name("ab", "cd"), head_branch_name("abc", "d"));
}

#[test]
fn job_reference_marker() {
    assert!(is_job_reference("refs/heads/mdb-pull-1-2"));
    assert!(is_job_reference("pull-"));
    assert!(!is_job_reference("refs/heads/master"));
    assert!(!is_job_reference("refs/heads/mdb-1-2"));
    assert!(!is_job_reference("pull"));
    assert!(!is_job_reference(""));
}

#[test]
fn cleanup_deletes_job_branches_only() {
    let refs = vec![
        "refs/heads/master".to_string(),
        "refs/heads/mdb-pull-a-b".to_string(),
        "refs/remotes/origin/master".to_string(),
        "refs/heads/mdb-pull-c-d".to_string(),
    ];
    let plan = clean_up_references(&refs, "master");
    assert_eq!(plan.checkout, "master");
    assert_eq!(
        plan.delete,
        vec!["refs/heads/mdb-pull-a-b".to_string(), "refs/heads/mdb-pull-c-d".to_string()]
    );
    let left: Vec<&String> = refs.iter().filter(|r| !plan.delete.contains(r)).collect();
    assert!(left.iter().all(|r| !r.contains("pull-")));
    assert!(references_to_delete(&Vec::new()).is_empty());
}

#[test]
fn target_commit_falls_back_to_fetched_tip() {
    assert_eq!(target_commit(Some("abc".to_string()), "tip"), "abc");
    assert_eq!(target_commit(None, "tip"), "tip");
}

#[test]
fn shas_by_change_kind() {
    assert_eq!(status_to_sha(ChangeKind::Added, "b", "h"), (None, Some("h".to_string())));
    assert_eq!(status_to_sha(ChangeKind::Removed, "b", "h"), (Some("b".to_string()), None));
    assert_eq!(
        status_to_sha(ChangeKind::Modified, "b", "h"),
        (Some("b".to_string()), Some("h".to_string()))
    );
    for k in [ChangeKind::Renamed, ChangeKind::Copied, ChangeKind::Changed, ChangeKind::Unchanged] {
        assert_eq!(status_to_sha(k, "b", "h"), (None, None));
    }
}

#[test]
fn files_by_status() {
    let files = vec![
        FileChange { filename: "a.dmm".to_string(), status: ChangeKind::Added },
        FileChange { filename: "b.dmm".to_string(), status: ChangeKind::Modified },
        FileChange { filename: "c.dmm".to_string(), status: ChangeKind::Added },
        FileChange { filename: "d.dmm".to_string(), status: ChangeKind::Removed },
    ];
    assert_eq!(filter_on_status(&files, ChangeKind::Added), vec![0, 2]);
    assert_eq!(filter_on_status(&files, ChangeKind::Modified), vec![1]);
    assert_eq!(filter_on_status(&files, ChangeKind::Removed), vec![3]);
    assert!(filter_on_status(&files, ChangeKind::Renamed).is_empty());
}

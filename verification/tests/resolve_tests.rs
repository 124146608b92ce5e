use artifact_resolver::filter::Filter;
use artifact_resolver::model::{Artifact, WorkflowRun};
use artifact_resolver::resolve::{select_artifact, Resolution};

fn open_filter() -> Filter {
    Filter { workflow: None, branch: None, artifact: None }
}

fn run(id: usize, name: &str, branch: &str, url: Option<&str>, updated_at: i64) -> WorkflowRun {
    WorkflowRun {
        id,
        name: name.to_string(),
        head_branch: branch.to_string(),
        workflow_id: 1,
        artifacts_url: url.map(|u| u.to_string()),
        created_at: updated_at - 10,
        updated_at,
    }
}

fn artifact(id: usize, name: &str, url: Option<&str>, expired: bool, updated_at: i64) -> Artifact {
    Artifact {
        id,
        node_id: format!("node-{}", id),
        name: name.to_string(),
        size_in_bytes: 64,
        url: format!("https://ci.example/artifacts/{}", id),
        archive_download_url: url.map(|u| u.to_string()),
        expired,
        created_at: updated_at - 10,
        expires_at: updated_at + 100,
        updated_at,
    }
}

#[test]
fn more_recently_updated_run_is_scanned_first() {
    let listing_url = Some("https://ci.example/runs/artifacts");
    let r2 = run(2, "CI", "main", listing_url, 100);
    let r1 = run(1, "CI", "main", listing_url, 200);
    // Listed older-first; resolution must scan the newer run first.
    let mut res = Resolution::new(vec![r2, r1], &open_filter());
    assert_eq!(res.next_run().unwrap().id, 1);
    assert_eq!(res.next_run().unwrap().id, 2);
    assert!(res.next_run().is_none());
}

#[test]
fn run_without_artifact_listing_is_passed_over() {
    let newer_without_listing = run(1, "CI", "main", None, 300);
    let older_with_listing = run(2, "CI", "main", Some("https://ci.example/a"), 200);
    let mut res = Resolution::new(vec![older_with_listing, newer_without_listing], &open_filter());
    // The newer run has no listing locator, so it is never handed out and
    // resolution proceeds directly to the next run.
    assert_eq!(res.next_run().unwrap().id, 2);
    assert!(res.next_run().is_none());
}

#[test]
fn runs_failing_workflow_or_branch_filter_are_dropped() {
    let f = Filter {
        workflow: Some("CI".to_string()),
        branch: Some("main".to_string()),
        artifact: None,
    };
    let listing_url = Some("https://ci.example/a");
    let wrong_workflow = run(1, "Nightly", "main", listing_url, 400);
    let wrong_branch = run(2, "CI", "dev", listing_url, 300);
    let matching = run(3, "CI", "main", listing_url, 200);
    let mut res = Resolution::new(vec![wrong_workflow, wrong_branch, matching], &f);
    assert_eq!(res.next_run().unwrap().id, 3);
    assert!(res.next_run().is_none());
}

#[test]
fn empty_run_listing_resolves_to_nothing() {
    let mut res = Resolution::new(vec![], &open_filter());
    assert!(res.next_run().is_none());
}

#[test]
fn all_constraints_must_hold_together() {
    let f = Filter {
        workflow: Some("CI".to_string()),
        branch: Some("main".to_string()),
        artifact: Some("bundle".to_string()),
    };
    assert!(f.test_workflow("CI") && f.test_branch("main") && f.test_artifact("bundle"));
    let listing_url = Some("https://ci.example/a");
    let right_workflow_wrong_branch = run(1, "CI", "feature", listing_url, 100);
    let mut res = Resolution::new(vec![right_workflow_wrong_branch], &f);
    assert!(res.next_run().is_none());
}

#[test]
fn expired_artifact_is_never_selected_however_recent() {
    let url = Some("https://ci.example/dl");
    let expired_newer = artifact(1, "bundle", url, true, 900);
    let live_older = artifact(2, "bundle", url, false, 100);
    let picked = select_artifact(vec![expired_newer, live_older], &open_filter()).unwrap();
    assert_eq!(picked.id, 2);
}

#[test]
fn most_recent_qualifying_artifact_is_selected() {
    let url = Some("https://ci.example/dl");
    let older = artifact(1, "bundle", url, false, 100);
    let newest = artifact(2, "bundle", url, false, 300);
    let middle = artifact(3, "bundle", url, false, 200);
    let picked = select_artifact(vec![older, newest, middle], &open_filter()).unwrap();
    assert_eq!(picked.id, 2);
    assert_eq!(picked.url, "https://ci.example/dl");
    assert_eq!(picked.name, "bundle");
}

#[test]
fn equally_recent_artifacts_keep_listing_order() {
    let url = Some("https://ci.example/dl");
    let first_listed = artifact(7, "bundle", url, false, 500);
    let second_listed = artifact(8, "bundle", url, false, 500);
    let picked = select_artifact(vec![first_listed, second_listed], &open_filter()).unwrap();
    assert_eq!(picked.id, 7);
}

#[test]
fn artifact_without_download_url_is_skipped() {
    let newer_without_url = artifact(1, "bundle", None, false, 900);
    let older_with_url = artifact(2, "bundle", Some("https://ci.example/dl"), false, 100);
    let picked = select_artifact(vec![newer_without_url, older_with_url], &open_filter()).unwrap();
    assert_eq!(picked.id, 2);
}

#[test]
fn artifact_name_filter_is_exact() {
    let f = Filter { workflow: None, branch: None, artifact: Some("bundle".to_string()) };
    let url = Some("https://ci.example/dl");
    let wrong_name_newer = artifact(1, "Bundle", url, false, 900);
    let matching_older = artifact(2, "bundle", url, false, 100);
    let picked = select_artifact(vec![wrong_name_newer, matching_older], &f).unwrap();
    assert_eq!(picked.id, 2);
}

#[test]
fn no_qualifying_artifact_yields_none() {
    assert!(select_artifact(vec![], &open_filter()).is_none());
    let all_expired = vec![artifact(1, "bundle", Some("https://ci.example/dl"), true, 100)];
    assert!(select_artifact(all_expired, &open_filter()).is_none());
    let none_downloadable = vec![artifact(2, "bundle", None, false, 100)];
    assert!(select_artifact(none_downloadable, &open_filter()).is_none());
}

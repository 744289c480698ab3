use repo_mirror::discovery::{
    collect_descriptors, contains_git_dir, discover, select_repositories, ChildEntry, DiscoveryError,
};
use repo_mirror::reconcile::{locate, plan_repository, reconcile, verdict, Step, Verdict, WorkingSet};
use repo_mirror::setup::{check_path_is_dir, validate_roots, DestinationAction, PathKind, SetupError};
use repo_mirror::sync::{after_fetch, fetch_request, run_succeeded, synchronize, FetchOutcome, Next, Synchronizer};

fn entry(path: &str, marker: PathKind) -> ChildEntry {
    ChildEntry { path: path.to_string(), marker }
}

#[test]
fn directory_check_accepts_only_directories() {
    assert_eq!(check_path_is_dir(PathKind::Directory), Ok(()));
    assert_eq!(check_path_is_dir(PathKind::File), Err(SetupError::InvalidInput));
    assert_eq!(check_path_is_dir(PathKind::Missing), Err(SetupError::InvalidInput));
}

#[test]
fn missing_source_is_not_found() {
    assert_eq!(validate_roots(PathKind::Missing, PathKind::Directory), Err(SetupError::NotFound));
}

#[test]
fn source_file_is_invalid_input() {
    assert_eq!(validate_roots(PathKind::File, PathKind::Directory), Err(SetupError::InvalidInput));
}

#[test]
fn destination_file_is_refused_before_any_change() {
    assert_eq!(validate_roots(PathKind::Directory, PathKind::File), Err(SetupError::InvalidInput));
}

#[test]
fn absent_destination_is_created() {
    assert_eq!(validate_roots(PathKind::Directory, PathKind::Missing), Ok(DestinationAction::Create));
}

#[test]
fn existing_destination_is_used() {
    assert_eq!(validate_roots(PathKind::Directory, PathKind::Directory), Ok(DestinationAction::UseExisting));
}

#[test]
fn metadata_directory_marks_a_repository() {
    assert!(contains_git_dir(PathKind::Directory));
    assert!(!contains_git_dir(PathKind::File));
    assert!(!contains_git_dir(PathKind::Missing));
}

#[test]
fn metadata_file_is_not_discovered() {
    let entries = vec![entry("/src/worktree", PathKind::File), entry("/src/real", PathKind::Directory)];
    assert_eq!(select_repositories(&entries), vec!["/src/real".to_string()]);
    assert_eq!(discover("/src", &entries), Ok(vec!["real".to_string()]));
}

#[test]
fn nested_repository_is_not_discovered() {
    // "/src/group" holds a repository at "/src/group/inner"; "/src/group" itself has no metadata entry.
    let entries = vec![entry("/src/group", PathKind::Missing)];
    assert_eq!(discover("/src", &entries), Ok(vec![]));
}

#[test]
fn discovery_keeps_listing_order_and_relative_names() {
    let entries = vec![
        entry("/data/src/zeta", PathKind::Directory),
        entry("/data/src/notes.txt", PathKind::Missing),
        entry("/data/src/alpha", PathKind::Directory),
    ];
    assert_eq!(discover("/data/src", &entries), Ok(vec!["zeta".to_string(), "alpha".to_string()]));
}

#[test]
fn discovery_of_empty_listing() {
    assert_eq!(discover("/src", &vec![]), Ok(vec![]));
}

#[test]
fn discovery_fails_without_relative_form() {
    let entries = vec![entry("rel", PathKind::Directory)];
    assert_eq!(discover("/src", &entries), Err(DiscoveryError::NotRelative));
}

#[test]
fn descriptors_need_every_relative_path() {
    assert_eq!(
        collect_descriptors(vec![Some("a".to_string()), Some("b".to_string())]),
        Ok(vec!["a".to_string(), "b".to_string()])
    );
    assert_eq!(
        collect_descriptors(vec![Some("a".to_string()), None]),
        Err(DiscoveryError::NotRelative)
    );
}

#[test]
fn existing_repository_is_reused() {
    assert_eq!(plan_repository(PathKind::Directory, PathKind::Directory), Step::Reuse);
    // The source is unreachable, yet an existing destination is opened, never cloned.
    let ws = reconcile(&vec![Step::Reuse], &vec![true]);
    assert_eq!(ws.clones(), 0);
    assert_eq!(ws.members(), &vec![0usize]);
    assert!(!ws.aborted());
}

#[test]
fn anything_else_is_cloned() {
    assert_eq!(plan_repository(PathKind::Missing, PathKind::Missing), Step::Clone);
    assert_eq!(plan_repository(PathKind::File, PathKind::Missing), Step::Clone);
    assert_eq!(plan_repository(PathKind::Directory, PathKind::File), Step::Clone);
    assert_eq!(plan_repository(PathKind::Directory, PathKind::Missing), Step::Clone);
}

#[test]
fn verdicts() {
    assert_eq!(verdict(Step::Clone, true), Verdict::Keep);
    assert_eq!(verdict(Step::Reuse, true), Verdict::Keep);
    assert_eq!(verdict(Step::Clone, false), Verdict::Exclude);
    assert_eq!(verdict(Step::Reuse, false), Verdict::Abort);
}

#[test]
fn failed_clone_is_isolated() {
    let ws = reconcile(&vec![Step::Clone, Step::Clone, Step::Clone], &vec![true, false, true]);
    assert_eq!(ws.members(), &vec![0usize, 2]);
    assert_eq!(ws.excluded(), &vec![1usize]);
    assert_eq!(ws.clones(), 3);
    assert!(!ws.aborted());
    let sync = synchronize(false, ws.members(), &vec![FetchOutcome::Fetched, FetchOutcome::Fetched]);
    assert_eq!(sync.fetched(), &vec![0usize, 2]);
    assert!(run_succeeded(&ws, &sync));
}

#[test]
fn second_run_clones_nothing() {
    let names = ["a", "b", "c"];
    let steps: Vec<Step> = names.iter().map(|_| plan_repository(PathKind::Directory, PathKind::Directory)).collect();
    let ws = reconcile(&steps, &vec![true, true, true]);
    assert_eq!(ws.clones(), 0);
    assert_eq!(ws.members(), &vec![0usize, 1, 2]);
}

#[test]
fn failed_open_aborts_the_run() {
    let mut ws = WorkingSet::new();
    assert_eq!(ws.record(Step::Clone, true), Verdict::Keep);
    assert_eq!(ws.record(Step::Reuse, false), Verdict::Abort);
    assert_eq!(ws.record(Step::Clone, true), Verdict::Abort);
    assert_eq!(ws.members(), &vec![0usize]);
    assert_eq!(ws.clones(), 1);
    assert!(ws.aborted());
    let sync = Synchronizer::new(false);
    assert!(!run_succeeded(&ws, &sync));
}

#[test]
fn locations_join_name_to_both_roots() {
    let loc = locate("/srv/src", "/srv/dst", "alpha");
    assert_eq!(loc.name, "alpha");
    assert_eq!(loc.source, "/srv/src/alpha");
    assert_eq!(loc.destination, "/srv/dst/alpha");
}

#[test]
fn fetch_is_from_origin_with_prune() {
    let req = fetch_request();
    assert_eq!(req.remote, "origin");
    assert!(req.refspecs.is_empty());
    assert!(req.prune);
}

#[test]
fn fetch_decisions() {
    assert_eq!(after_fetch(false, FetchOutcome::Fetched), Next::Proceed);
    assert_eq!(after_fetch(false, FetchOutcome::Failed), Next::Stop);
    assert_eq!(after_fetch(false, FetchOutcome::NotConfigured), Next::Stop);
    assert_eq!(after_fetch(true, FetchOutcome::Failed), Next::Proceed);
    assert_eq!(after_fetch(true, FetchOutcome::NotConfigured), Next::Proceed);
}

#[test]
fn failed_fetch_stops_the_run() {
    let members = vec![0usize, 1, 2];
    let outcomes = vec![FetchOutcome::Fetched, FetchOutcome::Failed, FetchOutcome::Fetched];
    let sync = synchronize(false, &members, &outcomes);
    assert_eq!(sync.fetched(), &vec![0usize]);
    assert_eq!(sync.failed(), &vec![1usize]);
    assert!(sync.stopped());
    let ws = reconcile(&vec![Step::Reuse, Step::Reuse, Step::Reuse], &vec![true, true, true]);
    assert!(!run_succeeded(&ws, &sync));
}

#[test]
fn failed_fetch_may_be_passed_over() {
    let members = vec![0usize, 1, 2];
    let outcomes = vec![FetchOutcome::Fetched, FetchOutcome::NotConfigured, FetchOutcome::Fetched];
    let sync = synchronize(true, &members, &outcomes);
    assert_eq!(sync.fetched(), &vec![0usize, 2]);
    assert_eq!(sync.failed(), &vec![1usize]);
    assert!(!sync.stopped());
}

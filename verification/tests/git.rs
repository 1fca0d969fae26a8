use std::hash::{DefaultHasher, Hasher};

use bridgehead::git::{exit_code, hash_content, run_changed, EXIT_CHANGED};
use bridgehead::git::{
    commit_plan, compute_local_file_diff, hash_untracked_files, local_diff_text, Action,
    ApplyTracker, Event, LocalDiffHashes, Phase,
};
use bridgehead::ordered_map::OrderedMap;

fn hashes(entries: &[(&str, u64)]) -> LocalDiffHashes {
    let mut m = OrderedMap::new();
    for (file, hash) in entries {
        m.insert(file.to_string(), *hash);
    }
    m
}

fn run(tracker: &mut ApplyTracker, events: &[Event]) -> Vec<Action> {
    events.iter().map(|e| tracker.step(*e)).collect()
}

#[test]
fn hash_untracked_files_tells_contents_apart() {
    let files = vec![".env".to_string(), "config.local.toml".to_string()];
    let a = hash_untracked_files(&files, &vec![b"A=1\n".to_vec(), b"seed = 1\n".to_vec()]);
    let b = hash_untracked_files(&files, &vec![b"A=1\n".to_vec(), b"seed = 1\n".to_vec()]);
    let c = hash_untracked_files(&files, &vec![b"A=2\n".to_vec(), b"seed = 1\n".to_vec()]);
    assert_eq!(a.len(), 2);
    assert_eq!(a.get(".env"), b.get(".env"));
    assert_ne!(a.get(".env"), c.get(".env"));
    assert_eq!(a.get("config.local.toml"), c.get("config.local.toml"));
    assert_ne!(a.get(".env"), a.get("config.local.toml"));
    assert_eq!(hash_untracked_files(&vec![], &vec![]).len(), 0);
}

#[test]
fn local_file_diff_names_what_happened_to_each_file() {
    let before = hashes(&[("same", 1), ("changed", 2), ("gone", 3)]);
    let after = hashes(&[("same", 1), ("changed", 20), ("new", 4)]);
    let diff = compute_local_file_diff(&before, &after);
    assert_eq!(diff.len(), 3);
    assert_eq!(diff.get("changed"), Some(&'M'));
    assert_eq!(diff.get("gone"), Some(&'D'));
    assert_eq!(diff.get("new"), Some(&'A'));
    assert_eq!(diff.get("same"), None);
    assert_eq!(local_diff_text(&diff), "M changed\nD gone\nA new");
}

#[test]
fn local_file_diff_of_equal_snapshots_is_empty() {
    let before = hashes(&[("a", 1), ("b", 2)]);
    let after = hashes(&[("b", 2), ("a", 1)]);
    assert_eq!(compute_local_file_diff(&before, &after).len(), 0);
    assert_eq!(compute_local_file_diff(&hashes(&[]), &hashes(&[])).len(), 0);
}

#[test]
fn commit_plan_when_nothing_changed() {
    let plan = commit_plan("", &OrderedMap::new(), None);
    assert_eq!(plan.message, "Nothing to update");
    assert!(plan.allow_empty);
    assert!(!plan.add_all);
    assert!(!plan.changed);
}

#[test]
fn commit_plan_when_only_local_files_changed() {
    let diff = compute_local_file_diff(&hashes(&[(".env", 1)]), &hashes(&[(".env", 2)]));
    let plan = commit_plan("", &diff, None);
    assert_eq!(plan.message, "Only local files changed\n\nM .env");
    assert!(plan.allow_empty);
    assert!(!plan.add_all);
    assert!(plan.changed);
}

#[test]
fn commit_plan_when_only_git_files_changed() {
    let plan = commit_plan(" M services/ccp-focus.yml\n", &OrderedMap::new(), None);
    assert_eq!(plan.message, "Git files changed\n\n M services/ccp-focus.yml\n");
    assert!(!plan.allow_empty);
    assert!(plan.add_all);
    assert!(plan.changed);
}

#[test]
fn commit_plan_when_both_changed() {
    let diff = compute_local_file_diff(&hashes(&[]), &hashes(&[(".env", 2)]));
    let plan = commit_plan(" M bridgehead\n", &diff, None);
    assert_eq!(
        plan.message,
        "Local files and git changed\n\n M bridgehead\n\nlocal:\nA .env"
    );
    assert!(!plan.allow_empty);
    assert!(plan.add_all);
    assert!(plan.changed);
}

#[test]
fn commit_plan_lists_what_was_stashed_in_a_trailer() {
    let diff = compute_local_file_diff(&hashes(&[(".env", 1)]), &hashes(&[(".env", 2)]));
    let stashed = " M services/ccp-focus.yml".to_string();
    let plan = commit_plan("", &diff, Some(&stashed));
    assert!(plan.message.starts_with("Only local files changed"));
    assert_eq!(
        plan.message,
        "Only local files changed\n\nM .env\n\nStashed changes:\n M services/ccp-focus.yml"
    );
    assert!(plan.changed);
}

#[test]
fn apply_in_a_dirty_tree_stashes_pulls_renders_and_commits() {
    let mut tracker = ApplyTracker::new(Some(true));
    let actions = run(
        &mut tracker,
        &[
            Event::Begin,
            Event::WorkTree(true),
            Event::Status { dirty: true, has_head: true, has_remote: true },
            Event::Finished,
            Event::Pulled { head_moved: false },
            Event::Finished,
            Event::Finished,
            Event::Finished,
            Event::Finished,
            Event::Finished,
        ],
    );
    assert_eq!(
        actions,
        vec![
            Action::CheckWorkTree,
            Action::QueryStatus,
            Action::Stash,
            Action::Pull,
            Action::HashBefore,
            Action::Render,
            Action::HashAfter,
            Action::Commit,
            Action::Push,
            Action::Finish { under_git: true },
        ]
    );
    assert_eq!(tracker.phase, Phase::Done);
}

#[test]
fn apply_without_a_head_does_not_stash() {
    let mut tracker = ApplyTracker::new(Some(false));
    let actions = run(
        &mut tracker,
        &[
            Event::Begin,
            Event::WorkTree(true),
            Event::Status { dirty: true, has_head: false, has_remote: true },
        ],
    );
    assert_eq!(actions, vec![Action::CheckWorkTree, Action::QueryStatus, Action::HashBefore]);
}

#[test]
fn apply_that_does_not_sync_neither_pulls_nor_pushes() {
    let mut tracker = ApplyTracker::new(None);
    let actions = run(
        &mut tracker,
        &[
            Event::Begin,
            Event::WorkTree(true),
            Event::Status { dirty: false, has_head: true, has_remote: false },
            Event::Finished,
            Event::Finished,
            Event::Finished,
            Event::Finished,
        ],
    );
    assert_eq!(
        actions,
        vec![
            Action::CheckWorkTree,
            Action::QueryStatus,
            Action::HashBefore,
            Action::Render,
            Action::HashAfter,
            Action::Commit,
            Action::Finish { under_git: true },
        ]
    );
}

#[test]
fn apply_syncs_with_a_remote_unless_told_otherwise() {
    let status = Event::Status { dirty: false, has_head: true, has_remote: true };
    let mut unset = ApplyTracker::new(None);
    assert_eq!(run(&mut unset, &[Event::Begin, Event::WorkTree(true), status])[2], Action::Pull);
    let mut off = ApplyTracker::new(Some(false));
    assert_eq!(run(&mut off, &[Event::Begin, Event::WorkTree(true), status])[2], Action::HashBefore);
    let no_remote = Event::Status { dirty: false, has_head: true, has_remote: false };
    let mut on = ApplyTracker::new(Some(true));
    assert_eq!(run(&mut on, &[Event::Begin, Event::WorkTree(true), no_remote])[2], Action::Pull);
}

#[test]
fn pull_that_moves_head_reloads_once() {
    let mut tracker = ApplyTracker::new(Some(true));
    let actions = run(
        &mut tracker,
        &[
            Event::Begin,
            Event::WorkTree(true),
            Event::Status { dirty: false, has_head: true, has_remote: true },
            Event::Pulled { head_moved: true },
            Event::Finished,
        ],
    );
    assert_eq!(
        actions,
        vec![
            Action::CheckWorkTree,
            Action::QueryStatus,
            Action::Pull,
            Action::Reload,
            Action::HashBefore,
        ]
    );
    assert!(tracker.reloaded);
    let mut again = ApplyTracker { phase: Phase::Pulling, ..tracker };
    assert_eq!(again.step(Event::Pulled { head_moved: true }), Action::HashBefore);
}

#[test]
fn apply_outside_git_only_renders() {
    let mut tracker = ApplyTracker::new(Some(true));
    let actions = run(&mut tracker, &[Event::Begin, Event::WorkTree(false), Event::Finished]);
    assert_eq!(
        actions,
        vec![Action::CheckWorkTree, Action::Render, Action::Finish { under_git: false }]
    );
}

#[test]
fn event_that_answers_nothing_is_rejected() {
    let mut tracker = ApplyTracker::new(None);
    assert_eq!(tracker.step(Event::Finished), Action::Rejected);
    assert_eq!(tracker.phase, Phase::Start);
    assert_eq!(tracker.step(Event::Begin), Action::CheckWorkTree);
    assert_eq!(tracker.step(Event::Begin), Action::Rejected);
    assert_eq!(tracker.phase, Phase::CheckingWorkTree);
}

#[test]
fn hash_content_is_the_default_hash_of_the_bytes() {
    let bytes = b"seed = 42\n".to_vec();
    let mut hasher = DefaultHasher::new();
    hasher.write(&bytes);
    assert_eq!(hash_content(&bytes), hasher.finish());
    assert_ne!(hash_content(&bytes), hash_content(&b"seed = 43\n".to_vec()));
}

#[test]
fn run_outside_git_counts_as_a_change() {
    assert!(run_changed(false, false));
    assert!(run_changed(false, true));
    assert!(run_changed(true, true));
    assert!(!run_changed(true, false));
}

#[test]
fn exit_code_is_three_after_a_change() {
    assert_eq!(EXIT_CHANGED, 3);
    assert_eq!(exit_code(true), 3);
    assert_eq!(exit_code(false), 0);
}

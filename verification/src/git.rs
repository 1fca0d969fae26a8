//! The bookkeeping around an apply run in a directory under git: which files
//! outside git changed, what the commit says, and in which order the steps
//! of a run follow each other. The caller runs git; this module decides.

use std::hash::{DefaultHasher, Hasher};

use vstd::prelude::*;
use vstd::std_specs::hash::DefaultHasherAdditionalSpecFns;
use vstd::string::*;

use crate::ordered_map::{
    lemma_lookup_at, lemma_lookup_none, lemma_put, lemma_sorted_distinct, lookup, put, OrderedMap,
};
use crate::utils::{concat2, concat3, join_texts, spec_join, texts_of};

verus! {

/// The hash of the content of a file: what a fresh hasher of the standard
/// library gives once the content was written to it in one piece.
pub open spec fn content_hash(bytes: Seq<u8>) -> u64 {
    DefaultHasher::spec_finish(seq![bytes])
}

pub fn hash_content(bytes: &Vec<u8>) -> (h: u64)
    ensures
        h == content_hash(bytes@),
{
    let mut hasher = DefaultHasher::new();
    hasher.write(bytes.as_slice());
    proof {
        assert(hasher@ =~= seq![bytes@]);
    }
    hasher.finish()
}

/// The hashes of the files that git ignores, by the name of the file.
pub type LocalDiffHashes = OrderedMap<u64>;

/// The hashes of the first `n` of `files`, each bound to the hash of its
/// content. Of a file that is listed twice the later content counts.
pub open spec fn spec_hashes(files: Seq<Seq<char>>, contents: Seq<Seq<u8>>, n: int) -> Seq<
    (Seq<char>, u64),
>
    decreases n,
{
    if n <= 0 {
        Seq::empty()
    } else {
        put(spec_hashes(files, contents, n - 1), files[n - 1], content_hash(contents[n - 1]))
    }
}

/// The contents of a list of files, as sequences of bytes.
pub open spec fn byte_views(contents: Seq<Vec<u8>>) -> Seq<Seq<u8>> {
    Seq::new(contents.len(), |i: int| contents[i]@)
}

/// Hashes the files that git ignores: `contents` holds, for each of
/// `files`, what the file holds.
pub fn hash_untracked_files(files: &Vec<String>, contents: &Vec<Vec<u8>>) -> (hashes:
    LocalDiffHashes)
    requires
        files@.len() == contents@.len(),
    ensures
        hashes.wf(),
        hashes@ == spec_hashes(texts_of(files@), byte_views(contents@), files@.len() as int),
{
    let mut hashes: LocalDiffHashes = OrderedMap::new();
    let mut i: usize = 0;
    while i < files.len()
        invariant
            i <= files@.len(),
            files@.len() == contents@.len(),
            hashes.wf(),
            hashes@ == spec_hashes(texts_of(files@), byte_views(contents@), i as int),
        decreases files@.len() - i,
    {
        let h = hash_content(&contents[i]);
        hashes.insert(files[i].clone(), h);
        i += 1;
    }
    hashes
}

/// What happened to a file between two snapshots: `M` where its hash
/// changed, `D` where it is gone, `A` where it is new, nothing where it is
/// as it was.
pub open spec fn spec_status(before: Option<u64>, after: Option<u64>) -> Option<char> {
    match (before, after) {
        (Some(b), Some(a)) => if a == b {
            None
        } else {
            Some('M')
        },
        (Some(_), None) => Some('D'),
        (None, Some(_)) => Some('A'),
        (None, None) => None,
    }
}

/// Whether `f` is the key of one of the first `n` entries of `s`.
pub open spec fn among_keys<V>(s: Seq<(Seq<char>, V)>, n: int, f: Seq<char>) -> bool {
    exists|j: int| 0 <= j < n && j < s.len() && (#[trigger] s[j]).0 == f
}

/// Compares two snapshots of the files that git ignores. The result binds
/// every file that changed to what happened to it.
pub fn compute_local_file_diff(before_hashes: &LocalDiffHashes, after_hashes: &LocalDiffHashes) -> (diff:
    OrderedMap<char>)
    requires
        before_hashes.wf(),
        after_hashes.wf(),
    ensures
        diff.wf(),
        forall|f: Seq<char>|
            lookup(diff@, f) == spec_status(
                #[trigger] lookup(before_hashes@, f),
                lookup(after_hashes@, f),
            ),
{
    let mut diff: OrderedMap<char> = OrderedMap::new();
    let mut i: usize = 0;
    proof {
        assert forall|f: Seq<char>| lookup(diff@, f) is None by {
            lemma_lookup_none(diff@, f);
        }
    }
    while i < before_hashes.len()
        invariant
            i <= before_hashes@.len(),
            before_hashes.wf(),
            after_hashes.wf(),
            diff.wf(),
            forall|f: Seq<char>|
                #[trigger] lookup(diff@, f) == if among_keys(before_hashes@, i as int, f) {
                    spec_status(lookup(before_hashes@, f), lookup(after_hashes@, f))
                } else {
                    None
                },
        decreases before_hashes@.len() - i,
    {
        let file = before_hashes.key_at(i);
        let before_hash = *before_hashes.value_at(i);
        let ghost old_diff = diff@;
        proof {
            lemma_lookup_at(before_hashes@, i as int);
        }
        let status = match after_hashes.get(file.as_str()) {
            Some(after_hash) => if before_hash == *after_hash {
                None
            } else {
                Some('M')
            },
            None => Some('D'),
        };
        match status {
            Some(c) => {
                diff.insert(file.clone(), c);
            },
            None => {},
        }
        proof {
            assert forall|f: Seq<char>|
                #[trigger] lookup(diff@, f) == if among_keys(before_hashes@, i + 1, f) {
                    spec_status(lookup(before_hashes@, f), lookup(after_hashes@, f))
                } else {
                    None
                } by {
                if status is Some {
                    lemma_put(old_diff, file@, status->0, f);
                }
                if f == file@ {
                    assert(before_hashes@[i as int].0 == f);
                    if among_keys(before_hashes@, i as int, f) {
                        let j = choose|j: int|
                            0 <= j < i && j < before_hashes@.len() && (
                            #[trigger] before_hashes@[j]).0 == f;
                        lemma_sorted_distinct(before_hashes@, j, i as int);
                    }
                } else {
                    if among_keys(before_hashes@, i + 1, f) {
                        let j = choose|j: int|
                            0 <= j < i + 1 && j < before_hashes@.len() && (
                            #[trigger] before_hashes@[j]).0 == f;
                        assert(j < i);
                    }
                    if among_keys(before_hashes@, i as int, f) {
                        let j = choose|j: int|
                            0 <= j < i && j < before_hashes@.len() && (
                            #[trigger] before_hashes@[j]).0 == f;
                        assert(0 <= j < i + 1);
                    }
                }
            }
        }
        i += 1;
    }
    let ghost mid = diff@;
    proof {
        assert forall|f: Seq<char>| lookup(before_hashes@, f) is Some <==> among_keys(
            before_hashes@,
            before_hashes@.len() as int,
            f,
        ) by {
            crate::ordered_map::lemma_first_with_key(before_hashes@, f, 0);
            let p = crate::ordered_map::first_with_key(before_hashes@, f, 0);
            if p < before_hashes@.len() {
                assert(before_hashes@[p].0 == f);
            }
            if among_keys(before_hashes@, before_hashes@.len() as int, f) {
                let j = choose|j: int|
                    0 <= j < before_hashes@.len() && (#[trigger] before_hashes@[j]).0 == f;
                lemma_lookup_at(before_hashes@, j);
            }
        }
    }
    let mut k: usize = 0;
    while k < after_hashes.len()
        invariant
            k <= after_hashes@.len(),
            before_hashes.wf(),
            after_hashes.wf(),
            diff.wf(),
            forall|f: Seq<char>|
                #[trigger] lookup(diff@, f) == if lookup(before_hashes@, f) is Some
                    || among_keys(after_hashes@, k as int, f) {
                    spec_status(lookup(before_hashes@, f), lookup(after_hashes@, f))
                } else {
                    None
                },
        decreases after_hashes@.len() - k,
    {
        let file = after_hashes.key_at(k);
        let ghost old_diff = diff@;
        proof {
            lemma_lookup_at(after_hashes@, k as int);
        }
        let is_new = !before_hashes.contains_key(file.as_str());
        if is_new {
            diff.insert(file.clone(), 'A');
        }
        proof {
            assert forall|f: Seq<char>|
                #[trigger] lookup(diff@, f) == if lookup(before_hashes@, f) is Some
                    || among_keys(after_hashes@, k + 1, f) {
                    spec_status(lookup(before_hashes@, f), lookup(after_hashes@, f))
                } else {
                    None
                } by {
                if is_new {
                    lemma_put(old_diff, file@, 'A', f);
                }
                if f == file@ {
                    assert(after_hashes@[k as int].0 == f);
                } else {
                    if among_keys(after_hashes@, k + 1, f) {
                        let j = choose|j: int|
                            0 <= j < k + 1 && j < after_hashes@.len() && (
                            #[trigger] after_hashes@[j]).0 == f;
                        assert(j < k);
                    }
                    if among_keys(after_hashes@, k as int, f) {
                        let j = choose|j: int|
                            0 <= j < k && j < after_hashes@.len() && (
                            #[trigger] after_hashes@[j]).0 == f;
                        assert(0 <= j < k + 1);
                    }
                }
            }
        }
        k += 1;
    }
    proof {
        assert forall|f: Seq<char>|
            lookup(diff@, f) == spec_status(
                #[trigger] lookup(before_hashes@, f),
                lookup(after_hashes@, f),
            ) by {
            crate::ordered_map::lemma_first_with_key(after_hashes@, f, 0);
            let p = crate::ordered_map::first_with_key(after_hashes@, f, 0);
            if p < after_hashes@.len() {
                assert(after_hashes@[p].0 == f);
            }
        }
    }
    diff
}

/// One line of the list of local changes: the status and the file.
pub open spec fn spec_diff_line(entry: (Seq<char>, char)) -> Seq<char> {
    seq![entry.1, ' '] + entry.0
}

/// The list of local changes: one line for each file, in the order of the
/// files.
pub open spec fn spec_local_diff_text(diff: Seq<(Seq<char>, char)>) -> Seq<char> {
    spec_join(Seq::new(diff.len(), |i: int| spec_diff_line(diff[i])), "\n"@)
}

pub fn local_diff_text(diff: &OrderedMap<char>) -> (text: String)
    ensures
        text@ == spec_local_diff_text(diff@),
{
    let mut out: Vec<String> = Vec::new();
    let mut i: usize = 0;
    let ghost want = Seq::new(diff@.len(), |i: int| spec_diff_line(diff@[i]));
    while i < diff.len()
        invariant
            i <= diff@.len(),
            want == Seq::new(diff@.len(), |i: int| spec_diff_line(diff@[i])),
            texts_of(out@) == want.subrange(0, i as int),
        decreases diff@.len() - i,
    {
        let mut line = String::new();
        line.push(*diff.value_at(i));
        line.push(' ');
        line.append(diff.key_at(i).as_str());
        let ghost before = texts_of(out@);
        proof {
            assert(line@ =~= spec_diff_line(diff@[i as int]));
        }
        out.push(line);
        proof {
            assert(texts_of(out@) == before.push(want[i as int]));
            assert(want.subrange(0, i + 1) == want.subrange(0, i as int).push(want[i as int]));
        }
        i += 1;
    }
    proof {
        assert(want.subrange(0, want.len() as int) == want);
    }
    join_texts(&out, "\n")
}

/// What the commit of an apply run looks like.
#[derive(Debug)]
pub struct CommitPlan {
    pub message: String,
    /// Whether the commit is made even if nothing is staged.
    pub allow_empty: bool,
    /// Whether everything is staged before the commit.
    pub add_all: bool,
    /// Whether anything changed, under git or beside it.
    pub changed: bool,
}

/// The message of the commit without its trailer: one of four texts, by
/// whether git saw changes and whether files beside git changed.
pub open spec fn spec_commit_body(git_diff: Seq<char>, local_diff: Seq<char>, local_empty: bool) -> Seq<
    char,
> {
    if git_diff.len() == 0 && local_empty {
        "Nothing to update"@
    } else if git_diff.len() == 0 {
        "Only local files changed\n\n"@ + local_diff
    } else if local_empty {
        "Git files changed\n\n"@ + git_diff
    } else {
        "Local files and git changed\n\n"@ + git_diff + "\nlocal:\n"@ + local_diff
    }
}

/// The message of the commit: the body and, where changes were stashed
/// before the run, a trailer that lists them.
pub open spec fn spec_commit_message(body: Seq<char>, stashed: Option<Seq<char>>) -> Seq<char> {
    match stashed {
        Some(diff) => body + "\n\nStashed changes:\n"@ + diff,
        None => body,
    }
}

/// Plans the commit of an apply run from what `git status` lists, what
/// changed beside git, and what was stashed before the run, if anything.
pub fn commit_plan(git_diff: &str, local_diff: &OrderedMap<char>, stashed: Option<&String>) -> (plan:
    CommitPlan)
    ensures
        plan.message@ == spec_commit_message(
            spec_commit_body(git_diff@, spec_local_diff_text(local_diff@), local_diff@.len() == 0),
            match stashed {
                Some(s) => Some(s@),
                None => None,
            },
        ),
        plan.allow_empty == (git_diff@.len() == 0),
        plan.add_all == (git_diff@.len() != 0),
        plan.changed == !(git_diff@.len() == 0 && local_diff@.len() == 0),
{
    let git_empty = git_diff.unicode_len() == 0;
    let local_empty = local_diff.len() == 0;
    let local = local_diff_text(local_diff);
    let mut message = if git_empty && local_empty {
        String::from_str("Nothing to update")
    } else if git_empty {
        concat2("Only local files changed\n\n", local.as_str())
    } else if local_empty {
        concat2("Git files changed\n\n", git_diff)
    } else {
        let mut m = concat3("Local files and git changed\n\n", git_diff, "\nlocal:\n");
        m.append(local.as_str());
        m
    };
    match stashed {
        Some(diff) => {
            message.append("\n\nStashed changes:\n");
            message.append(diff.as_str());
        },
        None => {},
    }
    CommitPlan {
        message,
        allow_empty: git_empty,
        add_all: !git_empty,
        changed: !(git_empty && local_empty),
    }
}

/// Where an apply run stands.
#[derive(Clone, Copy, Debug, PartialEq, Eq, Structural)]
pub enum Phase {
    Start,
    CheckingWorkTree,
    QueryingStatus,
    Stashing,
    Pulling,
    Reloading,
    HashingBefore,
    Rendering,
    HashingAfter,
    Committing,
    Pushing,
    Done,
}

/// What the caller reports back after it did what it was asked to do.
#[derive(Clone, Copy, Debug, PartialEq, Eq, Structural)]
pub enum Event {
    /// The run begins.
    Begin,
    /// Whether the directory is a git working tree.
    WorkTree(bool),
    /// Whether the tree is dirty, whether it has a HEAD, and whether it has
    /// a remote.
    Status { dirty: bool, has_head: bool, has_remote: bool },
    /// Whether the pull moved HEAD.
    Pulled { head_moved: bool },
    /// The step that was asked for is done.
    Finished,
}

/// What the caller is asked to do next.
#[derive(Clone, Copy, Debug, PartialEq, Eq, Structural)]
pub enum Action {
    CheckWorkTree,
    QueryStatus,
    /// Stash everything, untracked files too.
    Stash,
    /// Pull with rebase.
    Pull,
    /// Load the configuration again.
    Reload,
    /// Hash the files that git ignores, as the snapshot before the run.
    HashBefore,
    /// Build the services and write them out.
    Render,
    /// Hash the files that git ignores, as the snapshot after the run.
    HashAfter,
    /// Commit as `commit_plan` says.
    Commit,
    Push,
    /// The run is over. Under git the commit plan says whether anything
    /// changed; outside git nothing is known, and the run counts as a
    /// change.
    Finish { under_git: bool },
    /// The event does not answer what was asked.
    Rejected,
}

/// The state of an apply run.
#[derive(Clone, Copy, Debug, PartialEq, Eq, Structural)]
pub struct ApplyTracker {
    pub phase: Phase,
    /// What the configuration says about syncing with the remote.
    pub remote_sync: Option<bool>,
    /// Whether this run pulls and pushes.
    pub sync: bool,
    /// Whether the configuration was loaded again in this run.
    pub reloaded: bool,
    /// Whether the directory is a git working tree.
    pub under_git: bool,
}

/// Whether a run syncs with the remote: where the configuration says so, or,
/// where it says nothing, if there is a remote.
pub open spec fn spec_wants_sync(remote_sync: Option<bool>, has_remote: bool) -> bool {
    match remote_sync {
        Some(b) => b,
        None => has_remote,
    }
}

/// What follows the stash, or the decision not to stash.
pub open spec fn spec_after_stash(state: ApplyTracker) -> (ApplyTracker, Action) {
    if state.sync {
        (ApplyTracker { phase: Phase::Pulling, ..state }, Action::Pull)
    } else {
        (ApplyTracker { phase: Phase::HashingBefore, ..state }, Action::HashBefore)
    }
}

/// The step of an apply run: the state and the action that follow a state
/// and an event.
pub open spec fn spec_step(state: ApplyTracker, event: Event) -> (ApplyTracker, Action) {
    match (state.phase, event) {
        (Phase::Start, Event::Begin) => (
            ApplyTracker { phase: Phase::CheckingWorkTree, ..state },
            Action::CheckWorkTree,
        ),
        (Phase::CheckingWorkTree, Event::WorkTree(false)) => (
            ApplyTracker { phase: Phase::Rendering, under_git: false, ..state },
            Action::Render,
        ),
        (Phase::CheckingWorkTree, Event::WorkTree(true)) => (
            ApplyTracker { phase: Phase::QueryingStatus, under_git: true, ..state },
            Action::QueryStatus,
        ),
        (Phase::QueryingStatus, Event::Status { dirty, has_head, has_remote }) => {
            let synced = ApplyTracker {
                sync: spec_wants_sync(state.remote_sync, has_remote),
                ..state
            };
            if dirty && has_head {
                (ApplyTracker { phase: Phase::Stashing, ..synced }, Action::Stash)
            } else {
                spec_after_stash(synced)
            }
        },
        (Phase::Stashing, Event::Finished) => spec_after_stash(state),
        (Phase::Pulling, Event::Pulled { head_moved }) => if head_moved && !state.reloaded {
            (ApplyTracker { phase: Phase::Reloading, reloaded: true, ..state }, Action::Reload)
        } else {
            (ApplyTracker { phase: Phase::HashingBefore, ..state }, Action::HashBefore)
        },
        (Phase::Reloading, Event::Finished) => (
            ApplyTracker { phase: Phase::HashingBefore, ..state },
            Action::HashBefore,
        ),
        (Phase::HashingBefore, Event::Finished) => (
            ApplyTracker { phase: Phase::Rendering, ..state },
            Action::Render,
        ),
        (Phase::Rendering, Event::Finished) => if state.under_git {
            (ApplyTracker { phase: Phase::HashingAfter, ..state }, Action::HashAfter)
        } else {
            (ApplyTracker { phase: Phase::Done, ..state }, Action::Finish { under_git: false })
        },
        (Phase::HashingAfter, Event::Finished) => (
            ApplyTracker { phase: Phase::Committing, ..state },
            Action::Commit,
        ),
        (Phase::Committing, Event::Finished) => if state.sync {
            (ApplyTracker { phase: Phase::Pushing, ..state }, Action::Push)
        } else {
            (ApplyTracker { phase: Phase::Done, ..state }, Action::Finish { under_git: true })
        },
        (Phase::Pushing, Event::Finished) => (
            ApplyTracker { phase: Phase::Done, ..state },
            Action::Finish { under_git: true },
        ),
        _ => (state, Action::Rejected),
    }
}

impl ApplyTracker {
    /// A run that has not begun, for a configuration that says `remote_sync`
    /// about syncing with the remote.
    pub fn new(remote_sync: Option<bool>) -> (t: Self)
        ensures
            t == (ApplyTracker {
                phase: Phase::Start,
                remote_sync,
                sync: false,
                reloaded: false,
                under_git: false,
            }),
    {
        ApplyTracker { phase: Phase::Start, remote_sync, sync: false, reloaded: false, under_git: false }
    }

    fn after_stash(&mut self) -> (action: Action)
        ensures
            (*final(self), action) == spec_after_stash(*old(self)),
    {
        if self.sync {
            self.phase = Phase::Pulling;
            Action::Pull
        } else {
            self.phase = Phase::HashingBefore;
            Action::HashBefore
        }
    }

    /// Takes the run one step on: given what the caller reports, says what
    /// is to be done next.
    pub fn step(&mut self, event: Event) -> (action: Action)
        ensures
            (*final(self), action) == spec_step(*old(self), event),
    {
        match (self.phase, event) {
            (Phase::Start, Event::Begin) => {
                self.phase = Phase::CheckingWorkTree;
                Action::CheckWorkTree
            },
            (Phase::CheckingWorkTree, Event::WorkTree(false)) => {
                self.phase = Phase::Rendering;
                self.under_git = false;
                Action::Render
            },
            (Phase::CheckingWorkTree, Event::WorkTree(true)) => {
                self.phase = Phase::QueryingStatus;
                self.under_git = true;
                Action::QueryStatus
            },
            (Phase::QueryingStatus, Event::Status { dirty, has_head, has_remote }) => {
                self.sync = match self.remote_sync {
                    Some(b) => b,
                    None => has_remote,
                };
                if dirty && has_head {
                    self.phase = Phase::Stashing;
                    Action::Stash
                } else {
                    self.after_stash()
                }
            },
            (Phase::Stashing, Event::Finished) => self.after_stash(),
            (Phase::Pulling, Event::Pulled { head_moved }) => {
                if head_moved && !self.reloaded {
                    self.phase = Phase::Reloading;
                    self.reloaded = true;
                    Action::Reload
                } else {
                    self.phase = Phase::HashingBefore;
                    Action::HashBefore
                }
            },
            (Phase::Reloading, Event::Finished) => {
                self.phase = Phase::HashingBefore;
                Action::HashBefore
            },
            (Phase::HashingBefore, Event::Finished) => {
                self.phase = Phase::Rendering;
                Action::Render
            },
            (Phase::Rendering, Event::Finished) => {
                if self.under_git {
                    self.phase = Phase::HashingAfter;
                    Action::HashAfter
                } else {
                    self.phase = Phase::Done;
                    Action::Finish { under_git: false }
                }
            },
            (Phase::HashingAfter, Event::Finished) => {
                self.phase = Phase::Committing;
                Action::Commit
            },
            (Phase::Committing, Event::Finished) => {
                if self.sync {
                    self.phase = Phase::Pushing;
                    Action::Push
                } else {
                    self.phase = Phase::Done;
                    Action::Finish { under_git: true }
                }
            },
            (Phase::Pushing, Event::Finished) => {
                self.phase = Phase::Done;
                Action::Finish { under_git: true }
            },
            _ => Action::Rejected,
        }
    }
}

/// The run after the events `events`, one after the other.
pub open spec fn spec_run(state: ApplyTracker, events: Seq<Event>) -> ApplyTracker
    decreases events.len(),
{
    if events.len() == 0 {
        state
    } else {
        spec_step(spec_run(state, events.drop_last()), events.last()).0
    }
}

/// How often the run asks for a reload on the events `events`.
pub open spec fn spec_reloads(state: ApplyTracker, events: Seq<Event>) -> nat
    decreases events.len(),
{
    if events.len() == 0 {
        0
    } else {
        spec_reloads(state, events.drop_last()) + if spec_step(
            spec_run(state, events.drop_last()),
            events.last(),
        ).1 == Action::Reload {
            1nat
        } else {
            0nat
        }
    }
}

/// Whatever the caller reports, a run asks for at most one reload: it asks
/// for none once the configuration was loaded again, and it has asked for
/// none before.
pub proof fn lemma_at_most_one_reload(state: ApplyTracker, events: Seq<Event>)
    ensures
        spec_reloads(state, events) <= 1,
        state.reloaded ==> spec_reloads(state, events) == 0,
        spec_reloads(state, events) == 1 ==> spec_run(state, events).reloaded,
        state.reloaded ==> spec_run(state, events).reloaded,
    decreases events.len(),
{
    if events.len() > 0 {
        lemma_at_most_one_reload(state, events.drop_last());
    }
}

/// The exit code that tells the launcher to restart the stack.
pub const EXIT_CHANGED: u8 = 3;

/// Whether an apply run has changed the site: outside a git tree nothing
/// can be compared, so the run counts as a change; under git it is one where
/// the commit of the run recorded any.
pub fn run_changed(under_git: bool, committed: bool) -> (changed: bool)
    ensures
        changed == (!under_git || committed),
{
    !under_git || committed
}

/// The exit code of an apply run: `EXIT_CHANGED` where the run changed the
/// site, zero where it did not.
pub fn exit_code(changed: bool) -> (code: u8)
    ensures
        code == if changed {
            EXIT_CHANGED
        } else {
            0u8
        },
{
    if changed {
        EXIT_CHANGED
    } else {
        0
    }
}

} // verus!

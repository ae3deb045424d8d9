//! Synchronizing a working tree with a pristine tree.
//!
//! The pristine files are taken in order. Each file below the source root,
//! but for the package's own manifest, is reconciled with its patch record
//! and its local copy. What has to be stored comes back as a list of
//! actions, in the order in which they are to be carried out.

use vstd::prelude::*;
use crate::content::{Content, ContentView};
use crate::diff::replays;
use crate::error::ErrorKind;
use crate::layout::{target_of, Layout, LayoutView};
use crate::paths::{
    crate_file_to_patch_file, file_name, file_name_of, lemma_patch_names_differ,
    lemma_relative_paths_differ, patch_file_name, relative_to, strip_root,
};
use crate::reconcile::{
    lemma_reconcile_settles, local_after, patch_after, reconcile, record_replays, verdict_of,
    Verdict, VerdictView,
};
use crate::text::same_text;
use crate::tree::{
    files_of, find_content, find_record, records_of, tree_of, EntryView, FileEntry, PatchRecord,
};

verus! {

/// Something to store.
#[derive(Debug, Clone, PartialEq, Eq)]
pub enum Action {
    /// Store `content` in the working tree at `target`.
    Write { target: String, content: Content },
    /// Store the unified diff `patch` in the patch store under `name`.
    Record { name: String, patch: String },
}

/// The mathematical value of an [`Action`].
pub enum ActionView {
    Write { target: Seq<char>, content: ContentView },
    Record { name: Seq<char>, patch: Seq<char> },
}

impl View for Action {
    type V = ActionView;

    open spec fn view(&self) -> ActionView {
        match self {
            Action::Write { target, content } => ActionView::Write {
                target: target@,
                content: content@,
            },
            Action::Record { name, patch } => ActionView::Record { name: name@, patch: patch@ },
        }
    }
}

/// The failure that ended a run, with the pristine path it happened at.
#[derive(Debug, Clone, PartialEq, Eq)]
pub struct Failure {
    pub path: String,
    pub kind: ErrorKind,
}

/// The mathematical value of a [`Failure`].
pub struct FailureView {
    pub path: Seq<char>,
    pub kind: ErrorKind,
}

impl View for Failure {
    type V = FailureView;

    open spec fn view(&self) -> FailureView {
        FailureView { path: self.path@, kind: self.kind }
    }
}

/// The outcome of a run: the actions up to the first failure, and that
/// failure if there was one.
#[derive(Debug, Clone, PartialEq, Eq)]
pub struct Report {
    pub actions: Vec<Action>,
    pub failure: Option<Failure>,
}

/// The mathematical value of a [`Report`].
pub struct ReportView {
    pub actions: Seq<ActionView>,
    pub failure: Option<FailureView>,
}

/// The values of a list of actions, in order.
pub open spec fn actions_of(actions: Seq<Action>) -> Seq<ActionView> {
    Seq::new(actions.len(), |i: int| actions[i]@)
}

impl View for Report {
    type V = ReportView;

    open spec fn view(&self) -> ReportView {
        ReportView {
            actions: actions_of(self.actions@),
            failure: match self.failure {
                Some(f) => Some(f@),
                None => None,
            },
        }
    }
}

/// What one pristine file contributes to a run.
pub enum StepView {
    Skip,
    Act(ActionView),
    Fail(FailureView),
}

/// A pristine file takes part in the run when it lies below the source
/// root and is not named like the package's own manifest.
pub open spec fn considered(layout: LayoutView, root: Seq<char>, path: Seq<char>) -> bool {
    relative_to(path, root) is Some && file_name_of(path) != layout.manifest_name
}

/// Where a pristine file goes in the working tree. A binary file keeps its
/// path below the source root; a text file goes where the layout says.
pub open spec fn target_of_file(layout: LayoutView, root: Seq<char>, file: EntryView) -> Seq<char> {
    let relative = relative_to(file.path, root)->0;
    match file.content {
        ContentView::Binary(_) => relative,
        ContentView::Text(_) => target_of(layout, relative),
    }
}

/// The verdict on a pristine file, given the working tree as it was when
/// the run began and the patch store as it is now.
pub open spec fn verdict_for(
    layout: LayoutView,
    root: Seq<char>,
    file: EntryView,
    local: Map<Seq<char>, ContentView>,
    patches: Map<Seq<char>, Seq<char>>,
) -> Result<VerdictView, ErrorKind> {
    verdict_of(
        file.content,
        patches.get(patch_file_name(file.path)),
        local.get(target_of_file(layout, root, file)),
    )
}

/// The step that a pristine file amounts to.
pub open spec fn step_of(
    layout: LayoutView,
    root: Seq<char>,
    file: EntryView,
    local: Map<Seq<char>, ContentView>,
    patches: Map<Seq<char>, Seq<char>>,
) -> StepView {
    if !considered(layout, root, file.path) {
        StepView::Skip
    } else {
        match verdict_for(layout, root, file, local, patches) {
            Err(kind) => StepView::Fail(FailureView { path: file.path, kind }),
            Ok(VerdictView::Keep) => StepView::Skip,
            Ok(VerdictView::Write(content)) => StepView::Act(
                ActionView::Write { target: target_of_file(layout, root, file), content },
            ),
            Ok(VerdictView::Record(patch)) => StepView::Act(
                ActionView::Record { name: patch_file_name(file.path), patch },
            ),
        }
    }
}

/// The patch store once the actions are carried out.
pub open spec fn patches_after(
    patches: Map<Seq<char>, Seq<char>>,
    actions: Seq<ActionView>,
) -> Map<Seq<char>, Seq<char>>
    decreases actions.len(),
{
    if actions.len() == 0 {
        patches
    } else {
        let before = patches_after(patches, actions.drop_last());
        match actions.last() {
            ActionView::Record { name, patch } => before.insert(name, patch),
            ActionView::Write { .. } => before,
        }
    }
}

/// The working tree once the actions are carried out.
pub open spec fn tree_after(
    tree: Map<Seq<char>, ContentView>,
    actions: Seq<ActionView>,
) -> Map<Seq<char>, ContentView>
    decreases actions.len(),
{
    if actions.len() == 0 {
        tree
    } else {
        let before = tree_after(tree, actions.drop_last());
        match actions.last() {
            ActionView::Write { target, content } => before.insert(target, content),
            ActionView::Record { .. } => before,
        }
    }
}

/// A report without actions and without a failure.
pub open spec fn quiet() -> ReportView {
    ReportView { actions: Seq::empty(), failure: None }
}

/// The outcome of a run over the pristine files, in order.
///
/// The working tree is read as it was when the run began. The patch store
/// is read as the run has left it so far. The first failure ends the run.
pub open spec fn plan(
    layout: LayoutView,
    root: Seq<char>,
    files: Seq<EntryView>,
    local: Map<Seq<char>, ContentView>,
    patches: Map<Seq<char>, Seq<char>>,
) -> ReportView
    decreases files.len(),
{
    if files.len() == 0 {
        quiet()
    } else {
        let before = plan(layout, root, files.drop_last(), local, patches);
        if before.failure is Some {
            before
        } else {
            match step_of(
                layout,
                root,
                files.last(),
                local,
                patches_after(patches, before.actions),
            ) {
                StepView::Skip => before,
                StepView::Act(action) => ReportView {
                    actions: before.actions.push(action),
                    failure: None,
                },
                StepView::Fail(failure) => ReportView {
                    actions: before.actions,
                    failure: Some(failure),
                },
            }
        }
    }
}

/// No action stores anything at a path that the working tree already holds.
pub open spec fn spares_local(tree: Map<Seq<char>, ContentView>, actions: Seq<ActionView>) -> bool {
    forall|i: int|
        0 <= i < actions.len() ==> (#[trigger] actions[i] matches ActionView::Write {
            target,
            ..
        } ==> !tree.contains_key(target))
}

/// The patch that file `k` of the run records, if it records one, turns
/// the file's pristine text into the local text.
pub open spec fn step_replays(
    layout: LayoutView,
    root: Seq<char>,
    files: Seq<EntryView>,
    local: Map<Seq<char>, ContentView>,
    patches: Map<Seq<char>, Seq<char>>,
    k: int,
) -> bool {
    let before = plan(layout, root, files.take(k), local, patches);
    before.failure is None && considered(layout, root, files[k].path) ==> {
        let verdict = verdict_for(
            layout,
            root,
            files[k],
            local,
            patches_after(patches, before.actions),
        );
        verdict is Ok ==> record_replays(
            files[k].content,
            local.get(target_of_file(layout, root, files[k])),
            verdict->Ok_0,
        )
    }
}

/// Every patch that the run records replays.
pub open spec fn records_replay(
    layout: LayoutView,
    root: Seq<char>,
    files: Seq<EntryView>,
    local: Map<Seq<char>, ContentView>,
    patches: Map<Seq<char>, Seq<char>>,
) -> bool {
    forall|k: int|
        0 <= k < files.len() ==> #[trigger] step_replays(layout, root, files, local, patches, k)
}

/// No two files that take part in the run share a target in the working
/// tree.
pub open spec fn distinct_targets(
    layout: LayoutView,
    root: Seq<char>,
    files: Seq<EntryView>,
) -> bool {
    forall|i: int, j: int|
        0 <= i < j < files.len() && considered(layout, root, #[trigger] files[i].path)
            && considered(layout, root, #[trigger] files[j].path) ==> target_of_file(
            layout,
            root,
            files[i],
        ) != target_of_file(layout, root, files[j])
}

/// A sufficient condition for distinct targets: the pristine paths differ
/// from each other, and the target of the main entry is not taken by a
/// file of the package.
pub proof fn lemma_distinct_targets(layout: LayoutView, root: Seq<char>, files: Seq<EntryView>)
    requires
        forall|i: int, j: int| 0 <= i < j < files.len() ==> files[i].path != files[j].path,
        layout.main_entry != layout.entry_target ==> forall|i: int|
            0 <= i < files.len() && considered(layout, root, #[trigger] files[i].path)
                ==> relative_to(files[i].path, root) != Some(layout.entry_target),
    ensures
        distinct_targets(layout, root, files),
{
    assert forall|i: int, j: int|
        0 <= i < j < files.len() && considered(layout, root, #[trigger] files[i].path)
            && considered(layout, root, #[trigger] files[j].path) implies target_of_file(
        layout,
        root,
        files[i],
    ) != target_of_file(layout, root, files[j]) by {
        lemma_relative_paths_differ(files[i].path, files[j].path, root);
    }
}

/// Two text files with distinct targets have patch records of different
/// names: the same name means the same path, and so the same target.
pub proof fn lemma_distinct_names(
    layout: LayoutView,
    root: Seq<char>,
    files: Seq<EntryView>,
    i: int,
    j: int,
)
    requires
        distinct_targets(layout, root, files),
        0 <= i < files.len(),
        0 <= j < files.len(),
        i != j,
        considered(layout, root, files[i].path),
        considered(layout, root, files[j].path),
        files[i].content is Text,
        files[j].content is Text,
    ensures
        patch_file_name(files[i].path) != patch_file_name(files[j].path),
{
    if files[i].path != files[j].path {
        lemma_patch_names_differ(files[i].path, files[j].path);
    } else if i < j {
        assert(target_of_file(layout, root, files[i]) == target_of_file(layout, root, files[j]));
    } else {
        assert(target_of_file(layout, root, files[j]) == target_of_file(layout, root, files[i]));
    }
}

/// Once a run has failed, further files change nothing.
pub proof fn lemma_failure_ends_run(
    layout: LayoutView,
    root: Seq<char>,
    files: Seq<EntryView>,
    local: Map<Seq<char>, ContentView>,
    patches: Map<Seq<char>, Seq<char>>,
    k: int,
)
    requires
        0 <= k <= files.len(),
        plan(layout, root, files.take(k), local, patches).failure is Some,
    ensures
        plan(layout, root, files, local, patches) == plan(
            layout,
            root,
            files.take(k),
            local,
            patches,
        ),
    decreases files.len() - k,
{
    if k == files.len() {
        assert(files.take(k) == files);
    } else {
        assert(files.take(k + 1).drop_last() == files.take(k));
        lemma_failure_ends_run(layout, root, files, local, patches, k + 1);
    }
}

/// A run that has not failed had not failed before any of its files.
pub proof fn lemma_no_failure_before(
    layout: LayoutView,
    root: Seq<char>,
    files: Seq<EntryView>,
    local: Map<Seq<char>, ContentView>,
    patches: Map<Seq<char>, Seq<char>>,
    k: int,
)
    requires
        0 <= k <= files.len(),
        plan(layout, root, files, local, patches).failure is None,
    ensures
        plan(layout, root, files.take(k), local, patches).failure is None,
{
    if plan(layout, root, files.take(k), local, patches).failure is Some {
        lemma_failure_ends_run(layout, root, files, local, patches, k);
    }
}


/// A run stores nothing at a path that the working tree already holds.
pub proof fn lemma_plan_spares_local(
    layout: LayoutView,
    root: Seq<char>,
    files: Seq<EntryView>,
    local: Map<Seq<char>, ContentView>,
    patches: Map<Seq<char>, Seq<char>>,
)
    ensures
        spares_local(local, plan(layout, root, files, local, patches).actions),
    decreases files.len(),
{
    if files.len() > 0 {
        lemma_plan_spares_local(layout, root, files.drop_last(), local, patches);
    }
}

/// Actions that spare the working tree leave each of its files as it was.
pub proof fn lemma_spared_tree(
    tree: Map<Seq<char>, ContentView>,
    actions: Seq<ActionView>,
    path: Seq<char>,
)
    requires
        spares_local(tree, actions),
        tree.contains_key(path),
    ensures
        tree_after(tree, actions).get(path) == tree.get(path),
    decreases actions.len(),
{
    if actions.len() > 0 {
        let head = actions.drop_last();
        assert(spares_local(tree, head)) by {
            assert forall|i: int| 0 <= i < head.len() implies head[i] == actions[i] by {}
        }
        lemma_spared_tree(tree, head, path);
    }
}

/// A file that the working tree holds when a run begins, binary or text,
/// is there unchanged when the run is over, whatever the pristine tree
/// holds: a run only adds files.
pub proof fn lemma_local_files_survive(
    layout: LayoutView,
    root: Seq<char>,
    files: Seq<EntryView>,
    local: Map<Seq<char>, ContentView>,
    patches: Map<Seq<char>, Seq<char>>,
    path: Seq<char>,
)
    requires
        local.contains_key(path),
    ensures
        tree_after(local, plan(layout, root, files, local, patches).actions).get(path)
            == local.get(path),
{
    lemma_plan_spares_local(layout, root, files, local, patches);
    lemma_spared_tree(local, plan(layout, root, files, local, patches).actions, path);
}

/// What a run has left, after its first `m` files, at the target of file
/// `k` and, where it is a text file, under its patch name: nothing new
/// before file `k` had its turn, and what the verdict on file `k` asked for
/// from then on.
proof fn lemma_own_slots(
    layout: LayoutView,
    root: Seq<char>,
    files: Seq<EntryView>,
    local: Map<Seq<char>, ContentView>,
    patches: Map<Seq<char>, Seq<char>>,
    k: int,
    m: int,
)
    requires
        0 <= k < files.len(),
        0 <= m <= files.len(),
        distinct_targets(layout, root, files),
        considered(layout, root, files[k].path),
        plan(layout, root, files.take(m), local, patches).failure is None,
    ensures
        ({
            let report = plan(layout, root, files.take(m), local, patches);
            let target = target_of_file(layout, root, files[k]);
            let name = patch_file_name(files[k].path);
            let verdict = verdict_of(files[k].content, patches.get(name), local.get(target));
            if m <= k {
                &&& tree_after(local, report.actions).get(target) == local.get(target)
                &&& files[k].content is Text ==> patches_after(patches, report.actions).get(name)
                    == patches.get(name)
            } else {
                &&& verdict is Ok
                &&& tree_after(local, report.actions).get(target) == local_after(
                    local.get(target),
                    verdict->Ok_0,
                )
                &&& files[k].content is Text ==> patches_after(patches, report.actions).get(name)
                    == patch_after(patches.get(name), verdict->Ok_0)
            }
        }),
    decreases m,
{
    if m > 0 {
        let j = m - 1;
        assert(files.take(m).drop_last() == files.take(j));
        lemma_own_slots(layout, root, files, local, patches, k, j);
        let before = plan(layout, root, files.take(j), local, patches);
        let report = plan(layout, root, files.take(m), local, patches);
        if report.actions.len() > before.actions.len() {
            // File `j` stored something: at its own target or under its
            // own name, which are those of file `k` only where `j` is `k`.
            assert(report.actions.drop_last() == before.actions);
            if j != k && files[j].content is Text && files[k].content is Text {
                lemma_distinct_names(layout, root, files, j, k);
            }
        }
    }
}

/// How far a run got: the number of files that it went through before it
/// failed, or the number of all files where it did not fail.
proof fn lemma_sound_prefix(
    layout: LayoutView,
    root: Seq<char>,
    files: Seq<EntryView>,
    local: Map<Seq<char>, ContentView>,
    patches: Map<Seq<char>, Seq<char>>,
) -> (k: int)
    ensures
        0 <= k <= files.len(),
        plan(layout, root, files.take(k), local, patches) == (ReportView {
            actions: plan(layout, root, files, local, patches).actions,
            failure: None,
        }),
        k < files.len() ==> plan(layout, root, files.take(k + 1), local, patches) == plan(
            layout,
            root,
            files,
            local,
            patches,
        ) && plan(layout, root, files, local, patches).failure is Some,
        k == files.len() ==> plan(layout, root, files, local, patches).failure is None,
    decreases files.len(),
{
    if files.len() == 0 {
        assert(files.take(0) == files);
        0
    } else {
        let head = files.drop_last();
        if plan(layout, root, head, local, patches).failure is Some {
            let k = lemma_sound_prefix(layout, root, head, local, patches);
            assert(head.take(k) == files.take(k));
            assert(head.take(k + 1) == files.take(k + 1));
            k
        } else if plan(layout, root, files, local, patches).failure is Some {
            assert(files.take(files.len() - 1) == head);
            assert(files.take(files.len() as int) == files);
            files.len() - 1
        } else {
            assert(files.take(files.len() as int) == files);
            files.len() as int
        }
    }
}

/// Running again changes nothing: a second run right after a run, on the
/// working tree and the patch store that the first run left, stores
/// nothing, and it fails if and as the first run did. This holds where no
/// two files share a target and every patch that the first run recorded
/// replays.
pub proof fn lemma_second_run_settles(
    layout: LayoutView,
    root: Seq<char>,
    files: Seq<EntryView>,
    local: Map<Seq<char>, ContentView>,
    patches: Map<Seq<char>, Seq<char>>,
)
    requires
        distinct_targets(layout, root, files),
        records_replay(layout, root, files, local, patches),
    ensures
        plan(
            layout,
            root,
            files,
            tree_after(local, plan(layout, root, files, local, patches).actions),
            patches_after(patches, plan(layout, root, files, local, patches).actions),
        ) == (ReportView {
            actions: Seq::empty(),
            failure: plan(layout, root, files, local, patches).failure,
        }),
{
    let k = lemma_sound_prefix(layout, root, files, local, patches);
    lemma_second_run_prefix(layout, root, files, local, patches, k, files.len() as int);
    assert(files.take(files.len() as int) == files);
}

/// The first `m` files of the second run store nothing, and fail if and as
/// they did in the first run, which got through `k` files.
proof fn lemma_second_run_prefix(
    layout: LayoutView,
    root: Seq<char>,
    files: Seq<EntryView>,
    local: Map<Seq<char>, ContentView>,
    patches: Map<Seq<char>, Seq<char>>,
    k: int,
    m: int,
)
    requires
        0 <= m <= files.len(),
        0 <= k <= files.len(),
        plan(layout, root, files.take(k), local, patches).failure is None,
        k < files.len() ==> plan(layout, root, files.take(k + 1), local, patches).failure is Some,
        distinct_targets(layout, root, files),
        records_replay(layout, root, files, local, patches),
    ensures
        plan(
            layout,
            root,
            files.take(m),
            tree_after(local, plan(layout, root, files.take(k), local, patches).actions),
            patches_after(patches, plan(layout, root, files.take(k), local, patches).actions),
        ) == (ReportView {
            actions: Seq::empty(),
            failure: plan(layout, root, files.take(m), local, patches).failure,
        }),
    decreases m,
{
    if m > 0 {
        let j = m - 1;
        lemma_second_run_prefix(layout, root, files, local, patches, k, j);
        assert(files.take(m).drop_last() == files.take(j));
        if j <= k {
            assert(files.take(k).take(j) == files.take(j));
            lemma_no_failure_before(layout, root, files.take(k), local, patches, j);
        } else {
            // The first run had failed before file `j`, and so has the second.
            assert(files.take(j).take(k + 1) == files.take(k + 1));
            lemma_failure_ends_run(layout, root, files.take(j), local, patches, k + 1);
        }
        if j <= k && considered(layout, root, files[j].path) {
            let target = target_of_file(layout, root, files[j]);
            let name = patch_file_name(files[j].path);
            // What file `j` met in the first run.
            lemma_own_slots(layout, root, files, local, patches, j, j);
            // What the first run left for it.
            lemma_own_slots(layout, root, files, local, patches, j, k);
            if j < k {
                // The file got its verdict, which the second run finds
                // carried out.
                assert(files.take(k).take(m) == files.take(m));
                lemma_no_failure_before(layout, root, files.take(k), local, patches, m);
                assert(step_replays(layout, root, files, local, patches, j));
                lemma_reconcile_settles(files[j].content, patches.get(name), local.get(target));
            }
        }
    } else {
        assert(files.take(0) == Seq::<EntryView>::empty());
    }
}

/// The patch that the store holds under `name` once the actions are
/// carried out.
fn current_patch<'a>(records: &'a Vec<PatchRecord>, actions: &'a Vec<Action>, name: &str) -> (r:
    Option<&'a String>)
    ensures
        match r {
            Some(t) => patches_after(records_of(records@), actions_of(actions@)).get(name@)
                == Some(t@),
            None => patches_after(records_of(records@), actions_of(actions@)).get(name@) is None,
        },
{
    let ghost store = records_of(records@);
    let ghost all = actions_of(actions@);
    let mut i: usize = actions.len();
    assert(all.take(i as int) == all);
    while i > 0
        invariant
            i <= actions.len(),
            store == records_of(records@),
            all == actions_of(actions@),
            patches_after(store, all).get(name@) == patches_after(store, all.take(i as int)).get(
                name@,
            ),
        decreases i,
    {
        i -= 1;
        proof {
            assert(all.take(i as int + 1).drop_last() == all.take(i as int));
        }
        match &actions[i] {
            Action::Record { name: stored, patch } => {
                if same_text(stored.as_str(), name) {
                    return Some(patch);
                }
            },
            Action::Write { .. } => {},
        }
    }
    find_record(records, name)
}

/// Synchronizes the working tree with the pristine tree.
///
/// `pristine` lists the files of the package with their paths relative to
/// the package's directory, `root` is the source root below it, `working`
/// lists the files of the working tree, and `records` the patch store.
/// The actions of the report are to be carried out in order. Where the
/// report holds a failure, the run ended at that file and the actions are
/// those of the files before it.
///
/// No action stores anything at a path that the working tree holds. Every
/// patch that is recorded turns the pristine text of its file into the
/// local text. Where no two pristine files share a target, running again
/// on what the actions leave stores nothing.
pub fn synchronize(
    layout: &Layout,
    root: &str,
    pristine: &Vec<FileEntry>,
    working: &Vec<FileEntry>,
    records: &Vec<PatchRecord>,
) -> (report: Report)
    ensures
        report@ == plan(
            layout@,
            root@,
            files_of(pristine@),
            tree_of(working@),
            records_of(records@),
        ),
        spares_local(tree_of(working@), report@.actions),
        records_replay(
            layout@,
            root@,
            files_of(pristine@),
            tree_of(working@),
            records_of(records@),
        ),
        distinct_targets(layout@, root@, files_of(pristine@)) ==> plan(
            layout@,
            root@,
            files_of(pristine@),
            tree_after(tree_of(working@), report@.actions),
            patches_after(records_of(records@), report@.actions),
        ) == (ReportView { actions: Seq::empty(), failure: report@.failure }),
{
    let ghost files = files_of(pristine@);
    let ghost tree = tree_of(working@);
    let ghost store = records_of(records@);
    let mut actions: Vec<Action> = Vec::new();
    let mut i: usize = 0;
    proof {
        assert(actions_of(actions@) == Seq::<ActionView>::empty());
    }
    while i < pristine.len()
        invariant
            i <= pristine.len(),
            files == files_of(pristine@),
            tree == tree_of(working@),
            store == records_of(records@),
            plan(layout@, root@, files.take(i as int), tree, store) == (ReportView {
                actions: actions_of(actions@),
                failure: None,
            }),
            forall|k: int|
                0 <= k < i ==> #[trigger] step_replays(layout@, root@, files, tree, store, k),
        decreases pristine.len() - i,
    {
        let file = &pristine[i];
        let ghost before = actions_of(actions@);
        proof {
            assert(files.take(i as int + 1).drop_last() == files.take(i as int));
        }
        match strip_root(file.path.as_str(), root) {
            None => {},
            Some(relative) => {
                let own_name = file_name(file.path.as_str());
                if !same_text(own_name.as_str(), layout.manifest_name.as_str()) {
                    let name = crate_file_to_patch_file(file.path.as_str());
                    let target = match &file.content {
                        Content::Binary(_) => relative,
                        Content::Text(_) => layout.target_for(relative.as_str()),
                    };
                    let local = find_content(working, target.as_str());
                    let verdict = {
                        let patch = match current_patch(records, &actions, name.as_str()) {
                            Some(p) => Some(p.as_str()),
                            None => None,
                        };
                        reconcile(&file.content, patch, local)
                    };
                    match verdict {
                        Err(kind) => {
                            let failure = Failure { path: file.path.clone(), kind };
                            let report = Report { actions, failure: Some(failure) };
                            proof {
                                lemma_failure_ends_run(
                                    layout@,
                                    root@,
                                    files,
                                    tree,
                                    store,
                                    i as int + 1,
                                );
                                lemma_plan_spares_local(layout@, root@, files, tree, store);
                                assert forall|k: int|
                                    0 <= k < files.len() implies #[trigger] step_replays(
                                    layout@,
                                    root@,
                                    files,
                                    tree,
                                    store,
                                    k,
                                ) by {
                                    if k > i {
                                        assert(files.take(k).take(i as int + 1) == files.take(
                                            i as int + 1,
                                        ));
                                        lemma_failure_ends_run(
                                            layout@,
                                            root@,
                                            files.take(k),
                                            tree,
                                            store,
                                            i as int + 1,
                                        );
                                    }
                                }
                                if distinct_targets(layout@, root@, files) {
                                    lemma_second_run_settles(layout@, root@, files, tree, store);
                                }
                            }
                            return report;
                        },
                        Ok(Verdict::Keep) => {},
                        Ok(Verdict::Write(content)) => {
                            actions.push(Action::Write { target, content });
                            proof {
                                assert(actions_of(actions@) == before.push(actions@.last()@));
                            }
                        },
                        Ok(Verdict::Record(patch)) => {
                            actions.push(Action::Record { name, patch });
                            proof {
                                assert(actions_of(actions@) == before.push(actions@.last()@));
                            }
                        },
                    }
                }
            },
        }
        i += 1;
    }
    let report = Report { actions, failure: None };
    proof {
        assert(files.take(files.len() as int) == files);
        lemma_plan_spares_local(layout@, root@, files, tree, store);
        if distinct_targets(layout@, root@, files) {
            lemma_second_run_settles(layout@, root@, files, tree, store);
        }
    }
    report
}

/// Carries the actions out on a working tree and a patch store that are
/// held in memory. What is stored goes to the front of its list, where it
/// counts before any older entry of the same path or name.
pub fn carry_out(
    working: &mut Vec<FileEntry>,
    records: &mut Vec<PatchRecord>,
    actions: &Vec<Action>,
)
    ensures
        tree_of(final(working)@) == tree_after(tree_of(old(working)@), actions_of(actions@)),
        records_of(final(records)@) == patches_after(
            records_of(old(records)@),
            actions_of(actions@),
        ),
{
    let ghost all = actions_of(actions@);
    let ghost tree = tree_of(working@);
    let ghost store = records_of(records@);
    let mut i: usize = 0;
    while i < actions.len()
        invariant
            i <= actions.len(),
            all == actions_of(actions@),
            tree_of(working@) == tree_after(tree, all.take(i as int)),
            records_of(records@) == patches_after(store, all.take(i as int)),
        decreases actions.len() - i,
    {
        proof {
            assert(all.take(i as int + 1).drop_last() == all.take(i as int));
        }
        match &actions[i] {
            Action::Write { target, content } => {
                let ghost before = working@;
                let entry = FileEntry { path: target.clone(), content: content.duplicate() };
                working.insert(0, entry);
                proof {
                    assert(working@.drop_first() == before);
                }
            },
            Action::Record { name, patch } => {
                let ghost before = records@;
                let record = PatchRecord { name: name.clone(), text: patch.clone() };
                records.insert(0, record);
                proof {
                    assert(records@.drop_first() == before);
                }
            },
        }
        i += 1;
    }
    proof {
        assert(all.take(all.len() as int) == all);
    }
}

} // verus!

//! The scan of one root, as the steps between its reads of the filesystem.
//!
//! A host drives a scan: it observes the cancellation flag, reads an entry's
//! metadata, lists a directory or walks a subtree, and hands what it found
//! to the [`ScanSession`], which counts, records failures, samples progress
//! and says what comes next. A visit of one entry runs as follows.
//!
//! 1. [`check_cancelled`] with the flag as observed on entry.
//! 2. [`ScanSession::visit`] with the entry's metadata. The entry is
//!    finished, or it is a directory to collapse or to expand.
//! 3. To collapse: [`ScanSession::walk_step`] for each entry of the subtree,
//!    then [`ScanNode::collapsed`] with the total.
//! 4. To expand: [`ScanSession::expand`] with the listing, a visit of each
//!    child, in any order and on any thread, and
//!    [`ScanSession::finish_dir`] with what the visits gave.
//!
//! [`ScanSession::finish`] closes the scan with its one completion event.

use vstd::prelude::*;
use crate::aggregate::{
    assemble_dir, assembled, keeps_all, kept_children, lemma_assembled_well_formed,
};
use crate::errors::{
    cancelled_message, cancelled_text, entry_error, entry_error_text, texts, ErrorCollector,
};
use crate::node::{
    descending, file_view, node_views, placeholder_view, total_size, NodeView, ScanNode,
};
use crate::progress::{
    event_view, last_emit_after, sample_of, Counters, ProgressReporter, ProgressView,
    ScanProgressEvent,
};
use crate::ranking::ranked_by_size;

verus! {

/// What reading an entry's metadata, without following a symbolic link, gave.
#[derive(Debug, PartialEq, Eq)]
pub enum Probe {
    /// The metadata could not be read.
    Unreadable { cause: String },
    /// The entry is not a directory; `len` is the length that its metadata
    /// reports.
    File { len: u64 },
    /// The entry is a directory.
    Dir,
}

/// What follows the first look at an entry.
#[derive(Debug, PartialEq, Eq)]
pub enum Visit {
    /// The entry is done: this node stands for it.
    Finished(ScanNode),
    /// The entry is a directory at the depth limit: walk its subtree for the
    /// total and attach no children.
    Collapse,
    /// The entry is a directory under the depth limit: list its children and
    /// visit each.
    Expand,
}

/// What listing a directory gave.
#[derive(Debug, PartialEq, Eq)]
pub enum Listing {
    /// The directory could not be opened.
    Failed { cause: String },
    /// The entries in the order in which they were read: the path of each
    /// child, or the cause for which one entry could not be read.
    Entries(Vec<Result<String, String>>),
}

/// What follows the listing of a directory.
#[derive(Debug, PartialEq, Eq)]
pub enum Expansion {
    /// The directory is done: this node stands for it.
    Finished(ScanNode),
    /// The paths of the children to visit, in the order of the listing.
    Children(Vec<String>),
}

/// One item of the flat walk of a subtree.
#[derive(Debug, PartialEq, Eq)]
pub enum WalkItem {
    /// The walk could not read an entry.
    Failed { cause: String },
    /// The walk found the entry at `path` but could not read its metadata.
    Unreadable { path: String, cause: String },
    /// The walk found the entry at `path`: a regular file or not, of `len`
    /// bytes.
    Entry { path: String, is_file: bool, len: u64 },
}

/// What follows one item of a flat walk.
#[derive(Debug, PartialEq, Eq)]
pub enum WalkStep {
    /// The scan was cancelled: the walk ends with the total it had.
    Stop,
    /// The walk goes on with `total`; `progress` goes out, if present.
    Continue { total: u64, progress: Option<ScanProgressEvent> },
}

/// The one event that closes a scan.
#[derive(Debug, PartialEq, Eq)]
pub struct ScanDoneEvent {
    pub scan_id: String,
    pub root: ScanNode,
    pub errors: Vec<String>,
}

/// The mathematical value of a [`ScanDoneEvent`].
pub ghost struct DoneView {
    pub scan_id: Seq<char>,
    pub root: NodeView,
    pub errors: Seq<Seq<char>>,
}

impl View for ScanDoneEvent {
    type V = DoneView;

    open spec fn view(&self) -> DoneView {
        DoneView { scan_id: self.scan_id@, root: self.root@, errors: texts(self.errors@) }
    }
}

/// The state that the branches of one scan share: its counters, its
/// failures and the time of its last progress event. Every step takes the
/// session for itself; a host whose branches run on several threads keeps
/// it behind a lock.
pub struct ScanSession {
    scan_id: String,
    counters: Counters,
    errors: ErrorCollector,
    reporter: ProgressReporter,
}

/// The mathematical value of a [`ScanSession`].
pub ghost struct SessionView {
    pub scan_id: Seq<char>,
    pub counters: Counters,
    pub errors: Seq<Seq<char>>,
    pub last_emit_ms: u64,
}

impl SessionView {
    /// The session of a scan that has just begun.
    pub open spec fn fresh(scan_id: Seq<char>) -> SessionView {
        SessionView {
            scan_id,
            counters: Counters { entries: 0, bytes: 0 },
            errors: Seq::empty(),
            last_emit_ms: 0,
        }
    }

    /// The session with `more` failures behind those it held.
    pub open spec fn with_errors(self, more: Seq<Seq<char>>) -> SessionView {
        SessionView { errors: self.errors + more, ..self }
    }

    /// The session after it counted one entry of `bytes` bytes and sampled
    /// its progress at `now_ms`.
    pub open spec fn counted_at(self, now_ms: u64, bytes: u64) -> SessionView {
        SessionView {
            counters: self.counters.counted(bytes),
            last_emit_ms: last_emit_after(self.last_emit_ms, now_ms),
            ..self
        }
    }

    /// The event that goes out when the session counts one entry of `bytes`
    /// bytes at `path` and samples its progress at `now_ms`.
    pub open spec fn progress_at(self, now_ms: u64, bytes: u64, path: Seq<char>) -> Option<
        ProgressView,
    > {
        sample_of(
            self.last_emit_ms,
            now_ms,
            self.scan_id,
            self.counters.counted(bytes),
            Some(path),
        )
    }
}

impl View for ScanSession {
    type V = SessionView;

    closed spec fn view(&self) -> SessionView {
        SessionView {
            scan_id: self.scan_id@,
            counters: self.counters,
            errors: self.errors@,
            last_emit_ms: self.reporter.last_emit_ms(),
        }
    }
}

/// The bytes that an entry with these metadata adds to the counters.
pub open spec fn probed_bytes(probe: Probe) -> u64 {
    match probe {
        Probe::File { len } => len,
        _ => 0,
    }
}

/// The session after the first look, at `now_ms`, at the entry at `path`.
/// An unreadable entry is recorded as a failure. Any other entry is counted,
/// a file with its length, and the progress is sampled.
pub open spec fn after_visit(before: SessionView, now_ms: u64, path: Seq<char>, probe: Probe)
    -> SessionView {
    match probe {
        Probe::Unreadable { cause } => before.with_errors(seq![entry_error_text(path, cause@)]),
        _ => before.counted_at(now_ms, probed_bytes(probe)),
    }
}

/// The event that goes out on the first look, at `now_ms`, at the entry at
/// `path`.
pub open spec fn visit_progress(before: SessionView, now_ms: u64, path: Seq<char>, probe: Probe)
    -> Option<ProgressView> {
    match probe {
        Probe::Unreadable { .. } => None,
        _ => before.progress_at(now_ms, probed_bytes(probe), path),
    }
}

/// `plan` is what follows the first look at the entry at `path`, `depth`
/// levels beneath the root of a scan that expands `max_depth` levels. For an
/// unreadable entry stands an empty directory of no bytes, for a file a file
/// node of its length. A directory is collapsed at or beyond the depth limit
/// and expanded before it.
pub open spec fn visit_planned(
    plan: Visit,
    path: Seq<char>,
    probe: Probe,
    depth: u32,
    max_depth: u32,
) -> bool {
    match probe {
        Probe::Unreadable { .. } => plan matches Visit::Finished(node) && node@
            == placeholder_view(path, 0),
        Probe::File { len } => plan matches Visit::Finished(node) && node@ == file_view(path, len),
        Probe::Dir => if depth >= max_depth {
            plan is Collapse
        } else {
            plan is Expand
        },
    }
}

/// The paths of the children that a listing names, in its order.
pub open spec fn listed_paths(entries: Seq<Result<String, String>>) -> Seq<Seq<char>>
    decreases entries.len(),
{
    if entries.len() == 0 {
        Seq::empty()
    } else {
        match entries.last() {
            Ok(path) => listed_paths(entries.drop_last()).push(path@),
            Err(_) => listed_paths(entries.drop_last()),
        }
    }
}

/// The failures of a listing of the directory at `path`, in its order: one
/// for each entry that could not be read.
pub open spec fn listing_errors(path: Seq<char>, entries: Seq<Result<String, String>>) -> Seq<
    Seq<char>,
>
    decreases entries.len(),
{
    if entries.len() == 0 {
        Seq::empty()
    } else {
        match entries.last() {
            Ok(_) => listing_errors(path, entries.drop_last()),
            Err(cause) => listing_errors(path, entries.drop_last()).push(
                entry_error_text(path, cause@),
            ),
        }
    }
}

/// The node that stands for a child after its visit: the node that the visit
/// gave, or an empty directory of no bytes at the child's path where the
/// visit failed.
pub open spec fn absorbed(outcome: (String, Result<ScanNode, String>)) -> NodeView {
    match outcome.1 {
        Ok(node) => node@,
        Err(_) => placeholder_view(outcome.0@, 0),
    }
}

/// The nodes that stand for the children after their visits, in the order
/// of the visits.
pub open spec fn scanned_children(outcomes: Seq<(String, Result<ScanNode, String>)>) -> Seq<
    NodeView,
> {
    Seq::new(outcomes.len(), |i: int| absorbed(outcomes[i]))
}

/// The reasons for which visits of children failed, in the order of the
/// visits.
pub open spec fn child_failures(outcomes: Seq<(String, Result<ScanNode, String>)>) -> Seq<
    Seq<char>,
>
    decreases outcomes.len(),
{
    if outcomes.len() == 0 {
        Seq::empty()
    } else {
        match outcomes.last().1 {
            Ok(_) => child_failures(outcomes.drop_last()),
            Err(reason) => child_failures(outcomes.drop_last()).push(reason@),
        }
    }
}

/// Every visit that succeeded gave a well-formed node.
pub open spec fn outcomes_well_formed(outcomes: Seq<(String, Result<ScanNode, String>)>) -> bool {
    forall|i: int|
        0 <= i < outcomes.len() ==> ((#[trigger] outcomes[i]).1 matches Ok(node)
            ==> node@.well_formed())
}

/// The bytes that one item of a flat walk adds to the counters, and to the
/// total: the length of a regular file.
pub open spec fn walked_bytes(item: WalkItem) -> u64 {
    match item {
        WalkItem::Entry { is_file, len, .. } => if is_file {
            len
        } else {
            0
        },
        _ => 0,
    }
}

/// The total of a flat walk after `item`. It stops at `u64::MAX`.
pub open spec fn walk_total(total: u64, item: WalkItem) -> u64 {
    total.saturating_add(walked_bytes(item))
}

/// The session after `item` of the flat walk beneath `root`, taken at
/// `now_ms`. A failure of the walk is recorded against the root, unreadable
/// metadata against the entry. An entry that was read is counted, and the
/// progress is sampled.
pub open spec fn after_walk_item(before: SessionView, now_ms: u64, root: Seq<char>, item: WalkItem)
    -> SessionView {
    match item {
        WalkItem::Failed { cause } => before.with_errors(seq![entry_error_text(root, cause@)]),
        WalkItem::Unreadable { path, cause } => before.with_errors(
            seq![entry_error_text(path@, cause@)],
        ),
        WalkItem::Entry { .. } => before.counted_at(now_ms, walked_bytes(item)),
    }
}

/// The event that goes out on `item` of a flat walk, taken at `now_ms`.
pub open spec fn walk_progress(before: SessionView, now_ms: u64, item: WalkItem) -> Option<
    ProgressView,
> {
    match item {
        WalkItem::Entry { path, .. } => before.progress_at(now_ms, walked_bytes(item), path@),
        _ => None,
    }
}

/// `step` is what follows `item` of a flat walk that stood at `total`, in a
/// session that was `before`, at `now_ms`.
pub open spec fn walk_stepped(
    step: WalkStep,
    before: SessionView,
    now_ms: u64,
    total: u64,
    item: WalkItem,
) -> bool {
    step matches WalkStep::Continue { total: next, progress } && next == walk_total(total, item)
        && event_view(progress) == walk_progress(before, now_ms, item)
}

/// The completion event of a session whose root, at `root_path`, was visited
/// with `result`. A root whose visit failed is reported as an empty
/// directory that weighs the bytes counted so far, and the reason joins the
/// failures.
pub open spec fn done_view(
    session: SessionView,
    root_path: Seq<char>,
    result: Result<ScanNode, String>,
) -> DoneView {
    match result {
        Ok(node) => DoneView { scan_id: session.scan_id, root: node@, errors: session.errors },
        Err(reason) => DoneView {
            scan_id: session.scan_id,
            root: placeholder_view(root_path, session.counters.bytes),
            errors: session.errors.push(reason@),
        },
    }
}

/// No step of a scan drops or changes a failure that was recorded, and none
/// changes the scan's identifier: the failures of a session only grow at the
/// end.
pub proof fn lemma_steps_keep_failures(
    before: SessionView,
    now_ms: u64,
    path: Seq<char>,
    probe: Probe,
    item: WalkItem,
    more: Seq<Seq<char>>,
)
    ensures
        before.errors.is_prefix_of(after_visit(before, now_ms, path, probe).errors),
        before.errors.is_prefix_of(after_walk_item(before, now_ms, path, item).errors),
        before.errors.is_prefix_of(before.with_errors(more).errors),
        after_visit(before, now_ms, path, probe).scan_id == before.scan_id,
        after_walk_item(before, now_ms, path, item).scan_id == before.scan_id,
        before.with_errors(more).scan_id == before.scan_id,
{
}

/// The entry of a visit: fails, with the report of a cancelled branch, if
/// and only if the scan's flag was found set.
pub fn check_cancelled(cancelled: bool) -> (entered: Result<(), String>)
    ensures
        match entered {
            Ok(_) => !cancelled,
            Err(reason) => cancelled && reason@ == cancelled_text(),
        },
{
    if cancelled {
        Err(cancelled_message())
    } else {
        Ok(())
    }
}

impl ScanSession {
    /// The session of the scan `scan_id`, which begins now.
    pub fn new(scan_id: String) -> (session: ScanSession)
        ensures
            session@ == SessionView::fresh(scan_id@),
    {
        ScanSession {
            scan_id,
            counters: Counters::new(),
            errors: ErrorCollector::new(),
            reporter: ProgressReporter::new(),
        }
    }

    /// The identifier of the scan.
    pub fn scan_id(&self) -> (scan_id: &String)
        ensures
            scan_id@ == self@.scan_id,
    {
        &self.scan_id
    }

    /// The entries and bytes counted so far.
    pub fn counters(&self) -> (counters: Counters)
        ensures
            counters == self@.counters,
    {
        self.counters
    }

    /// The failures recorded so far, first come first.
    pub fn errors(&self) -> (errors: &Vec<String>)
        ensures
            texts(errors@) == self@.errors,
    {
        self.errors.messages()
    }

    /// The time of the last progress event, in milliseconds since the scan
    /// began; 0 while none has gone out.
    pub fn last_emit_ms(&self) -> (ms: u64)
        ensures
            ms == self@.last_emit_ms,
    {
        self.reporter.last_emit()
    }

    /// Records that the entry at `path` could not be read because of `cause`.
    fn record_unreadable(&mut self, path: &str, cause: &str)
        ensures
            final(self)@ == old(self)@.with_errors(seq![entry_error_text(path@, cause@)]),
    {
        self.errors.record(entry_error(path, cause));
        assert(self@.errors =~= old(self)@.errors + seq![entry_error_text(path@, cause@)]);
    }

    /// Counts one entry of `bytes` bytes at `path` and samples the progress
    /// at `now_ms`.
    fn count_at(&mut self, now_ms: u64, path: &str, bytes: u64) -> (progress: Option<
        ScanProgressEvent,
    >)
        ensures
            final(self)@ == old(self)@.counted_at(now_ms, bytes),
            event_view(progress) == old(self)@.progress_at(now_ms, bytes, path@),
    {
        self.counters.count(bytes);
        self.reporter.sample_at(
            now_ms,
            self.scan_id.as_str(),
            self.counters,
            Some(path.to_owned()),
        )
    }

    /// Counts one entry of `bytes` bytes at `path` and samples the progress
    /// now.
    fn count_now(&mut self, path: &str, bytes: u64) -> (progress: Option<ScanProgressEvent>)
        ensures
            final(self)@ == old(self)@.counted_at(final(self)@.last_emit_ms, bytes),
            event_view(progress) == old(self)@.progress_at(
                final(self)@.last_emit_ms,
                bytes,
                path@,
            ),
    {
        self.counters.count(bytes);
        self.reporter.maybe_emit(self.scan_id.as_str(), self.counters, Some(path.to_owned()))
    }

    /// The first look at the entry at `path`, `depth` levels beneath the
    /// root, taken `now_ms` milliseconds after the scan began.
    pub fn visit_at(&mut self, now_ms: u64, path: &str, probe: Probe, depth: u32, max_depth: u32)
        -> (step: (Visit, Option<ScanProgressEvent>))
        ensures
            final(self)@ == after_visit(old(self)@, now_ms, path@, probe),
            event_view(step.1) == visit_progress(old(self)@, now_ms, path@, probe),
            visit_planned(step.0, path@, probe, depth, max_depth),
            step.0 matches Visit::Finished(node) ==> node@.well_formed(),
    {
        match probe {
            Probe::Unreadable { cause } => {
                self.record_unreadable(path, cause.as_str());
                (Visit::Finished(ScanNode::placeholder(path, 0)), None)
            },
            Probe::File { len } => {
                let progress = self.count_at(now_ms, path, len);
                (Visit::Finished(ScanNode::file(path, len)), progress)
            },
            Probe::Dir => {
                let progress = self.count_at(now_ms, path, 0);
                if depth >= max_depth {
                    (Visit::Collapse, progress)
                } else {
                    (Visit::Expand, progress)
                }
            },
        }
    }

    /// The first look at the entry at `path`, `depth` levels beneath the
    /// root, taken now. Whatever the clock says, the step is the one that
    /// [`Self::visit_at`] takes at some time.
    pub fn visit(&mut self, path: &str, probe: Probe, depth: u32, max_depth: u32) -> (step: (
        Visit,
        Option<ScanProgressEvent>,
    ))
        ensures
            exists|now_ms: u64|
                {
                    &&& final(self)@ == #[trigger] after_visit(old(self)@, now_ms, path@, probe)
                    &&& event_view(step.1) == visit_progress(old(self)@, now_ms, path@, probe)
                },
            visit_planned(step.0, path@, probe, depth, max_depth),
            step.0 matches Visit::Finished(node) ==> node@.well_formed(),
    {
        match probe {
            Probe::Unreadable { cause } => {
                self.record_unreadable(path, cause.as_str());
                assert(self@ == after_visit(old(self)@, 0, path@, probe));
                (Visit::Finished(ScanNode::placeholder(path, 0)), None)
            },
            Probe::File { len } => {
                let progress = self.count_now(path, len);
                assert(self@ == after_visit(old(self)@, self@.last_emit_ms, path@, probe));
                (Visit::Finished(ScanNode::file(path, len)), progress)
            },
            Probe::Dir => {
                let progress = self.count_now(path, 0);
                assert(self@ == after_visit(old(self)@, self@.last_emit_ms, path@, probe));
                if depth >= max_depth {
                    (Visit::Collapse, progress)
                } else {
                    (Visit::Expand, progress)
                }
            },
        }
    }

    /// Takes the listing of the directory at `path`. A directory that could
    /// not be opened is recorded as a failure and stands in the tree as an
    /// empty directory of no bytes. Of a listing that was read, every entry
    /// that could not be read is recorded as a failure of the directory, and
    /// the others are the children to visit.
    pub fn expand(&mut self, path: &str, listing: Listing) -> (expansion: Expansion)
        ensures
            match listing {
                Listing::Failed { cause } => {
                    &&& final(self)@ == old(self)@.with_errors(
                        seq![entry_error_text(path@, cause@)],
                    )
                    &&& expansion matches Expansion::Finished(node)
                    &&& node@ == placeholder_view(path@, 0)
                    &&& node@.well_formed()
                },
                Listing::Entries(entries) => {
                    &&& final(self)@ == old(self)@.with_errors(listing_errors(path@, entries@))
                    &&& expansion matches Expansion::Children(paths)
                    &&& texts(paths@) == listed_paths(entries@)
                },
            },
    {
        match listing {
            Listing::Failed { cause } => {
                self.record_unreadable(path, cause.as_str());
                Expansion::Finished(ScanNode::placeholder(path, 0))
            },
            Listing::Entries(entries) => {
                let ghost all = entries@;
                let mut paths: Vec<String> = Vec::new();
                for entry in it: entries
                    invariant
                        it.seq() == all,
                        self@ == old(self)@.with_errors(
                            listing_errors(path@, all.take(it.index() as int)),
                        ),
                        texts(paths@) == listed_paths(all.take(it.index() as int)),
                {
                    let ghost seen = all.take(it.index() as int);
                    let ghost next = all.take(it.index() + 1);
                    assert(next.drop_last() =~= seen);
                    match entry {
                        Ok(child) => {
                            paths.push(child);
                        },
                        Err(cause) => {
                            self.record_unreadable(path, cause.as_str());
                            assert(self@.errors =~= old(self)@.errors + listing_errors(
                                path@,
                                next,
                            ));
                        },
                    }
                }
                assert(all.take(all.len() as int) =~= all);
                Expansion::Children(paths)
            },
        }
    }

    /// Takes what the visits of a directory's children gave, each with the
    /// child's path and in the order of the listing. The reason of every
    /// visit that failed is recorded, and an empty directory of no bytes at
    /// the child's path stands for the child.
    pub fn absorb(&mut self, outcomes: Vec<(String, Result<ScanNode, String>)>) -> (children: Vec<
        ScanNode,
    >)
        ensures
            final(self)@ == old(self)@.with_errors(child_failures(outcomes@)),
            node_views(children@) == scanned_children(outcomes@),
            outcomes_well_formed(outcomes@) ==> forall|i: int|
                0 <= i < children@.len() ==> (#[trigger] node_views(children@)[i]).well_formed(),
    {
        let ghost all = outcomes@;
        let mut children: Vec<ScanNode> = Vec::new();
        for outcome in it: outcomes
            invariant
                it.seq() == all,
                self@ == old(self)@.with_errors(child_failures(all.take(it.index() as int))),
                node_views(children@) == scanned_children(all.take(it.index() as int)),
        {
            let ghost seen = all.take(it.index() as int);
            let ghost next = all.take(it.index() + 1);
            assert(next.drop_last() =~= seen);
            let ghost before = node_views(children@);
            let (child_path, result) = outcome;
            match result {
                Ok(node) => {
                    children.push(node);
                },
                Err(reason) => {
                    self.errors.record(reason);
                    children.push(ScanNode::placeholder(child_path.as_str(), 0));
                },
            }
            assert(node_views(children@) =~= before.push(absorbed(outcome)));
        }
        assert(all.take(all.len() as int) =~= all);
        children
    }

    /// Closes the directory at `path` over what the visits of its children
    /// gave: failures are absorbed as [`Self::absorb`] does, and the
    /// directory is made of the children as [`assemble_dir`] does. `None`
    /// comes back if and only if the sizes of the children that the
    /// directory keeps add up to more than `u64::MAX`.
    pub fn finish_dir(
        &mut self,
        path: &str,
        outcomes: Vec<(String, Result<ScanNode, String>)>,
        top_children: u32,
    ) -> (node: Option<ScanNode>)
        ensures
            final(self)@ == old(self)@.with_errors(child_failures(outcomes@)),
            match node {
                Some(n) => {
                    &&& total_size(kept_children(scanned_children(outcomes@), top_children))
                        <= u64::MAX
                    &&& n@ == assembled(path@, scanned_children(outcomes@), top_children)
                    &&& n@.children is Some
                    &&& descending(n@.children->0)
                    &&& keeps_all(outcomes@.len(), top_children) ==> {
                        &&& n@.omitted_children is None
                        &&& n@.children->0.len() == outcomes@.len()
                        &&& n@.size == total_size(scanned_children(outcomes@))
                    }
                    &&& !keeps_all(outcomes@.len(), top_children) ==> {
                        &&& n@.omitted_children == Some(
                            (outcomes@.len() - top_children) as u64,
                        )
                        &&& n@.children->0.len() == top_children
                        &&& n@.size == total_size(
                            ranked_by_size(scanned_children(outcomes@)).take(top_children as int),
                        )
                    }
                    &&& outcomes_well_formed(outcomes@) ==> n@.well_formed()
                },
                None => total_size(kept_children(scanned_children(outcomes@), top_children))
                    > u64::MAX,
            },
    {
        let children = self.absorb(outcomes);
        let _count = children.len();
        proof {
            if outcomes_well_formed(outcomes@) && total_size(
                kept_children(scanned_children(outcomes@), top_children),
            ) <= u64::MAX {
                lemma_assembled_well_formed(path@, node_views(children@), top_children);
            }
        }
        assemble_dir(path, children, top_children)
    }

    /// One item of the flat walk beneath `root`, which stands at `total`,
    /// taken `now_ms` milliseconds after the scan began. `cancelled` is the
    /// scan's flag as observed before the item was looked at: where it is
    /// set the walk stops and nothing changes.
    pub fn walk_step_at(
        &mut self,
        now_ms: u64,
        root: &str,
        total: u64,
        cancelled: bool,
        item: WalkItem,
    ) -> (step: WalkStep)
        ensures
            cancelled ==> step is Stop && final(self)@ == old(self)@,
            !cancelled ==> final(self)@ == after_walk_item(old(self)@, now_ms, root@, item)
                && walk_stepped(step, old(self)@, now_ms, total, item),
    {
        if cancelled {
            return WalkStep::Stop;
        }
        match item {
            WalkItem::Failed { cause } => {
                self.record_unreadable(root, cause.as_str());
                WalkStep::Continue { total, progress: None }
            },
            WalkItem::Unreadable { path, cause } => {
                self.record_unreadable(path.as_str(), cause.as_str());
                WalkStep::Continue { total, progress: None }
            },
            WalkItem::Entry { path, is_file, len } => {
                let bytes = if is_file {
                    len
                } else {
                    0
                };
                let progress = self.count_at(now_ms, path.as_str(), bytes);
                WalkStep::Continue { total: total.saturating_add(bytes), progress }
            },
        }
    }

    /// One item of the flat walk beneath `root`, which stands at `total`,
    /// taken now. Whatever the clock says, the step is the one that
    /// [`Self::walk_step_at`] takes at some time.
    pub fn walk_step(&mut self, root: &str, total: u64, cancelled: bool, item: WalkItem) -> (step:
        WalkStep)
        ensures
            cancelled ==> step is Stop && final(self)@ == old(self)@,
            !cancelled ==> exists|now_ms: u64|
                {
                    &&& final(self)@ == #[trigger] after_walk_item(
                        old(self)@,
                        now_ms,
                        root@,
                        item,
                    )
                    &&& walk_stepped(step, old(self)@, now_ms, total, item)
                },
    {
        if cancelled {
            return WalkStep::Stop;
        }
        match item {
            WalkItem::Failed { cause } => {
                self.record_unreadable(root, cause.as_str());
                assert(self@ == after_walk_item(old(self)@, 0, root@, item));
                WalkStep::Continue { total, progress: None }
            },
            WalkItem::Unreadable { path, cause } => {
                self.record_unreadable(path.as_str(), cause.as_str());
                assert(self@ == after_walk_item(old(self)@, 0, root@, item));
                WalkStep::Continue { total, progress: None }
            },
            WalkItem::Entry { path, is_file, len } => {
                let bytes = if is_file {
                    len
                } else {
                    0
                };
                let progress = self.count_now(path.as_str(), bytes);
                assert(self@ == after_walk_item(old(self)@, self@.last_emit_ms, root@, item));
                WalkStep::Continue { total: total.saturating_add(bytes), progress }
            },
        }
    }

    /// Closes the scan, whose root at `root_path` was visited with `result`,
    /// with its completion event. A session closes once: it is given up
    /// here.
    pub fn finish(self, root_path: &str, result: Result<ScanNode, String>) -> (done:
        ScanDoneEvent)
        ensures
            done@ == done_view(self@, root_path@, result),
            done@.scan_id == self@.scan_id,
            result matches Ok(node) ==> done@.root == node@ && done@.errors == self@.errors,
    {
        let ScanSession { scan_id, counters, errors, reporter: _ } = self;
        let mut errors = errors;
        let root = match result {
            Ok(node) => node,
            Err(reason) => {
                errors.record(reason);
                ScanNode::placeholder(root_path, counters.bytes)
            },
        };
        ScanDoneEvent { scan_id, root, errors: errors.into_messages() }
    }
}

} // verus!

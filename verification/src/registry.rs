//! The scans in flight and their cancellation flags, and the three requests
//! that a host serves from them.

use vstd::hash_map::StringHashMap;
use vstd::prelude::*;

verus! {

/// What a request is told that asks for a scan of a root that does not
/// exist.
pub open spec fn root_not_found_text() -> Seq<char> {
    "Path does not exist"@
}

/// What a request is told that asks to cancel a scan that is not in flight.
pub open spec fn scan_not_found_text() -> Seq<char> {
    "Scan not found"@
}

/// The registry after the scan `scan_id` was entered: it is in flight and
/// not cancelled. An entry that stood under the same identifier is replaced.
pub open spec fn registered(scans: Map<Seq<char>, bool>, scan_id: Seq<char>) -> Map<
    Seq<char>,
    bool,
> {
    scans.insert(scan_id, false)
}

/// The registry after the scans `scan_ids` were entered one after the other.
pub open spec fn registered_all(scans: Map<Seq<char>, bool>, scan_ids: Seq<Seq<char>>) -> Map<
    Seq<char>,
    bool,
>
    decreases scan_ids.len(),
{
    if scan_ids.len() == 0 {
        scans
    } else {
        registered(registered_all(scans, scan_ids.drop_last()), scan_ids.last())
    }
}

/// A request to cancel `scan_id` succeeds: the scan is in flight.
pub open spec fn cancel_accepted(scans: Map<Seq<char>, bool>, scan_id: Seq<char>) -> bool {
    scans.contains_key(scan_id)
}

/// The registry after a request to cancel `scan_id`: the flag of a scan in
/// flight is set, and nothing else changes.
pub open spec fn after_cancel(scans: Map<Seq<char>, bool>, scan_id: Seq<char>) -> Map<
    Seq<char>,
    bool,
> {
    if scans.contains_key(scan_id) {
        scans.insert(scan_id, true)
    } else {
        scans
    }
}

/// A branch of `scan_id` that looks at the flag finds it set.
pub open spec fn observed_cancelled(scans: Map<Seq<char>, bool>, scan_id: Seq<char>) -> bool {
    scans.contains_key(scan_id) && scans[scan_id]
}

/// The roots among `roots` that exist, in their order.
pub open spec fn accepted_roots(roots: Seq<(String, bool)>) -> Seq<Seq<char>>
    decreases roots.len(),
{
    if roots.len() == 0 {
        Seq::empty()
    } else if roots.last().1 {
        accepted_roots(roots.drop_last()).push(roots.last().0@)
    } else {
        accepted_roots(roots.drop_last())
    }
}

/// A scan that was accepted and waits for its worker.
#[derive(Debug, PartialEq, Eq)]
pub struct ScanJob {
    pub scan_id: String,
    pub root: String,
    pub max_depth: u32,
    pub top_children: u32,
}

/// The identifiers of `jobs`, one by one.
pub open spec fn job_ids(jobs: Seq<ScanJob>) -> Seq<Seq<char>> {
    Seq::new(jobs.len(), |i: int| jobs[i].scan_id@)
}

/// The roots of `jobs`, one by one.
pub open spec fn job_roots(jobs: Seq<ScanJob>) -> Seq<Seq<char>> {
    Seq::new(jobs.len(), |i: int| jobs[i].root@)
}

/// Calls `uuid::Uuid::new_v4` and renders the identifier with `to_string`.
///
/// Trusted: the text is the hyphenated form of a UUID, which has 36
/// characters. The identifier is drawn at random: nothing is claimed of
/// which one comes back, nor that it differs from any other. The call
/// panics if the operating system gives no random bytes.
#[verifier::external_body]
fn fresh_scan_id() -> (scan_id: String)
    ensures
        scan_id@.len() == 36,
{
    uuid::Uuid::new_v4().to_string()
}

/// The scans in flight. Each has a cancellation flag, which a request sets
/// and the branches of the scan observe.
pub struct ScanManager {
    scans: StringHashMap<bool>,
}

impl View for ScanManager {
    type V = Map<Seq<char>, bool>;

    closed spec fn view(&self) -> Map<Seq<char>, bool> {
        self.scans@
    }
}

impl Default for ScanManager {
    fn default() -> (manager: ScanManager)
        ensures
            manager@ == Map::<Seq<char>, bool>::empty(),
    {
        ScanManager::new()
    }
}

impl ScanManager {
    /// A registry without scans.
    pub fn new() -> (manager: ScanManager)
        ensures
            manager@ == Map::<Seq<char>, bool>::empty(),
    {
        ScanManager { scans: StringHashMap::new() }
    }

    /// Enters the scan `scan_id`, not cancelled.
    pub fn register(&mut self, scan_id: String)
        ensures
            final(self)@ == registered(old(self)@, scan_id@),
    {
        self.scans.insert(scan_id, false);
    }

    /// Enters a scan under a fresh identifier, not cancelled, and gives the
    /// identifier.
    pub fn create(&mut self) -> (scan_id: String)
        ensures
            final(self)@ == registered(old(self)@, scan_id@),
            scan_id@.len() == 36,
    {
        let scan_id = fresh_scan_id();
        self.register(scan_id.clone());
        scan_id
    }

    /// Sets the flag of the scan `scan_id`. Fails, and changes nothing, if
    /// and only if no such scan is in flight.
    pub fn cancel(&mut self, scan_id: &str) -> (outcome: Result<(), String>)
        ensures
            final(self)@ == after_cancel(old(self)@, scan_id@),
            match outcome {
                Ok(_) => cancel_accepted(old(self)@, scan_id@),
                Err(reason) => !cancel_accepted(old(self)@, scan_id@) && reason@
                    == scan_not_found_text() && final(self)@ == old(self)@,
            },
    {
        if self.scans.contains_key(scan_id) {
            self.scans.insert(scan_id.to_owned(), true);
            Ok(())
        } else {
            Err("Scan not found".to_owned())
        }
    }

    /// Drops the scan `scan_id`. Nothing changes if it is not in flight.
    pub fn remove(&mut self, scan_id: &str)
        ensures
            final(self)@ == old(self)@.remove(scan_id@),
    {
        self.scans.remove(scan_id);
    }

    /// Whether the scan `scan_id` is in flight and its flag is set.
    pub fn is_cancelled(&self, scan_id: &str) -> (cancelled: bool)
        ensures
            cancelled == observed_cancelled(self@, scan_id@),
    {
        match self.scans.get(scan_id) {
            Some(flag) => *flag,
            None => false,
        }
    }

    /// Whether the scan `scan_id` is in flight.
    pub fn is_active(&self, scan_id: &str) -> (active: bool)
        ensures
            active == self@.contains_key(scan_id@),
    {
        self.scans.contains_key(scan_id)
    }

    /// The number of scans in flight.
    pub fn active_scans(&self) -> (count: usize)
        ensures
            count == self@.len(),
    {
        self.scans.len()
    }
}

/// Serves a request to scan the root at `path`, which exists or not as
/// `path_exists` says. A root that does not exist fails the request and
/// leaves the registry as it was. Any other root is entered under a fresh
/// identifier, and the job for its worker comes back.
pub fn start_scan(
    state: &mut ScanManager,
    path: String,
    path_exists: bool,
    max_depth: u32,
    top_children: u32,
) -> (outcome: Result<ScanJob, String>)
    ensures
        match outcome {
            Ok(job) => {
                &&& path_exists
                &&& job.root@ == path@
                &&& job.max_depth == max_depth
                &&& job.top_children == top_children
                &&& job.scan_id@.len() == 36
                &&& final(state)@ == registered(old(state)@, job.scan_id@)
            },
            Err(reason) => {
                &&& !path_exists
                &&& reason@ == root_not_found_text()
                &&& final(state)@ == old(state)@
            },
        },
{
    if !path_exists {
        return Err("Path does not exist".to_owned());
    }
    let scan_id = state.create();
    Ok(ScanJob { scan_id, root: path, max_depth, top_children })
}

/// Serves a request to scan several roots, each handed in with whether it
/// exists. The request never fails. A root that does not exist is passed
/// over: no scan is entered for it and nothing is reported of it. Every
/// other root is entered under a fresh identifier of its own, and the jobs
/// come back in the order of the roots.
pub fn start_multi_scan(
    state: &mut ScanManager,
    roots: Vec<(String, bool)>,
    max_depth: u32,
    top_children: u32,
) -> (outcome: Result<Vec<ScanJob>, String>)
    ensures
        outcome matches Ok(jobs) && {
            &&& job_roots(jobs@) == accepted_roots(roots@)
            &&& final(state)@ == registered_all(old(state)@, job_ids(jobs@))
            &&& forall|i: int|
                0 <= i < jobs@.len() ==> (#[trigger] jobs@[i]).max_depth == max_depth
                    && jobs@[i].top_children == top_children && jobs@[i].scan_id@.len() == 36
        },
{
    let ghost all = roots@;
    let mut jobs: Vec<ScanJob> = Vec::new();
    for root in it: roots
        invariant
            it.seq() == all,
            job_roots(jobs@) == accepted_roots(all.take(it.index() as int)),
            state@ == registered_all(old(state)@, job_ids(jobs@)),
            forall|i: int|
                0 <= i < jobs@.len() ==> (#[trigger] jobs@[i]).max_depth == max_depth
                    && jobs@[i].top_children == top_children && jobs@[i].scan_id@.len() == 36,
    {
        let ghost seen = all.take(it.index() as int);
        let ghost next = all.take(it.index() + 1);
        assert(next.drop_last() =~= seen);
        let (path, exists) = root;
        if exists {
            let ghost ids = job_ids(jobs@);
            let scan_id = state.create();
            jobs.push(ScanJob { scan_id, root: path, max_depth, top_children });
            assert(job_ids(jobs@).drop_last() =~= ids);
        }
    }
    assert(all.take(all.len() as int) =~= all);
    Ok(jobs)
}

/// Serves a request to cancel the scan `scan_id`: sets its flag, which its
/// branches find on their next look. Fails, and changes nothing, if and only
/// if no such scan is in flight.
pub fn cancel_scan(state: &mut ScanManager, scan_id: String) -> (outcome: Result<(), String>)
    ensures
        final(state)@ == after_cancel(old(state)@, scan_id@),
        match outcome {
            Ok(_) => cancel_accepted(old(state)@, scan_id@),
            Err(reason) => !cancel_accepted(old(state)@, scan_id@) && reason@
                == scan_not_found_text() && final(state)@ == old(state)@,
        },
{
    state.cancel(scan_id.as_str())
}

/// A request to cancel a scan that is not in flight fails, and the registry
/// stays as it was.
pub proof fn lemma_cancel_unknown(scans: Map<Seq<char>, bool>, scan_id: Seq<char>)
    requires
        !scans.contains_key(scan_id),
    ensures
        !cancel_accepted(scans, scan_id),
        after_cancel(scans, scan_id) == scans,
{
}

/// Once a scan is done and dropped, a request to cancel it fails and changes
/// nothing, whether or not it was cancelled while in flight.
pub proof fn lemma_cancel_after_done(scans: Map<Seq<char>, bool>, scan_id: Seq<char>)
    ensures
        !cancel_accepted(after_cancel(scans, scan_id).remove(scan_id), scan_id),
        !cancel_accepted(scans.remove(scan_id), scan_id),
        after_cancel(scans.remove(scan_id), scan_id) == scans.remove(scan_id),
{
}

/// A request to cancel a scan in flight sets its flag and no other: every
/// other scan is in flight as before, with the flag it had. The scan stays
/// in flight until its worker drops it.
pub proof fn lemma_cancel_is_local(
    scans: Map<Seq<char>, bool>,
    scan_id: Seq<char>,
    other: Seq<char>,
)
    requires
        scans.contains_key(scan_id),
        other != scan_id,
    ensures
        observed_cancelled(after_cancel(scans, scan_id), scan_id),
        after_cancel(scans, scan_id).contains_key(other) == scans.contains_key(other),
        observed_cancelled(after_cancel(scans, scan_id), other) == observed_cancelled(
            scans,
            other,
        ),
{
}

/// A flag that is set stays set: a second request to cancel changes nothing.
pub proof fn lemma_cancel_twice(scans: Map<Seq<char>, bool>, scan_id: Seq<char>)
    ensures
        after_cancel(after_cancel(scans, scan_id), scan_id) == after_cancel(scans, scan_id),
{
}

} // verus!

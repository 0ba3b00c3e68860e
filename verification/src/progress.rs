//! Running counters and the throttled progress samples taken of them.

use std::time::Instant;
use vstd::prelude::*;

verus! {

/// The least time, in milliseconds, between two progress events of one scan.
pub const MIN_EMIT_INTERVAL_MS: u64 = 120;

/// How much a scan has visited so far. Both counters wrap round at the end of
/// their range.
#[derive(Clone, Copy, Debug, PartialEq, Eq, Structural)]
pub struct Counters {
    pub entries: u64,
    pub bytes: u64,
}

impl Counters {
    /// The counters after one more entry of `bytes` bytes.
    pub open spec fn counted(self, bytes: u64) -> Counters {
        Counters {
            entries: self.entries.wrapping_add(1),
            bytes: self.bytes.wrapping_add(bytes),
        }
    }

    /// Counters that have counted nothing.
    pub fn new() -> (counters: Counters)
        ensures
            counters == (Counters { entries: 0, bytes: 0 }),
    {
        Counters { entries: 0, bytes: 0 }
    }

    /// Counts one entry of `bytes` bytes; a directory counts as an entry of
    /// no bytes.
    pub fn count(&mut self, bytes: u64)
        ensures
            *final(self) == old(self).counted(bytes),
    {
        self.entries = self.entries.wrapping_add(1);
        self.bytes = self.bytes.wrapping_add(bytes);
    }
}

/// A sample of a scan's counters, with the path that was being visited.
#[derive(Debug, PartialEq, Eq)]
pub struct ScanProgressEvent {
    pub scan_id: String,
    pub scanned_entries: u64,
    pub scanned_bytes: u64,
    pub current_path: Option<String>,
}

/// The mathematical value of a [`ScanProgressEvent`].
pub ghost struct ProgressView {
    pub scan_id: Seq<char>,
    pub scanned_entries: u64,
    pub scanned_bytes: u64,
    pub current_path: Option<Seq<char>>,
}

impl View for ScanProgressEvent {
    type V = ProgressView;

    open spec fn view(&self) -> ProgressView {
        ProgressView {
            scan_id: self.scan_id@,
            scanned_entries: self.scanned_entries,
            scanned_bytes: self.scanned_bytes,
            current_path: match self.current_path {
                Some(path) => Some(path@),
                None => None,
            },
        }
    }
}

impl Clone for ScanProgressEvent {
    fn clone(&self) -> (copy: ScanProgressEvent)
        ensures
            copy@ == self@,
    {
        ScanProgressEvent {
            scan_id: self.scan_id.clone(),
            scanned_entries: self.scanned_entries,
            scanned_bytes: self.scanned_bytes,
            current_path: match &self.current_path {
                Some(path) => Some(path.clone()),
                None => None,
            },
        }
    }
}

/// The value of an event that may be absent.
pub open spec fn event_view(event: Option<ScanProgressEvent>) -> Option<ProgressView> {
    match event {
        Some(e) => Some(e@),
        None => None,
    }
}

/// A sample taken at `now_ms` is due when the last event went out at
/// `last_emit_ms`: the interval has passed in full.
pub open spec fn due(last_emit_ms: u64, now_ms: u64) -> bool {
    now_ms - last_emit_ms >= MIN_EMIT_INTERVAL_MS
}

/// The time of the last event after a sample at `now_ms`.
pub open spec fn last_emit_after(last_emit_ms: u64, now_ms: u64) -> u64 {
    if due(last_emit_ms, now_ms) {
        now_ms
    } else {
        last_emit_ms
    }
}

/// What a sample of `counters` at `now_ms` sends out, if anything.
pub open spec fn sample_of(
    last_emit_ms: u64,
    now_ms: u64,
    scan_id: Seq<char>,
    counters: Counters,
    current_path: Option<Seq<char>>,
) -> Option<ProgressView> {
    if due(last_emit_ms, now_ms) {
        Some(
            ProgressView {
                scan_id,
                scanned_entries: counters.entries,
                scanned_bytes: counters.bytes,
                current_path,
            },
        )
    } else {
        None
    }
}

/// `std::time::Instant`, a moment on the monotonic clock. A value of it is
/// carried through as it is: nothing inside it is read here.
#[verifier::external_type_specification]
#[verifier::external_body]
pub struct ExInstant(std::time::Instant);

/// Calls `std::time::Instant::now`.
///
/// Trusted: nothing is claimed of the moment that comes back.
#[verifier::external_body]
fn clock_start() -> Instant {
    Instant::now()
}

/// Calls `std::time::Instant::elapsed` on `start` and gives the time that has
/// passed in whole milliseconds, cut to 64 bits.
///
/// Trusted: nothing is claimed of the number that comes back.
#[verifier::external_body]
fn elapsed_ms(start: &Instant) -> u64 {
    start.elapsed().as_millis() as u64
}

/// Lets a scan's progress through at most once per
/// [`MIN_EMIT_INTERVAL_MS`]: it remembers when the last event went out, in
/// milliseconds since the scan began, and drops every sample that comes
/// sooner after it.
pub struct ProgressReporter {
    scan_start: Instant,
    last_emit_ms: u64,
}

impl ProgressReporter {
    /// The time of the last event, in milliseconds since the scan began; 0
    /// while none has gone out.
    pub closed spec fn last_emit_ms(&self) -> u64 {
        self.last_emit_ms
    }

    /// A reporter for a scan that begins now.
    pub fn new() -> (reporter: ProgressReporter)
        ensures
            reporter.last_emit_ms() == 0,
    {
        ProgressReporter { scan_start: clock_start(), last_emit_ms: 0 }
    }

    /// The time of the last event.
    pub fn last_emit(&self) -> (ms: u64)
        ensures
            ms == self.last_emit_ms(),
    {
        self.last_emit_ms
    }

    /// Takes a sample at `now_ms` milliseconds since the scan began. The
    /// sample becomes an event, and `now_ms` the time of the last event, if
    /// and only if it is due.
    pub fn sample_at(
        &mut self,
        now_ms: u64,
        scan_id: &str,
        counters: Counters,
        current_path: Option<String>,
    ) -> (event: Option<ScanProgressEvent>)
        ensures
            final(self).last_emit_ms() == last_emit_after(old(self).last_emit_ms(), now_ms),
            event_view(event) == sample_of(
                old(self).last_emit_ms(),
                now_ms,
                scan_id@,
                counters,
                match current_path {
                    Some(path) => Some(path@),
                    None => None,
                },
            ),
    {
        if now_ms.saturating_sub(self.last_emit_ms) < MIN_EMIT_INTERVAL_MS {
            return None;
        }
        self.last_emit_ms = now_ms;
        Some(
            ScanProgressEvent {
                scan_id: scan_id.to_owned(),
                scanned_entries: counters.entries,
                scanned_bytes: counters.bytes,
                current_path,
            },
        )
    }

    /// Takes a sample now. Whatever the clock says, an event goes out only
    /// if the interval has passed since the last one, and it then carries
    /// the counters and the path that were handed in; otherwise nothing
    /// changes.
    pub fn maybe_emit(
        &mut self,
        scan_id: &str,
        counters: Counters,
        current_path: Option<String>,
    ) -> (event: Option<ScanProgressEvent>)
        ensures
            event_view(event) == sample_of(
                old(self).last_emit_ms(),
                final(self).last_emit_ms(),
                scan_id@,
                counters,
                match current_path {
                    Some(path) => Some(path@),
                    None => None,
                },
            ),
            event is None ==> final(self).last_emit_ms() == old(self).last_emit_ms(),
    {
        let now_ms = elapsed_ms(&self.scan_start);
        self.sample_at(now_ms, scan_id, counters, current_path)
    }
}

/// Counters that are not at the end of their range do not fall: one more
/// entry raises the count of entries by one and the count of bytes by the
/// bytes of the entry.
pub proof fn lemma_counters_rise(counters: Counters, bytes: u64)
    requires
        counters.entries < u64::MAX,
        counters.bytes + bytes <= u64::MAX,
    ensures
        counters.counted(bytes).entries == counters.entries + 1,
        counters.counted(bytes).bytes == counters.bytes + bytes,
{
}

/// The time of the last event never falls.
pub proof fn lemma_last_emit_rises(last_emit_ms: u64, now_ms: u64)
    ensures
        last_emit_after(last_emit_ms, now_ms) >= last_emit_ms,
{
}

/// Two events of one reporter lie a full interval apart: a sample that
/// follows an event sooner is dropped, whatever it carries.
pub proof fn lemma_events_stand_apart(last_emit_ms: u64, first_ms: u64, second_ms: u64)
    requires
        due(last_emit_ms, first_ms),
        second_ms - first_ms < MIN_EMIT_INTERVAL_MS,
    ensures
        !due(last_emit_after(last_emit_ms, first_ms), second_ms),
{
}

} // verus!

//! Decisions of the file uploader.
//!
//! Every file handed to the uploader is stored in the bucket, retrying a failed
//! store a bounded number of times, and is removed locally once it was stored.
//! The I/O (storing, removing, sleeping, observing shutdown) is done by the
//! caller; this module decides what to do next from what happened.

use vstd::prelude::*;

verus! {

/// How many times a failed store is retried after the first attempt.
pub const MAX_RETRIES: u8 = 5;

/// Seconds to wait after a failed store before the next attempt.
pub const RETRY_WAIT_SECS: u64 = 10;

/// How many files are uploaded at the same time.
pub const MAX_CONCURRENT_UPLOADS: usize = 5;

/// Whether uploads are enabled, given the value of the setting that controls
/// it: enabled when the setting is absent, and otherwise exactly when it reads
/// `true`.
pub open spec fn upload_enabled_spec(setting: Option<Seq<char>>) -> bool {
    match setting {
        None => true,
        Some(s) => s == "true"@,
    }
}

/// Uploads are enabled when the setting is absent, and when it is present
/// exactly when it is the four characters `true`: any other text, such as `1`,
/// `TRUE` or the empty text, disables them.
pub proof fn lemma_upload_switch(s: Seq<char>)
    ensures
        upload_enabled_spec(None),
        upload_enabled_spec(Some(seq!['t', 'r', 'u', 'e'])),
        s != seq!['t', 'r', 'u', 'e'] ==> !upload_enabled_spec(Some(s)),
{
    reveal_strlit("true");
    assert("true"@ =~= seq!['t', 'r', 'u', 'e']);
}

/// Reads the upload switch from its setting (absent means enabled).
pub fn upload_enabled(setting: Option<String>) -> (enabled: bool)
    ensures
        enabled == upload_enabled_spec(
            match setting {
                None => None,
                Some(s) => Some(s@),
            },
        ),
{
    match setting {
        None => true,
        Some(s) => {
            let expected = "true".to_owned();
            proof {
                reveal_strlit("true");
            }
            s == expected
        },
    }
}

/// How the upload of one file ended.
#[derive(Clone, Copy, Debug, PartialEq, Eq, Structural)]
pub enum UploadOutcome {
    /// Uploads are disabled: the file was left alone.
    Disabled,
    /// Shutdown was requested before the file could be stored.
    Shutdown,
    /// The file was stored; `removed` tells whether the local copy was removed.
    Stored { removed: bool },
    /// Every attempt to store the file failed.
    GaveUp,
}

/// What the caller must do next for the file.
#[derive(Clone, Copy, Debug, PartialEq, Eq, Structural)]
pub enum UploadAction {
    /// Store the file in the bucket, then report `Stored`.
    Put,
    /// Remove the local file, then report `Removed`.
    Remove,
    /// Wait `RETRY_WAIT_SECS` seconds, then report `Ready`.
    Wait,
    /// Nothing more to do.
    Finish(UploadOutcome),
}

/// What the caller observed after doing what was asked.
#[derive(Clone, Copy, Debug, PartialEq, Eq, Structural)]
pub enum UploadEvent {
    /// Ready to go on; `shutdown` tells whether shutdown has been requested.
    Ready { shutdown: bool },
    /// The store attempt ended; `stored` tells whether it succeeded.
    Stored { stored: bool },
    /// The removal ended; `removed` tells whether it succeeded.
    Removed { removed: bool },
}

/// Where the upload of a file stands.
#[derive(Clone, Copy, Debug, PartialEq, Eq, Structural)]
pub enum UploadPhase {
    /// Nothing was done yet.
    Starting,
    /// About to attempt a store, if attempts are left and no shutdown was requested.
    Checking,
    /// A store attempt is under way.
    Putting,
    /// The file was stored and its removal is under way.
    Removing,
    /// The upload ended.
    Done(UploadOutcome),
}

/// The state of the upload of one file.
#[derive(Clone, Copy, Debug)]
pub struct UploadTask {
    pub enabled: bool,
    /// Number of failed store attempts so far.
    pub retry: u8,
    pub phase: UploadPhase,
}

/// Whether the event answers the action the task asked for last: `Ready` in
/// the phases that precede a store attempt, `Stored` while a store is under way,
/// `Removed` while a removal is under way; any event once the upload ended.
pub open spec fn upload_expects(t: UploadTask, e: UploadEvent) -> bool {
    match t.phase {
        UploadPhase::Starting => e is Ready,
        UploadPhase::Checking => e is Ready,
        UploadPhase::Putting => e is Stored,
        UploadPhase::Removing => e is Removed,
        UploadPhase::Done(_) => true,
    }
}

/// The decision taken at the top of the retry loop.
pub open spec fn check_next(t: UploadTask, shutdown: bool) -> (UploadTask, UploadAction) {
    if t.retry > MAX_RETRIES {
        (UploadTask { phase: UploadPhase::Done(UploadOutcome::GaveUp), ..t }, UploadAction::Finish(UploadOutcome::GaveUp))
    } else if shutdown {
        (UploadTask { phase: UploadPhase::Done(UploadOutcome::Shutdown), ..t }, UploadAction::Finish(UploadOutcome::Shutdown))
    } else {
        (UploadTask { phase: UploadPhase::Putting, ..t }, UploadAction::Put)
    }
}

/// The transition of the upload of one file on an event: the new state and the
/// action the caller performs next.
pub open spec fn upload_next(t: UploadTask, e: UploadEvent) -> (UploadTask, UploadAction) {
    match (t.phase, e) {
        (UploadPhase::Starting, UploadEvent::Ready { shutdown }) =>
            if !t.enabled {
                (UploadTask { phase: UploadPhase::Done(UploadOutcome::Disabled), ..t }, UploadAction::Finish(UploadOutcome::Disabled))
            } else {
                check_next(t, shutdown)
            },
        (UploadPhase::Checking, UploadEvent::Ready { shutdown }) => check_next(t, shutdown),
        (UploadPhase::Putting, UploadEvent::Stored { stored }) =>
            if stored {
                (UploadTask { phase: UploadPhase::Removing, ..t }, UploadAction::Remove)
            } else {
                (UploadTask { phase: UploadPhase::Checking, retry: (t.retry + 1) as u8, ..t }, UploadAction::Wait)
            },
        (UploadPhase::Removing, UploadEvent::Removed { removed }) =>
            (UploadTask { phase: UploadPhase::Done(UploadOutcome::Stored { removed }), ..t }, UploadAction::Finish(UploadOutcome::Stored { removed })),
        (UploadPhase::Done(o), _) => (t, UploadAction::Finish(o)),
        _ => (t, UploadAction::Wait),
    }
}

/// The invariant of a task: the retry counter stays within the number of
/// attempts, and a store is only under way while attempts are left.
pub open spec fn upload_wf(t: UploadTask) -> bool {
    &&& t.retry <= MAX_RETRIES + 1
    &&& (t.phase is Putting ==> t.retry <= MAX_RETRIES)
    &&& (t.phase is Starting ==> t.retry == 0)
}

/// The actions a task asks for while it is fed `events` in turn; the run stops
/// at the first event that does not answer the action asked for.
pub open spec fn upload_run(t: UploadTask, events: Seq<UploadEvent>) -> Seq<UploadAction>
    decreases events.len(),
{
    if events.len() == 0 || !upload_expects(t, events[0]) {
        Seq::empty()
    } else {
        let (t1, a) = upload_next(t, events[0]);
        seq![a] + upload_run(t1, events.drop_first())
    }
}

/// The number of times `which` occurs among `actions`.
pub open spec fn action_count(actions: Seq<UploadAction>, which: UploadAction) -> nat
    decreases actions.len(),
{
    if actions.len() == 0 {
        0
    } else {
        (if actions[0] == which { 1nat } else { 0nat }) + action_count(actions.drop_first(), which)
    }
}

/// How many store attempts a task can still ask for.
pub open spec fn puts_left(t: UploadTask) -> nat {
    match t.phase {
        UploadPhase::Starting => if t.enabled { (MAX_RETRIES + 1 - t.retry) as nat } else { 0 },
        UploadPhase::Checking => (MAX_RETRIES + 1 - t.retry) as nat,
        UploadPhase::Putting => (MAX_RETRIES - t.retry) as nat,
        _ => 0,
    }
}

/// How many waits a task can still ask for: one after each failed attempt.
pub open spec fn waits_left(t: UploadTask) -> nat {
    match t.phase {
        UploadPhase::Starting => (MAX_RETRIES + 1 - t.retry) as nat,
        UploadPhase::Checking => (MAX_RETRIES + 1 - t.retry) as nat,
        UploadPhase::Putting => (MAX_RETRIES + 1 - t.retry) as nat,
        _ => 0,
    }
}

/// How many removals a task can still ask for.
pub open spec fn removes_left(t: UploadTask) -> nat {
    match t.phase {
        UploadPhase::Removing => 0,
        UploadPhase::Done(_) => 0,
        _ => 1,
    }
}

/// The most events a task still takes before it finishes.
pub open spec fn steps_left(t: UploadTask) -> nat {
    match t.phase {
        UploadPhase::Starting => (2 * (MAX_RETRIES + 1 - t.retry) + 1) as nat,
        UploadPhase::Checking => (2 * (MAX_RETRIES + 1 - t.retry) + 1) as nat,
        UploadPhase::Putting => (2 * (MAX_RETRIES + 1 - t.retry)) as nat,
        UploadPhase::Removing => 1,
        UploadPhase::Done(_) => 0,
    }
}

proof fn lemma_counts_left(t: UploadTask, events: Seq<UploadEvent>)
    requires
        upload_wf(t),
    ensures
        action_count(upload_run(t, events), UploadAction::Put) <= puts_left(t),
        action_count(upload_run(t, events), UploadAction::Wait) <= waits_left(t),
        action_count(upload_run(t, events), UploadAction::Remove) <= removes_left(t),
    decreases events.len(),
{
    if events.len() == 0 || !upload_expects(t, events[0]) {
    } else {
        let (t1, a) = upload_next(t, events[0]);
        lemma_counts_left(t1, events.drop_first());
        let acts = seq![a] + upload_run(t1, events.drop_first());
        assert(acts.drop_first() =~= upload_run(t1, events.drop_first()));
    }
}

/// A file is stored at most `MAX_RETRIES + 1` times: whatever happens, a task
/// asks for no more store attempts than the first one and its retries.
pub proof fn lemma_store_attempts_bounded(enabled: bool, events: Seq<UploadEvent>)
    ensures
        action_count(upload_run(UploadTask::initial(enabled), events), UploadAction::Put) <= MAX_RETRIES + 1,
{
    lemma_counts_left(UploadTask::initial(enabled), events);
}

/// A task waits at most `MAX_RETRIES + 1` times: once after each failed store.
pub proof fn lemma_waits_bounded(enabled: bool, events: Seq<UploadEvent>)
    ensures
        action_count(upload_run(UploadTask::initial(enabled), events), UploadAction::Wait) <= MAX_RETRIES + 1,
{
    lemma_counts_left(UploadTask::initial(enabled), events);
}

/// A local file is removed at most once.
pub proof fn lemma_removed_at_most_once(enabled: bool, events: Seq<UploadEvent>)
    ensures
        action_count(upload_run(UploadTask::initial(enabled), events), UploadAction::Remove) <= 1,
{
    lemma_counts_left(UploadTask::initial(enabled), events);
}

/// With uploads disabled, a file is never stored: the task asks for no store
/// attempt, whatever happens.
pub proof fn lemma_disabled_never_stores(events: Seq<UploadEvent>)
    ensures
        action_count(upload_run(UploadTask::initial(false), events), UploadAction::Put) == 0,
{
    lemma_counts_left(UploadTask::initial(false), events);
}

proof fn lemma_finishes_within(t: UploadTask, events: Seq<UploadEvent>)
    requires
        upload_wf(t),
        !(t.phase is Done),
        upload_run(t, events).len() >= steps_left(t),
    ensures
        exists|i: int| 0 <= i < steps_left(t) && (#[trigger] upload_run(t, events)[i]) is Finish,
    decreases events.len(),
{
    let (t1, a) = upload_next(t, events[0]);
    let acts = upload_run(t, events);
    assert(acts[0] == a);
    if a is Finish {
    } else {
        assert(acts.drop_first() =~= upload_run(t1, events.drop_first()));
        lemma_finishes_within(t1, events.drop_first());
        let j = choose|j: int| 0 <= j < steps_left(t1) && (#[trigger] upload_run(t1, events.drop_first())[j]) is Finish;
        assert(acts[j + 1] == upload_run(t1, events.drop_first())[j]);
    }
}

/// The upload of a file always ends: fed the answers to what it asks for, a
/// task finishes within `2 * (MAX_RETRIES + 1) + 1` events (each attempt and
/// its wait, and the final decision).
pub proof fn lemma_upload_finishes(enabled: bool, events: Seq<UploadEvent>)
    requires
        upload_run(UploadTask::initial(enabled), events).len() >= 2 * (MAX_RETRIES + 1) + 1,
    ensures
        exists|i: int|
            0 <= i < 2 * (MAX_RETRIES + 1) + 1 && (#[trigger] upload_run(UploadTask::initial(enabled), events)[i]) is Finish,
{
    lemma_finishes_within(UploadTask::initial(enabled), events);
}

/// A local file is removed only once it was stored, and a stored file is
/// always removed next: the removal is asked for exactly when a store attempt
/// reports success.
pub proof fn lemma_removed_only_after_store(t: UploadTask, e: UploadEvent)
    requires
        upload_wf(t),
        upload_expects(t, e),
        !(t.phase is Done),
    ensures
        (upload_next(t, e).1 == UploadAction::Remove) <==> (t.phase is Putting && e == (UploadEvent::Stored { stored: true })),
{
}

/// A requested shutdown stops the upload of a file before its next store
/// attempt, unless every attempt has already failed.
pub proof fn lemma_shutdown_stops(t: UploadTask)
    requires
        upload_wf(t),
        t.phase is Checking || (t.phase is Starting && t.enabled),
    ensures
        upload_next(t, UploadEvent::Ready { shutdown: true }).1 == (if t.retry > MAX_RETRIES {
            UploadAction::Finish(UploadOutcome::GaveUp)
        } else {
            UploadAction::Finish(UploadOutcome::Shutdown)
        }),
{
}

/// A failed store attempt is followed by a wait, and the next attempt comes
/// only after the wait, while attempts are left.
pub proof fn lemma_failed_store_waits(t: UploadTask)
    requires
        upload_wf(t),
        t.phase is Putting,
    ensures
        upload_next(t, UploadEvent::Stored { stored: false }).1 == UploadAction::Wait,
        upload_next(t, UploadEvent::Stored { stored: false }).0.retry == t.retry + 1,
        upload_next(t, UploadEvent::Stored { stored: false }).0.phase is Checking,
{
}

impl UploadTask {
    /// The task for one file before anything was done.
    pub open spec fn initial(enabled: bool) -> UploadTask {
        UploadTask { enabled, retry: 0, phase: UploadPhase::Starting }
    }

    /// A task for one file, before anything was done.
    pub fn new(enabled: bool) -> (t: UploadTask)
        ensures
            t == UploadTask::initial(enabled),
            upload_wf(t),
    {
        UploadTask { enabled, retry: 0, phase: UploadPhase::Starting }
    }

    /// Takes the event into account and returns the next action.
    pub fn step(&mut self, event: UploadEvent) -> (action: UploadAction)
        requires
            upload_wf(*old(self)),
            upload_expects(*old(self), event),
        ensures
            (*final(self), action) == upload_next(*old(self), event),
            upload_wf(*final(self)),
    {
        match (self.phase, event) {
            (UploadPhase::Starting, UploadEvent::Ready { shutdown }) => {
                if !self.enabled {
                    self.phase = UploadPhase::Done(UploadOutcome::Disabled);
                    UploadAction::Finish(UploadOutcome::Disabled)
                } else {
                    self.check(shutdown)
                }
            },
            (UploadPhase::Checking, UploadEvent::Ready { shutdown }) => self.check(shutdown),
            (UploadPhase::Putting, UploadEvent::Stored { stored }) => {
                if stored {
                    self.phase = UploadPhase::Removing;
                    UploadAction::Remove
                } else {
                    self.retry = self.retry + 1;
                    self.phase = UploadPhase::Checking;
                    UploadAction::Wait
                }
            },
            (UploadPhase::Removing, UploadEvent::Removed { removed }) => {
                self.phase = UploadPhase::Done(UploadOutcome::Stored { removed });
                UploadAction::Finish(UploadOutcome::Stored { removed })
            },
            (UploadPhase::Done(o), _) => UploadAction::Finish(o),
            _ => UploadAction::Wait,
        }
    }

    /// Whether `event` answers the action the task asked for last.
    pub fn expects(&self, event: &UploadEvent) -> (b: bool)
        ensures
            b == upload_expects(*self, *event),
    {
        match (self.phase, event) {
            (UploadPhase::Starting, UploadEvent::Ready { .. }) => true,
            (UploadPhase::Checking, UploadEvent::Ready { .. }) => true,
            (UploadPhase::Putting, UploadEvent::Stored { .. }) => true,
            (UploadPhase::Removing, UploadEvent::Removed { .. }) => true,
            (UploadPhase::Done(_), _) => true,
            _ => false,
        }
    }

    fn check(&mut self, shutdown: bool) -> (action: UploadAction)
        requires
            upload_wf(*old(self)),
            !(old(self).phase is Putting),
        ensures
            (*final(self), action) == check_next(*old(self), shutdown),
    {
        if self.retry > MAX_RETRIES {
            self.phase = UploadPhase::Done(UploadOutcome::GaveUp);
            UploadAction::Finish(UploadOutcome::GaveUp)
        } else if shutdown {
            self.phase = UploadPhase::Done(UploadOutcome::Shutdown);
            UploadAction::Finish(UploadOutcome::Shutdown)
        } else {
            self.phase = UploadPhase::Putting;
            UploadAction::Put
        }
    }
}

} // verus!

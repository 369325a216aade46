//! When the goals are synced, and what the status bar knows of it. Times are
//! seconds of a clock that never goes back.

use crate::app::{says, App};
use crate::types::{SyncStatus, SYNC_INTERVAL};
use vstd::prelude::*;

verus! {

/// What came from the channel of a sync.
#[derive(Debug)]
pub enum SyncPoll {
    Done,
    Failed(String),
    /// Nothing has come yet.
    Empty,
    /// The worker is gone without an end.
    Gone,
}

/// What a poll of the sync leads to.
#[derive(Debug)]
pub struct SyncStep {
    /// The error that is to be logged.
    pub error: Option<String>,
    /// Whether a sync is to be started.
    pub start: bool,
}

/// Whether a sync is due at a time.
pub open spec fn due(last: Option<u64>, now: int) -> bool {
    match last {
        Some(t) => now - t >= SYNC_INTERVAL,
        None => true,
    }
}

/// The state after an outcome was taken in, if one was awaited.
pub open spec fn settled(before: App, poll: SyncPoll, now: u64) -> App {
    if !before.sync_waiting {
        before
    } else {
        match poll {
            SyncPoll::Done => App {
                sync_status: SyncStatus::Synced { at: now },
                sync_in_flight: false,
                sync_waiting: false,
                ..before
            },
            SyncPoll::Failed(e) => App {
                sync_status: SyncStatus::Failed { at: now, error: e },
                sync_in_flight: false,
                sync_waiting: false,
                ..before
            },
            SyncPoll::Empty => before,
            SyncPoll::Gone => App { sync_in_flight: false, sync_waiting: false, ..before },
        }
    }
}

/// Whether a sync starts now: none is running, one is due, and there is a handle.
pub open spec fn starts(a: App, now: u64) -> bool {
    !a.sync_in_flight && due(a.last_sync_attempt, now as int) && a.sync_attached
}

impl App {
    /// Notes that the handle for the sync is there: the first sync is due at once.
    pub fn attach_sync_db(&mut self)
        requires
            old(self).wf(),
        ensures
            final(self).wf(),
            *final(self) == (App {
                sync_attached: true,
                sync_status: SyncStatus::Syncing,
                last_sync_attempt: None,
                ..*old(self)
            }),
    {
        self.sync_attached = true;
        self.sync_status = SyncStatus::Syncing;
        self.last_sync_attempt = None;
    }

    /// Whether a sync was asked for.
    pub open spec fn sync_requested(&self, before: App) -> bool {
        if !before.sync_attached {
            &&& *self == (App { message: self.message, ..before })
            &&& says(self.message, "sync is not active — set [turso] credentials to enable"@)
        } else {
            &&& *self == (App { last_sync_attempt: None, message: self.message, ..before })
            &&& says(
                self.message,
                if before.sync_in_flight {
                    "sync already running"@
                } else {
                    "syncing…"@
                },
            )
        }
    }

    /// Asks for a sync: it is due at once, even behind one that is running. Says
    /// whether the error that no sync is set up is to be logged.
    pub fn request_sync(&mut self) -> (r: bool)
        requires
            old(self).wf(),
        ensures
            final(self).wf(),
            r == !old(self).sync_attached,
            final(self).sync_requested(*old(self)),
    {
        if !self.sync_attached {
            self.set_message("sync is not active — set [turso] credentials to enable");
            return true;
        }
        self.last_sync_attempt = None;
        if self.sync_in_flight {
            self.set_message("sync already running");
            return false;
        }
        self.set_message("syncing…");
        false
    }

    /// Takes in what came from a running sync and starts the next one where it is
    /// due.
    #[verifier::rlimit(40)]
    pub fn poll_sync(&mut self, poll: SyncPoll, now: u64) -> (r: SyncStep)
        requires
            old(self).wf(),
        ensures
            final(self).wf(),
            ({
                let s = settled(*old(self), poll, now);
                if old(self).sync_waiting && poll is Empty {
                    *final(self) == *old(self) && !r.start
                } else if starts(s, now) {
                    *final(self) == (App {
                        last_sync_attempt: Some(now),
                        sync_in_flight: true,
                        sync_status: SyncStatus::Syncing,
                        sync_waiting: true,
                        ..s
                    }) && r.start
                } else {
                    *final(self) == s && !r.start
                }
            }),
            r.error == failure(*old(self), poll),
    {
        if self.sync_waiting {
            if let SyncPoll::Empty = poll {
                return SyncStep { error: None, start: false };
            }
        }
        let error = self.settle(poll, now);
        let is_due = match self.last_sync_attempt {
            Some(t) => now >= t && now - t >= SYNC_INTERVAL,
            None => true,
        };
        if self.sync_in_flight || !is_due || !self.sync_attached {
            return SyncStep { error, start: false };
        }
        self.last_sync_attempt = Some(now);
        self.sync_in_flight = true;
        self.sync_status = SyncStatus::Syncing;
        self.sync_waiting = true;
        SyncStep { error, start: true }
    }

    fn settle(&mut self, poll: SyncPoll, now: u64) -> (r: Option<String>)
        requires
            old(self).wf(),
        ensures
            final(self).wf(),
            *final(self) == settled(*old(self), poll, now),
            r == failure(*old(self), poll),
    {
        if !self.sync_waiting {
            return None;
        }
        match poll {
            SyncPoll::Done => {
                self.sync_status = SyncStatus::Synced { at: now };
                self.sync_in_flight = false;
                self.sync_waiting = false;
                None
            },
            SyncPoll::Failed(e) => {
                let error = e.clone();
                self.sync_status = SyncStatus::Failed { at: now, error: e };
                self.sync_in_flight = false;
                self.sync_waiting = false;
                Some(error)
            },
            SyncPoll::Empty => None,
            SyncPoll::Gone => {
                self.sync_in_flight = false;
                self.sync_waiting = false;
                None
            },
        }
    }
}

/// The error of an awaited sync that failed.
pub open spec fn failure(before: App, poll: SyncPoll) -> Option<String> {
    match poll {
        SyncPoll::Failed(e) => if before.sync_waiting {
            Some(e)
        } else {
            None
        },
        _ => None,
    }
}

/// Without a handle, polling never leaves the state in which no sync is set up.
pub proof fn law_no_sync_without_a_handle(before: App, poll: SyncPoll, now: u64)
    requires
        !before.sync_attached,
        !before.sync_waiting,
    ensures
        settled(before, poll, now) == before,
        !starts(settled(before, poll, now), now),
{
}

/// A sync that was just started is not started again within the interval.
pub proof fn law_syncs_keep_their_distance(a: App, t: u64, now: u64)
    requires
        a.last_sync_attempt == Some(t),
        t <= now < t + SYNC_INTERVAL,
    ensures
        !starts(a, now),
{
}

/// A requested sync starts at the next poll, unless one is running.
pub proof fn law_requested_syncs_start(a: App, now: u64)
    requires
        a.last_sync_attempt is None,
        a.sync_attached,
        !a.sync_in_flight,
    ensures
        starts(a, now),
{
}

/// A sync starts exactly where one can be made, none is running, and the last one was
/// begun at least five minutes ago, or none was.
pub proof fn law_a_sync_starts_when_it_is_due(a: App, now: u64)
    ensures
        starts(a, now) <==> a.sync_attached && !a.sync_in_flight && (a.last_sync_attempt is None || now
            >= a.last_sync_attempt->0 + 300),
{
}

/// An awaited outcome ends the sync and is shown with its time and, where it failed, with
/// its error; before one comes, and where none is awaited, nothing changes. The goals and
/// what is shown of them stay.
pub proof fn law_an_outcome_ends_the_sync(before: App, poll: SyncPoll, now: u64)
    ensures
        before.sync_waiting && !(poll is Empty) ==> !settled(before, poll, now).sync_in_flight
            && !settled(before, poll, now).sync_waiting,
        before.sync_waiting && poll is Done ==> settled(before, poll, now).sync_status == (
        SyncStatus::Synced { at: now }),
        before.sync_waiting && poll is Failed ==> settled(before, poll, now).sync_status == (
        SyncStatus::Failed { at: now, error: poll->Failed_0 }),
        before.sync_waiting && poll is Gone ==> settled(before, poll, now).sync_status
            == before.sync_status,
        !before.sync_waiting || poll is Empty ==> settled(before, poll, now) == before,
        settled(before, poll, now).goals == before.goals && settled(before, poll, now).mode
            == before.mode && settled(before, poll, now).selected == before.selected
            && settled(before, poll, now).message == before.message && settled(
            before,
            poll,
            now,
        ).last_sync_attempt == before.last_sync_attempt && settled(before, poll, now).sync_attached
            == before.sync_attached,
        failure(before, poll) is Some <==> before.sync_waiting && poll is Failed,
        failure(before, poll) is Some ==> failure(before, poll)->0 == poll->Failed_0,
{
}

/// Asking for a sync makes one due, where it can be made, and changes nothing else but the
/// message.
pub proof fn law_asking_makes_a_sync_due(after: App, before: App, now: u64)
    requires
        after.sync_requested(before),
    ensures
        before.sync_attached && !before.sync_in_flight ==> starts(after, now),
        !before.sync_attached ==> after.last_sync_attempt == before.last_sync_attempt,
        after.goals == before.goals && after.sync_status == before.sync_status
            && after.sync_in_flight == before.sync_in_flight && after.mode == before.mode,
{
}

} // verus!

use vstd::prelude::*;

use crate::event::{DisplayNames, RawEvent};
use crate::item::{ItemModel, TimelineItem};
use crate::rooms::RoomEntry;
use crate::timeline::{build_timeline_items, spec_build_items};

verus! {

/// The fixed delay, in time units, between a failed sync and the retry.
pub const DEFAULT_RETRY_DELAY: u64 = 5;

/// The joined-timeline events one room received in a sync response,
/// with the member names needed to render them.
pub struct RoomEvents {
    pub room_id: String,
    pub names: DisplayNames,
    pub events: Vec<RawEvent>,
}

/// A successful sync response, reduced to plain values: the server's
/// continuation token, the freshly projected room list, the per-room
/// event batches, and the incoming verification requests found among
/// the to-device events.
pub struct SyncBatch {
    pub next_token: String,
    pub rooms: Vec<RoomEntry>,
    pub room_events: Vec<RoomEvents>,
    /// Pairs of (flow id, sender).
    pub verification_requests: Vec<(String, String)>,
}

/// The outcome of one sync call.
pub enum SyncResult {
    Success(SyncBatch),
    Failure(String),
}

/// What one sync cycle tells the controller, in emission order: the
/// room-list update always precedes the per-room incoming-event
/// updates, which precede the verification requests; an error cycle
/// reports only the error and a wait.
pub struct SyncOutput {
    /// The new room list; present exactly on success.
    pub rooms: Option<Vec<RoomEntry>>,
    /// Per room with a non-empty rendered batch, in response order: the
    /// room id and its new items.
    pub incoming: Vec<(String, Vec<TimelineItem>)>,
    /// Incoming verification requests, in response order.
    pub verification_requests: Vec<(String, String)>,
    /// The error text; present exactly on failure.
    pub error: Option<String>,
    /// How long to suspend before the next sync; present exactly on
    /// failure.
    pub wait: Option<u64>,
}

/// The per-room updates a response yields: one entry per room whose
/// rendered batch is non-empty, in response order.
pub open spec fn spec_incoming_updates(batches: Seq<RoomEvents>, today: u64) -> Seq<
    (Seq<char>, Seq<ItemModel>),
>
    decreases batches.len(),
{
    if batches.len() == 0 {
        Seq::<(Seq<char>, Seq<ItemModel>)>::empty()
    } else {
        let b = batches[0];
        let items = spec_build_items(b.events@, b.names.entries.deep_view(), today, None);
        (if items.len() == 0 {
            Seq::<(Seq<char>, Seq<ItemModel>)>::empty()
        } else {
            seq![(b.room_id@, items)]
        }) + spec_incoming_updates(batches.drop_first(), today)
    }
}

/// The sync loop's state: the continuation token of the next sync (none
/// before the first full sync) and whether the last cycle failed. The
/// retry delay is fixed at construction so the loop's timing is
/// configurable.
pub struct SyncDriver {
    pub token: Option<String>,
    pub backing_off: bool,
    pub retry_delay: u64,
}

impl SyncDriver {
    /// A fresh loop: no continuation token, so the first cycle is a
    /// full sync.
    pub fn new(retry_delay: u64) -> (r: SyncDriver)
        ensures
            r.token is None,
            !r.backing_off,
            r.retry_delay == retry_delay,
    {
        SyncDriver { token: None, backing_off: false, retry_delay }
    }

    /// The token to hand the next sync call; absent before the first
    /// successful cycle.
    pub fn resume_token(&self) -> (r: Option<String>)
        ensures
            r == self.token,
    {
        match &self.token {
            Some(t) => Some(t.clone()),
            None => None,
        }
    }

    /// Digest the outcome of one sync cycle.
    ///
    /// On success the continuation token advances to the server's and
    /// the cycle's updates are handed back in order. On failure the
    /// token is kept unchanged — the same sync point is retried — and
    /// the caller is told to wait the fixed delay before retrying.
    pub fn on_sync_result(&mut self, result: SyncResult, today: u64) -> (out: SyncOutput)
        ensures
            final(self).retry_delay == old(self).retry_delay,
            match result {
                SyncResult::Success(batch) => {
                    &&& final(self).token == Some(batch.next_token)
                    &&& !final(self).backing_off
                    &&& out.rooms == Some(batch.rooms)
                    &&& out.incoming.deep_view() == spec_incoming_updates(
                        batch.room_events@,
                        today,
                    )
                    &&& out.verification_requests == batch.verification_requests
                    &&& out.error is None
                    &&& out.wait is None
                },
                SyncResult::Failure(msg) => {
                    &&& final(self).token == old(self).token
                    &&& final(self).backing_off
                    &&& out.rooms is None
                    &&& out.incoming@.len() == 0
                    &&& out.verification_requests@.len() == 0
                    &&& out.error == Some(msg)
                    &&& out.wait == Some(old(self).retry_delay)
                },
            },
    {
        match result {
            SyncResult::Success(batch) => {
                self.token = Some(batch.next_token);
                self.backing_off = false;
                let mut incoming: Vec<(String, Vec<TimelineItem>)> = Vec::new();
                let mut i: usize = 0;
                let room_events = batch.room_events;
                proof {
                    assert(room_events@.skip(0) =~= room_events@);
                    assert(incoming.deep_view() =~= Seq::<(Seq<char>, Seq<ItemModel>)>::empty());
                }
                while i < room_events.len()
                    invariant
                        i <= room_events@.len(),
                        spec_incoming_updates(room_events@, today) == incoming.deep_view()
                            + spec_incoming_updates(room_events@.skip(i as int), today),
                    decreases room_events@.len() - i,
                {
                    let ghost dv0 = incoming.deep_view();
                    let ghost rest = room_events@.skip(i as int);
                    proof {
                        assert(rest[0] == room_events@[i as int]);
                        assert(rest.drop_first() =~= room_events@.skip(i as int + 1));
                    }
                    let b = &room_events[i];
                    let items = build_timeline_items(&b.events, &b.names, today);
                    let ghost items_spec = spec_build_items(
                        rest[0].events@,
                        rest[0].names.entries.deep_view(),
                        today,
                        None,
                    );
                    if items.len() > 0 {
                        proof {
                            assert(items.deep_view().len() == items@.len());
                        }
                        incoming.push((b.room_id.clone(), items));
                        proof {
                            assert(incoming.deep_view() =~= dv0 + seq![
                                (rest[0].room_id@, items_spec),
                            ]);
                        }
                    } else {
                        proof {
                            assert(items.deep_view().len() == items@.len());
                            assert(incoming.deep_view() =~= dv0 + Seq::<
                                (Seq<char>, Seq<ItemModel>),
                            >::empty());
                        }
                    }
                    proof {
                        assert(dv0 + (if items_spec.len() == 0 {
                            Seq::<(Seq<char>, Seq<ItemModel>)>::empty()
                        } else {
                            seq![(rest[0].room_id@, items_spec)]
                        }) + spec_incoming_updates(room_events@.skip(i as int + 1), today)
                            =~= dv0 + ((if items_spec.len() == 0 {
                            Seq::<(Seq<char>, Seq<ItemModel>)>::empty()
                        } else {
                            seq![(rest[0].room_id@, items_spec)]
                        }) + spec_incoming_updates(room_events@.skip(i as int + 1), today)));
                    }
                    i = i + 1;
                }
                proof {
                    assert(spec_incoming_updates(room_events@.skip(i as int), today)
                        =~= Seq::<(Seq<char>, Seq<ItemModel>)>::empty());
                    assert(incoming.deep_view() + Seq::<(Seq<char>, Seq<ItemModel>)>::empty()
                        =~= incoming.deep_view());
                }
                SyncOutput {
                    rooms: Some(batch.rooms),
                    incoming,
                    verification_requests: batch.verification_requests,
                    error: None,
                    wait: None,
                }
            },
            SyncResult::Failure(msg) => {
                self.backing_off = true;
                SyncOutput {
                    rooms: None,
                    incoming: Vec::new(),
                    verification_requests: Vec::new(),
                    error: Some(msg),
                    wait: Some(self.retry_delay),
                }
            },
        }
    }
}

} // verus!

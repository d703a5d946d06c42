use vstd::prelude::*;

use crate::dates::{format_date_label, spec_date_label, spec_ts_to_day, ts_to_day};
use crate::event::{normalize_event, spec_event_ts, spec_normalize, DisplayNames, RawEvent};
use crate::item::{
    apply_continuation_markers, apply_continuation_markers_from, continuation_at,
    dedup_adjacent_date_separators, dedup_from, dup_separator, grouped, grouped_from,
    lemma_append_keeps_prefix_flags, lemma_grouped_from_complete, lemma_grouped_keeps_separators,
    lemma_grouped_well_grouped, well_grouped, with_flag, ItemModel, ReplyContext, TimelineItem,
};
use crate::strutil::{spec_trim, str_eq, trim_chars};

verus! {

/// The item sequence produced for a batch of decoded events: a date
/// separator wherever the calendar day changes between consecutive
/// events, followed by whatever the normalizer yields for each event.
/// `last_day` is the day of the last separator already emitted, if any.
pub open spec fn spec_build_items(
    events: Seq<RawEvent>,
    names: Seq<(Seq<char>, Seq<char>)>,
    today: u64,
    last_day: Option<u64>,
) -> Seq<ItemModel>
    decreases events.len(),
{
    if events.len() == 0 {
        Seq::<ItemModel>::empty()
    } else {
        let e = events[0];
        let day_opt = spec_ts_to_day(spec_event_ts(e));
        let sep: Seq<ItemModel> = match day_opt {
            Some(d) => if last_day != Some(d) {
                seq![ItemModel::DateSeparator(spec_date_label(d, today))]
            } else {
                Seq::<ItemModel>::empty()
            },
            None => Seq::<ItemModel>::empty(),
        };
        let new_last = match day_opt {
            Some(d) => Some(d),
            None => last_day,
        };
        let item: Seq<ItemModel> = match spec_normalize(e, names) {
            Some(m) => seq![m],
            None => Seq::<ItemModel>::empty(),
        };
        sep + item + spec_build_items(events.drop_first(), names, today, new_last)
    }
}

/// Normalize a batch of decoded events in order, inserting a date
/// separator wherever the calendar day changes between consecutive
/// events. Continuation flags are left for the caller to compute over the
/// final position of the batch.
pub fn build_timeline_items(events: &Vec<RawEvent>, names: &DisplayNames, today: u64) -> (r: Vec<
    TimelineItem,
>)
    ensures
        r.deep_view() == spec_build_items(events@, names.entries.deep_view(), today, None),
{
    let ghost nm = names.entries.deep_view();
    let mut out: Vec<TimelineItem> = Vec::new();
    let mut last_day: Option<u64> = None;
    let mut i: usize = 0;
    proof {
        assert(events@.skip(0) =~= events@);
        assert(out.deep_view() =~= Seq::<ItemModel>::empty());
    }
    while i < events.len()
        invariant
            i <= events@.len(),
            nm == names.entries.deep_view(),
            spec_build_items(events@, nm, today, None) == out.deep_view() + spec_build_items(
                events@.skip(i as int),
                nm,
                today,
                last_day,
            ),
        decreases events@.len() - i,
    {
        let ghost dv0 = out.deep_view();
        let ghost rest = events@.skip(i as int);
        let ghost last0 = last_day;
        proof {
            assert(rest[0] == events@[i as int]);
            assert(rest.drop_first() =~= events@.skip(i as int + 1));
        }
        let e = &events[i];
        let ghost sep_spec: Seq<ItemModel> = match spec_ts_to_day(spec_event_ts(rest[0])) {
            Some(d) => if last0 != Some(d) {
                seq![ItemModel::DateSeparator(spec_date_label(d, today))]
            } else {
                Seq::<ItemModel>::empty()
            },
            None => Seq::<ItemModel>::empty(),
        };
        let day_opt = ts_to_day(crate::event::event_ts(e));
        match day_opt {
            Some(d) => {
                let emit = match last_day {
                    Some(prev) => prev != d,
                    None => true,
                };
                if emit {
                    let label = format_date_label(d, today);
                    out.push(TimelineItem::DateSeparator(label));
                    proof {
                        assert(out.deep_view() =~= dv0 + sep_spec);
                    }
                }
                last_day = Some(d);
            },
            None => {},
        }
        proof {
            if sep_spec.len() == 0 {
                assert(out.deep_view() =~= dv0 + sep_spec);
            }
        }
        let ghost dv1 = out.deep_view();
        let ghost item_spec: Seq<ItemModel> = match spec_normalize(rest[0], nm) {
            Some(m) => seq![m],
            None => Seq::<ItemModel>::empty(),
        };
        match normalize_event(e, names) {
            Some(item) => {
                out.push(item);
                proof {
                    assert(out.deep_view() =~= dv1 + item_spec);
                }
            },
            None => {
                proof {
                    assert(out.deep_view() =~= dv1 + item_spec);
                }
            },
        }
        proof {
            assert(spec_build_items(rest, nm, today, last0) == sep_spec + item_spec
                + spec_build_items(rest.drop_first(), nm, today, last_day));
            assert(out.deep_view() =~= dv0 + sep_spec + item_spec);
            assert(dv0 + sep_spec + item_spec + spec_build_items(
                events@.skip(i as int + 1),
                nm,
                today,
                last_day,
            ) =~= dv0 + (sep_spec + item_spec + spec_build_items(
                events@.skip(i as int + 1),
                nm,
                today,
                last_day,
            )));
        }
        i = i + 1;
    }
    proof {
        assert(spec_build_items(events@.skip(i as int), nm, today, last_day)
            =~= Seq::<ItemModel>::empty());
        assert(out.deep_view() + Seq::<ItemModel>::empty() =~= out.deep_view());
    }
    out
}

/// Whether the engine's state is for the given room: in-flight results
/// for any other room are discarded.
pub open spec fn spec_matches_room(current: Option<String>, room_id: Seq<char>) -> bool {
    current matches Some(c) && c@ == room_id
}

/// What appending a live batch does to the item sequence and the
/// unread-marker flag: when the viewer is away from the bottom and no
/// marker was inserted this away period, a single unread marker precedes
/// the batch; the continuation flags of the appended tail are then
/// recomputed in place.
pub open spec fn spec_append_live(
    items: Seq<TimelineItem>,
    at_bottom: bool,
    inserted: bool,
    batch: Seq<TimelineItem>,
) -> (Seq<TimelineItem>, bool) {
    let add_marker = !at_bottom && !inserted && batch.len() > 0;
    let mid = if add_marker {
        items.push(TimelineItem::UnreadMarker)
    } else {
        items
    };
    (grouped_from(mid + batch, items.len() as int), inserted || add_marker)
}

/// What prepending older history does to the item sequence: the batch is
/// placed before the current items, adjacent same-label date separators
/// at the seam are collapsed, and every continuation flag is recomputed.
pub open spec fn spec_history_merge(
    older: Seq<TimelineItem>,
    current: Seq<TimelineItem>,
) -> Seq<TimelineItem> {
    grouped(dedup_from(older + current, 0))
}

/// A send intent, ready for the transport: the destination room, the
/// trimmed text and the replied-to event when the message is a reply.
#[derive(Debug)]
pub struct OutgoingMessage {
    pub room_id: String,
    pub text: String,
    pub reply_to_event: Option<String>,
}

/// Per-room timeline state: the authoritative item sequence and the flags
/// that drive loading, sending and unread-marker behaviour. Owned by the
/// controller and replaced wholesale on room switch.
#[derive(Debug)]
pub struct TimelineState {
    pub room_id: Option<String>,
    pub items: Vec<TimelineItem>,
    pub composer: String,
    /// Cursor for fetching older history; `None` means history is
    /// exhausted, not merely unfetched.
    pub pagination_token: Option<String>,
    pub loading: bool,
    pub sending: bool,
    pub attachment_sending: bool,
    pub at_bottom: bool,
    pub unread_marker_inserted: bool,
    pub reply_to: Option<ReplyContext>,
}

impl Default for TimelineState {
    /// The state shown before any room is selected: empty and at the
    /// bottom.
    fn default() -> (r: TimelineState)
        ensures
            r.room_id is None,
            r.items@.len() == 0,
            r.composer@.len() == 0,
            r.pagination_token is None,
            !r.loading,
            !r.sending,
            !r.attachment_sending,
            r.at_bottom,
            !r.unread_marker_inserted,
            r.reply_to is None,
    {
        TimelineState {
            room_id: None,
            items: Vec::new(),
            composer: String::new(),
            pagination_token: None,
            loading: false,
            sending: false,
            attachment_sending: false,
            at_bottom: true,
            unread_marker_inserted: false,
            reply_to: None,
        }
    }
}

impl TimelineState {
    /// Whether this state belongs to the given room.
    pub fn room_matches(&self, room_id: &str) -> (r: bool)
        ensures
            r == spec_matches_room(self.room_id, room_id@),
    {
        match &self.room_id {
            Some(c) => str_eq(c.as_str(), room_id),
            None => false,
        }
    }

    /// Discard everything: the state returns to its initial shape.
    pub fn clear(&mut self)
        ensures
            final(self).room_id is None,
            final(self).items@.len() == 0,
            final(self).composer@.len() == 0,
            final(self).pagination_token is None,
            !final(self).loading,
            !final(self).sending,
            !final(self).attachment_sending,
            final(self).at_bottom,
            !final(self).unread_marker_inserted,
            final(self).reply_to is None,
    {
        self.room_id = None;
        self.items.clear();
        self.composer = String::new();
        self.pagination_token = None;
        self.loading = false;
        self.sending = false;
        self.attachment_sending = false;
        self.at_bottom = true;
        self.unread_marker_inserted = false;
        self.reply_to = None;
    }

    /// Select a room: the previous room's state is discarded and loading
    /// begins. Selecting the already-selected room changes nothing.
    pub fn select_room(&mut self, room_id: &str) -> (changed: bool)
        ensures
            spec_matches_room(old(self).room_id, room_id@) ==> !changed && *final(self) == *old(
                self,
            ),
            !spec_matches_room(old(self).room_id, room_id@) ==> changed && {
                &&& final(self).room_id matches Some(r) && r@ == room_id@
                &&& final(self).items@.len() == 0
                &&& final(self).loading
                &&& final(self).pagination_token is None
                &&& final(self).composer@.len() == 0
                &&& final(self).at_bottom
                &&& !final(self).unread_marker_inserted
                &&& final(self).reply_to is None
            },
    {
        if self.room_matches(room_id) {
            return false;
        }
        self.clear();
        self.loading = true;
        self.room_id = Some(room_id.to_owned());
        true
    }

    /// Replace the whole sequence with a freshly loaded timeline and
    /// record the pagination cursor of its oldest boundary.
    pub fn set_timeline(&mut self, room_id: String, items: Vec<TimelineItem>, token: Option<String>)
        ensures
            final(self).room_id == Some(room_id),
            final(self).items == items,
            final(self).pagination_token == token,
            !final(self).loading,
            final(self).at_bottom,
            !final(self).unread_marker_inserted,
            final(self).reply_to is None,
            final(self).composer == old(self).composer,
            final(self).sending == old(self).sending,
            final(self).attachment_sending == old(self).attachment_sending,
    {
        self.room_id = Some(room_id);
        self.items = items;
        self.pagination_token = token;
        self.loading = false;
        self.at_bottom = true;
        self.unread_marker_inserted = false;
        self.reply_to = None;
    }

    /// Place older items before the current sequence and record the new
    /// pagination cursor.
    pub fn prepend_items(&mut self, items: Vec<TimelineItem>, token: Option<String>)
        ensures
            final(self).items@ == items@ + old(self).items@,
            final(self).pagination_token == token,
            !final(self).loading,
            final(self).room_id == old(self).room_id,
            final(self).composer == old(self).composer,
            final(self).sending == old(self).sending,
            final(self).attachment_sending == old(self).attachment_sending,
            final(self).at_bottom == old(self).at_bottom,
            final(self).unread_marker_inserted == old(self).unread_marker_inserted,
            final(self).reply_to == old(self).reply_to,
    {
        let mut merged = items;
        merged.append(&mut self.items);
        self.items = merged;
        self.pagination_token = token;
        self.loading = false;
    }

    /// Accept a freshly loaded timeline for `room_id`; a result for any
    /// other room is stale and is discarded unchanged.
    pub fn on_timeline_loaded(
        &mut self,
        room_id: &str,
        items: Vec<TimelineItem>,
        token: Option<String>,
    )
        ensures
            !spec_matches_room(old(self).room_id, room_id@) ==> *final(self) == *old(self),
            spec_matches_room(old(self).room_id, room_id@) ==> {
                &&& final(self).room_id matches Some(r) && r@ == room_id@
                &&& final(self).items == items
                &&& final(self).pagination_token == token
                &&& !final(self).loading
                &&& final(self).at_bottom
                &&& !final(self).unread_marker_inserted
                &&& final(self).reply_to is None
                &&& final(self).composer == old(self).composer
            },
    {
        if self.room_matches(room_id) {
            self.set_timeline(room_id.to_owned(), items, token);
        }
    }

    /// Append a live batch for `room_id`. When the viewer is not at the
    /// bottom and this is the first batch of the away period, one unread
    /// marker is inserted before the batch; the continuation flags of the
    /// appended tail are recomputed. A batch for any other room is
    /// discarded unchanged.
    pub fn on_incoming_events(&mut self, room_id: &str, new_items: Vec<TimelineItem>)
        ensures
            !spec_matches_room(old(self).room_id, room_id@) ==> *final(self) == *old(self),
            spec_matches_room(old(self).room_id, room_id@) ==> {
                let (merged, inserted) = spec_append_live(
                    old(self).items@,
                    old(self).at_bottom,
                    old(self).unread_marker_inserted,
                    new_items@,
                );
                &&& final(self).items@ == merged
                &&& final(self).unread_marker_inserted == inserted
                &&& final(self).room_id == old(self).room_id
                &&& final(self).composer == old(self).composer
                &&& final(self).pagination_token == old(self).pagination_token
                &&& final(self).loading == old(self).loading
                &&& final(self).sending == old(self).sending
                &&& final(self).attachment_sending == old(self).attachment_sending
                &&& final(self).at_bottom == old(self).at_bottom
                &&& final(self).reply_to == old(self).reply_to
            },
            spec_matches_room(old(self).room_id, room_id@) && well_grouped(old(self).items@)
                ==> well_grouped(final(self).items@),
    {
        if !self.room_matches(room_id) {
            return ;
        }
        let start = self.items.len();
        let ghost items0 = self.items@;
        if !self.at_bottom && !self.unread_marker_inserted && new_items.len() > 0 {
            self.items.push(TimelineItem::UnreadMarker);
            self.unread_marker_inserted = true;
        }
        let ghost mid = self.items@;
        let mut batch = new_items;
        self.items.append(&mut batch);
        proof {
            assert(self.items@ == mid + new_items@);
        }
        apply_continuation_markers_from(&mut self.items, start);
        proof {
            if well_grouped(items0) {
                lemma_append_keeps_prefix_flags(
                    items0,
                    (mid + new_items@).skip(start as int),
                );
                assert(items0 + (mid + new_items@).skip(start as int) =~= mid + new_items@);
                lemma_grouped_from_complete(mid + new_items@, start as int);
                lemma_grouped_well_grouped(mid + new_items@);
            }
        }
    }

    /// Merge an older history page for `room_id`: the batch is placed
    /// before the current items, duplicate date separators at the seam
    /// are collapsed to one, and continuation flags are recomputed across
    /// the seam. A page for any other room is discarded unchanged.
    pub fn on_history_loaded(
        &mut self,
        room_id: &str,
        items: Vec<TimelineItem>,
        token: Option<String>,
    )
        ensures
            !spec_matches_room(old(self).room_id, room_id@) ==> *final(self) == *old(self),
            spec_matches_room(old(self).room_id, room_id@) ==> {
                &&& final(self).items@ == spec_history_merge(items@, old(self).items@)
                &&& final(self).pagination_token == token
                &&& !final(self).loading
                &&& well_grouped(final(self).items@)
                &&& final(self).room_id == old(self).room_id
                &&& final(self).composer == old(self).composer
                &&& final(self).sending == old(self).sending
                &&& final(self).attachment_sending == old(self).attachment_sending
                &&& final(self).at_bottom == old(self).at_bottom
                &&& final(self).unread_marker_inserted == old(self).unread_marker_inserted
                &&& final(self).reply_to == old(self).reply_to
            },
            spec_matches_room(old(self).room_id, room_id@) ==> forall|k: int|
                0 <= k && k + 1 < final(self).items@.len() ==> !(#[trigger] dup_separator(
                    final(self).items@[k],
                    final(self).items@[k + 1],
                )),
    {
        if !self.room_matches(room_id) {
            return ;
        }
        self.prepend_items(items, token);
        dedup_adjacent_date_separators(&mut self.items);
        let ghost deduped = self.items@;
        apply_continuation_markers(&mut self.items);
        proof {
            lemma_grouped_well_grouped(deduped);
            lemma_grouped_keeps_separators(deduped);
        }
    }

    /// Record what the user has typed so far.
    pub fn set_composer(&mut self, text: String)
        ensures
            final(self).composer == text,
            *final(self) == (TimelineState { composer: final(self).composer, ..*old(self) }),
    {
        self.composer = text;
    }

    /// Remember which message the user is replying to.
    pub fn set_reply(&mut self, context: ReplyContext)
        ensures
            final(self).reply_to == Some(context),
            *final(self) == (TimelineState { reply_to: final(self).reply_to, ..*old(self) }),
    {
        self.reply_to = Some(context);
    }

    /// Drop the pending reply.
    pub fn cancel_reply(&mut self)
        ensures
            final(self).reply_to is None,
            *final(self) == (TimelineState { reply_to: None, ..*old(self) }),
    {
        self.reply_to = None;
    }

    /// Turn the composer's content into a send intent: the trimmed text,
    /// the room, and the replied-to event if any. With nothing but white
    /// space typed, or no room selected, nothing is sent and nothing
    /// changes; otherwise the composer and the pending reply are cleared
    /// and the sending flag is raised.
    pub fn prepare_send(&mut self) -> (r: Option<OutgoingMessage>)
        ensures
            spec_trim(old(self).composer@).len() == 0 || old(self).room_id is None ==> r is None
                && *final(self) == *old(self),
            (spec_trim(old(self).composer@).len() > 0 && old(self).room_id is Some) ==> {
                let rid = old(self).room_id.unwrap();
                &&& r matches Some(m)
                &&& m.room_id == rid
                &&& m.text@ == spec_trim(old(self).composer@)
                &&& m.reply_to_event == (match old(self).reply_to {
                    Some(c) => Some(c.event_id),
                    None => None,
                })
                &&& final(self).composer@.len() == 0
                &&& final(self).reply_to is None
                &&& final(self).sending
                &&& final(self).items == old(self).items
                &&& final(self).room_id == old(self).room_id
                &&& final(self).pagination_token == old(self).pagination_token
                &&& final(self).loading == old(self).loading
                &&& final(self).attachment_sending == old(self).attachment_sending
                &&& final(self).at_bottom == old(self).at_bottom
                &&& final(self).unread_marker_inserted == old(self).unread_marker_inserted
            },
    {
        let text = trim_chars(self.composer.as_str());
        if text.as_str().unicode_len() == 0 {
            return None;
        }
        let room_id = match &self.room_id {
            Some(r) => r.clone(),
            None => {
                return None;
            },
        };
        let reply_to_event = match self.reply_to.take() {
            Some(context) => Some(context.event_id),
            None => None,
        };
        self.composer = String::new();
        self.sending = true;
        Some(OutgoingMessage { room_id, text, reply_to_event })
    }

    /// The send finished, well or badly; further sends may follow.
    pub fn on_send_finished(&mut self)
        ensures
            !final(self).sending,
            *final(self) == (TimelineState { sending: false, ..*old(self) }),
    {
        self.sending = false;
    }

    /// Record whether an attachment upload is in flight.
    pub fn set_attachment_sending(&mut self, sending: bool)
        ensures
            final(self).attachment_sending == sending,
            *final(self) == (TimelineState {
                attachment_sending: sending,
                ..*old(self)
            }),
    {
        self.attachment_sending = sending;
    }

    /// Record whether the viewer is scrolled to the bottom; returning to
    /// the bottom ends the away period, so the next one may insert a
    /// fresh unread marker.
    pub fn set_at_bottom(&mut self, at_bottom: bool)
        ensures
            final(self).at_bottom == at_bottom,
            final(self).unread_marker_inserted == (old(self).unread_marker_inserted && !at_bottom),
            final(self).items == old(self).items,
            final(self).room_id == old(self).room_id,
            final(self).composer == old(self).composer,
            final(self).pagination_token == old(self).pagination_token,
            final(self).loading == old(self).loading,
            final(self).sending == old(self).sending,
            final(self).attachment_sending == old(self).attachment_sending,
            final(self).reply_to == old(self).reply_to,
    {
        self.at_bottom = at_bottom;
        if at_bottom {
            self.unread_marker_inserted = false;
        }
    }
}

/// How many unread markers a sequence holds.
pub open spec fn count_markers(s: Seq<TimelineItem>) -> int
    decreases s.len(),
{
    if s.len() == 0 {
        0
    } else {
        count_markers(s.drop_last()) + if s.last() is UnreadMarker {
            1int
        } else {
            0int
        }
    }
}

pub proof fn lemma_count_markers_concat(a: Seq<TimelineItem>, b: Seq<TimelineItem>)
    ensures
        count_markers(a + b) == count_markers(a) + count_markers(b),
    decreases b.len(),
{
    if b.len() == 0 {
        assert(a + b =~= a);
    } else {
        assert((a + b).drop_last() =~= a + b.drop_last());
        lemma_count_markers_concat(a, b.drop_last());
    }
}

/// Recomputing continuation flags touches no marker.
pub proof fn lemma_count_markers_same_shape(s: Seq<TimelineItem>, t: Seq<TimelineItem>)
    requires
        s.len() == t.len(),
        forall|i: int| 0 <= i < s.len() ==> ((#[trigger] s[i]) is UnreadMarker <==> (
        #[trigger] t[i]) is UnreadMarker),
    ensures
        count_markers(s) == count_markers(t),
    decreases s.len(),
{
    if s.len() > 0 {
        lemma_count_markers_same_shape(s.drop_last(), t.drop_last());
    }
}

/// No event ever normalizes to an unread marker: the marker is a pure
/// interface artefact that only the engine inserts.
pub proof fn lemma_build_items_no_markers(
    events: Seq<RawEvent>,
    names: Seq<(Seq<char>, Seq<char>)>,
    today: u64,
    last_day: Option<u64>,
)
    ensures
        forall|j: int| 0 <= j < spec_build_items(events, names, today, last_day).len() ==> !((
        #[trigger] spec_build_items(events, names, today, last_day)[j]) is UnreadMarker),
    decreases events.len(),
{
    if events.len() > 0 {
        let e = events[0];
        let day_opt = spec_ts_to_day(spec_event_ts(e));
        let new_last = match day_opt {
            Some(d) => Some(d),
            None => last_day,
        };
        lemma_build_items_no_markers(events.drop_first(), names, today, new_last);
    }
}

/// A batch whose items all came from the normalizer holds no markers.
pub proof fn lemma_no_marker_models_count(items: Seq<TimelineItem>)
    requires
        forall|j: int| 0 <= j < items.len() ==> !((#[trigger] items[j].deep_view())
            is UnreadMarker),
    ensures
        count_markers(items) == 0,
    decreases items.len(),
{
    if items.len() > 0 {
        assert(!(items[items.len() - 1].deep_view() is UnreadMarker));
        lemma_no_marker_models_count(items.drop_last());
    }
}

/// At most one unread marker per away period: with the viewer away from
/// the bottom, appending two consecutive non-empty live batches inserts
/// exactly one marker in total, never two.
pub proof fn lemma_unread_marker_once(
    items: Seq<TimelineItem>,
    batch1: Seq<TimelineItem>,
    batch2: Seq<TimelineItem>,
)
    requires
        batch1.len() > 0,
        batch2.len() > 0,
        count_markers(batch1) == 0,
        count_markers(batch2) == 0,
    ensures
        ({
            let (merged1, inserted1) = spec_append_live(items, false, false, batch1);
            let (merged2, inserted2) = spec_append_live(merged1, false, inserted1, batch2);
            &&& inserted1
            &&& inserted2
            &&& count_markers(merged2) == count_markers(items) + 1
        }),
{
    let (merged1, inserted1) = spec_append_live(items, false, false, batch1);
    let mid1 = items.push(TimelineItem::UnreadMarker);
    let full1 = mid1 + batch1;
    assert(merged1 == grouped_from(full1, items.len() as int));
    assert forall|i: int| 0 <= i < full1.len() implies ((#[trigger] full1[i]) is UnreadMarker <==> (
    #[trigger] merged1[i]) is UnreadMarker) by {
        assert(merged1[i] == if i < items.len() {
            full1[i]
        } else {
            with_flag(full1[i], continuation_at(full1, i))
        });
    }
    lemma_count_markers_same_shape(full1, merged1);
    assert(mid1.drop_last() =~= items);
    lemma_count_markers_concat(mid1, batch1);
    assert(count_markers(merged1) == count_markers(items) + 1);

    let (merged2, inserted2) = spec_append_live(merged1, false, inserted1, batch2);
    let full2 = merged1 + batch2;
    assert(merged2 == grouped_from(full2, merged1.len() as int));
    assert forall|i: int| 0 <= i < full2.len() implies ((#[trigger] full2[i]) is UnreadMarker <==> (
    #[trigger] merged2[i]) is UnreadMarker) by {
        assert(merged2[i] == if i < merged1.len() {
            full2[i]
        } else {
            with_flag(full2[i], continuation_at(full2, i))
        });
    }
    lemma_count_markers_same_shape(full2, merged2);
    lemma_count_markers_concat(merged1, batch2);
}

} // verus!

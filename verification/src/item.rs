use vstd::prelude::*;

verus! {

/// Reference to the media content of an image message. Only the opaque
/// content-addressable source descriptor is kept here; the bytes are
/// fetched out of band and cached under the message's event id.
#[derive(Debug)]
pub struct ImageContent {
    pub source: String,
}

/// One rendered chat message.
#[derive(Debug)]
pub struct TimelineMessage {
    pub event_id: String,
    pub sender: String,
    pub sender_display: String,
    /// Body text (or the image filename for image messages).
    pub body: String,
    pub timestamp: String,
    pub is_emote: bool,
    /// True iff the immediately preceding item in the sequence is also a
    /// message from the same sender.
    pub is_continuation: bool,
    pub reply_to_sender: Option<String>,
    pub reply_to_body: Option<String>,
    /// Present when this message is an image.
    pub image: Option<ImageContent>,
}

/// One entry of a room's display sequence.
#[derive(Debug)]
pub enum TimelineItem {
    Message(TimelineMessage),
    DateSeparator(String),
    StateEvent(String),
    UnreadMarker,
}

/// What the composer remembers while the user writes a reply: the quoted
/// message's identity and a short preview of its body.
#[derive(Debug)]
pub struct ReplyContext {
    pub event_id: String,
    pub sender_id: String,
    pub sender_display: String,
    pub body_preview: String,
}

/// Mathematical image of a message: every text field as a character
/// sequence.
pub struct MessageModel {
    pub event_id: Seq<char>,
    pub sender: Seq<char>,
    pub sender_display: Seq<char>,
    pub body: Seq<char>,
    pub timestamp: Seq<char>,
    pub is_emote: bool,
    pub is_continuation: bool,
    pub reply_to_sender: Option<Seq<char>>,
    pub reply_to_body: Option<Seq<char>>,
    pub image_source: Option<Seq<char>>,
}

/// Mathematical image of a timeline item.
pub enum ItemModel {
    Message(MessageModel),
    DateSeparator(Seq<char>),
    StateEvent(Seq<char>),
    UnreadMarker,
}

impl DeepView for ImageContent {
    type V = Seq<char>;

    open spec fn deep_view(&self) -> Seq<char> {
        self.source@
    }
}

impl DeepView for TimelineMessage {
    type V = MessageModel;

    open spec fn deep_view(&self) -> MessageModel {
        MessageModel {
            event_id: self.event_id@,
            sender: self.sender@,
            sender_display: self.sender_display@,
            body: self.body@,
            timestamp: self.timestamp@,
            is_emote: self.is_emote,
            is_continuation: self.is_continuation,
            reply_to_sender: self.reply_to_sender.deep_view(),
            reply_to_body: self.reply_to_body.deep_view(),
            image_source: self.image.deep_view(),
        }
    }
}

impl DeepView for TimelineItem {
    type V = ItemModel;

    open spec fn deep_view(&self) -> ItemModel {
        match self {
            TimelineItem::Message(m) => ItemModel::Message(m.deep_view()),
            TimelineItem::DateSeparator(l) => ItemModel::DateSeparator(l@),
            TimelineItem::StateEvent(d) => ItemModel::StateEvent(d@),
            TimelineItem::UnreadMarker => ItemModel::UnreadMarker,
        }
    }
}

/// Continuation flag that position `i` of `s` ought to carry: the previous
/// item is a message from the same sender. Any non-message item breaks the
/// run. The flag depends only on neighbouring senders, never on the flags
/// themselves.
pub open spec fn continuation_at(s: Seq<TimelineItem>, i: int) -> bool {
    &&& 0 < i < s.len()
    &&& s[i] matches TimelineItem::Message(cur)
    &&& s[i - 1] matches TimelineItem::Message(prev)
    &&& prev.sender@ == cur.sender@
}

/// `item` with its continuation flag replaced by `flag`; non-message items
/// are unchanged.
pub open spec fn with_flag(item: TimelineItem, flag: bool) -> TimelineItem {
    match item {
        TimelineItem::Message(m) => TimelineItem::Message(
            TimelineMessage { is_continuation: flag, ..m },
        ),
        other => other,
    }
}

/// The sequence `s` with every continuation flag recomputed from the
/// neighbouring senders.
pub open spec fn grouped(s: Seq<TimelineItem>) -> Seq<TimelineItem> {
    Seq::new(s.len(), |i: int| with_flag(s[i], continuation_at(s, i)))
}

/// Every item of `s` carries the continuation flag dictated by its
/// neighbours: the sequence invariant of a displayed timeline.
pub open spec fn well_grouped(s: Seq<TimelineItem>) -> bool {
    forall|i: int| 0 <= i < s.len() ==> s[i] == with_flag(s[i], continuation_at(s, i))
}

/// The sequence `s` with the continuation flags from position `start` on
/// recomputed and the earlier items left as they stand.
pub open spec fn grouped_from(s: Seq<TimelineItem>, start: int) -> Seq<TimelineItem> {
    Seq::new(
        s.len(),
        |i: int|
            if i < start {
                s[i]
            } else {
                with_flag(s[i], continuation_at(s, i))
            },
    )
}

/// When the items before `start` already carry their dictated flags, a
/// recomputation of the tail alone recomputes the whole sequence.
pub proof fn lemma_grouped_from_complete(s: Seq<TimelineItem>, start: int)
    requires
        forall|i: int| 0 <= i < start && i < s.len() ==> s[i] == with_flag(
            s[i],
            continuation_at(s, i),
        ),
    ensures
        grouped_from(s, start) == grouped(s),
{
    assert(grouped_from(s, start) =~= grouped(s));
}

/// The continuation flag an item carries, or false for a non-message item.
pub open spec fn flag_of(item: TimelineItem) -> bool {
    match item {
        TimelineItem::Message(m) => m.is_continuation,
        _ => false,
    }
}

pub proof fn lemma_continuation_ignores_flags(s: Seq<TimelineItem>, t: Seq<TimelineItem>, i: int)
    requires
        s.len() == t.len(),
        forall|j: int| 0 <= j < s.len() ==> #[trigger] t[j] == with_flag(s[j], flag_of(t[j])),
    ensures
        continuation_at(t, i) == continuation_at(s, i),
{
    if 0 < i < s.len() {
        assert(t[i] == with_flag(s[i], flag_of(t[i])));
        assert(t[i - 1] == with_flag(s[i - 1], flag_of(t[i - 1])));
    }
}

/// Recomputing the flags establishes the sequence invariant.
pub proof fn lemma_grouped_well_grouped(s: Seq<TimelineItem>)
    ensures
        well_grouped(grouped(s)),
{
    let g = grouped(s);
    assert forall|i: int| 0 <= i < g.len() implies g[i] == with_flag(
        g[i],
        continuation_at(g, i),
    ) by {
        assert forall|j: int| 0 <= j < s.len() implies #[trigger] g[j] == with_flag(
            s[j],
            flag_of(g[j]),
        ) by {
            assert(g[j] == with_flag(s[j], continuation_at(s, j)));
        }
        lemma_continuation_ignores_flags(s, g, i);
        assert(with_flag(with_flag(s[i], continuation_at(s, i)), continuation_at(s, i))
            == with_flag(s[i], continuation_at(s, i)));
    }
}

/// Recomputing the flags is idempotent: the flags are derived solely from
/// the neighbouring senders, so a second pass changes nothing.
pub proof fn lemma_grouped_idempotent(s: Seq<TimelineItem>)
    ensures
        grouped(grouped(s)) == grouped(s),
{
    let g = grouped(s);
    assert forall|j: int| 0 <= j < s.len() implies #[trigger] g[j] == with_flag(
        s[j],
        flag_of(g[j]),
    ) by {
        assert(g[j] == with_flag(s[j], continuation_at(s, j)));
    }
    assert forall|i: int| 0 <= i < g.len() implies grouped(g)[i] == g[i] by {
        lemma_continuation_ignores_flags(s, g, i);
        assert(with_flag(with_flag(s[i], continuation_at(s, i)), continuation_at(g, i))
            == with_flag(s[i], continuation_at(g, i)));
    }
    assert(grouped(g) =~= g);
}

/// A sequence satisfying the invariant is unchanged by recomputation.
pub proof fn lemma_well_grouped_fixed(s: Seq<TimelineItem>)
    requires
        well_grouped(s),
    ensures
        grouped(s) == s,
{
    assert(grouped(s) =~= s);
}

/// Appending items leaves the dictated flags of the existing prefix as
/// they were.
pub proof fn lemma_append_keeps_prefix_flags(s: Seq<TimelineItem>, t: Seq<TimelineItem>)
    requires
        well_grouped(s),
    ensures
        forall|i: int| 0 <= i < s.len() ==> (s + t)[i] == with_flag(
            (s + t)[i],
            continuation_at(s + t, i),
        ),
{
    assert forall|i: int| 0 <= i < s.len() implies (s + t)[i] == with_flag(
        (s + t)[i],
        continuation_at(s + t, i),
    ) by {
        assert((s + t)[i] == s[i]);
        if 0 < i {
            assert((s + t)[i - 1] == s[i - 1]);
        }
        assert(continuation_at(s + t, i) == continuation_at(s, i));
        assert(s[i] == with_flag(s[i], continuation_at(s, i)));
    }
}

/// Recomputing continuation flags touches no separator, so it neither
/// creates nor removes adjacent duplicate separators.
pub proof fn lemma_grouped_keeps_separators(s: Seq<TimelineItem>)
    requires
        forall|k: int| 0 <= k && k + 1 < s.len() ==> !(#[trigger] dup_separator(s[k], s[k + 1])),
    ensures
        forall|k: int| 0 <= k && k + 1 < grouped(s).len() ==> !(#[trigger] dup_separator(
            grouped(s)[k],
            grouped(s)[k + 1],
        )),
{
    assert forall|k: int| 0 <= k && k + 1 < grouped(s).len() implies !(#[trigger] dup_separator(
        grouped(s)[k],
        grouped(s)[k + 1],
    )) by {
        assert(grouped(s)[k] == with_flag(s[k], continuation_at(s, k)));
        assert(grouped(s)[k + 1] == with_flag(s[k + 1], continuation_at(s, k + 1)));
        assert(!dup_separator(s[k], s[k + 1]));
    }
}

/// Set `is_continuation` on consecutive messages from the same sender,
/// starting at position `start`; flags before `start` are left as they
/// stand. A date separator, state event or unread marker resets the run.
pub fn apply_continuation_markers_from(items: &mut Vec<TimelineItem>, start: usize)
    ensures
        final(items)@ == grouped_from(old(items)@, start as int),
{
    let ghost orig = items@;
    let mut idx: usize = start;
    if idx > items.len() {
        idx = items.len();
    }
    while idx < items.len()
        invariant
            start <= idx || idx == items@.len(),
            idx <= items@.len(),
            items@.len() == orig.len(),
            forall|i: int| idx <= i < orig.len() ==> items@[i] == orig[i],
            forall|i: int| 0 <= i < idx && i < start ==> items@[i] == orig[i],
            forall|i: int| start <= i < idx
                ==> items@[i] == with_flag(orig[i], continuation_at(orig, i)),
        decreases items@.len() - idx,
    {
        let flag: bool = if idx == 0 {
            false
        } else {
            let prev_is_same = match (&items[idx - 1], &items[idx]) {
                (TimelineItem::Message(prev), TimelineItem::Message(cur)) => {
                    prev.sender == cur.sender
                },
                _ => false,
            };
            prev_is_same
        };
        proof {
            assert(flag == continuation_at(orig, idx as int));
        }
        match &mut items[idx] {
            TimelineItem::Message(m) => {
                m.is_continuation = flag;
            },
            _ => {},
        }
        proof {
            assert(items@[idx as int] == with_flag(orig[idx as int], flag));
        }
        idx = idx + 1;
    }
    proof {
        assert(items@ =~= grouped_from(orig, start as int));
    }
}

/// Recompute every continuation flag of the sequence.
pub fn apply_continuation_markers(items: &mut Vec<TimelineItem>)
    ensures
        final(items)@ == grouped(old(items)@),
{
    apply_continuation_markers_from(items, 0);
    proof {
        assert(grouped_from(old(items)@, 0) =~= grouped(old(items)@));
    }
}

/// Two adjacent date separators carrying the same label: the redundancy
/// that can arise at the seam when older history is prepended.
pub open spec fn dup_separator(a: TimelineItem, b: TimelineItem) -> bool {
    &&& a matches TimelineItem::DateSeparator(la)
    &&& b matches TimelineItem::DateSeparator(lb)
    &&& la@ == lb@
}

/// The sequence left by collapsing runs of same-label date separators,
/// scanning from position `i`: whenever an item duplicates its successor,
/// the earlier of the two is dropped.
pub open spec fn dedup_from(s: Seq<TimelineItem>, i: int) -> Seq<TimelineItem>
    decreases s.len() - i,
    when 0 <= i <= s.len()
{
    if i + 1 >= s.len() {
        s
    } else if dup_separator(s[i], s[i + 1]) {
        dedup_from(s.remove(i), i)
    } else {
        dedup_from(s, i + 1)
    }
}

/// Collapsing leaves no two adjacent separators with the same label.
pub proof fn lemma_dedup_no_adjacent(s: Seq<TimelineItem>, i: int)
    requires
        0 <= i <= s.len(),
        forall|k: int| 0 <= k < i && k + 1 < s.len() ==> !(#[trigger] dup_separator(s[k], s[k + 1])),
    ensures
        forall|k: int| 0 <= k && k + 1 < dedup_from(s, i).len()
            ==> !(#[trigger] dup_separator(dedup_from(s, i)[k], dedup_from(s, i)[k + 1])),
    decreases s.len() - i,
{
    if i + 1 >= s.len() {
        assert(dedup_from(s, i) == s);
    } else if dup_separator(s[i], s[i + 1]) {
        let t = s.remove(i);
        assert(dedup_from(s, i) == dedup_from(t, i));
        assert forall|k: int| 0 <= k < i && k + 1 < t.len() implies !(#[trigger] dup_separator(
            t[k],
            t[k + 1],
        )) by {
            if k + 1 < i {
                assert(t[k] == s[k] && t[k + 1] == s[k + 1]);
                assert(!dup_separator(s[k], s[k + 1]));
            } else {
                // k + 1 == i: the pair now adjacent is (s[i - 1], s[i + 1]); were it a
                // duplicate, the equal labels would chain to (s[i - 1], s[i]).
                assert(t[k] == s[k] && t[k + 1] == s[i + 1]);
                assert(!dup_separator(s[i - 1], s[i]));
                assert(dup_separator(s[i], s[i + 1]));
            }
        }
        lemma_dedup_no_adjacent(t, i);
    } else {
        assert(dedup_from(s, i) == dedup_from(s, i + 1));
        lemma_dedup_no_adjacent(s, i + 1);
    }
}

/// Remove each date separator whose successor is a separator with the same
/// label, leaving the later of the two.
pub fn dedup_adjacent_date_separators(items: &mut Vec<TimelineItem>)
    ensures
        final(items)@ == dedup_from(old(items)@, 0),
        forall|k: int| 0 <= k && k + 1 < final(items)@.len()
            ==> !(#[trigger] dup_separator(final(items)@[k], final(items)@[k + 1])),
{
    let ghost orig = items@;
    let mut i: usize = 0;
    while i < items.len() && i + 1 < items.len()
        invariant
            0 <= i <= items@.len(),
            dedup_from(items@, i as int) == dedup_from(orig, 0),
            forall|k: int| 0 <= k < i && k + 1 < items@.len()
                ==> !(#[trigger] dup_separator(items@[k], items@[k + 1])),
        decreases items@.len() - i,
    {
        let is_dup = match (&items[i], &items[i + 1]) {
            (TimelineItem::DateSeparator(a), TimelineItem::DateSeparator(b)) => a.eq(b),
            _ => false,
        };
        proof {
            assert(is_dup == dup_separator(items@[i as int], items@[i as int + 1]));
        }
        if is_dup {
            let ghost before = items@;
            items.remove(i);
            proof {
                assert(items@ == before.remove(i as int));
                assert forall|k: int| 0 <= k < i && k + 1 < items@.len() implies !(
                #[trigger] dup_separator(items@[k], items@[k + 1])) by {
                    if k + 1 == i {
                        assert(!dup_separator(before[k], before[k + 1]));
                        assert(dup_separator(before[i as int], before[i as int + 1]));
                        assert(items@[k] == before[k] && items@[k + 1] == before[i as int + 1]);
                    } else {
                        assert(!dup_separator(before[k], before[k + 1]));
                        assert(items@[k] == before[k] && items@[k + 1] == before[k + 1]);
                    }
                }
            }
        } else {
            i = i + 1;
        }
    }
    proof {
        lemma_dedup_no_adjacent(items@, i as int);
        assert(dedup_from(items@, i as int) == items@);
    }
}

} // verus!

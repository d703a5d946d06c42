use vstd::prelude::*;
use vstd::string::{StrSliceExecFns, StringExecFns};

use crate::dates::{format_time_label, spec_time_label};
use crate::item::{ImageContent, ItemModel, MessageModel, TimelineItem, TimelineMessage};
use crate::reply::{spec_strip_reply, strip_reply_fallback};
use crate::strutil::{
    find_char_from, lemma_find_char_bounds, lemma_find_char_skip, spec_find_char, str_eq,
};

verus! {

/// The content of a room message, one case per rendered kind. Kinds the
/// client shows only as a placeholder carry no payload; unknown kinds fall
/// back to the unsupported case rather than failing.
pub enum MessageContent {
    Text(String),
    Emote(String),
    Notice(String),
    Image { body: String, source: String },
    File,
    Audio,
    Video,
    Unsupported,
}

/// A membership transition carried by a member state event.
#[derive(PartialEq, Eq, Structural, Clone, Copy, Debug)]
pub enum MembershipChange {
    Joined,
    Left,
    Other,
}

/// One decoded protocol event, reduced to the plain values the normalizer
/// reads. The decoding layer builds these from the wire events it
/// receives; events it cannot decode are skipped before this point.
pub enum RawEvent {
    /// An unredacted room message.
    Message { event_id: String, sender: String, ts_millis: u64, content: MessageContent },
    /// An encrypted payload that could not be decrypted.
    Encrypted { ts_millis: u64 },
    /// A room-membership state change affecting `user`.
    Member { ts_millis: u64, user: String, change: MembershipChange },
    /// The room's display name changed.
    NameChange { ts_millis: u64, name: String },
    /// The room's topic changed.
    TopicChange { ts_millis: u64, topic: String },
    /// Any other decodable event; the normalizer drops it.
    Other { ts_millis: u64 },
}

/// The origin-server timestamp of an event, in milliseconds.
pub open spec fn spec_event_ts(e: RawEvent) -> u64 {
    match e {
        RawEvent::Message { ts_millis, .. } => ts_millis,
        RawEvent::Encrypted { ts_millis } => ts_millis,
        RawEvent::Member { ts_millis, .. } => ts_millis,
        RawEvent::NameChange { ts_millis, .. } => ts_millis,
        RawEvent::TopicChange { ts_millis, .. } => ts_millis,
        RawEvent::Other { ts_millis } => ts_millis,
    }
}

pub fn event_ts(e: &RawEvent) -> (r: u64)
    ensures
        r == spec_event_ts(*e),
{
    match e {
        RawEvent::Message { ts_millis, .. } => *ts_millis,
        RawEvent::Encrypted { ts_millis } => *ts_millis,
        RawEvent::Member { ts_millis, .. } => *ts_millis,
        RawEvent::NameChange { ts_millis, .. } => *ts_millis,
        RawEvent::TopicChange { ts_millis, .. } => *ts_millis,
        RawEvent::Other { ts_millis } => *ts_millis,
    }
}

/// First display name recorded for `key`, if any.
pub open spec fn spec_lookup(entries: Seq<(Seq<char>, Seq<char>)>, key: Seq<char>) -> Option<
    Seq<char>,
>
    decreases entries.len(),
{
    if entries.len() == 0 {
        None
    } else if entries[0].0 == key {
        Some(entries[0].1)
    } else {
        spec_lookup(entries.drop_first(), key)
    }
}

/// A user-id to display-name lookup, built from the room's member list.
pub struct DisplayNames {
    pub entries: Vec<(String, String)>,
}

impl DisplayNames {
    pub fn new() -> (r: DisplayNames)
        ensures
            r.entries.deep_view() == Seq::<(Seq<char>, Seq<char>)>::empty(),
    {
        let r = DisplayNames { entries: Vec::new() };
        proof {
            assert(r.entries.deep_view() =~= Seq::<(Seq<char>, Seq<char>)>::empty());
        }
        r
    }

    /// Record a member's display name.
    pub fn insert(&mut self, user: String, name: String)
        ensures
            final(self).entries.deep_view() == old(self).entries.deep_view().push((user@, name@)),
    {
        let ghost before = self.entries.deep_view();
        self.entries.push((user, name));
        proof {
            assert(self.entries.deep_view() =~= before.push(
                (self.entries@.last().0@, self.entries@.last().1@),
            ));
        }
    }

    /// Look a user up; the first recorded name wins.
    pub fn get(&self, user: &str) -> (r: Option<&String>)
        ensures
            match r {
                Some(n) => spec_lookup(self.entries.deep_view(), user@) == Some(n@),
                None => spec_lookup(self.entries.deep_view(), user@) is None,
            },
    {
        let ghost all = self.entries.deep_view();
        proof {
            assert(all.skip(0) =~= all);
        }
        let mut i: usize = 0;
        while i < self.entries.len()
            invariant
                i <= self.entries@.len(),
                all == self.entries.deep_view(),
                all.len() == self.entries@.len(),
                forall|j: int| 0 <= j < all.len()
                    ==> all[j] == (self.entries@[j].0@, self.entries@[j].1@),
                spec_lookup(all, user@) == spec_lookup(all.skip(i as int), user@),
            decreases self.entries@.len() - i,
        {
            if str_eq(self.entries[i].0.as_str(), user) {
                proof {
                    assert(all.skip(i as int)[0] == all[i as int]);
                }
                return Some(&self.entries[i].1);
            }
            proof {
                assert(all.skip(i as int)[0] == all[i as int]);
                assert(all.skip(i as int).drop_first() =~= all.skip(i as int + 1));
            }
            i = i + 1;
        }
        proof {
            assert(all.skip(i as int).len() == 0);
        }
        None
    }
}

/// The local part of a Matrix user id: the text between the leading `@`
/// and the first `:`.
pub open spec fn spec_localpart(u: Seq<char>) -> Seq<char> {
    let s = if u.len() > 0 && u[0] == '@' {
        u.drop_first()
    } else {
        u
    };
    match spec_find_char(s, 0, ':') {
        Some(i) => s.take(i),
        None => s,
    }
}

pub fn localpart(user: &str) -> (r: String)
    ensures
        r@ == spec_localpart(user@),
{
    let n = user.unicode_len();
    let start: usize = if n > 0 && user.get_char(0) == '@' {
        1
    } else {
        0
    };
    proof {
        assert(user@.subrange(start as int, n as int) =~= if start == 1 {
            user@.drop_first()
        } else {
            user@
        });
    }
    let end = match find_char_from(user, start, ':') {
        Some(i) => i,
        None => n,
    };
    proof {
        lemma_find_char_bounds(user@, start as int, ':');
        lemma_find_char_skip(user@, start as int, start as int, ':');
        let s = user@.subrange(start as int, n as int);
        match spec_find_char(user@, start as int, ':') {
            Some(i) => {
                assert(end == i);
                assert(s.take(end - start as int) =~= user@.subrange(start as int, end as int));
            },
            None => {
                assert(end == n);
                assert(s =~= user@.subrange(start as int, end as int));
            },
        }
    }
    user.substring_char(start, end).to_owned()
}

/// The display name shown for a sender: the recorded member name, or the
/// local part of the user id when none is recorded.
pub open spec fn spec_display_name(
    names: Seq<(Seq<char>, Seq<char>)>,
    sender: Seq<char>,
) -> Seq<char> {
    match spec_lookup(names, sender) {
        Some(n) => n,
        None => spec_localpart(sender),
    }
}

/// The raw body text, emote flag and media source a message content kind
/// contributes before reply-fallback parsing.
pub open spec fn spec_raw_body(c: MessageContent) -> (Seq<char>, bool, Option<Seq<char>>) {
    match c {
        MessageContent::Text(b) => (b@, false, None),
        MessageContent::Emote(b) => (b@, true, None),
        MessageContent::Notice(b) => (b@, false, None),
        MessageContent::Image { body, source } => (body@, false, Some(source@)),
        MessageContent::File => ("[File]"@, false, None),
        MessageContent::Audio => ("[Audio]"@, false, None),
        MessageContent::Video => ("[Video]"@, false, None),
        MessageContent::Unsupported => ("[Unsupported message type]"@, false, None),
    }
}

/// The message item produced for an unredacted room message.
pub open spec fn spec_message_item(
    event_id: Seq<char>,
    sender: Seq<char>,
    ts_millis: u64,
    content: MessageContent,
    names: Seq<(Seq<char>, Seq<char>)>,
) -> ItemModel {
    let (raw, is_emote, image_source) = spec_raw_body(content);
    let parsed = spec_strip_reply(raw);
    ItemModel::Message(
        MessageModel {
            event_id: event_id,
            sender: sender,
            sender_display: spec_display_name(names, sender),
            body: parsed.1,
            timestamp: spec_time_label(ts_millis),
            is_emote: is_emote,
            is_continuation: false,
            reply_to_sender: match parsed.0 {
                Some(p) => Some(p.0),
                None => None,
            },
            reply_to_body: match parsed.0 {
                Some(p) => Some(p.1),
                None => None,
            },
            image_source: image_source,
        },
    )
}

/// The placeholder message shown for a payload that could not be
/// decrypted: empty identifying fields, so the display layer treats it as
/// non-interactive.
pub open spec fn spec_undecryptable_item() -> ItemModel {
    ItemModel::Message(
        MessageModel {
            event_id: Seq::<char>::empty(),
            sender: Seq::<char>::empty(),
            sender_display: Seq::<char>::empty(),
            body: "[Unable to decrypt]"@,
            timestamp: Seq::<char>::empty(),
            is_emote: false,
            is_continuation: false,
            reply_to_sender: None,
            reply_to_body: None,
            image_source: None,
        },
    )
}

/// The description a state event renders to; empty for membership states
/// other than join and leave, and for non-state events.
pub open spec fn spec_state_description(e: RawEvent) -> Seq<char> {
    match e {
        RawEvent::Member { user, change, .. } => match change {
            MembershipChange::Joined => user@ + " joined the room"@,
            MembershipChange::Left => user@ + " left the room"@,
            MembershipChange::Other => Seq::<char>::empty(),
        },
        RawEvent::NameChange { name, .. } => "Room name changed to: "@ + name@,
        RawEvent::TopicChange { topic, .. } => "Topic changed to: "@ + topic@,
        _ => Seq::<char>::empty(),
    }
}

/// What the normalizer yields for a message-like event; `None` for state
/// events and for kinds the client does not render.
pub open spec fn spec_normalize_message(
    e: RawEvent,
    names: Seq<(Seq<char>, Seq<char>)>,
) -> Option<ItemModel> {
    match e {
        RawEvent::Message { event_id, sender, ts_millis, content } => Some(
            spec_message_item(event_id@, sender@, ts_millis, content, names),
        ),
        RawEvent::Encrypted { .. } => Some(spec_undecryptable_item()),
        _ => None,
    }
}

/// What the normalizer yields for any decoded event: a message item, a
/// state description, or nothing.
pub open spec fn spec_normalize(e: RawEvent, names: Seq<(Seq<char>, Seq<char>)>) -> Option<
    ItemModel,
> {
    match e {
        RawEvent::Message { .. } | RawEvent::Encrypted { .. } => spec_normalize_message(e, names),
        RawEvent::Other { .. } => None,
        _ => {
            let desc = spec_state_description(e);
            if desc.len() == 0 {
                None
            } else {
                Some(ItemModel::StateEvent(desc))
            }
        },
    }
}

/// Convert a message-like event into a display item: plain, notice and
/// emote text become messages (the emote flag set only for emotes), images
/// carry their media source, file, audio and video kinds get a fixed
/// placeholder body, an undecryptable payload becomes a non-interactive
/// placeholder, and anything else is dropped.
pub fn convert_message_event(event: &RawEvent, display_names: &DisplayNames) -> (r: Option<
    TimelineItem,
>)
    ensures
        r.deep_view() == spec_normalize_message(*event, display_names.entries.deep_view()),
{
    match event {
        RawEvent::Message { event_id, sender, ts_millis, content } => {
            let sender_display = match display_names.get(sender.as_str()) {
                Some(n) => n.clone(),
                None => localpart(sender.as_str()),
            };
            let (raw_body, is_emote, image): (String, bool, Option<ImageContent>) = match content {
                MessageContent::Text(b) => (b.clone(), false, None),
                MessageContent::Emote(b) => (b.clone(), true, None),
                MessageContent::Notice(b) => (b.clone(), false, None),
                MessageContent::Image { body, source } => (
                    body.clone(),
                    false,
                    Some(ImageContent { source: source.clone() }),
                ),
                MessageContent::File => ("[File]".to_owned(), false, None),
                MessageContent::Audio => ("[Audio]".to_owned(), false, None),
                MessageContent::Video => ("[Video]".to_owned(), false, None),
                MessageContent::Unsupported => (
                    "[Unsupported message type]".to_owned(),
                    false,
                    None,
                ),
            };
            let (reply, body) = strip_reply_fallback(raw_body.as_str());
            let (reply_to_sender, reply_to_body) = match reply {
                Some((id, preview)) => (Some(id), Some(preview)),
                None => (None, None),
            };
            Some(
                TimelineItem::Message(
                    TimelineMessage {
                        event_id: event_id.clone(),
                        sender: sender.clone(),
                        sender_display,
                        body,
                        timestamp: format_time_label(*ts_millis),
                        is_emote,
                        is_continuation: false,
                        reply_to_sender,
                        reply_to_body,
                        image,
                    },
                ),
            )
        },
        RawEvent::Encrypted { .. } => Some(
            TimelineItem::Message(
                TimelineMessage {
                    event_id: String::new(),
                    sender: String::new(),
                    sender_display: String::new(),
                    body: "[Unable to decrypt]".to_owned(),
                    timestamp: String::new(),
                    is_emote: false,
                    is_continuation: false,
                    reply_to_sender: None,
                    reply_to_body: None,
                    image: None,
                },
            ),
        ),
        _ => None,
    }
}

/// Render the description of a state event: membership joins and leaves,
/// room name changes and topic changes; anything else renders empty and is
/// filtered out before insertion.
pub fn format_state_event(event: &RawEvent) -> (r: String)
    ensures
        r@ == spec_state_description(*event),
{
    match event {
        RawEvent::Member { user, change, .. } => match change {
            MembershipChange::Joined => user.as_str().to_owned().concat(" joined the room"),
            MembershipChange::Left => user.as_str().to_owned().concat(" left the room"),
            MembershipChange::Other => String::new(),
        },
        RawEvent::NameChange { name, .. } => "Room name changed to: ".to_owned().concat(
            name.as_str(),
        ),
        RawEvent::TopicChange { topic, .. } => "Topic changed to: ".to_owned().concat(
            topic.as_str(),
        ),
        _ => String::new(),
    }
}

/// Normalize one decoded event into at most one display item.
pub fn normalize_event(event: &RawEvent, display_names: &DisplayNames) -> (r: Option<TimelineItem>)
    ensures
        r.deep_view() == spec_normalize(*event, display_names.entries.deep_view()),
{
    match event {
        RawEvent::Message { .. } | RawEvent::Encrypted { .. } => convert_message_event(
            event,
            display_names,
        ),
        RawEvent::Other { .. } => None,
        _ => {
            let desc = format_state_event(event);
            if desc.as_str().unicode_len() == 0 {
                None
            } else {
                Some(TimelineItem::StateEvent(desc))
            }
        },
    }
}

} // verus!

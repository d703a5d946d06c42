use cosmic_matrix::event::{DisplayNames, MessageContent, RawEvent};
use cosmic_matrix::item::{
    apply_continuation_markers, dedup_adjacent_date_separators, TimelineItem, TimelineMessage,
};
use cosmic_matrix::timeline::{build_timeline_items, TimelineState};

fn msg(sender: &str, body: &str) -> TimelineItem {
    TimelineItem::Message(TimelineMessage {
        event_id: format!("${}-{}", sender, body.len()),
        sender: sender.to_string(),
        sender_display: sender.to_string(),
        body: body.to_string(),
        timestamp: "12:00".to_string(),
        is_emote: false,
        is_continuation: false,
        reply_to_sender: None,
        reply_to_body: None,
        image: None,
    })
}

fn sep(label: &str) -> TimelineItem {
    TimelineItem::DateSeparator(label.to_string())
}

fn continuation_flags(items: &[TimelineItem]) -> Vec<Option<bool>> {
    items
        .iter()
        .map(|it| match it {
            TimelineItem::Message(m) => Some(m.is_continuation),
            _ => None,
        })
        .collect()
}

#[test]
fn continuation_set_for_same_sender_runs() {
    let mut items = vec![
        msg("@a:x", "one"),
        msg("@a:x", "two"),
        msg("@b:x", "three"),
        msg("@b:x", "four"),
    ];
    apply_continuation_markers(&mut items);
    assert_eq!(
        continuation_flags(&items),
        vec![Some(false), Some(true), Some(false), Some(true)]
    );
}

#[test]
fn separator_resets_continuation_run() {
    let mut items = vec![msg("@a:x", "one"), sep("June 15, 2024"), msg("@a:x", "two")];
    apply_continuation_markers(&mut items);
    assert_eq!(
        continuation_flags(&items),
        vec![Some(false), None, Some(false)]
    );
}

#[test]
fn state_event_and_marker_reset_continuation_run() {
    let mut items = vec![
        msg("@a:x", "one"),
        TimelineItem::StateEvent("someone joined the room".to_string()),
        msg("@a:x", "two"),
        TimelineItem::UnreadMarker,
        msg("@a:x", "three"),
    ];
    apply_continuation_markers(&mut items);
    assert_eq!(
        continuation_flags(&items),
        vec![Some(false), None, Some(false), None, Some(false)]
    );
}

#[test]
fn continuation_grouping_is_idempotent() {
    let mut items = vec![msg("@a:x", "one"), msg("@a:x", "two"), msg("@b:x", "three")];
    apply_continuation_markers(&mut items);
    let first = continuation_flags(&items);
    apply_continuation_markers(&mut items);
    assert_eq!(continuation_flags(&items), first);
}

#[test]
fn dedup_collapses_equal_adjacent_separators() {
    let mut items = vec![sep("June 15, 2024"), sep("June 15, 2024"), msg("@a:x", "hi")];
    dedup_adjacent_date_separators(&mut items);
    assert_eq!(items.len(), 2);
    assert!(matches!(&items[0], TimelineItem::DateSeparator(l) if l == "June 15, 2024"));
}

#[test]
fn dedup_collapses_runs_to_one() {
    let mut items = vec![sep("Today"), sep("Today"), sep("Today")];
    dedup_adjacent_date_separators(&mut items);
    assert_eq!(items.len(), 1);
}

#[test]
fn dedup_keeps_distinct_adjacent_separators() {
    let mut items = vec![sep("June 15, 2024"), sep("June 16, 2024")];
    dedup_adjacent_date_separators(&mut items);
    assert_eq!(items.len(), 2);
}

#[test]
fn two_day_sync_batch_yields_alternating_separators_and_messages() {
    // Two text events timestamped on different calendar days.
    let events = vec![
        RawEvent::Message {
            event_id: "$e1".to_string(),
            sender: "@alice:example.org".to_string(),
            ts_millis: 1_718_452_800_000,
            content: MessageContent::Text("first".to_string()),
        },
        RawEvent::Message {
            event_id: "$e2".to_string(),
            sender: "@alice:example.org".to_string(),
            ts_millis: 1_718_539_200_000,
            content: MessageContent::Text("second".to_string()),
        },
    ];
    let names = DisplayNames::new();
    // A "today" far from both days, so both get full-date labels.
    let items = build_timeline_items(&events, &names, 1);
    assert_eq!(items.len(), 4);
    assert!(matches!(&items[0], TimelineItem::DateSeparator(l) if l == "June 15, 2024"));
    assert!(matches!(&items[1], TimelineItem::Message(m) if m.event_id == "$e1" && m.body == "first"));
    assert!(matches!(&items[2], TimelineItem::DateSeparator(l) if l == "June 16, 2024"));
    assert!(matches!(&items[3], TimelineItem::Message(m) if m.event_id == "$e2" && m.body == "second"));
}

#[test]
fn same_day_batch_gets_one_separator() {
    let events = vec![
        RawEvent::Message {
            event_id: "$e1".to_string(),
            sender: "@a:x".to_string(),
            ts_millis: 1_718_452_800_000,
            content: MessageContent::Text("first".to_string()),
        },
        RawEvent::Message {
            event_id: "$e2".to_string(),
            sender: "@a:x".to_string(),
            ts_millis: 1_718_452_860_000,
            content: MessageContent::Text("second".to_string()),
        },
    ];
    let names = DisplayNames::new();
    let items = build_timeline_items(&events, &names, 1);
    assert_eq!(items.len(), 3);
    assert!(matches!(&items[0], TimelineItem::DateSeparator(_)));
}

fn count_markers(items: &[TimelineItem]) -> usize {
    items
        .iter()
        .filter(|it| matches!(it, TimelineItem::UnreadMarker))
        .count()
}

#[test]
fn away_period_inserts_exactly_one_marker_over_two_batches() {
    let mut state = TimelineState::default();
    state.room_id = Some("!r:x".to_string());
    state.at_bottom = false;
    state.on_incoming_events("!r:x", vec![msg("@a:x", "one")]);
    state.on_incoming_events("!r:x", vec![msg("@a:x", "two")]);
    assert_eq!(count_markers(&state.items), 1);
    assert!(matches!(&state.items[0], TimelineItem::UnreadMarker));
    assert_eq!(state.items.len(), 3);
}

#[test]
fn no_marker_when_at_bottom() {
    let mut state = TimelineState::default();
    state.room_id = Some("!r:x".to_string());
    assert!(state.at_bottom);
    state.on_incoming_events("!r:x", vec![msg("@a:x", "one")]);
    assert_eq!(count_markers(&state.items), 0);
}

#[test]
fn empty_batch_inserts_no_marker() {
    let mut state = TimelineState::default();
    state.room_id = Some("!r:x".to_string());
    state.at_bottom = false;
    state.on_incoming_events("!r:x", Vec::new());
    assert_eq!(count_markers(&state.items), 0);
    assert!(!state.unread_marker_inserted);
}

#[test]
fn returning_to_bottom_starts_a_fresh_away_period() {
    let mut state = TimelineState::default();
    state.room_id = Some("!r:x".to_string());
    state.at_bottom = false;
    state.on_incoming_events("!r:x", vec![msg("@a:x", "one")]);
    assert_eq!(count_markers(&state.items), 1);
    state.set_at_bottom(true);
    state.set_at_bottom(false);
    state.on_incoming_events("!r:x", vec![msg("@a:x", "two")]);
    assert_eq!(count_markers(&state.items), 2);
}

#[test]
fn incoming_batch_for_another_room_is_discarded() {
    let mut state = TimelineState::default();
    state.room_id = Some("!r:x".to_string());
    state.on_incoming_events("!other:x", vec![msg("@a:x", "one")]);
    assert!(state.items.is_empty());
}

#[test]
fn appended_batch_is_grouped_across_the_boundary() {
    let mut state = TimelineState::default();
    state.room_id = Some("!r:x".to_string());
    let mut initial = vec![msg("@a:x", "one")];
    apply_continuation_markers(&mut initial);
    state.on_timeline_loaded("!r:x", initial, None);
    state.on_incoming_events("!r:x", vec![msg("@a:x", "two")]);
    assert_eq!(
        continuation_flags(&state.items),
        vec![Some(false), Some(true)]
    );
}

#[test]
fn history_prepend_collapses_seam_separator_and_regroups() {
    let mut state = TimelineState::default();
    state.room_id = Some("!r:x".to_string());
    let current = vec![sep("June 15, 2024"), msg("@a:x", "newer")];
    state.on_timeline_loaded("!r:x", current, Some("t1".to_string()));
    // The oldest existing item and the newest prepended item computed the
    // same date label independently, so the seam holds two adjacent
    // separators with identical labels.
    let older = vec![sep("June 14, 2024"), msg("@a:x", "older"), sep("June 15, 2024")];
    state.on_history_loaded("!r:x", older, Some("t0".to_string()));
    assert_eq!(state.items.len(), 4);
    assert!(matches!(&state.items[0], TimelineItem::DateSeparator(l) if l == "June 14, 2024"));
    assert!(matches!(&state.items[1], TimelineItem::Message(m) if m.body == "older"));
    assert!(matches!(&state.items[2], TimelineItem::DateSeparator(l) if l == "June 15, 2024"));
    assert!(matches!(&state.items[3], TimelineItem::Message(m) if m.body == "newer"));
    assert_eq!(state.pagination_token.as_deref(), Some("t0"));
    // No two adjacent separators with the same label remain.
    for w in state.items.windows(2) {
        if let (TimelineItem::DateSeparator(a), TimelineItem::DateSeparator(b)) = (&w[0], &w[1]) {
            assert_ne!(a, b);
        }
    }
}

#[test]
fn history_for_another_room_is_discarded() {
    let mut state = TimelineState::default();
    state.room_id = Some("!r:x".to_string());
    state.on_history_loaded("!other:x", vec![msg("@a:x", "older")], Some("t".to_string()));
    assert!(state.items.is_empty());
    assert!(state.pagination_token.is_none());
}

#[test]
fn select_room_clears_previous_state() {
    let mut state = TimelineState::default();
    let changed = state.select_room("!r1:x");
    assert!(changed);
    state.composer = "draft".to_string();
    state.on_timeline_loaded("!r1:x", vec![msg("@a:x", "one")], Some("t".to_string()));
    let changed = state.select_room("!r2:x");
    assert!(changed);
    assert!(state.items.is_empty());
    assert!(state.loading);
    assert!(state.pagination_token.is_none());
    assert_eq!(state.room_id.as_deref(), Some("!r2:x"));
    // Re-selecting the same room is a no-op.
    assert!(!state.select_room("!r2:x"));
    assert!(state.loading);
}

#[test]
fn prepare_send_trims_clears_and_raises_the_flag() {
    let mut state = TimelineState::default();
    state.select_room("!r:x");
    state.set_composer("  hello there \t".to_string());
    state.set_reply(cosmic_matrix::item::ReplyContext {
        event_id: "$orig".to_string(),
        sender_id: "@b:x".to_string(),
        sender_display: "b".to_string(),
        body_preview: "earlier".to_string(),
    });
    let outgoing = state.prepare_send().expect("send intent");
    assert_eq!(outgoing.room_id, "!r:x");
    assert_eq!(outgoing.text, "hello there");
    assert_eq!(outgoing.reply_to_event.as_deref(), Some("$orig"));
    assert_eq!(state.composer, "");
    assert!(state.reply_to.is_none());
    assert!(state.sending);
    state.on_send_finished();
    assert!(!state.sending);
}

#[test]
fn blank_composer_or_missing_room_sends_nothing() {
    let mut state = TimelineState::default();
    state.select_room("!r:x");
    state.set_composer("   \t ".to_string());
    assert!(state.prepare_send().is_none());
    assert_eq!(state.composer, "   \t ");
    assert!(!state.sending);

    let mut state = TimelineState::default();
    state.set_composer("hello".to_string());
    assert!(state.prepare_send().is_none());
    assert!(!state.sending);
}

#[test]
fn cancel_reply_drops_the_pending_reply() {
    let mut state = TimelineState::default();
    state.set_reply(cosmic_matrix::item::ReplyContext {
        event_id: "$orig".to_string(),
        sender_id: "@b:x".to_string(),
        sender_display: "b".to_string(),
        body_preview: "earlier".to_string(),
    });
    assert!(state.reply_to.is_some());
    state.cancel_reply();
    assert!(state.reply_to.is_none());
}

#[test]
fn stale_timeline_load_is_discarded() {
    let mut state = TimelineState::default();
    state.select_room("!r2:x");
    state.on_timeline_loaded("!r1:x", vec![msg("@a:x", "stale")], Some("t".to_string()));
    assert!(state.items.is_empty());
    assert!(state.loading);
}

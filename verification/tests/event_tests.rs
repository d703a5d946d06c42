use cosmic_matrix::dates::{format_date_label, format_time_label, today_local_day, ts_to_day};
use cosmic_matrix::event::{
    convert_message_event, format_state_event, localpart, normalize_event, DisplayNames,
    MembershipChange, MessageContent, RawEvent,
};
use cosmic_matrix::item::TimelineItem;

fn text_event(body: &str) -> RawEvent {
    RawEvent::Message {
        event_id: "$ev1".to_string(),
        sender: "@alice:example.org".to_string(),
        ts_millis: 1_718_452_800_000,
        content: MessageContent::Text(body.to_string()),
    }
}

#[test]
fn text_message_is_normalized() {
    let names = DisplayNames::new();
    let item = convert_message_event(&text_event("hello"), &names).expect("message expected");
    match item {
        TimelineItem::Message(m) => {
            assert_eq!(m.event_id, "$ev1");
            assert_eq!(m.sender, "@alice:example.org");
            assert_eq!(m.sender_display, "alice");
            assert_eq!(m.body, "hello");
            assert_eq!(m.timestamp, "12:00");
            assert!(!m.is_emote);
            assert!(!m.is_continuation);
            assert!(m.reply_to_sender.is_none());
            assert!(m.image.is_none());
        }
        other => panic!("expected a message, got {:?}", other),
    }
}

#[test]
fn display_name_lookup_wins_over_localpart() {
    let mut names = DisplayNames::new();
    names.insert("@alice:example.org".to_string(), "Alice A.".to_string());
    let item = convert_message_event(&text_event("hi"), &names).expect("message expected");
    match item {
        TimelineItem::Message(m) => assert_eq!(m.sender_display, "Alice A."),
        other => panic!("expected a message, got {:?}", other),
    }
}

#[test]
fn emote_flag_set_only_for_emotes() {
    let names = DisplayNames::new();
    let emote = RawEvent::Message {
        event_id: "$e".to_string(),
        sender: "@a:x".to_string(),
        ts_millis: 0,
        content: MessageContent::Emote("waves".to_string()),
    };
    let notice = RawEvent::Message {
        event_id: "$n".to_string(),
        sender: "@a:x".to_string(),
        ts_millis: 0,
        content: MessageContent::Notice("note".to_string()),
    };
    match convert_message_event(&emote, &names).expect("emote") {
        TimelineItem::Message(m) => assert!(m.is_emote),
        other => panic!("expected a message, got {:?}", other),
    }
    match convert_message_event(&notice, &names).expect("notice") {
        TimelineItem::Message(m) => assert!(!m.is_emote),
        other => panic!("expected a message, got {:?}", other),
    }
}

#[test]
fn image_message_carries_its_source() {
    let names = DisplayNames::new();
    let ev = RawEvent::Message {
        event_id: "$img".to_string(),
        sender: "@a:x".to_string(),
        ts_millis: 0,
        content: MessageContent::Image {
            body: "cat.png".to_string(),
            source: "mxc://example.org/abc".to_string(),
        },
    };
    match convert_message_event(&ev, &names).expect("image") {
        TimelineItem::Message(m) => {
            assert_eq!(m.body, "cat.png");
            assert_eq!(m.image.expect("source").source, "mxc://example.org/abc");
        }
        other => panic!("expected a message, got {:?}", other),
    }
}

#[test]
fn file_audio_video_get_fixed_placeholders() {
    let names = DisplayNames::new();
    for (content, expected) in [
        (MessageContent::File, "[File]"),
        (MessageContent::Audio, "[Audio]"),
        (MessageContent::Video, "[Video]"),
        (MessageContent::Unsupported, "[Unsupported message type]"),
    ] {
        let ev = RawEvent::Message {
            event_id: "$e".to_string(),
            sender: "@a:x".to_string(),
            ts_millis: 0,
            content,
        };
        match convert_message_event(&ev, &names).expect("placeholder") {
            TimelineItem::Message(m) => {
                assert_eq!(m.body, expected);
                assert!(m.image.is_none());
            }
            other => panic!("expected a message, got {:?}", other),
        }
    }
}

#[test]
fn undecryptable_payload_is_non_interactive() {
    let names = DisplayNames::new();
    let ev = RawEvent::Encrypted { ts_millis: 123 };
    match convert_message_event(&ev, &names).expect("placeholder") {
        TimelineItem::Message(m) => {
            assert_eq!(m.body, "[Unable to decrypt]");
            assert_eq!(m.event_id, "");
            assert_eq!(m.sender, "");
            assert_eq!(m.timestamp, "");
        }
        other => panic!("expected a message, got {:?}", other),
    }
}

#[test]
fn reply_fallback_is_parsed_during_normalization() {
    let names = DisplayNames::new();
    let ev = text_event("> <@bob:example.org> earlier\n\nlater");
    match convert_message_event(&ev, &names).expect("message") {
        TimelineItem::Message(m) => {
            assert_eq!(m.body, "later");
            assert_eq!(m.reply_to_sender.as_deref(), Some("@bob:example.org"));
            assert_eq!(m.reply_to_body.as_deref(), Some("earlier"));
        }
        other => panic!("expected a message, got {:?}", other),
    }
}

#[test]
fn membership_join_and_leave_render_descriptions() {
    let join = RawEvent::Member {
        ts_millis: 0,
        user: "@a:x".to_string(),
        change: MembershipChange::Joined,
    };
    let leave = RawEvent::Member {
        ts_millis: 0,
        user: "@a:x".to_string(),
        change: MembershipChange::Left,
    };
    assert_eq!(format_state_event(&join), "@a:x joined the room");
    assert_eq!(format_state_event(&leave), "@a:x left the room");
}

#[test]
fn other_membership_changes_are_filtered_out() {
    let names = DisplayNames::new();
    let invite = RawEvent::Member {
        ts_millis: 0,
        user: "@a:x".to_string(),
        change: MembershipChange::Other,
    };
    assert_eq!(format_state_event(&invite), "");
    assert!(normalize_event(&invite, &names).is_none());
}

#[test]
fn name_and_topic_changes_render_descriptions() {
    let names = DisplayNames::new();
    let name = RawEvent::NameChange {
        ts_millis: 0,
        name: "The Room".to_string(),
    };
    let topic = RawEvent::TopicChange {
        ts_millis: 0,
        topic: "All things".to_string(),
    };
    match normalize_event(&name, &names).expect("state event") {
        TimelineItem::StateEvent(d) => assert_eq!(d, "Room name changed to: The Room"),
        other => panic!("expected a state event, got {:?}", other),
    }
    match normalize_event(&topic, &names).expect("state event") {
        TimelineItem::StateEvent(d) => assert_eq!(d, "Topic changed to: All things"),
        other => panic!("expected a state event, got {:?}", other),
    }
}

#[test]
fn unrenderable_events_are_dropped() {
    let names = DisplayNames::new();
    assert!(normalize_event(&RawEvent::Other { ts_millis: 7 }, &names).is_none());
    assert!(convert_message_event(&RawEvent::Other { ts_millis: 7 }, &names).is_none());
}

#[test]
fn localpart_cuts_between_at_and_colon() {
    assert_eq!(localpart("@alice:example.org"), "alice");
    assert_eq!(localpart("alice:example.org"), "alice");
    assert_eq!(localpart("@alice"), "alice");
    assert_eq!(localpart(""), "");
}

#[test]
fn time_label_is_zero_padded_utc() {
    assert_eq!(format_time_label(1_718_452_800_000), "12:00");
    assert_eq!(format_time_label(0), "00:00");
    assert_eq!(format_time_label(5 * 3_600_000 + 7 * 60_000), "05:07");
    assert_eq!(format_time_label(23 * 3_600_000 + 59 * 60_000 + 59_999), "23:59");
}

#[test]
fn ts_to_day_counts_epoch_days() {
    assert_eq!(ts_to_day(1_718_452_800_000), Some(19_889));
    assert_eq!(ts_to_day(0), Some(0));
    assert_eq!(ts_to_day(86_400_000), Some(1));
    assert_eq!(ts_to_day(86_399_999), Some(0));
    // Beyond the labelling range no day is produced.
    assert_eq!(ts_to_day(u64::MAX), None);
}

#[test]
fn date_labels_render_full_dates_and_relative_names() {
    assert_eq!(format_date_label(19_889, 1), "June 15, 2024");
    assert_eq!(format_date_label(19_890, 1), "June 16, 2024");
    let today = today_local_day();
    assert_eq!(format_date_label(today, today), "Today");
    assert!(today >= 1);
    assert_eq!(format_date_label(today - 1, today), "Yesterday");
    assert_eq!(format_date_label(0, today), "January 01, 1970");
}

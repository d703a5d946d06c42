use cosmic_matrix::colors::{hash_user_id, sender_color_index};
use cosmic_matrix::config::{session_path, settings_path, AppSettings, SortMode, StoredSession};
use cosmic_matrix::item::{TimelineItem, TimelineMessage};
use cosmic_matrix::login::LoginState;
use cosmic_matrix::media::{pending_image_fetches, MediaCacheKeys};
use cosmic_matrix::rooms::{RoomEntry, RoomsState};

fn entry(id: &str, name: &str) -> RoomEntry {
    RoomEntry {
        room_id: id.to_string(),
        name: name.to_string(),
        unread_count: 0,
        mention_count: 0,
        is_encrypted: false,
        topic: None,
        last_message: None,
        last_message_ts: None,
        avatar_letter: name.chars().next().unwrap_or('#'),
        is_favourite: false,
        is_low_priority: false,
        is_dm: false,
    }
}

#[test]
fn toggle_section_flips_and_leaves_others() {
    let mut state = RoomsState::default();
    assert!(!state.is_section_collapsed("favourites"));
    state.toggle_section("favourites");
    assert!(state.is_section_collapsed("favourites"));
    assert!(!state.is_section_collapsed("dms"));
    state.toggle_section("favourites");
    assert!(!state.is_section_collapsed("favourites"));
}

#[test]
fn filtered_rooms_match_case_insensitively() {
    let mut state = RoomsState::default();
    state.update_rooms(vec![
        entry("!1:x", "Rust Lounge"),
        entry("!2:x", "cooking"),
        entry("!3:x", "rustaceans"),
    ]);
    state.filter = "RUST".to_string();
    let idxs = state.filtered_rooms();
    assert_eq!(idxs, vec![0, 2]);
    state.filter = String::new();
    assert_eq!(state.filtered_rooms(), vec![0, 1, 2]);
}

#[test]
fn selected_room_name_finds_the_selection() {
    let mut state = RoomsState::default();
    state.update_rooms(vec![entry("!1:x", "One"), entry("!2:x", "Two")]);
    assert!(state.selected_room_name().is_none());
    state.selected = Some("!2:x".to_string());
    assert_eq!(state.selected_room_name().map(|s| s.as_str()), Some("Two"));
    state.selected = Some("!gone:x".to_string());
    assert!(state.selected_room_name().is_none());
}

#[test]
fn sections_partition_by_tags() {
    let mut state = RoomsState::default();
    let mut fav = entry("!fav:x", "Fav");
    fav.is_favourite = true;
    let mut dm = entry("!dm:x", "Dm");
    dm.is_dm = true;
    let mut low = entry("!low:x", "Low");
    low.is_low_priority = true;
    let plain = entry("!plain:x", "Plain");
    state.update_rooms(vec![low, plain, dm, fav]);
    let sections = state.sections();
    let keys: Vec<&str> = sections.iter().map(|s| s.key.as_str()).collect();
    assert_eq!(keys, vec!["favourites", "dms", "rooms", "low_priority"]);
    assert_eq!(sections[0].rooms, vec!["!fav:x"]);
    assert_eq!(sections[1].rooms, vec!["!dm:x"]);
    assert_eq!(sections[2].rooms, vec!["!plain:x"]);
    assert_eq!(sections[3].rooms, vec!["!low:x"]);
    assert_eq!(sections[0].label, "Favourites");
    assert_eq!(sections[1].label, "Direct Messages");
}

#[test]
fn empty_sections_are_omitted() {
    let mut state = RoomsState::default();
    state.update_rooms(vec![entry("!a:x", "Alpha")]);
    let sections = state.sections();
    assert_eq!(sections.len(), 1);
    assert_eq!(sections[0].key, "rooms");
}

#[test]
fn alphabetical_sort_ignores_case_and_unread_rooms_lead() {
    let mut state = RoomsState::default();
    state.sort_mode = SortMode::Alphabetical;
    let mut beta = entry("!b:x", "beta");
    let alpha = entry("!a:x", "Alpha");
    let mut zeta = entry("!z:x", "Zeta");
    zeta.unread_count = 3;
    beta.mention_count = 1;
    state.update_rooms(vec![beta, alpha, zeta]);
    let sections = state.sections();
    assert_eq!(sections.len(), 1);
    // Unread rooms first (beta before zeta alphabetically), then the rest.
    assert_eq!(sections[0].rooms, vec!["!b:x", "!z:x", "!a:x"]);
}

#[test]
fn recent_activity_sort_puts_newest_first() {
    let mut state = RoomsState::default();
    state.sort_mode = SortMode::RecentActivity;
    let mut old = entry("!old:x", "Old");
    old.last_message_ts = Some(100);
    let mut new = entry("!new:x", "New");
    new.last_message_ts = Some(900);
    let silent = entry("!silent:x", "Silent");
    state.update_rooms(vec![old, silent, new]);
    let sections = state.sections();
    assert_eq!(sections[0].rooms, vec!["!new:x", "!old:x", "!silent:x"]);
}

#[test]
fn sections_respect_the_filter() {
    let mut state = RoomsState::default();
    let mut fav = entry("!fav:x", "Kitchen");
    fav.is_favourite = true;
    state.update_rooms(vec![fav, entry("!p:x", "Garden")]);
    state.filter = "gar".to_string();
    let sections = state.sections();
    assert_eq!(sections.len(), 1);
    assert_eq!(sections[0].key, "rooms");
    assert_eq!(sections[0].rooms, vec!["!p:x"]);
}

#[test]
fn sections_report_their_collapsed_state() {
    let mut state = RoomsState::default();
    state.update_rooms(vec![entry("!a:x", "Alpha")]);
    state.toggle_section("rooms");
    let sections = state.sections();
    assert!(sections[0].collapsed);
}

#[test]
fn fnv_hash_matches_reference_values() {
    assert_eq!(hash_user_id("@alice:example.org"), 4_158_062_533);
    assert_eq!(hash_user_id("@bob:example.org"), 2_602_469_610);
    assert_eq!(hash_user_id(""), 2_166_136_261);
}

#[test]
fn palette_index_is_hash_modulo_palette_size() {
    assert_eq!(sender_color_index("@alice:example.org"), 5);
    assert_eq!(sender_color_index("@bob:example.org"), 2);
    assert!(sender_color_index("@anyone:x") < 8);
}

#[test]
fn config_paths_end_in_the_expected_files() {
    assert!(session_path().ends_with("/cosmic-matrix/session.json"));
    assert!(settings_path().ends_with("/cosmic-matrix/settings.json"));
}

#[test]
fn settings_default_to_recent_activity() {
    let settings = AppSettings::default();
    assert_eq!(settings.sort_mode, SortMode::RecentActivity);
    assert!(settings.sections_collapsed.is_empty());
    assert_eq!(SortMode::default(), SortMode::RecentActivity);
}

#[test]
fn stored_session_round_trips_its_fields() {
    let session = StoredSession {
        homeserver: "https://example.org".to_string(),
        user_id: "@alice:example.org".to_string(),
        access_token: "token123".to_string(),
        device_id: "DEV1".to_string(),
    };
    assert_eq!(session.homeserver, "https://example.org");
    assert_eq!(session.user_id, "@alice:example.org");
    assert_eq!(session.device_id, "DEV1");
}

fn image_message(event_id: &str, source: &str) -> TimelineItem {
    TimelineItem::Message(TimelineMessage {
        event_id: event_id.to_string(),
        sender: "@a:x".to_string(),
        sender_display: "a".to_string(),
        body: "pic.png".to_string(),
        timestamp: "12:00".to_string(),
        is_emote: false,
        is_continuation: false,
        reply_to_sender: None,
        reply_to_body: None,
        image: Some(cosmic_matrix::item::ImageContent {
            source: source.to_string(),
        }),
    })
}

#[test]
fn image_fetches_skip_cached_and_keyless_messages() {
    let mut cache = MediaCacheKeys::new();
    cache.record("$cached".to_string());
    let items = vec![
        image_message("$cached", "mxc://x/1"),
        image_message("$fresh", "mxc://x/2"),
        image_message("", "mxc://x/3"),
        TimelineItem::UnreadMarker,
    ];
    let fetches = pending_image_fetches(&items, &cache);
    assert_eq!(fetches.len(), 1);
    assert_eq!(fetches[0].0, "$fresh");
    assert_eq!(fetches[0].1, "mxc://x/2");
    assert!(cache.contains("$cached"));
    assert!(!cache.contains("$fresh"));
}

#[test]
fn favourite_lookup_reads_the_room_tag() {
    let mut state = RoomsState::default();
    let mut fav = entry("!fav:x", "Fav");
    fav.is_favourite = true;
    state.update_rooms(vec![entry("!a:x", "A"), fav]);
    assert!(state.is_favourite("!fav:x"));
    assert!(!state.is_favourite("!a:x"));
    assert!(!state.is_favourite("!missing:x"));
}

#[test]
fn login_form_submits_only_when_complete() {
    let mut form = LoginState::default();
    assert_eq!(form.homeserver, "matrix.org");
    assert!(!form.loading);
    assert!(!form.can_submit());
    form.username = "@alice:example.org".to_string();
    assert!(!form.can_submit());
    form.password = "hunter2".to_string();
    assert!(form.can_submit());
    form.homeserver = String::new();
    assert!(!form.can_submit());
}

use vstd::prelude::*;
use vstd::multiset::Multiset;
use vstd::string::{StrSliceExecFns, StringExecFns};

use crate::config::{spec_collapsed, SortMode};
use crate::strutil::{lower_of, lowercase_str, spec_contains_seq, str_contains, str_eq};

verus! {

/// One row of the room list, as the room-list projector computes it
/// from the session's state.
#[derive(Debug)]
pub struct RoomEntry {
    pub room_id: String,
    pub name: String,
    /// Total unread notification count.
    pub unread_count: u64,
    /// Highlight/mention count (a subset of the unread count).
    pub mention_count: u64,
    pub is_encrypted: bool,
    pub topic: Option<String>,
    pub last_message: Option<String>,
    pub last_message_ts: Option<u64>,
    pub avatar_letter: char,
    /// The room carries the favourite tag.
    pub is_favourite: bool,
    /// The room carries the low-priority tag.
    pub is_low_priority: bool,
    /// The room is a direct message.
    pub is_dm: bool,
}

pub const SECTION_FAVOURITES: &'static str = "favourites";

pub const SECTION_DMS: &'static str = "dms";

pub const SECTION_ROOMS: &'static str = "rooms";

pub const SECTION_LOW_PRIORITY: &'static str = "low_priority";

/// A labelled slice of the room list: its settings key, display label,
/// collapsed state and member room ids.
#[derive(Debug)]
pub struct RoomSection {
    pub key: String,
    pub label: String,
    pub collapsed: bool,
    pub rooms: Vec<String>,
}

/// Whether a room passes the current search filter: an empty filter
/// passes everything, otherwise the lowercased name must contain the
/// lowercased filter.
pub open spec fn spec_passes_filter(e: RoomEntry, filter: Seq<char>) -> bool {
    filter.len() == 0 || spec_contains_seq(lower_of(e.name@), lower_of(filter))
}

/// Which section a room belongs to: favourites win, then low priority,
/// then direct messages, then the general section.
pub open spec fn spec_section_index(e: RoomEntry) -> int {
    if e.is_favourite {
        0
    } else if e.is_low_priority {
        3
    } else if e.is_dm {
        1
    } else {
        2
    }
}

/// The room ids that belong to one section under the current filter, in
/// room-list order.
pub open spec fn spec_section_ids(rooms: Seq<RoomEntry>, filter: Seq<char>, which: int) -> Seq<
    Seq<char>,
>
    decreases rooms.len(),
{
    if rooms.len() == 0 {
        Seq::<Seq<char>>::empty()
    } else {
        spec_section_ids(rooms.drop_last(), filter, which) + (if spec_passes_filter(
            rooms.last(),
            filter,
        ) && spec_section_index(rooms.last()) == which {
            seq![rooms.last().room_id@]
        } else {
            Seq::<Seq<char>>::empty()
        })
    }
}

/// Whether the first room with the given id carries the favourite tag;
/// false when no room has the id.
pub open spec fn spec_is_favourite(rooms: Seq<RoomEntry>, room_id: Seq<char>) -> bool
    decreases rooms.len(),
{
    if rooms.len() == 0 {
        false
    } else if rooms[0].room_id@ == room_id {
        rooms[0].is_favourite
    } else {
        spec_is_favourite(rooms.drop_first(), room_id)
    }
}

/// The first room with the given id, and its name.
pub open spec fn spec_room_name(rooms: Seq<RoomEntry>, room_id: Seq<char>) -> Option<Seq<char>>
    decreases rooms.len(),
{
    if rooms.len() == 0 {
        None
    } else if rooms[0].room_id@ == room_id {
        Some(rooms[0].name@)
    } else {
        spec_room_name(rooms.drop_first(), room_id)
    }
}

/// The room-list state: the projected entries, the selection, the search
/// filter, the sort mode and the collapsed flags of the sections.
#[derive(Debug)]
pub struct RoomsState {
    pub rooms: Vec<RoomEntry>,
    pub selected: Option<String>,
    pub filter: String,
    pub sort_mode: SortMode,
    /// Section key paired with its collapsed state; keys appear at most
    /// once, and an absent key counts as not collapsed.
    pub sections_collapsed: Vec<(String, bool)>,
}

impl Default for RoomsState {
    fn default() -> (r: RoomsState)
        ensures
            r.rooms@.len() == 0,
            r.selected is None,
            r.filter@.len() == 0,
            r.sort_mode == SortMode::RecentActivity,
            r.sections_collapsed@.len() == 0,
    {
        RoomsState {
            rooms: Vec::new(),
            selected: None,
            filter: String::new(),
            sort_mode: SortMode::RecentActivity,
            sections_collapsed: Vec::new(),
        }
    }
}

impl RoomsState {
    /// Replace the room list with a freshly projected one.
    pub fn update_rooms(&mut self, rooms: Vec<RoomEntry>)
        ensures
            final(self).rooms == rooms,
            final(self).selected == old(self).selected,
            final(self).filter == old(self).filter,
            final(self).sort_mode == old(self).sort_mode,
            final(self).sections_collapsed == old(self).sections_collapsed,
    {
        self.rooms = rooms;
    }

    /// Whether a section is collapsed; an unrecorded key is not.
    pub fn is_section_collapsed(&self, key: &str) -> (r: bool)
        ensures
            r == spec_collapsed(self.sections_collapsed.deep_view(), key@),
    {
        let ghost all = self.sections_collapsed.deep_view();
        proof {
            assert(all.skip(0) =~= all);
        }
        let mut i: usize = 0;
        while i < self.sections_collapsed.len()
            invariant
                i <= self.sections_collapsed@.len(),
                all == self.sections_collapsed.deep_view(),
                all.len() == self.sections_collapsed@.len(),
                forall|j: int| 0 <= j < all.len()
                    ==> all[j] == (self.sections_collapsed@[j].0@, self.sections_collapsed@[j].1),
                spec_collapsed(all, key@) == spec_collapsed(all.skip(i as int), key@),
            decreases self.sections_collapsed@.len() - i,
        {
            if str_eq(self.sections_collapsed[i].0.as_str(), key) {
                proof {
                    assert(all.skip(i as int)[0] == all[i as int]);
                }
                return self.sections_collapsed[i].1;
            }
            proof {
                assert(all.skip(i as int)[0] == all[i as int]);
                assert(all.skip(i as int).drop_first() =~= all.skip(i as int + 1));
            }
            i = i + 1;
        }
        false
    }

    /// Flip a section's collapsed state, recording the key when it was
    /// absent. Other keys keep their state.
    pub fn toggle_section(&mut self, key: &str)
        ensures
            spec_collapsed(final(self).sections_collapsed.deep_view(), key@) == !spec_collapsed(
                old(self).sections_collapsed.deep_view(),
                key@,
            ),
            forall|other: Seq<char>| other != key@ ==> spec_collapsed(
                final(self).sections_collapsed.deep_view(),
                other,
            ) == spec_collapsed(old(self).sections_collapsed.deep_view(), other),
            final(self).rooms == old(self).rooms,
            final(self).selected == old(self).selected,
            final(self).filter == old(self).filter,
            final(self).sort_mode == old(self).sort_mode,
    {
        let ghost all = self.sections_collapsed.deep_view();
        let mut i: usize = 0;
        while i < self.sections_collapsed.len()
            invariant
                i <= self.sections_collapsed@.len(),
                all == self.sections_collapsed.deep_view(),
                all.len() == self.sections_collapsed@.len(),
                forall|j: int| 0 <= j < all.len()
                    ==> all[j] == (self.sections_collapsed@[j].0@, self.sections_collapsed@[j].1),
                forall|j: int| 0 <= j < i ==> all[j].0 != key@,
                self.sections_collapsed == old(self).sections_collapsed,
                self.rooms == old(self).rooms,
                self.selected == old(self).selected,
                self.filter == old(self).filter,
                self.sort_mode == old(self).sort_mode,
            decreases self.sections_collapsed@.len() - i,
        {
            if str_eq(self.sections_collapsed[i].0.as_str(), key) {
                let current = self.sections_collapsed[i].1;
                let entry = &mut self.sections_collapsed[i];
                entry.1 = !current;
                proof {
                    let updated = self.sections_collapsed.deep_view();
                    assert(updated =~= all.update(i as int, (key@, !current)));
                    lemma_collapsed_first_match(all, i as int, key@);
                    lemma_collapsed_update(all, i as int, key@, !current);
                }
                return ;
            }
            i = i + 1;
        }
        let ghost before = self.sections_collapsed.deep_view();
        self.sections_collapsed.push((key.to_owned(), true));
        proof {
            assert(self.sections_collapsed.deep_view() =~= before.push((key@, true)));
            lemma_collapsed_absent(before, key@);
            lemma_collapsed_push(before, key@, true);
        }
    }

    /// The indices of the rooms that pass the current filter, in
    /// room-list order.
    pub fn filtered_rooms(&self) -> (r: Vec<usize>)
        ensures
            forall|j: int| 0 <= j < r@.len() ==> r@[j] < self.rooms@.len() && spec_passes_filter(
                self.rooms@[r@[j] as int],
                self.filter@,
            ),
            forall|j1: int, j2: int| 0 <= j1 < j2 < r@.len() ==> r@[j1] < r@[j2],
            forall|i: int| 0 <= i < self.rooms@.len() && spec_passes_filter(
                #[trigger] self.rooms@[i],
                self.filter@,
            ) ==> r@.contains(i as usize),
    {
        let filter_empty = self.filter.as_str().unicode_len() == 0;
        let filter_lower = lowercase_str(self.filter.as_str());
        let mut r: Vec<usize> = Vec::new();
        let mut i: usize = 0;
        while i < self.rooms.len()
            invariant
                i <= self.rooms@.len(),
                filter_empty == (self.filter@.len() == 0),
                filter_lower@ == lower_of(self.filter@),
                forall|j: int| 0 <= j < r@.len() ==> r@[j] < i && spec_passes_filter(
                    self.rooms@[r@[j] as int],
                    self.filter@,
                ),
                forall|j1: int, j2: int| 0 <= j1 < j2 < r@.len() ==> r@[j1] < r@[j2],
                forall|i2: int| 0 <= i2 < i && spec_passes_filter(
                    #[trigger] self.rooms@[i2],
                    self.filter@,
                ) ==> r@.contains(i2 as usize),
            decreases self.rooms@.len() - i,
        {
            let passes = if filter_empty {
                true
            } else {
                let name_lower = lowercase_str(self.rooms[i].name.as_str());
                str_contains(name_lower.as_str(), filter_lower.as_str())
            };
            if passes {
                let ghost before = r@;
                r.push(i);
                proof {
                    assert forall|i2: int| 0 <= i2 < i + 1 && spec_passes_filter(
                        #[trigger] self.rooms@[i2],
                        self.filter@,
                    ) implies r@.contains(i2 as usize) by {
                        if i2 < i {
                            let j = choose|j: int| 0 <= j < before.len() && before[j] == i2 as usize;
                            assert(r@[j] == i2 as usize);
                        } else {
                            assert(r@[r@.len() - 1] == i as usize);
                        }
                    }
                }
            }
            i = i + 1;
        }
        r
    }

    /// The display name of the selected room, when it is in the list.
    pub fn selected_room_name(&self) -> (r: Option<&String>)
        ensures
            match self.selected {
                Some(sel) => match r {
                    Some(n) => spec_room_name(self.rooms@, sel@) == Some(n@),
                    None => spec_room_name(self.rooms@, sel@) is None,
                },
                None => r is None,
            },
    {
        let sel = match &self.selected {
            Some(s) => s,
            None => {
                return None;
            },
        };
        let mut i: usize = 0;
        proof {
            assert(self.rooms@.skip(0) =~= self.rooms@);
        }
        while i < self.rooms.len()
            invariant
                i <= self.rooms@.len(),
                self.selected matches Some(s) && s == sel,
                spec_room_name(self.rooms@, sel@) == spec_room_name(
                    self.rooms@.skip(i as int),
                    sel@,
                ),
            decreases self.rooms@.len() - i,
        {
            proof {
                assert(self.rooms@.skip(i as int)[0] == self.rooms@[i as int]);
                assert(self.rooms@.skip(i as int).drop_first() =~= self.rooms@.skip(i as int + 1));
            }
            if str_eq(self.rooms[i].room_id.as_str(), sel.as_str()) {
                return Some(&self.rooms[i].name);
            }
            i = i + 1;
        }
        None
    }

    /// Whether the given room currently carries the favourite tag; a
    /// room not in the list counts as not favourite. The toggle action
    /// sent to the transport is the opposite of this state.
    pub fn is_favourite(&self, room_id: &str) -> (r: bool)
        ensures
            r == spec_is_favourite(self.rooms@, room_id@),
    {
        let ghost all = self.rooms@;
        proof {
            assert(all.skip(0) =~= all);
        }
        let mut i: usize = 0;
        while i < self.rooms.len()
            invariant
                i <= self.rooms@.len(),
                all == self.rooms@,
                spec_is_favourite(all, room_id@) == spec_is_favourite(
                    all.skip(i as int),
                    room_id@,
                ),
            decreases self.rooms@.len() - i,
        {
            proof {
                assert(all.skip(i as int)[0] == all[i as int]);
                assert(all.skip(i as int).drop_first() =~= all.skip(i as int + 1));
            }
            if str_eq(self.rooms[i].room_id.as_str(), room_id) {
                return self.rooms[i].is_favourite;
            }
            i = i + 1;
        }
        false
    }

    /// The filtered room list split into its labelled sections —
    /// favourites, direct messages, rooms, low priority, in that fixed
    /// order, empty sections omitted. Within a section the rooms are
    /// ordered by the current sort mode, unread rooms first.
    pub fn sections(&self) -> (r: Vec<RoomSection>)
        ensures
            ({
                let expected = spec_expected_sections(
                    self.rooms@,
                    self.filter@,
                    self.sections_collapsed.deep_view(),
                );
                &&& r@.len() == expected.len()
                &&& forall|k: int| 0 <= k < r@.len() ==> {
                    &&& (#[trigger] r@[k]).key@ == expected[k].0
                    &&& r@[k].label@ == expected[k].1
                    &&& r@[k].collapsed == expected[k].2
                    &&& r@[k].rooms.deep_view().to_multiset() == expected[k].3
                }
            }),
    {
        let filter_empty = self.filter.as_str().unicode_len() == 0;
        let filter_lower = lowercase_str(self.filter.as_str());
        let mut favs: Vec<usize> = Vec::new();
        let mut dms: Vec<usize> = Vec::new();
        let mut plain: Vec<usize> = Vec::new();
        let mut low: Vec<usize> = Vec::new();
        let mut i: usize = 0;
        proof {
            assert(spec_ids_of(self.rooms@, favs@) =~= spec_section_ids(
                self.rooms@.take(0),
                self.filter@,
                0,
            ));
            assert(spec_ids_of(self.rooms@, dms@) =~= spec_section_ids(
                self.rooms@.take(0),
                self.filter@,
                1,
            ));
            assert(spec_ids_of(self.rooms@, plain@) =~= spec_section_ids(
                self.rooms@.take(0),
                self.filter@,
                2,
            ));
            assert(spec_ids_of(self.rooms@, low@) =~= spec_section_ids(
                self.rooms@.take(0),
                self.filter@,
                3,
            ));
        }
        while i < self.rooms.len()
            invariant
                i <= self.rooms@.len(),
                filter_empty == (self.filter@.len() == 0),
                filter_lower@ == lower_of(self.filter@),
                forall|q: int| 0 <= q < favs@.len() ==> favs@[q] < self.rooms@.len(),
                forall|q: int| 0 <= q < dms@.len() ==> dms@[q] < self.rooms@.len(),
                forall|q: int| 0 <= q < plain@.len() ==> plain@[q] < self.rooms@.len(),
                forall|q: int| 0 <= q < low@.len() ==> low@[q] < self.rooms@.len(),
                spec_ids_of(self.rooms@, favs@) == spec_section_ids(
                    self.rooms@.take(i as int),
                    self.filter@,
                    0,
                ),
                spec_ids_of(self.rooms@, dms@) == spec_section_ids(
                    self.rooms@.take(i as int),
                    self.filter@,
                    1,
                ),
                spec_ids_of(self.rooms@, plain@) == spec_section_ids(
                    self.rooms@.take(i as int),
                    self.filter@,
                    2,
                ),
                spec_ids_of(self.rooms@, low@) == spec_section_ids(
                    self.rooms@.take(i as int),
                    self.filter@,
                    3,
                ),
            decreases self.rooms@.len() - i,
        {
            let ghost favs0 = favs@;
            let ghost dms0 = dms@;
            let ghost plain0 = plain@;
            let ghost low0 = low@;
            let e = &self.rooms[i];
            let passes = if filter_empty {
                true
            } else {
                let name_lower = lowercase_str(e.name.as_str());
                str_contains(name_lower.as_str(), filter_lower.as_str())
            };
            if passes {
                if e.is_favourite {
                    favs.push(i);
                } else if e.is_low_priority {
                    low.push(i);
                } else if e.is_dm {
                    dms.push(i);
                } else {
                    plain.push(i);
                }
            }
            proof {
                let all = self.rooms@;
                assert(all.take(i + 1) =~= all.take(i as int).push(all[i as int]));
                assert(all.take(i + 1).drop_last() =~= all.take(i as int));
                assert(passes == spec_passes_filter(all[i as int], self.filter@));
                assert(spec_ids_of(all, favs@) =~= spec_section_ids(
                    all.take(i + 1),
                    self.filter@,
                    0,
                )) by {
                    if favs@ != favs0 {
                        assert(spec_ids_of(all, favs0.push(i as usize)) =~= spec_ids_of(
                            all,
                            favs0,
                        ).push(all[i as int].room_id@));
                    }
                }
                assert(spec_ids_of(all, dms@) =~= spec_section_ids(
                    all.take(i + 1),
                    self.filter@,
                    1,
                )) by {
                    if dms@ != dms0 {
                        assert(spec_ids_of(all, dms0.push(i as usize)) =~= spec_ids_of(
                            all,
                            dms0,
                        ).push(all[i as int].room_id@));
                    }
                }
                assert(spec_ids_of(all, plain@) =~= spec_section_ids(
                    all.take(i + 1),
                    self.filter@,
                    2,
                )) by {
                    if plain@ != plain0 {
                        assert(spec_ids_of(all, plain0.push(i as usize)) =~= spec_ids_of(
                            all,
                            plain0,
                        ).push(all[i as int].room_id@));
                    }
                }
                assert(spec_ids_of(all, low@) =~= spec_section_ids(
                    all.take(i + 1),
                    self.filter@,
                    3,
                )) by {
                    if low@ != low0 {
                        assert(spec_ids_of(all, low0.push(i as usize)) =~= spec_ids_of(
                            all,
                            low0,
                        ).push(all[i as int].room_id@));
                    }
                }
            }
            i = i + 1;
        }
        proof {
            assert(self.rooms@.take(i as int) =~= self.rooms@);
        }
        let ghost dvc = self.sections_collapsed.deep_view();
        let ghost e0 = spec_section_entry(self.rooms@, self.filter@, dvc, 0, "favourites"@,
            "Favourites"@);
        let ghost e1 = spec_section_entry(self.rooms@, self.filter@, dvc, 1, "dms"@,
            "Direct Messages"@);
        let ghost e2 = spec_section_entry(self.rooms@, self.filter@, dvc, 2, "rooms"@, "Rooms"@);
        let ghost e3 = spec_section_entry(self.rooms@, self.filter@, dvc, 3, "low_priority"@,
            "Low Priority"@);
        let mut out: Vec<RoomSection> = Vec::new();
        if favs.len() > 0 {
            let ids = sort_section_ids(&self.rooms, &favs, self.sort_mode);
            let collapsed = self.is_section_collapsed("favourites");
            out.push(
                RoomSection {
                    key: "favourites".to_owned(),
                    label: "Favourites".to_owned(),
                    collapsed,
                    rooms: ids,
                },
            );
        }
        proof {
            assert(out@.len() == e0.len());
        }
        if dms.len() > 0 {
            let ids = sort_section_ids(&self.rooms, &dms, self.sort_mode);
            let collapsed = self.is_section_collapsed("dms");
            out.push(
                RoomSection {
                    key: "dms".to_owned(),
                    label: "Direct Messages".to_owned(),
                    collapsed,
                    rooms: ids,
                },
            );
        }
        proof {
            assert(out@.len() == e0.len() + e1.len());
        }
        if plain.len() > 0 {
            let ids = sort_section_ids(&self.rooms, &plain, self.sort_mode);
            let collapsed = self.is_section_collapsed("rooms");
            out.push(
                RoomSection {
                    key: "rooms".to_owned(),
                    label: "Rooms".to_owned(),
                    collapsed,
                    rooms: ids,
                },
            );
        }
        proof {
            assert(out@.len() == e0.len() + e1.len() + e2.len());
        }
        if low.len() > 0 {
            let ids = sort_section_ids(&self.rooms, &low, self.sort_mode);
            let collapsed = self.is_section_collapsed("low_priority");
            out.push(
                RoomSection {
                    key: "low_priority".to_owned(),
                    label: "Low Priority".to_owned(),
                    collapsed,
                    rooms: ids,
                },
            );
        }
        proof {
            let expected = spec_expected_sections(self.rooms@, self.filter@, dvc);
            assert(expected =~= e0 + e1 + e2 + e3);
            assert(out@.len() == e0.len() + e1.len() + e2.len() + e3.len());
            assert forall|k: int| 0 <= k < out@.len() implies {
                &&& (#[trigger] out@[k]).key@ == expected[k].0
                &&& out@[k].label@ == expected[k].1
                &&& out@[k].collapsed == expected[k].2
                &&& out@[k].rooms.deep_view().to_multiset() == expected[k].3
            } by {
                if k < e0.len() {
                    assert(expected[k] == e0[0]);
                } else if k < e0.len() + e1.len() {
                    assert(expected[k] == e1[0]);
                } else if k < e0.len() + e1.len() + e2.len() {
                    assert(expected[k] == e2[0]);
                } else {
                    assert(expected[k] == e3[0]);
                }
            }
        }
        out
    }
}

/// Whether a room counts as unread for ordering: unread rooms sort to
/// the top of their section.
fn room_unread(e: &RoomEntry) -> bool {
    e.unread_count > 0 || e.mention_count > 0
}

/// Lexicographic order on the characters' scalar values.
fn lex_lt(a: &str, b: &str) -> bool {
    let na = a.unicode_len();
    let nb = b.unicode_len();
    let mut i: usize = 0;
    while i < na && i < nb
        invariant
            i <= a@.len(),
            i <= b@.len(),
            na == a@.len(),
            nb == b@.len(),
        decreases na - i,
    {
        let ca = a.get_char(i) as u32;
        let cb = b.get_char(i) as u32;
        if ca < cb {
            return true;
        }
        if ca > cb {
            return false;
        }
        i = i + 1;
    }
    na < nb
}

/// Whether `a` is strictly more recent than `b`; a missing timestamp
/// counts as oldest.
fn ts_after(a: &Option<u64>, b: &Option<u64>) -> bool {
    match (a, b) {
        (Some(x), Some(y)) => *x > *y,
        (Some(_), None) => true,
        _ => false,
    }
}

/// Whether `a` sorts strictly before `b` within a section: unread rooms
/// first, then by the chosen mode — alphabetically by lowercased name,
/// or most recent activity first with the name as tie-breaker.
fn room_before(a: &RoomEntry, b: &RoomEntry, mode: SortMode) -> bool {
    let a_unread = room_unread(a);
    let b_unread = room_unread(b);
    if a_unread != b_unread {
        return a_unread;
    }
    let a_name = lowercase_str(a.name.as_str());
    let b_name = lowercase_str(b.name.as_str());
    match mode {
        SortMode::Alphabetical => lex_lt(a_name.as_str(), b_name.as_str()),
        SortMode::RecentActivity => {
            if ts_after(&a.last_message_ts, &b.last_message_ts) {
                true
            } else if ts_after(&b.last_message_ts, &a.last_message_ts) {
                false
            } else {
                lex_lt(a_name.as_str(), b_name.as_str())
            }
        },
    }
}

/// The room ids the given indices name, in index order.
pub open spec fn spec_ids_of(rooms: Seq<RoomEntry>, idxs: Seq<usize>) -> Seq<Seq<char>> {
    Seq::new(idxs.len(), |j: int| rooms[idxs[j] as int].room_id@)
}

/// Order one section's rooms by stable insertion under `room_before`
/// and hand back their ids. The result holds exactly the rooms the
/// indices name, reordered.
fn sort_section_ids(rooms: &Vec<RoomEntry>, idxs: &Vec<usize>, mode: SortMode) -> (ids: Vec<
    String,
>)
    requires
        forall|j: int| 0 <= j < idxs@.len() ==> idxs@[j] < rooms@.len(),
    ensures
        ids.deep_view().to_multiset() == spec_ids_of(rooms@, idxs@).to_multiset(),
{
    let mut out_idx: Vec<usize> = Vec::new();
    let mut ids: Vec<String> = Vec::new();
    let mut i: usize = 0;
    proof {
        assert(spec_ids_of(rooms@, idxs@.take(0)) =~= Seq::<Seq<char>>::empty());
        assert(ids.deep_view() =~= Seq::<Seq<char>>::empty());
    }
    while i < idxs.len()
        invariant
            i <= idxs@.len(),
            forall|j: int| 0 <= j < idxs@.len() ==> idxs@[j] < rooms@.len(),
            out_idx@.len() == ids@.len(),
            forall|q: int| 0 <= q < out_idx@.len() ==> out_idx@[q] < rooms@.len(),
            ids.deep_view().to_multiset() == spec_ids_of(
                rooms@,
                idxs@.take(i as int),
            ).to_multiset(),
        decreases idxs@.len() - i,
    {
        let x = idxs[i];
        let mut p: usize = 0;
        while p < out_idx.len() && !room_before(&rooms[x], &rooms[out_idx[p]], mode)
            invariant
                p <= out_idx@.len(),
                x < rooms@.len(),
                forall|q: int| 0 <= q < out_idx@.len() ==> out_idx@[q] < rooms@.len(),
            decreases out_idx@.len() - p,
        {
            p = p + 1;
        }
        let ghost ids_dv0 = ids.deep_view();
        out_idx.insert(p, x);
        ids.insert(p, rooms[x].room_id.clone());
        proof {
            let rid = rooms@[x as int].room_id@;
            assert(ids.deep_view() =~= ids_dv0.insert(p as int, rid));
            vstd::seq_lib::to_multiset_insert(ids_dv0, p as int, rid);
            assert(spec_ids_of(rooms@, idxs@.take(i + 1)) =~= spec_ids_of(
                rooms@,
                idxs@.take(i as int),
            ).push(rid));
            vstd::seq_lib::to_multiset_build(spec_ids_of(rooms@, idxs@.take(i as int)), rid);
        }
        i = i + 1;
    }
    proof {
        assert(idxs@.take(i as int) =~= idxs@);
    }
    ids
}

/// The model of one displayed section: key, label, collapsed state and
/// the member ids as a multiset (the order within a section is the sort
/// comparator's business).
pub open spec fn spec_section_entry(
    rooms: Seq<RoomEntry>,
    filter: Seq<char>,
    collapsed: Seq<(Seq<char>, bool)>,
    which: int,
    key: Seq<char>,
    label: Seq<char>,
) -> Seq<(Seq<char>, Seq<char>, bool, Multiset<Seq<char>>)> {
    let ids = spec_section_ids(rooms, filter, which);
    if ids.len() == 0 {
        Seq::<(Seq<char>, Seq<char>, bool, Multiset<Seq<char>>)>::empty()
    } else {
        seq![(key, label, spec_collapsed(collapsed, key), ids.to_multiset())]
    }
}

/// The sections the room list displays, in fixed order — favourites,
/// direct messages, rooms, low priority — with empty sections omitted.
pub open spec fn spec_expected_sections(
    rooms: Seq<RoomEntry>,
    filter: Seq<char>,
    collapsed: Seq<(Seq<char>, bool)>,
) -> Seq<(Seq<char>, Seq<char>, bool, Multiset<Seq<char>>)> {
    spec_section_entry(rooms, filter, collapsed, 0, "favourites"@, "Favourites"@)
        + spec_section_entry(rooms, filter, collapsed, 1, "dms"@, "Direct Messages"@)
        + spec_section_entry(rooms, filter, collapsed, 2, "rooms"@, "Rooms"@)
        + spec_section_entry(rooms, filter, collapsed, 3, "low_priority"@, "Low Priority"@)
}

proof fn lemma_collapsed_first_match(s: Seq<(Seq<char>, bool)>, i: int, key: Seq<char>)
    requires
        0 <= i < s.len(),
        s[i].0 == key,
        forall|j: int| 0 <= j < i ==> s[j].0 != key,
    ensures
        spec_collapsed(s, key) == s[i].1,
    decreases i,
{
    if i > 0 {
        lemma_collapsed_first_match(s.drop_first(), i - 1, key);
    }
}

proof fn lemma_collapsed_update(s: Seq<(Seq<char>, bool)>, i: int, key: Seq<char>, v: bool)
    requires
        0 <= i < s.len(),
        s[i].0 == key,
        forall|j: int| 0 <= j < i ==> s[j].0 != key,
    ensures
        spec_collapsed(s.update(i, (key, v)), key) == v,
        forall|other: Seq<char>| other != key ==> spec_collapsed(s.update(i, (key, v)), other)
            == spec_collapsed(s, other),
    decreases s.len(),
{
    let t = s.update(i, (key, v));
    if i == 0 {
        assert(t[0] == (key, v));
        assert(t.drop_first() =~= s.drop_first());
        assert forall|other: Seq<char>| other != key implies spec_collapsed(t, other)
            == spec_collapsed(s, other) by {
            assert(spec_collapsed(t, other) == spec_collapsed(t.drop_first(), other));
            assert(spec_collapsed(s, other) == spec_collapsed(s.drop_first(), other));
        }
    } else {
        assert(t[0] == s[0]);
        assert(s[0].0 != key);
        assert(t.drop_first() =~= s.drop_first().update(i - 1, (key, v)));
        lemma_collapsed_update(s.drop_first(), i - 1, key, v);
        assert forall|other: Seq<char>| other != key implies spec_collapsed(t, other)
            == spec_collapsed(s, other) by {
            assert(spec_collapsed(s.drop_first().update(i - 1, (key, v)), other)
                == spec_collapsed(s.drop_first(), other));
        }
    }
}

proof fn lemma_collapsed_absent(s: Seq<(Seq<char>, bool)>, key: Seq<char>)
    requires
        forall|j: int| 0 <= j < s.len() ==> s[j].0 != key,
    ensures
        !spec_collapsed(s, key),
    decreases s.len(),
{
    if s.len() > 0 {
        lemma_collapsed_absent(s.drop_first(), key);
    }
}

proof fn lemma_collapsed_push(s: Seq<(Seq<char>, bool)>, key: Seq<char>, v: bool)
    requires
        forall|j: int| 0 <= j < s.len() ==> s[j].0 != key,
    ensures
        spec_collapsed(s.push((key, v)), key) == v,
        forall|other: Seq<char>| other != key ==> spec_collapsed(s.push((key, v)), other)
            == spec_collapsed(s, other),
    decreases s.len(),
{
    if s.len() == 0 {
        assert(s.push((key, v))[0] == (key, v));
        assert forall|other: Seq<char>| other != key implies spec_collapsed(
            s.push((key, v)),
            other,
        ) == spec_collapsed(s, other) by {
            assert(s.push((key, v)).drop_first() =~= s);
        }
    } else {
        assert(s.push((key, v))[0] == s[0]);
        assert(s.push((key, v)).drop_first() =~= s.drop_first().push((key, v)));
        lemma_collapsed_push(s.drop_first(), key, v);
        assert forall|other: Seq<char>| other != key implies spec_collapsed(
            s.push((key, v)),
            other,
        ) == spec_collapsed(s, other) by {
            assert(spec_collapsed(s.drop_first().push((key, v)), other) == spec_collapsed(
                s.drop_first(),
                other,
            ));
        }
    }
}

} // verus!

use vstd::prelude::*;

use crate::item::{ItemModel, TimelineItem};
use crate::strutil::str_eq;

verus! {

/// Whether `key` is among the cached keys.
pub open spec fn spec_has_key(keys: Seq<Seq<char>>, key: Seq<char>) -> bool
    decreases keys.len(),
{
    if keys.len() == 0 {
        false
    } else if keys[0] == key {
        true
    } else {
        spec_has_key(keys.drop_first(), key)
    }
}

/// The event-id keyed media cache, from the controller's point of view:
/// the set of keys already fetched or being fetched. Entries are written
/// once per key and never invalidated within a session; the bytes
/// themselves live with the rendering layer under the same keys.
pub struct MediaCacheKeys {
    pub keys: Vec<String>,
}

impl MediaCacheKeys {
    pub fn new() -> (r: MediaCacheKeys)
        ensures
            r.keys.deep_view() == Seq::<Seq<char>>::empty(),
    {
        let r = MediaCacheKeys { keys: Vec::new() };
        proof {
            assert(r.keys.deep_view() =~= Seq::<Seq<char>>::empty());
        }
        r
    }

    /// Whether a key is already present.
    pub fn contains(&self, key: &str) -> (r: bool)
        ensures
            r == spec_has_key(self.keys.deep_view(), key@),
    {
        let ghost all = self.keys.deep_view();
        proof {
            assert(all.skip(0) =~= all);
        }
        let mut i: usize = 0;
        while i < self.keys.len()
            invariant
                i <= self.keys@.len(),
                all == self.keys.deep_view(),
                all.len() == self.keys@.len(),
                forall|j: int| 0 <= j < all.len() ==> all[j] == self.keys@[j]@,
                spec_has_key(all, key@) == spec_has_key(all.skip(i as int), key@),
            decreases self.keys@.len() - i,
        {
            if str_eq(self.keys[i].as_str(), key) {
                proof {
                    assert(all.skip(i as int)[0] == all[i as int]);
                }
                return true;
            }
            proof {
                assert(all.skip(i as int)[0] == all[i as int]);
                assert(all.skip(i as int).drop_first() =~= all.skip(i as int + 1));
            }
            i = i + 1;
        }
        false
    }

    /// Record a key, marking its fetch as issued.
    pub fn record(&mut self, key: String)
        ensures
            final(self).keys.deep_view() == old(self).keys.deep_view().push(key@),
    {
        let ghost before = self.keys.deep_view();
        self.keys.push(key);
        proof {
            assert(self.keys.deep_view() =~= before.push(self.keys@.last()@));
        }
    }
}

/// The image fetches a batch of items calls for: one (event id, media
/// source) pair per image message whose event id is usable and not yet
/// cached. A message with an empty event id is non-interactive and gets
/// no fetch.
pub open spec fn spec_image_fetches(items: Seq<ItemModel>, cached: Seq<Seq<char>>) -> Seq<
    (Seq<char>, Seq<char>),
>
    decreases items.len(),
{
    if items.len() == 0 {
        Seq::<(Seq<char>, Seq<char>)>::empty()
    } else {
        let head: Seq<(Seq<char>, Seq<char>)> = match items[0] {
            ItemModel::Message(m) => match m.image_source {
                Some(src) => if m.event_id.len() > 0 && !spec_has_key(cached, m.event_id) {
                    seq![(m.event_id, src)]
                } else {
                    Seq::<(Seq<char>, Seq<char>)>::empty()
                },
                None => Seq::<(Seq<char>, Seq<char>)>::empty(),
            },
            _ => Seq::<(Seq<char>, Seq<char>)>::empty(),
        };
        head + spec_image_fetches(items.drop_first(), cached)
    }
}

/// Collect the image fetches a batch of items calls for, deduplicated
/// against the cache: fetch dispatch checks membership before issuing a
/// request, so at most one fetch per cached key is ever started.
pub fn pending_image_fetches(items: &Vec<TimelineItem>, cache: &MediaCacheKeys) -> (r: Vec<
    (String, String),
>)
    ensures
        r.deep_view() == spec_image_fetches(items.deep_view(), cache.keys.deep_view()),
{
    let ghost cached = cache.keys.deep_view();
    let ghost all = items.deep_view();
    let mut out: Vec<(String, String)> = Vec::new();
    let mut i: usize = 0;
    proof {
        assert(all.skip(0) =~= all);
        assert(out.deep_view() =~= Seq::<(Seq<char>, Seq<char>)>::empty());
    }
    while i < items.len()
        invariant
            i <= items@.len(),
            all == items.deep_view(),
            cached == cache.keys.deep_view(),
            all.len() == items@.len(),
            forall|j: int| 0 <= j < all.len() ==> all[j] == items@[j].deep_view(),
            spec_image_fetches(all, cached) == out.deep_view() + spec_image_fetches(
                all.skip(i as int),
                cached,
            ),
        decreases items@.len() - i,
    {
        let ghost dv0 = out.deep_view();
        let ghost rest = all.skip(i as int);
        proof {
            assert(rest[0] == all[i as int]);
            assert(rest.drop_first() =~= all.skip(i as int + 1));
        }
        match &items[i] {
            TimelineItem::Message(m) => {
                match &m.image {
                    Some(img) => {
                        if m.event_id.as_str().unicode_len() > 0 && !cache.contains(
                            m.event_id.as_str(),
                        ) {
                            out.push((m.event_id.clone(), img.source.clone()));
                            proof {
                                assert(out.deep_view() =~= dv0 + seq![
                                    (items@[i as int].deep_view()->Message_0.event_id, items@[
                                        i as int
                                    ].deep_view()->Message_0.image_source.unwrap()),
                                ]);
                            }
                        }
                    },
                    None => {},
                }
            },
            _ => {},
        }
        proof {
            assert(out.deep_view() =~= dv0 + (out.deep_view().skip(dv0.len() as int)));
            assert(dv0 + (out.deep_view().skip(dv0.len() as int)) + spec_image_fetches(
                all.skip(i as int + 1),
                cached,
            ) =~= dv0 + ((out.deep_view().skip(dv0.len() as int)) + spec_image_fetches(
                all.skip(i as int + 1),
                cached,
            )));
        }
        i = i + 1;
    }
    proof {
        assert(spec_image_fetches(all.skip(i as int), cached) =~= Seq::<
            (Seq<char>, Seq<char>),
        >::empty());
        assert(out.deep_view() + Seq::<(Seq<char>, Seq<char>)>::empty() =~= out.deep_view());
    }
    out
}

} // verus!

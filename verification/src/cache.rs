//! The preview cache: rendered previews by key, in the order in which they
//! were put in.
//!
//! A graphical preview keeps a decoded image and its encoding, tens of
//! megabytes, so the cache holds at most [`MAX_GRAPHICAL_ENTRIES`] of them:
//! when one more comes, the one that was put in first goes.  How recently
//! an entry was looked at plays no part.  Text previews are small and are
//! not counted.
use vstd::prelude::*;

use ratatui::text::Text;

use crate::graphics::GraphicsCapability;
use crate::ui::Area;
use crate::viuer_protocol::{RenderPlan, ViuerKittyProtocol};

verus! {

/// The most graphical previews that the cache holds.
pub const MAX_GRAPHICAL_ENTRIES: usize = 5;

/// A graphical preview: the image on its way to the terminal, the pixel
/// size it was decoded at, and the protocol it is sent through.
#[derive(Debug)]
pub struct GraphicalPreview {
    pub protocol: ViuerKittyProtocol,
    pub native_width: u32,
    pub native_height: u32,
    pub protocol_type: GraphicsCapability,
}

/// A rendered preview.
pub enum PreviewContent {
    Text(Text<'static>),
    Graphical(GraphicalPreview),
}

/// A preview and the key it is kept under.
pub struct CacheEntry {
    pub key: String,
    pub content: PreviewContent,
}

/// The place of the entry with the given key, if there is one.
pub open spec fn position_of_key(entries: Seq<CacheEntry>, key: Seq<char>) -> Option<int>
    decreases entries.len(),
{
    if entries.len() == 0 {
        None
    } else {
        match position_of_key(entries.drop_last(), key) {
            Some(p) => Some(p),
            None => if entries.last().key@ == key {
                Some(entries.len() - 1)
            } else {
                None
            },
        }
    }
}

/// The number of graphical previews among the entries.
pub open spec fn graphical_count(entries: Seq<CacheEntry>) -> nat
    decreases entries.len(),
{
    if entries.len() == 0 {
        0
    } else {
        graphical_count(entries.drop_last()) + if entries.last().content is Graphical {
            1nat
        } else {
            0nat
        }
    }
}

/// The place of the graphical preview that was put in first, if there is
/// one.
pub open spec fn oldest_graphical(entries: Seq<CacheEntry>) -> Option<int>
    decreases entries.len(),
{
    if entries.len() == 0 {
        None
    } else {
        match oldest_graphical(entries.drop_last()) {
            Some(p) => Some(p),
            None => if entries.last().content is Graphical {
                Some(entries.len() - 1)
            } else {
                None
            },
        }
    }
}

/// Whether no two entries share a key.
pub open spec fn distinct_keys(entries: Seq<CacheEntry>) -> bool {
    forall|i: int, j: int|
        0 <= i < j < entries.len() ==> (#[trigger] entries[i]).key@ != (#[trigger] entries[j]).key@
}

/// The entries after room is made for one more graphical preview: where
/// the cache is full of them, the oldest is removed.
pub open spec fn after_eviction(entries: Seq<CacheEntry>) -> Seq<CacheEntry> {
    if graphical_count(entries) >= MAX_GRAPHICAL_ENTRIES {
        match oldest_graphical(entries) {
            Some(p) => entries.remove(p),
            None => entries,
        }
    } else {
        entries
    }
}

/// The entries after `entry` is put in.
///
/// An entry with the same key is removed first.  Where the new entry is
/// graphical and the cache is full of graphical previews, the oldest of
/// them is removed.  Then the new entry goes to the end.
pub open spec fn after_insert(entries: Seq<CacheEntry>, entry: CacheEntry) -> Seq<CacheEntry> {
    let others = after_invalidate(entries, entry.key@);
    let kept = if entry.content is Graphical {
        after_eviction(others)
    } else {
        others
    };
    kept.push(entry)
}

/// The entries after the one with the given key, if any, is removed.
pub open spec fn after_invalidate(entries: Seq<CacheEntry>, key: Seq<char>) -> Seq<CacheEntry> {
    match position_of_key(entries, key) {
        Some(p) => entries.remove(p),
        None => entries,
    }
}

/// Where `position_of_key` finds a key, the key stands, and nowhere before;
/// where it finds none, there is none.
pub proof fn lemma_position_of_key(entries: Seq<CacheEntry>, key: Seq<char>)
    ensures
        match position_of_key(entries, key) {
            Some(p) => 0 <= p < entries.len() && entries[p].key@ == key && forall|k: int|
                0 <= k < p ==> (#[trigger] entries[k]).key@ != key,
            None => forall|k: int| 0 <= k < entries.len() ==> (#[trigger] entries[k]).key@ != key,
        },
    decreases entries.len(),
{
    if entries.len() > 0 {
        lemma_position_of_key(entries.drop_last(), key);
        assert forall|k: int| 0 <= k < entries.len() - 1 implies entries.drop_last()[k]
            == entries[k] by {}
        match position_of_key(entries.drop_last(), key) {
            Some(p) => {
                assert(entries.drop_last()[p] == entries[p]);
                assert forall|k: int| 0 <= k < p implies (#[trigger] entries[k]).key@ != key by {
                    assert(entries.drop_last()[k] == entries[k]);
                }
            },
            None => {
                assert forall|k: int| 0 <= k < entries.len() - 1 implies (
                #[trigger] entries[k]).key@ != key by {
                    assert(entries.drop_last()[k] == entries[k]);
                }
            },
        }
    }
}

/// Where `oldest_graphical` finds an entry, it is graphical and no earlier
/// one is; it finds one exactly where there is one.
pub proof fn lemma_oldest_graphical(entries: Seq<CacheEntry>)
    ensures
        match oldest_graphical(entries) {
            Some(p) => 0 <= p < entries.len() && entries[p].content is Graphical && forall|k: int|
                0 <= k < p ==> !((#[trigger] entries[k]).content is Graphical),
            None => graphical_count(entries) == 0,
        },
        graphical_count(entries) <= entries.len(),
    decreases entries.len(),
{
    if entries.len() > 0 {
        lemma_oldest_graphical(entries.drop_last());
        match oldest_graphical(entries.drop_last()) {
            Some(p) => {
                assert(entries.drop_last()[p] == entries[p]);
                assert forall|k: int| 0 <= k < p implies !((
                #[trigger] entries[k]).content is Graphical) by {
                    assert(entries.drop_last()[k] == entries[k]);
                }
            },
            None => {
                if entries.last().content is Graphical {
                    lemma_count_zero(entries.drop_last());
                    assert forall|k: int| 0 <= k < entries.len() - 1 implies !((
                    #[trigger] entries[k]).content is Graphical) by {
                        assert(entries.drop_last()[k] == entries[k]);
                    }
                }
            },
        }
    }
}

/// Where the count is zero, no entry is graphical.
pub proof fn lemma_count_zero(entries: Seq<CacheEntry>)
    requires
        graphical_count(entries) == 0,
    ensures
        forall|k: int| 0 <= k < entries.len() ==> !((#[trigger] entries[k]).content is Graphical),
    decreases entries.len(),
{
    if entries.len() > 0 {
        lemma_count_zero(entries.drop_last());
        assert forall|k: int| 0 <= k < entries.len() implies !((
        #[trigger] entries[k]).content is Graphical) by {
            if k < entries.len() - 1 {
                assert(entries.drop_last()[k] == entries[k]);
            }
        }
    }
}

/// Removing an entry lowers the count by one if the entry is graphical,
/// and leaves it otherwise.
pub proof fn lemma_count_remove(entries: Seq<CacheEntry>, p: int)
    requires
        0 <= p < entries.len(),
    ensures
        graphical_count(entries.remove(p)) + (if entries[p].content is Graphical {
            1nat
        } else {
            0nat
        }) == graphical_count(entries),
    decreases entries.len(),
{
    if p == entries.len() - 1 {
        assert(entries.remove(p) =~= entries.drop_last());
    } else {
        lemma_count_remove(entries.drop_last(), p);
        assert(entries.remove(p).drop_last() =~= entries.drop_last().remove(p));
        assert(entries.remove(p).last() == entries.last());
    }
}

/// Replacing an entry changes the count by what the two entries differ in.
pub proof fn lemma_count_update(entries: Seq<CacheEntry>, p: int, entry: CacheEntry)
    requires
        0 <= p < entries.len(),
    ensures
        graphical_count(entries.update(p, entry)) + (if entries[p].content is Graphical {
            1nat
        } else {
            0nat
        }) == graphical_count(entries) + (if entry.content is Graphical {
            1nat
        } else {
            0nat
        }),
    decreases entries.len(),
{
    if p == entries.len() - 1 {
        assert(entries.update(p, entry).drop_last() =~= entries.drop_last());
    } else {
        lemma_count_update(entries.drop_last(), p, entry);
        assert(entries.update(p, entry).drop_last() =~= entries.drop_last().update(p, entry));
    }
}

/// Adding an entry at the end raises the count by one if the entry is
/// graphical.
pub proof fn lemma_count_push(entries: Seq<CacheEntry>, entry: CacheEntry)
    ensures
        graphical_count(entries.push(entry)) == graphical_count(entries) + (if entry.content
            is Graphical {
            1nat
        } else {
            0nat
        }),
{
    assert(entries.push(entry).drop_last() =~= entries);
}


/// Removing an entry keeps the keys distinct, and the key of the entry
/// that went stands nowhere any more.
pub proof fn lemma_remove_keeps_distinct(entries: Seq<CacheEntry>, p: int)
    requires
        distinct_keys(entries),
        0 <= p < entries.len(),
    ensures
        distinct_keys(entries.remove(p)),
        position_of_key(entries.remove(p), entries[p].key@) is None,
        forall|key: Seq<char>|
            key != entries[p].key@ ==> (#[trigger] position_of_key(entries.remove(p), key) is Some
                <==> position_of_key(entries, key) is Some),
{
    let rest = entries.remove(p);
    assert forall|i: int, j: int| 0 <= i < j < rest.len() implies (#[trigger] rest[i]).key@ != (
    #[trigger] rest[j]).key@ by {
        let a = if i < p {
            i
        } else {
            i + 1
        };
        let b = if j < p {
            j
        } else {
            j + 1
        };
        assert(rest[i] == entries[a] && rest[j] == entries[b]);
    }
    lemma_position_of_key(rest, entries[p].key@);
    match position_of_key(rest, entries[p].key@) {
        Some(q) => {
            let a = if q < p {
                q
            } else {
                q + 1
            };
            assert(rest[q] == entries[a]);
            assert(false);
        },
        None => {},
    }
    assert forall|key: Seq<char>| key != entries[p].key@ implies (#[trigger] position_of_key(
        rest,
        key,
    ) is Some <==> position_of_key(entries, key) is Some) by {
        lemma_position_of_key(rest, key);
        lemma_position_of_key(entries, key);
        match position_of_key(rest, key) {
            Some(q) => {
                let a = if q < p {
                    q
                } else {
                    q + 1
                };
                assert(rest[q] == entries[a]);
            },
            None => {
                match position_of_key(entries, key) {
                    Some(a) => {
                        let q = if a < p {
                            a
                        } else {
                            a - 1
                        };
                        assert(rest[q] == entries[a]);
                    },
                    None => {},
                }
            },
        }
    }
}

/// Putting an entry in keeps the keys distinct and the number of graphical
/// previews within the bound; afterwards the entry is found under its key.
pub proof fn lemma_after_insert(entries: Seq<CacheEntry>, entry: CacheEntry)
    requires
        distinct_keys(entries),
        graphical_count(entries) <= MAX_GRAPHICAL_ENTRIES,
    ensures
        distinct_keys(after_insert(entries, entry)),
        graphical_count(after_insert(entries, entry)) <= MAX_GRAPHICAL_ENTRIES,
        position_of_key(after_insert(entries, entry), entry.key@) == Some(
            after_insert(entries, entry).len() - 1,
        ),
        after_insert(entries, entry).last() == entry,
{
    let others = after_invalidate(entries, entry.key@);
    lemma_position_of_key(entries, entry.key@);
    match position_of_key(entries, entry.key@) {
        Some(p) => {
            lemma_remove_keeps_distinct(entries, p);
            lemma_count_remove(entries, p);
        },
        None => {},
    }
    lemma_position_of_key(others, entry.key@);
    assert(position_of_key(others, entry.key@) is None);
    let kept = if entry.content is Graphical {
        after_eviction(others)
    } else {
        others
    };
    if entry.content is Graphical && graphical_count(others) >= MAX_GRAPHICAL_ENTRIES {
        lemma_oldest_graphical(others);
        let q = oldest_graphical(others)->0;
        lemma_remove_keeps_distinct(others, q);
        lemma_count_remove(others, q);
    }
    lemma_position_of_key(kept, entry.key@);
    assert(position_of_key(kept, entry.key@) is None);
    let after = kept.push(entry);
    assert(after =~= after_insert(entries, entry));
    lemma_count_push(kept, entry);
    assert(after.drop_last() =~= kept);
    assert forall|i: int, j: int| 0 <= i < j < after.len() implies (#[trigger] after[i]).key@ != (
    #[trigger] after[j]).key@ by {
        if j < kept.len() {
            assert(after[i] == kept[i] && after[j] == kept[j]);
        } else {
            assert(after[i] == kept[i]);
        }
    }
}

/// Putting a graphical preview under a new key into a cache that is full of
/// graphical previews removes exactly the oldest of them: every other
/// entry stays, in its order, and the new one comes last.
pub proof fn lemma_bounded_eviction(entries: Seq<CacheEntry>, entry: CacheEntry)
    requires
        distinct_keys(entries),
        graphical_count(entries) == MAX_GRAPHICAL_ENTRIES,
        entry.content is Graphical,
        position_of_key(entries, entry.key@) is None,
    ensures
        oldest_graphical(entries) is Some,
        after_insert(entries, entry) == entries.remove(oldest_graphical(entries)->0).push(entry),
        graphical_count(after_insert(entries, entry)) == MAX_GRAPHICAL_ENTRIES,
        position_of_key(
            after_insert(entries, entry),
            entries[oldest_graphical(entries)->0].key@,
        ) is None,
        forall|key: Seq<char>|
            key != entries[oldest_graphical(entries)->0].key@ && position_of_key(entries, key)
                is Some ==> #[trigger] position_of_key(after_insert(entries, entry), key) is Some,
{
    lemma_oldest_graphical(entries);
    let q = oldest_graphical(entries)->0;
    let kept = entries.remove(q);
    lemma_count_remove(entries, q);
    lemma_count_push(kept, entry);
    lemma_remove_keeps_distinct(entries, q);
    lemma_position_of_key(entries, entry.key@);
    let after = kept.push(entry);
    assert(after.drop_last() =~= kept);
    assert(entries[q].key@ != entry.key@);
    assert forall|key: Seq<char>|
        key != entries[q].key@ && position_of_key(entries, key) is Some implies #[trigger] position_of_key(
        after,
        key,
    ) is Some by {
        assert(position_of_key(kept, key) is Some);
    }
}

/// The key of the graphical preview that goes when `entry` is put in, if
/// one goes.
pub open spec fn evicted_key(entries: Seq<CacheEntry>, entry: CacheEntry) -> Option<Seq<char>> {
    let others = after_invalidate(entries, entry.key@);
    if entry.content is Graphical && graphical_count(others) >= MAX_GRAPHICAL_ENTRIES {
        match oldest_graphical(others) {
            Some(p) => Some(others[p].key@),
            None => None,
        }
    } else {
        None
    }
}

/// The preview kept under `key` among the entries, if there is one.
pub open spec fn content_at(entries: Seq<CacheEntry>, key: Seq<char>) -> Option<PreviewContent> {
    match position_of_key(entries, key) {
        Some(p) => Some(entries[p].content),
        None => None,
    }
}

/// Removing an entry leaves what is kept under every other key.
pub proof fn lemma_remove_keeps_others(entries: Seq<CacheEntry>, p: int, key: Seq<char>)
    requires
        distinct_keys(entries),
        0 <= p < entries.len(),
        key != entries[p].key@,
    ensures
        content_at(entries.remove(p), key) == content_at(entries, key),
{
    let rest = entries.remove(p);
    lemma_position_of_key(rest, key);
    lemma_position_of_key(entries, key);
    lemma_remove_keeps_distinct(entries, p);
    match position_of_key(entries, key) {
        Some(a) => {
            let q = if a < p {
                a
            } else {
                a - 1
            };
            assert(rest[q] == entries[a]);
            let found = position_of_key(rest, key)->0;
            assert(found == q);
        },
        None => {},
    }
}

/// Once a preview is put in, it is found under its key, and it is the one
/// that was put in.  Every preview under another key stays as it was,
/// unless it is the one that went to make room.  So a preview is made once
/// and then found, as long as it is neither invalidated nor evicted.
pub proof fn lemma_cache_hit(entries: Seq<CacheEntry>, entry: CacheEntry, key: Seq<char>)
    requires
        distinct_keys(entries),
        graphical_count(entries) <= MAX_GRAPHICAL_ENTRIES,
    ensures
        content_at(after_insert(entries, entry), entry.key@) == Some(entry.content),
        key != entry.key@ && evicted_key(entries, entry) != Some(key) ==> content_at(
            after_insert(entries, entry),
            key,
        ) == content_at(entries, key),
        !(entry.content is Graphical) ==> evicted_key(entries, entry) is None,
{
    lemma_after_insert(entries, entry);
    if key != entry.key@ && evicted_key(entries, entry) != Some(key) {
        let others = after_invalidate(entries, entry.key@);
        lemma_position_of_key(entries, entry.key@);
        match position_of_key(entries, entry.key@) {
            Some(p) => {
                lemma_remove_keeps_distinct(entries, p);
                lemma_remove_keeps_others(entries, p, key);
            },
            None => {},
        }
        let kept = if entry.content is Graphical {
            after_eviction(others)
        } else {
            others
        };
        if entry.content is Graphical && graphical_count(others) >= MAX_GRAPHICAL_ENTRIES {
            lemma_oldest_graphical(others);
            let q = oldest_graphical(others)->0;
            lemma_remove_keeps_others(others, q, key);
        }
        assert(content_at(kept, key) == content_at(entries, key));
        let after = kept.push(entry);
        assert(after.drop_last() =~= kept);
        lemma_position_of_key(kept, key);
        match position_of_key(kept, key) {
            Some(a) => {
                assert(after[a] == kept[a]);
            },
            None => {},
        }
    }
}

/// The cache.
pub struct PreviewCache {
    entries: Vec<CacheEntry>,
}

impl PreviewCache {
    #[verifier::type_invariant]
    spec fn valid(self) -> bool {
        distinct_keys(self.entries@) && graphical_count(self.entries@) <= MAX_GRAPHICAL_ENTRIES
    }

    /// The entries, oldest first.
    pub closed spec fn entries(self) -> Seq<CacheEntry> {
        self.entries@
    }

    /// The preview kept under `key`, if there is one.
    pub open spec fn content_of(self, key: Seq<char>) -> Option<PreviewContent> {
        content_at(self.entries(), key)
    }

    /// An empty cache.
    pub fn new() -> (r: Self)
        ensures
            r.entries() == Seq::<CacheEntry>::empty(),
    {
        PreviewCache { entries: Vec::new() }
    }

    /// Moves the entries out, leaving the cache empty.
    fn take_entries(&mut self) -> (r: Vec<CacheEntry>)
        ensures
            r@ == old(self).entries@,
            final(self).entries@ == Seq::<CacheEntry>::empty(),
    {
        let mut emptied = PreviewCache { entries: Vec::new() };
        std::mem::swap(self, &mut emptied);
        emptied.entries
    }

    /// The number of entries.
    pub fn len(&self) -> (r: usize)
        ensures
            r == self.entries().len(),
    {
        self.entries.len()
    }

    pub fn is_empty(&self) -> (r: bool)
        ensures
            r == (self.entries().len() == 0),
    {
        self.entries.len() == 0
    }

    /// The number of graphical previews; never more than the bound.
    pub fn graphical_len(&self) -> (r: usize)
        ensures
            r == graphical_count(self.entries()),
            r <= MAX_GRAPHICAL_ENTRIES,
            distinct_keys(self.entries()),
    {
        proof {
            use_type_invariant(self);
        }
        count_graphical(&self.entries)
    }

    /// The preview kept under `key`, if there is one.
    pub fn get(&self, key: &str) -> (r: Option<&PreviewContent>)
        ensures
            match r {
                Some(content) => self.content_of(key@) == Some(*content),
                None => self.content_of(key@) is None,
            },
    {
        let wanted = key.to_owned();
        match find_key(&self.entries, &wanted) {
            Some(p) => Some(&self.entries[p].content),
            None => None,
        }
    }

    /// Whether a preview is kept under `key`.
    pub fn contains(&self, key: &str) -> (r: bool)
        ensures
            r == self.content_of(key@) is Some,
    {
        let wanted = key.to_owned();
        find_key(&self.entries, &wanted).is_some()
    }

    /// Puts a preview in under `key`.
    pub fn insert(&mut self, key: String, content: PreviewContent)
        ensures
            final(self).entries() == after_insert(
                old(self).entries(),
                CacheEntry { key, content },
            ),
            final(self).content_of(key@) == Some(content),
    {
        proof {
            use_type_invariant(&*self);
            lemma_after_insert(self.entries@, CacheEntry { key, content });
        }
        let ghost before = self.entries@;
        let ghost entry = CacheEntry { key, content };
        let mut entries = self.take_entries();
        match find_key(&entries, &key) {
            Some(p) => {
                entries.remove(p);
            },
            None => {},
        }
        let ghost others = entries@;
        assert(others == after_invalidate(before, key@));
        let is_graphical = match &content {
            PreviewContent::Graphical(_) => true,
            PreviewContent::Text(_) => false,
        };
        if is_graphical && count_graphical(&entries) >= MAX_GRAPHICAL_ENTRIES {
            proof {
                lemma_oldest_graphical(others);
            }
            match find_oldest_graphical(&entries) {
                Some(q) => {
                    entries.remove(q);
                },
                None => {},
            }
        }
        entries.push(CacheEntry { key, content });
        assert(entries@ =~= after_insert(before, entry));
        self.entries = entries;
    }

    /// Removes the preview kept under `key`, if there is one.
    pub fn invalidate(&mut self, key: &str)
        ensures
            final(self).entries() == after_invalidate(old(self).entries(), key@),
            final(self).content_of(key@) is None,
    {
        proof {
            use_type_invariant(&*self);
        }
        let wanted = key.to_owned();
        let ghost before = self.entries@;
        proof {
            lemma_position_of_key(before, key@);
        }
        let mut entries = self.take_entries();
        match find_key(&entries, &wanted) {
            Some(p) => {
                proof {
                    lemma_remove_keeps_distinct(before, p as int);
                    lemma_count_remove(before, p as int);
                }
                entries.remove(p);
            },
            None => {},
        }
        self.entries = entries;
    }

    /// Removes every preview.
    pub fn invalidate_all(&mut self)
        ensures
            final(self).entries() == Seq::<CacheEntry>::empty(),
    {
        let _ = self.take_entries();
    }

    /// Makes the graphical preview kept under `key` ready for drawing in
    /// `area` and says what drawing it takes.  Nothing happens, and nothing
    /// is to be drawn, where no graphical preview is kept under `key`.
    pub fn prepare(&mut self, key: &str, area: Area) -> (r: Option<RenderPlan>)
        ensures
            match old(self).content_of(key@) {
                Some(PreviewContent::Graphical(before)) => {
                    let p = position_of_key(old(self).entries(), key@)->0;
                    &&& final(self).entries().len() == old(self).entries().len()
                    &&& forall|k: int|
                        0 <= k < old(self).entries().len() && k != p ==> final(self).entries()[k]
                            == old(self).entries()[k]
                    &&& final(self).entries()[p].key == old(self).entries()[p].key
                    &&& final(self).entries()[p].content matches PreviewContent::Graphical(after)
                    &&& after.native_width == before.native_width
                    &&& after.native_height == before.native_height
                    &&& after.protocol_type == before.protocol_type
                    &&& after.protocol.readied(before.protocol, area)
                    &&& match r {
                        Some(plan) => after.protocol.draws(plan, area),
                        None => after.protocol.escape_sequence@.len() == 0,
                    }
                },
                _ => r is None && final(self).entries() == old(self).entries(),
            },
    {
        proof {
            use_type_invariant(&*self);
        }
        let wanted = key.to_owned();
        let ghost before = self.entries@;
        proof {
            lemma_position_of_key(before, key@);
        }
        match find_key(&self.entries, &wanted) {
            Some(p) => {
                let is_graphical = match &self.entries[p].content {
                    PreviewContent::Graphical(_) => true,
                    PreviewContent::Text(_) => false,
                };
                if !is_graphical {
                    return None;
                }
                let mut entries = self.take_entries();
                let entry = entries.remove(p);
                let CacheEntry { key: entry_key, content } = entry;
                match content {
                    PreviewContent::Graphical(preview) => {
                        let mut preview = preview;
                        preview.protocol.prepare(area);
                        let plan = preview.protocol.render(area);
                        let renewed = CacheEntry {
                            key: entry_key,
                            content: PreviewContent::Graphical(preview),
                        };
                        proof {
                            let rest = before.remove(p as int);
                            let after = rest.insert(p as int, renewed);
                            assert(after =~= before.update(p as int, renewed));
                            lemma_count_update(before, p as int, renewed);
                            assert forall|i: int, j: int| 0 <= i < j < after.len() implies (
                            #[trigger] after[i]).key@ != (#[trigger] after[j]).key@ by {
                                assert(after[i].key@ == before[i].key@);
                                assert(after[j].key@ == before[j].key@);
                            }
                        }
                        entries.insert(p, renewed);
                        self.entries = entries;
                        plan
                    },
                    PreviewContent::Text(text) => {
                        // Not reached: the entry was seen to be graphical.
                        entries.insert(
                            p,
                            CacheEntry { key: entry_key, content: PreviewContent::Text(text) },
                        );
                        self.entries = entries;
                        None
                    },
                }
            },
            None => None,
        }
    }
}

fn find_key(entries: &Vec<CacheEntry>, key: &String) -> (r: Option<usize>)
    ensures
        match r {
            Some(p) => position_of_key(entries@, key@) == Some(p as int) && p < entries@.len(),
            None => position_of_key(entries@, key@) is None,
        },
{
    let mut found: Option<usize> = None;
    let mut i: usize = 0;
    while i < entries.len()
        invariant
            i <= entries@.len(),
            match found {
                Some(p) => position_of_key(entries@.take(i as int), key@) == Some(p as int) && p < i,
                None => position_of_key(entries@.take(i as int), key@) is None,
            },
        decreases entries@.len() - i,
    {
        proof {
            assert(entries@.take(i + 1).drop_last() =~= entries@.take(i as int));
            assert(entries@.take(i + 1).last() == entries@[i as int]);
        }
        if found.is_none() && entries[i].key == *key {
            found = Some(i);
        }
        i += 1;
    }
    assert(entries@.take(entries@.len() as int) =~= entries@);
    found
}

fn count_graphical(entries: &Vec<CacheEntry>) -> (r: usize)
    ensures
        r == graphical_count(entries@),
{
    let mut count: usize = 0;
    let mut i: usize = 0;
    while i < entries.len()
        invariant
            i <= entries@.len(),
            count == graphical_count(entries@.take(i as int)),
            count <= i,
        decreases entries@.len() - i,
    {
        proof {
            assert(entries@.take(i + 1).drop_last() =~= entries@.take(i as int));
            assert(entries@.take(i + 1).last() == entries@[i as int]);
        }
        match &entries[i].content {
            PreviewContent::Graphical(_) => {
                count += 1;
            },
            PreviewContent::Text(_) => {},
        }
        i += 1;
    }
    assert(entries@.take(entries@.len() as int) =~= entries@);
    count
}

fn find_oldest_graphical(entries: &Vec<CacheEntry>) -> (r: Option<usize>)
    ensures
        match r {
            Some(p) => oldest_graphical(entries@) == Some(p as int) && p < entries@.len(),
            None => oldest_graphical(entries@) is None,
        },
{
    let mut found: Option<usize> = None;
    let mut i: usize = 0;
    while i < entries.len()
        invariant
            i <= entries@.len(),
            match found {
                Some(p) => oldest_graphical(entries@.take(i as int)) == Some(p as int) && p < i,
                None => oldest_graphical(entries@.take(i as int)) is None,
            },
        decreases entries@.len() - i,
    {
        proof {
            assert(entries@.take(i + 1).drop_last() =~= entries@.take(i as int));
            assert(entries@.take(i + 1).last() == entries@[i as int]);
        }
        if found.is_none() {
            match &entries[i].content {
                PreviewContent::Graphical(_) => {
                    found = Some(i);
                },
                PreviewContent::Text(_) => {},
            }
        }
        i += 1;
    }
    assert(entries@.take(entries@.len() as int) =~= entries@);
    found
}

} // verus!

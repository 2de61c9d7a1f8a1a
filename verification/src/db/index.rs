//! Handle → position maps for every table of a [`Snapshot`], built once
//! after a load for O(1) lookups by handle.

use vstd::prelude::*;
use vstd::hash_map::StringHashMap;

use super::keyed::{find_key, has_key, lemma_find_key, unique_keys, Keyed};
use super::snapshot::Snapshot;

verus! {

/// Each handle of `s` mapped to the position of its last row: what
/// collecting `(handle, position)` pairs in row order into a map gives.
pub open spec fn position_map<T: Keyed>(s: Seq<T>) -> Map<Seq<char>, usize>
    decreases s.len(),
{
    if s.len() == 0 {
        Map::empty()
    } else {
        position_map(s.drop_last()).insert(s.last().key(), (s.len() - 1) as usize)
    }
}

/// Handle → position-in-table maps for every primary table.
pub struct HandleIndex {
    pub persons: StringHashMap<usize>,
    pub families: StringHashMap<usize>,
    pub events: StringHashMap<usize>,
    pub places: StringHashMap<usize>,
    pub sources: StringHashMap<usize>,
    pub citations: StringHashMap<usize>,
    pub media: StringHashMap<usize>,
    pub notes: StringHashMap<usize>,
    pub repositories: StringHashMap<usize>,
    pub tags: StringHashMap<usize>,
}

/// The map from each handle of `items` to its position (the last one, when
/// a handle repeats).
pub fn index_by_handle<T: Keyed>(items: &Vec<T>) -> (r: StringHashMap<usize>)
    ensures
        r@ == position_map(items@),
{
    let mut m: StringHashMap<usize> = StringHashMap::new();
    let mut i: usize = 0;
    while i < items.len()
        invariant
            i <= items@.len(),
            m@ == position_map(items@.subrange(0, i as int)),
        decreases items.len() - i,
    {
        let ghost prev = items@.subrange(0, i as int);
        assert(items@.subrange(0, i + 1).drop_last() =~= prev);
        m.insert(String::from_str(items[i].key_str()), i);
        i = i + 1;
    }
    assert(items@.subrange(0, items@.len() as int) =~= items@);
    m
}

impl HandleIndex {
    /// The index of every table of `tree`.
    pub fn build(tree: &Snapshot) -> (r: HandleIndex)
        ensures
            r.persons@ == position_map(tree.persons@),
            r.families@ == position_map(tree.families@),
            r.events@ == position_map(tree.events@),
            r.places@ == position_map(tree.places@),
            r.sources@ == position_map(tree.sources@),
            r.citations@ == position_map(tree.citations@),
            r.media@ == position_map(tree.media@),
            r.notes@ == position_map(tree.notes@),
            r.repositories@ == position_map(tree.repositories@),
            r.tags@ == position_map(tree.tags@),
    {
        HandleIndex {
            persons: index_by_handle(&tree.persons),
            families: index_by_handle(&tree.families),
            events: index_by_handle(&tree.events),
            places: index_by_handle(&tree.places),
            sources: index_by_handle(&tree.sources),
            citations: index_by_handle(&tree.citations),
            media: index_by_handle(&tree.media),
            notes: index_by_handle(&tree.notes),
            repositories: index_by_handle(&tree.repositories),
            tags: index_by_handle(&tree.tags),
        }
    }
}

/// With unique handles the index holds exactly the handles of the table,
/// and maps each to the position a lookup by handle finds.
pub proof fn lemma_position_map<T: Keyed>(s: Seq<T>, h: Seq<char>)
    requires
        unique_keys(s),
        s.len() <= usize::MAX,
    ensures
        position_map(s).dom().contains(h) == has_key(s, h),
        has_key(s, h) ==> find_key(s, h) == Some(position_map(s)[h] as int),
    decreases s.len(),
{
    lemma_find_key(s, h);
    if s.len() > 0 {
        let t = s.drop_last();
        assert(unique_keys(t)) by {
            assert forall|i: int, j: int| 0 <= i < t.len() && 0 <= j < t.len() && i != j implies #[trigger] t[i].key() != #[trigger] t[j].key() by {
                assert(t[i] == s[i] && t[j] == s[j]);
            }
        }
        lemma_position_map(t, h);
        lemma_find_key(t, h);
        let last = s.len() - 1;
        if s[last].key() == h {
            assert(has_key(s, h));
            assert(find_key(s, h) == Some(last));
        } else {
            if has_key(s, h) {
                let k = choose|k: int| 0 <= k < s.len() && #[trigger] s[k].key() == h;
                assert(t[k] == s[k]);
            }
            if has_key(t, h) {
                let k = choose|k: int| 0 <= k < t.len() && #[trigger] t[k].key() == h;
                assert(t[k] == s[k]);
                let k2 = find_key(t, h).unwrap();
                assert(s[k2] == t[k2]);
                assert forall|j: int| 0 <= j < k2 implies s[j].key() != h by {
                    assert(s[j] == t[j]);
                }
            }
        }
    }
}

} // verus!

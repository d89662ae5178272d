//! The ledger of tracked stories: an ordered mapping from story ID to stored story, in which
//! insertion order is the listing and delivery order.
use vstd::prelude::*;

use indexmap::IndexMap;

use crate::story::{Id, Story};

verus! {

#[verifier::external_type_specification]
#[verifier::external_body]
#[verifier::reject_recursive_types(K)]
#[verifier::reject_recursive_types(V)]
#[verifier::reject_recursive_types(S)]
pub struct ExIndexMap<K, V, S>(IndexMap<K, V, S>);

/// The entries of an ordered map of stories, in iteration order.
pub uninterp spec fn map_entries(m: IndexMap<Id, Story>) -> Seq<(Id, Story)>;

/// Relies on `IndexMap::new`: a new map is empty.
#[verifier::external_body]
fn map_new() -> (m: IndexMap<Id, Story>)
    ensures
        map_entries(m) == Seq::<(Id, Story)>::empty(),
{
    IndexMap::new()
}

/// Relies on `IndexMap::len`: the number of entries.
#[verifier::external_body]
fn map_len(m: &IndexMap<Id, Story>) -> (r: usize)
    ensures
        r == map_entries(*m).len(),
{
    m.len()
}

/// Relies on `IndexMap::get_index`: the entry at a position of the iteration order.
#[verifier::external_body]
fn map_get_index(m: &IndexMap<Id, Story>, index: usize) -> (r: Option<(Id, &Story)>)
    ensures
        index < map_entries(*m).len() ==> r == Some(
            (map_entries(*m)[index as int].0, &map_entries(*m)[index as int].1),
        ),
        index >= map_entries(*m).len() ==> r is None,
{
    m.get_index(index).map(|(k, v)| (*k, v))
}

/// Relies on `IndexMap::get`: the value stored under a key.
#[verifier::external_body]
fn map_get<'a>(m: &'a IndexMap<Id, Story>, key: Id) -> (r: Option<&'a Story>)
    ensures
        key_pos(map_entries(*m), key) >= 0 ==> r == Some(
            &map_entries(*m)[key_pos(map_entries(*m), key)].1,
        ),
        key_pos(map_entries(*m), key) < 0 ==> r is None,
{
    m.get(&key)
}

/// Relies on `IndexMap::insert`: an existing key keeps its position and gets the new value;
/// a new key goes last.
#[verifier::external_body]
fn map_insert(m: &mut IndexMap<Id, Story>, key: Id, value: Story) -> (r: Option<Story>)
    ensures
        map_entries(*final(m)) == insert_entry(map_entries(*old(m)), key, value),
        key_pos(map_entries(*old(m)), key) >= 0 ==> r == Some(
            map_entries(*old(m))[key_pos(map_entries(*old(m)), key)].1,
        ),
        key_pos(map_entries(*old(m)), key) < 0 ==> r is None,
{
    m.insert(key, value)
}

/// Relies on `IndexMap::shift_remove`: the entry is removed and the ones after it shift down,
/// keeping their order.
#[verifier::external_body]
fn map_shift_remove(m: &mut IndexMap<Id, Story>, key: Id) -> (r: Option<Story>)
    ensures
        map_entries(*final(m)) == remove_entry(map_entries(*old(m)), key),
        key_pos(map_entries(*old(m)), key) >= 0 ==> r == Some(
            map_entries(*old(m))[key_pos(map_entries(*old(m)), key)].1,
        ),
        key_pos(map_entries(*old(m)), key) < 0 ==> r is None,
{
    m.shift_remove(&key)
}

/// The position of the entry with key `k`, or `-1` when there is none.
pub open spec fn key_pos(s: Seq<(Id, Story)>, k: Id) -> int
    decreases s.len(),
{
    if s.len() == 0 {
        -1
    } else if s.last().0 == k {
        s.len() - 1
    } else {
        key_pos(s.drop_last(), k)
    }
}

/// No two entries share a key.
pub open spec fn distinct_keys(s: Seq<(Id, Story)>) -> bool {
    forall|i: int, j: int| 0 <= i < j < s.len() ==> s[i].0 != s[j].0
}

/// The keys of the entries, in order.
pub open spec fn keys_of(s: Seq<(Id, Story)>) -> Seq<Id> {
    s.map_values(|e: (Id, Story)| e.0)
}

/// The stories of the entries, in order.
pub open spec fn values_of(s: Seq<(Id, Story)>) -> Seq<Story> {
    s.map_values(|e: (Id, Story)| e.1)
}

/// The entries after inserting `v` under `k`: in place if `k` is present, last otherwise.
pub open spec fn insert_entry(s: Seq<(Id, Story)>, k: Id, v: Story) -> Seq<(Id, Story)> {
    if key_pos(s, k) >= 0 {
        s.update(key_pos(s, k), (k, v))
    } else {
        s.push((k, v))
    }
}

/// The entries after removing the one with key `k`, if any, keeping the order of the rest.
pub open spec fn remove_entry(s: Seq<(Id, Story)>, k: Id) -> Seq<(Id, Story)> {
    if key_pos(s, k) >= 0 {
        s.remove(key_pos(s, k))
    } else {
        s
    }
}

/// The entries after removing each key of `ids` in turn.
pub open spec fn remove_all(s: Seq<(Id, Story)>, ids: Seq<Id>) -> Seq<(Id, Story)>
    decreases ids.len(),
{
    if ids.len() == 0 {
        s
    } else {
        remove_entry(remove_all(s, ids.drop_last()), ids.last())
    }
}

/// The entries built from a list of stories, each keyed by its ID and inserted in turn: a
/// later story with an ID already seen replaces the value but keeps the first position.
pub open spec fn entries_from_records(records: Seq<Story>) -> Seq<(Id, Story)>
    decreases records.len(),
{
    if records.len() == 0 {
        Seq::empty()
    } else {
        insert_entry(
            entries_from_records(records.drop_last()),
            records.last().id,
            records.last(),
        )
    }
}

/// `key_pos` finds the entry with the key, and only where there is one.
pub proof fn lemma_key_pos(s: Seq<(Id, Story)>, k: Id)
    ensures
        -1 <= key_pos(s, k) < s.len(),
        key_pos(s, k) >= 0 ==> s[key_pos(s, k)].0 == k,
        key_pos(s, k) < 0 <==> forall|i: int| 0 <= i < s.len() ==> s[i].0 != k,
        distinct_keys(s) ==> forall|i: int|
            0 <= i < s.len() && s[i].0 == k ==> i == key_pos(s, k),
    decreases s.len(),
{
    if s.len() > 0 {
        lemma_key_pos(s.drop_last(), k);
        if s.last().0 != k {
            assert forall|i: int| 0 <= i < s.len() - 1 implies s[i] == s.drop_last()[i] by {}
        }
    }
}

/// Loading the stories of a ledger whose stories have distinct IDs gives back entries keyed by
/// those IDs, in the same order.
proof fn lemma_records_of_distinct_ids(records: Seq<Story>)
    requires
        forall|i: int, j: int|
            0 <= i < j < records.len() ==> records[i].id != records[j].id,
    ensures
        entries_from_records(records) == records.map_values(|r: Story| (r.id, r)),
    decreases records.len(),
{
    if records.len() > 0 {
        let prefix = records.drop_last();
        lemma_records_of_distinct_ids(prefix);
        let s = entries_from_records(prefix);
        lemma_key_pos(s, records.last().id);
        assert forall|i: int| 0 <= i < s.len() implies s[i].0 != records.last().id by {
            assert(s[i].0 == prefix[i].id);
            assert(prefix[i] == records[i]);
        }
        assert(entries_from_records(records) =~= records.map_values(|r: Story| (r.id, r)));
    }
}

/// Saving a ledger and loading it back gives the same stories in the same order, provided
/// that no two stored stories share an ID.
pub proof fn lemma_save_load_round_trip(entries: Seq<(Id, Story)>)
    requires
        forall|i: int, j: int|
            0 <= i < j < entries.len() ==> entries[i].1.id != entries[j].1.id,
    ensures
        values_of(entries_from_records(values_of(entries))) == values_of(entries),
{
    let vs = values_of(entries);
    lemma_records_of_distinct_ids(vs);
    assert(values_of(vs.map_values(|r: Story| (r.id, r))) =~= vs);
}

/// Every entry is stored under the ID of its story.
pub open spec fn keyed_by_id(s: Seq<(Id, Story)>) -> bool {
    forall|i: int| 0 <= i < s.len() ==> #[trigger] s[i].0 == s[i].1.id
}

/// Inserting a story under its own ID keeps the keys distinct and every entry under the ID of
/// its story.
pub proof fn lemma_insert_keeps_ledger_valid(s: Seq<(Id, Story)>, v: Story)
    ensures
        distinct_keys(s) ==> distinct_keys(insert_entry(s, v.id, v)),
        keyed_by_id(s) ==> keyed_by_id(insert_entry(s, v.id, v)),
{
    lemma_key_pos(s, v.id);
}

/// Removing an entry keeps the keys distinct and every entry under the ID of its story.
pub proof fn lemma_remove_keeps_ledger_valid(s: Seq<(Id, Story)>, k: Id)
    ensures
        distinct_keys(s) ==> distinct_keys(remove_entry(s, k)),
        keyed_by_id(s) ==> keyed_by_id(remove_entry(s, k)),
{
    lemma_key_pos(s, k);
    if key_pos(s, k) >= 0 {
        let p = key_pos(s, k);
        let t = s.remove(p);
        assert forall|i: int| 0 <= i < t.len() implies t[i] == (if i < p {
            s[i]
        } else {
            s[i + 1]
        }) by {}
    }
}

/// The entries loaded from any list of stories have distinct keys, each the ID of its story.
pub proof fn lemma_loaded_entries_valid(records: Seq<Story>)
    ensures
        distinct_keys(entries_from_records(records)),
        keyed_by_id(entries_from_records(records)),
    decreases records.len(),
{
    if records.len() > 0 {
        lemma_loaded_entries_valid(records.drop_last());
        lemma_insert_keeps_ledger_valid(
            entries_from_records(records.drop_last()),
            records.last(),
        );
    }
}

/// Saving a ledger whose keys are distinct and each the ID of its story, and loading it back,
/// gives the same entries: the same keys and stories, in the same order.
pub proof fn lemma_save_load_round_trip_entries(entries: Seq<(Id, Story)>)
    requires
        distinct_keys(entries),
        keyed_by_id(entries),
    ensures
        entries_from_records(values_of(entries)) == entries,
{
    let vs = values_of(entries);
    assert forall|i: int, j: int| 0 <= i < j < vs.len() implies vs[i].id != vs[j].id by {
        assert(entries[i].0 == entries[i].1.id);
        assert(entries[j].0 == entries[j].1.id);
    }
    lemma_records_of_distinct_ids(vs);
    let keyed = vs.map_values(|r: Story| (r.id, r));
    assert forall|i: int| 0 <= i < entries.len() implies #[trigger] keyed[i] == entries[i] by {
        assert(entries[i].0 == entries[i].1.id);
    }
    assert(keyed =~= entries);
}

/// Struct to handle the loading and saving of the ledger of tracked stories.
#[derive(Debug)]
pub struct StoryData {
    path: String,
    data: IndexMap<Id, Story>,
}

impl StoryData {
    /// The entries of the ledger, in iteration order.
    pub closed spec fn entries(&self) -> Seq<(Id, Story)> {
        map_entries(self.data)
    }

    /// The path of the backing file.
    pub closed spec fn spec_path(&self) -> Seq<char> {
        self.path@
    }

    /// The IDs of the ledger, in iteration order.
    pub open spec fn spec_keys(&self) -> Seq<Id> {
        keys_of(self.entries())
    }

    /// Constructs an empty ledger backed by the file at `path`.
    pub fn new(path: &str) -> (r: StoryData)
        ensures
            r.entries() == Seq::<(Id, Story)>::empty(),
            r.spec_path() == path@,
    {
        StoryData { path: path.to_owned(), data: map_new() }
    }

    /// The path of the backing file.
    pub fn path(&self) -> (r: &str)
        ensures
            r@ == self.spec_path(),
    {
        self.path.as_str()
    }

    /// The number of tracked stories.
    pub fn len(&self) -> (r: usize)
        ensures
            r == self.entries().len(),
    {
        map_len(&self.data)
    }

    /// Whether no story is tracked.
    pub fn is_empty(&self) -> (r: bool)
        ensures
            r <==> self.entries().len() == 0,
    {
        self.len() == 0
    }

    /// The entry at a position of the iteration order.
    pub fn get_index(&self, index: usize) -> (r: Option<(Id, &Story)>)
        ensures
            index < self.entries().len() ==> r == Some(
                (self.entries()[index as int].0, &self.entries()[index as int].1),
            ),
            index >= self.entries().len() ==> r is None,
    {
        map_get_index(&self.data, index)
    }

    /// The story stored under `id`.
    pub fn get(&self, id: Id) -> (r: Option<&Story>)
        ensures
            key_pos(self.entries(), id) >= 0 ==> r == Some(
                &self.entries()[key_pos(self.entries(), id)].1,
            ),
            key_pos(self.entries(), id) < 0 ==> r is None,
            r is Some <==> self.spec_keys().contains(id),
    {
        proof {
            lemma_key_pos(self.entries(), id);
            if key_pos(self.entries(), id) >= 0 {
                assert(self.spec_keys()[key_pos(self.entries(), id)] == id);
            }
        }
        map_get(&self.data, id)
    }

    /// Whether a story is stored under `id`.
    pub fn contains_key(&self, id: Id) -> (r: bool)
        ensures
            r <==> self.spec_keys().contains(id),
    {
        self.get(id).is_some()
    }

    /// Stores `story` under `id`: an existing entry is updated in place, a new one goes last.
    /// Returns the value that was replaced.
    pub fn insert(&mut self, id: Id, story: Story) -> (r: Option<Story>)
        ensures
            story.id == id && distinct_keys(old(self).entries()) ==> distinct_keys(
                final(self).entries(),
            ),
            story.id == id && keyed_by_id(old(self).entries()) ==> keyed_by_id(
                final(self).entries(),
            ),
            final(self).entries() == insert_entry(old(self).entries(), id, story),
            final(self).spec_path() == old(self).spec_path(),
            key_pos(old(self).entries(), id) >= 0 ==> r == Some(
                old(self).entries()[key_pos(old(self).entries(), id)].1,
            ),
            key_pos(old(self).entries(), id) < 0 ==> r is None,
    {
        proof {
            if story.id == id {
                lemma_insert_keeps_ledger_valid(self.entries(), story);
            }
        }
        map_insert(&mut self.data, id, story)
    }

    /// Removes the entry stored under `id`, shifting the ones after it so that their order is
    /// kept. Returns the removed value.
    pub fn shift_remove(&mut self, id: Id) -> (r: Option<Story>)
        ensures
            distinct_keys(old(self).entries()) ==> distinct_keys(final(self).entries()),
            keyed_by_id(old(self).entries()) ==> keyed_by_id(final(self).entries()),
            final(self).entries() == remove_entry(old(self).entries(), id),
            final(self).spec_path() == old(self).spec_path(),
            key_pos(old(self).entries(), id) >= 0 ==> r == Some(
                old(self).entries()[key_pos(old(self).entries(), id)].1,
            ),
            key_pos(old(self).entries(), id) < 0 ==> r is None,
    {
        proof {
            lemma_remove_keeps_ledger_valid(self.entries(), id);
        }
        map_shift_remove(&mut self.data, id)
    }

    /// The IDs of the tracked stories, in order.
    pub fn keys(&self) -> (r: Vec<Id>)
        ensures
            r@ == self.spec_keys(),
    {
        let n = self.len();
        let mut out: Vec<Id> = Vec::new();
        let mut i: usize = 0;
        while i < n
            invariant
                n == self.entries().len(),
                i <= n,
                out@ == keys_of(self.entries()).take(i as int),
            decreases n - i,
        {
            let (k, _) = self.get_index(i).unwrap();
            out.push(k);
            i += 1;
            assert(out@ =~= keys_of(self.entries()).take(i as int));
        }
        assert(out@ =~= keys_of(self.entries()));
        out
    }

    /// Copies of the tracked stories, in order: what is written to the backing file.
    pub fn values(&self) -> (r: Vec<Story>)
        ensures
            r@ == values_of(self.entries()),
    {
        let n = self.len();
        let mut out: Vec<Story> = Vec::new();
        let mut i: usize = 0;
        while i < n
            invariant
                n == self.entries().len(),
                i <= n,
                out@ == values_of(self.entries()).take(i as int),
            decreases n - i,
        {
            let (_, story) = self.get_index(i).unwrap();
            out.push(story.duplicate());
            i += 1;
            assert(out@ =~= values_of(self.entries()).take(i as int));
        }
        assert(out@ =~= values_of(self.entries()));
        out
    }

    /// Replaces the tracked stories with `records` read from the backing file, each keyed by
    /// its ID; a later record with an ID already seen replaces the value but keeps the first
    /// position.
    pub fn load_records(&mut self, records: Vec<Story>)
        ensures
            final(self).entries() == entries_from_records(records@),
            final(self).spec_path() == old(self).spec_path(),
            distinct_keys(final(self).entries()),
            keyed_by_id(final(self).entries()),
    {
        proof {
            lemma_loaded_entries_valid(records@);
        }
        let mut data = map_new();
        let mut i: usize = 0;
        while i < records.len()
            invariant
                i <= records.len(),
                map_entries(data) == entries_from_records(records@.take(i as int)),
            decreases records.len() - i,
        {
            let story = records[i].duplicate();
            proof {
                assert(records@.take(i + 1).drop_last() =~= records@.take(i as int));
            }
            map_insert(&mut data, story.id, story);
            i += 1;
        }
        assert(records@.take(i as int) =~= records@);
        self.data = data;
    }
}

/// Removes each of `ids` in turn from the ledger, returning for each the story that was
/// removed, or `None` where no story had that ID.
pub fn untrack(story_data: &mut StoryData, ids: &Vec<Id>) -> (removed: Vec<Option<Story>>)
    ensures
        final(story_data).entries() == remove_all(old(story_data).entries(), ids@),
        final(story_data).spec_path() == old(story_data).spec_path(),
        removed.len() == ids.len(),
        forall|i: int|
            0 <= i < ids.len() ==> (#[trigger] removed[i] is Some <==> keys_of(
                remove_all(old(story_data).entries(), ids@.take(i)),
            ).contains(ids[i])),
{
    let mut removed: Vec<Option<Story>> = Vec::new();
    let mut i: usize = 0;
    while i < ids.len()
        invariant
            i <= ids.len(),
            removed.len() == i,
            story_data.entries() == remove_all(old(story_data).entries(), ids@.take(i as int)),
            story_data.spec_path() == old(story_data).spec_path(),
            forall|j: int|
                0 <= j < i ==> (#[trigger] removed[j] is Some <==> keys_of(
                    remove_all(old(story_data).entries(), ids@.take(j)),
                ).contains(ids[j])),
        decreases ids.len() - i,
    {
        let id = ids[i];
        proof {
            let s = story_data.entries();
            lemma_key_pos(s, id);
            if key_pos(s, id) >= 0 {
                assert(keys_of(s)[key_pos(s, id)] == id);
            } else {
                assert(!keys_of(s).contains(id));
            }
            assert(ids@.take(i + 1).drop_last() =~= ids@.take(i as int));
        }
        let r = story_data.shift_remove(id);
        removed.push(r);
        i += 1;
    }
    assert(ids@.take(ids.len() as int) =~= ids@);
    removed
}

} // verus!

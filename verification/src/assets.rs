//! The images that a document embeds, by their path inside the document.

use vstd::prelude::*;

use crate::paths::chars_of;
use crate::text::{
    lemma_text_less_irreflexive, lemma_text_less_total, lemma_text_less_transitive, text_less,
    text_less_exec,
};

verus! {

/// The map that a list of (key, bytes) entries stands for: a later entry of a
/// key wins over an earlier one.
pub open spec fn entries_map(entries: Seq<(Seq<char>, Seq<u8>)>) -> Map<Seq<char>, Seq<u8>>
    decreases entries.len(),
{
    if entries.len() == 0 {
        Map::empty()
    } else {
        entries_map(entries.drop_last()).insert(entries.last().0, entries.last().1)
    }
}

/// The keys of the entries increase strictly, in the order of `String`.
pub open spec fn keys_increasing(entries: Seq<(Seq<char>, Seq<u8>)>) -> bool {
    forall|i: int, j: int|
        0 <= i < j < entries.len() ==> text_less(#[trigger] entries[i].0, #[trigger] entries[j].0)
}

proof fn lemma_increasing_distinct(entries: Seq<(Seq<char>, Seq<u8>)>)
    requires
        keys_increasing(entries),
    ensures
        keys_distinct(entries),
{
    assert forall|i: int, j: int|
        0 <= i < entries.len() && 0 <= j < entries.len() && i != j implies #[trigger] entries[i].0
        != #[trigger] entries[j].0 by {
        lemma_text_less_irreflexive(entries[i].0);
        if i < j {
            assert(text_less(entries[i].0, entries[j].0));
        } else {
            assert(text_less(entries[j].0, entries[i].0));
        }
    }
}

proof fn lemma_entries_map_insert_at(
    entries: Seq<(Seq<char>, Seq<u8>)>,
    p: int,
    key: Seq<char>,
    value: Seq<u8>,
)
    requires
        keys_distinct(entries),
        0 <= p <= entries.len(),
        forall|j: int| 0 <= j < entries.len() ==> #[trigger] entries[j].0 != key,
    ensures
        keys_distinct(entries.insert(p, (key, value))),
        entries_map(entries.insert(p, (key, value))) == entries_map(entries).insert(key, value),
{
    let new = entries.insert(p, (key, value));
    assert forall|a: int, b: int|
        0 <= a < new.len() && 0 <= b < new.len() && a != b implies #[trigger] new[a].0
        != #[trigger] new[b].0 by {
        if a < p {
            assert(new[a] == entries[a]);
        } else if a > p {
            assert(new[a] == entries[a - 1]);
        }
        if b < p {
            assert(new[b] == entries[b]);
        } else if b > p {
            assert(new[b] == entries[b - 1]);
        }
    }
    let lhs = entries_map(new);
    let rhs = entries_map(entries).insert(key, value);
    assert forall|k: Seq<char>| lhs.contains_key(k) <==> rhs.contains_key(k) by {
        lemma_entries_map_domain(new, k);
        lemma_entries_map_domain(entries, k);
        if exists|j: int| 0 <= j < entries.len() && #[trigger] entries[j].0 == k {
            let j = choose|j: int| 0 <= j < entries.len() && #[trigger] entries[j].0 == k;
            if j < p {
                assert(new[j].0 == k);
            } else {
                assert(new[j + 1].0 == k);
            }
        }
        assert(new[p].0 == key);
        if exists|j: int| 0 <= j < new.len() && #[trigger] new[j].0 == k {
            let j = choose|j: int| 0 <= j < new.len() && #[trigger] new[j].0 == k;
            if j < p {
                assert(entries[j].0 == k);
            } else if j > p {
                assert(entries[j - 1].0 == k);
            }
        }
    }
    assert forall|k: Seq<char>| lhs.contains_key(k) implies lhs[k] == rhs[k] by {
        lemma_entries_map_domain(new, k);
        let j = choose|j: int| 0 <= j < new.len() && #[trigger] new[j].0 == k;
        lemma_entries_map_value(new, j);
        if j < p {
            assert(new[j] == entries[j]);
            lemma_entries_map_value(entries, j);
        } else if j > p {
            assert(new[j] == entries[j - 1]);
            lemma_entries_map_value(entries, j - 1);
        }
    }
    assert(lhs =~= rhs);
}

/// No key occurs twice among the entries.
pub open spec fn keys_distinct(entries: Seq<(Seq<char>, Seq<u8>)>) -> bool {
    forall|i: int, j: int|
        0 <= i < entries.len() && 0 <= j < entries.len() && i != j ==> #[trigger] entries[i].0
            != #[trigger] entries[j].0
}

proof fn lemma_entries_map_domain(entries: Seq<(Seq<char>, Seq<u8>)>, k: Seq<char>)
    ensures
        entries_map(entries).contains_key(k) <==> exists|i: int|
            0 <= i < entries.len() && #[trigger] entries[i].0 == k,
    decreases entries.len(),
{
    if entries.len() > 0 {
        let init = entries.drop_last();
        lemma_entries_map_domain(init, k);
        if exists|i: int| 0 <= i < init.len() && #[trigger] init[i].0 == k {
            let i = choose|i: int| 0 <= i < init.len() && #[trigger] init[i].0 == k;
            assert(entries[i].0 == k);
        }
        if exists|i: int| 0 <= i < entries.len() && #[trigger] entries[i].0 == k {
            let i = choose|i: int| 0 <= i < entries.len() && #[trigger] entries[i].0 == k;
            if i < entries.len() - 1 {
                assert(init[i].0 == k);
            }
        }
    }
}

proof fn lemma_entries_map_value(entries: Seq<(Seq<char>, Seq<u8>)>, i: int)
    requires
        keys_distinct(entries),
        0 <= i < entries.len(),
    ensures
        entries_map(entries).contains_key(entries[i].0),
        entries_map(entries)[entries[i].0] == entries[i].1,
    decreases entries.len(),
{
    let init = entries.drop_last();
    if i < entries.len() - 1 {
        assert(keys_distinct(init)) by {
            assert forall|a: int, b: int|
                0 <= a < init.len() && 0 <= b < init.len() && a != b implies #[trigger] init[a].0
                != #[trigger] init[b].0 by {
                assert(init[a] == entries[a] && init[b] == entries[b]);
            }
        }
        lemma_entries_map_value(init, i);
        assert(init[i] == entries[i]);
        assert(entries.last().0 != entries[i].0);
    }
}

proof fn lemma_entries_map_update(
    entries: Seq<(Seq<char>, Seq<u8>)>,
    i: int,
    value: Seq<u8>,
)
    requires
        keys_distinct(entries),
        0 <= i < entries.len(),
    ensures
        keys_distinct(entries.update(i, (entries[i].0, value))),
        entries_map(entries.update(i, (entries[i].0, value))) == entries_map(entries).insert(
            entries[i].0,
            value,
        ),
{
    let k = entries[i].0;
    let updated = entries.update(i, (k, value));
    assert forall|a: int, b: int|
        0 <= a < updated.len() && 0 <= b < updated.len() && a != b implies #[trigger] updated[a].0
        != #[trigger] updated[b].0 by {
        assert(updated[a].0 == entries[a].0 && updated[b].0 == entries[b].0);
    }
    let lhs = entries_map(updated);
    let rhs = entries_map(entries).insert(k, value);
    assert forall|key: Seq<char>| lhs.contains_key(key) <==> rhs.contains_key(key) by {
        lemma_entries_map_domain(updated, key);
        lemma_entries_map_domain(entries, key);
        if exists|j: int| 0 <= j < entries.len() && #[trigger] entries[j].0 == key {
            let j = choose|j: int| 0 <= j < entries.len() && #[trigger] entries[j].0 == key;
            assert(updated[j].0 == key);
        }
        if exists|j: int| 0 <= j < updated.len() && #[trigger] updated[j].0 == key {
            let j = choose|j: int| 0 <= j < updated.len() && #[trigger] updated[j].0 == key;
            assert(entries[j].0 == key);
        }
    }
    assert forall|key: Seq<char>| lhs.contains_key(key) implies lhs[key] == rhs[key] by {
        lemma_entries_map_domain(updated, key);
        let j = choose|j: int| 0 <= j < updated.len() && #[trigger] updated[j].0 == key;
        lemma_entries_map_value(updated, j);
        if j != i {
            lemma_entries_map_value(entries, j);
            assert(updated[j] == entries[j]);
        }
    }
    assert(lhs =~= rhs);
}

/// A map from paths inside a document to the bytes stored there.
#[derive(Debug)]
pub struct AssetMap {
    entries: Vec<(String, Vec<u8>)>,
}

impl AssetMap {
    /// The entries, as (path, bytes), in the order of their paths.
    pub closed spec fn entries_spec(&self) -> Seq<(Seq<char>, Seq<u8>)> {
        self.entries@.map_values(|e: (String, Vec<u8>)| (e.0@, e.1@))
    }

    /// The invariant: the paths increase strictly, so no path occurs twice.
    pub closed spec fn wf(&self) -> bool {
        keys_increasing(self.entries_spec()) && keys_distinct(self.entries_spec())
    }

    #[verifier::type_invariant]
    spec fn inv(self) -> bool {
        self.wf()
    }

    /// The number of paths.
    pub closed spec fn len_spec(&self) -> nat {
        self.entries@.len()
    }
}

impl View for AssetMap {
    type V = Map<Seq<char>, Seq<u8>>;

    closed spec fn view(&self) -> Map<Seq<char>, Seq<u8>> {
        entries_map(self.entries_spec())
    }
}

impl AssetMap {
    /// The empty map.
    pub fn new() -> (r: Self)
        ensures
            r@ == Map::<Seq<char>, Seq<u8>>::empty(),
            r.len_spec() == 0,
    {
        let r = AssetMap { entries: Vec::new() };
        assert(r.entries_spec() =~= seq![]);
        r
    }

    /// The number of paths: as many as the domain of the map holds.
    pub fn len(&self) -> (r: usize)
        ensures
            r == self.len_spec(),
            r == self@.dom().len(),
    {
        proof {
            use_type_invariant(self);
            self.lemma_len();
        }
        self.entries.len()
    }

    proof fn lemma_len(&self)
        requires
            self.wf(),
        ensures
            self@.dom().finite(),
            self@.dom().len() == self.len_spec(),
    {
        lemma_distinct_entries_len(self.entries_spec());
    }

    fn find(&self, key: &String) -> (r: Option<usize>)
        ensures
            r matches Some(i) ==> i < self.entries@.len() && self.entries_spec()[i as int].0
                == key@,
            r is None ==> !self@.contains_key(key@),
    {
        let n = self.entries.len();
        for i in 0..n
            invariant
                n == self.entries@.len(),
                forall|j: int| 0 <= j < i ==> #[trigger] self.entries_spec()[j].0 != key@,
        {
            if self.entries[i].0 == *key {
                return Some(i);
            }
        }
        proof {
            lemma_entries_map_domain(self.entries_spec(), key@);
        }
        None
    }

    /// Whether `key` has bytes.
    pub fn contains_key(&self, key: &String) -> (r: bool)
        ensures
            r == self@.contains_key(key@),
    {
        match self.find(key) {
            Some(i) => {
                proof {
                    use_type_invariant(self);
                    lemma_entries_map_value(self.entries_spec(), i as int);
                }
                true
            },
            None => false,
        }
    }

    /// The bytes at `key`, if any.
    pub fn get(&self, key: &String) -> (r: Option<&Vec<u8>>)
        ensures
            r is Some <==> self@.contains_key(key@),
            r matches Some(v) ==> v@ == self@[key@],
    {
        match self.find(key) {
            Some(i) => {
                proof {
                    use_type_invariant(self);
                    lemma_entries_map_value(self.entries_spec(), i as int);
                }
                Some(&self.entries[i].1)
            },
            None => None,
        }
    }

    /// Puts `value` at `key`; gives back the bytes that were there before, if any.
    pub fn insert(&mut self, key: String, value: Vec<u8>) -> (r: Option<Vec<u8>>)
        ensures
            final(self)@ == old(self)@.insert(key@, value@),
            final(self).len_spec() == if old(self)@.contains_key(key@) {
                old(self).len_spec()
            } else {
                old(self).len_spec() + 1
            },
            r is Some <==> old(self)@.contains_key(key@),
            r matches Some(v) ==> v@ == old(self)@[key@],
    {
        proof {
            use_type_invariant(&*self);
        }
        let ghost old_entries = self.entries_spec();
        let key_chars = chars_of(key.as_str());
        let n = self.entries.len();
        let mut p: usize = 0;
        while p < n
            invariant
                n == self.entries@.len(),
                old_entries == self.entries_spec(),
                key_chars@ == key@,
                p <= n,
                forall|j: int| 0 <= j < p ==> text_less(#[trigger] old_entries[j].0, key@),
            ensures
                p <= n,
                forall|j: int| 0 <= j < p ==> text_less(#[trigger] old_entries[j].0, key@),
                p < n ==> !text_less(old_entries[p as int].0, key@),
            decreases n - p,
        {
            let here = chars_of(self.entries[p].0.as_str());
            assert(here@ == old_entries[p as int].0);
            if !text_less_exec(&here, &key_chars) {
                break;
            }
            p = p + 1;
        }
        if p < n && self.entries[p].0 == key {
            proof {
                lemma_entries_map_value(old_entries, p as int);
                lemma_entries_map_update(old_entries, p as int, value@);
            }
            let mut entries: Vec<(String, Vec<u8>)> = Vec::new();
            std::mem::swap(&mut entries, &mut self.entries);
            let (k, previous) = entries.remove(p);
            entries.insert(p, (k, value));
            proof {
                let new_entries = entries@.map_values(|e: (String, Vec<u8>)| (e.0@, e.1@));
                assert(new_entries =~= old_entries.update(p as int, (old_entries[p as int].0, value@)));
                assert forall|i: int, j: int|
                    0 <= i < j < new_entries.len() implies text_less(
                    #[trigger] new_entries[i].0,
                    #[trigger] new_entries[j].0,
                ) by {
                    assert(new_entries[i].0 == old_entries[i].0);
                    assert(new_entries[j].0 == old_entries[j].0);
                }
                lemma_distinct_entries_len(old_entries);
                lemma_distinct_entries_len(new_entries);
            }
            self.entries = entries;
            Some(previous)
        } else {
            let ghost k = key@;
            let ghost v = value@;
            proof {
                assert forall|j: int| 0 <= j < old_entries.len() implies #[trigger] old_entries[j].0
                    != k by {
                    lemma_text_less_irreflexive(k);
                    if j >= p {
                        lemma_text_less_total(old_entries[p as int].0, k);
                        assert(text_less(k, old_entries[p as int].0));
                        if j > p {
                            assert(text_less(old_entries[p as int].0, old_entries[j].0));
                            lemma_text_less_transitive(k, old_entries[p as int].0, old_entries[j].0);
                        }
                    }
                }
                lemma_entries_map_domain(old_entries, k);
                lemma_entries_map_insert_at(old_entries, p as int, k, v);
            }
            let mut entries: Vec<(String, Vec<u8>)> = Vec::new();
            std::mem::swap(&mut entries, &mut self.entries);
            entries.insert(p, (key, value));
            proof {
                let new_entries = entries@.map_values(|e: (String, Vec<u8>)| (e.0@, e.1@));
                assert(new_entries =~= old_entries.insert(p as int, (k, v)));
                assert forall|i: int, j: int|
                    0 <= i < j < new_entries.len() implies text_less(
                    #[trigger] new_entries[i].0,
                    #[trigger] new_entries[j].0,
                ) by {
                    if i < p && j < p {
                        assert(new_entries[i] == old_entries[i] && new_entries[j] == old_entries[j]);
                    } else if i < p && j == p {
                        assert(new_entries[i] == old_entries[i]);
                    } else if i < p {
                        assert(new_entries[i] == old_entries[i] && new_entries[j] == old_entries[j - 1]);
                        assert(text_less(old_entries[i].0, k));
                        lemma_text_less_total(old_entries[p as int].0, k);
                        assert(text_less(k, old_entries[p as int].0));
                        if j - 1 > p {
                            assert(text_less(old_entries[p as int].0, old_entries[j - 1].0));
                            lemma_text_less_transitive(k, old_entries[p as int].0, old_entries[j - 1].0);
                        }
                        lemma_text_less_transitive(old_entries[i].0, k, old_entries[j - 1].0);
                    } else if i == p {
                        assert(new_entries[j] == old_entries[j - 1]);
                        lemma_text_less_total(old_entries[p as int].0, k);
                        if j - 1 > p {
                            assert(text_less(old_entries[p as int].0, old_entries[j - 1].0));
                            lemma_text_less_transitive(k, old_entries[p as int].0, old_entries[j - 1].0);
                        }
                    } else {
                        assert(new_entries[i] == old_entries[i - 1] && new_entries[j] == old_entries[j - 1]);
                    }
                }
                lemma_distinct_entries_len(old_entries);
                lemma_distinct_entries_len(new_entries);
            }
            self.entries = entries;
            None
        }
    }

    /// The entries, each path once, in the order of their paths (the order in
    /// which a `BTreeMap` hands them out).
    pub fn into_entries(self) -> (r: Vec<(String, Vec<u8>)>)
        ensures
            r@.map_values(|e: (String, Vec<u8>)| (e.0@, e.1@)) == self.entries_spec(),
            keys_increasing(r@.map_values(|e: (String, Vec<u8>)| (e.0@, e.1@))),
            keys_distinct(r@.map_values(|e: (String, Vec<u8>)| (e.0@, e.1@))),
            entries_map(r@.map_values(|e: (String, Vec<u8>)| (e.0@, e.1@))) == self@,
    {
        proof {
            use_type_invariant(&self);
        }
        self.entries
    }
}

proof fn lemma_distinct_entries_len(entries: Seq<(Seq<char>, Seq<u8>)>)
    requires
        keys_distinct(entries),
    ensures
        entries_map(entries).dom().finite(),
        entries_map(entries).dom().len() == entries.len(),
    decreases entries.len(),
{
    if entries.len() > 0 {
        let init = entries.drop_last();
        assert(keys_distinct(init)) by {
            assert forall|a: int, b: int|
                0 <= a < init.len() && 0 <= b < init.len() && a != b implies #[trigger] init[a].0
                != #[trigger] init[b].0 by {
                assert(init[a] == entries[a] && init[b] == entries[b]);
            }
        }
        lemma_distinct_entries_len(init);
        lemma_entries_map_domain(init, entries.last().0);
        if exists|i: int| 0 <= i < init.len() && #[trigger] init[i].0 == entries.last().0 {
            let i = choose|i: int| 0 <= i < init.len() && #[trigger] init[i].0 == entries.last().0;
            assert(entries[i].0 == entries[entries.len() - 1].0);
        }
    }
}

/// A copy of `bytes`.
fn copy_bytes(bytes: &Vec<u8>) -> (r: Vec<u8>)
    ensures
        r@ == bytes@,
{
    let r = bytes.clone();
    assert(r@ =~= bytes@);
    r
}

impl Clone for AssetMap {
    fn clone(&self) -> (r: Self)
        ensures
            r@ == self@,
    {
        proof {
            use_type_invariant(self);
        }
        let mut entries: Vec<(String, Vec<u8>)> = Vec::new();
        let n = self.entries.len();
        for i in 0..n
            invariant
                n == self.entries@.len(),
                self.wf(),
                entries@.map_values(|e: (String, Vec<u8>)| (e.0@, e.1@)) =~= self.entries_spec().take(
                    i as int,
                ),
        {
            let key = self.entries[i].0.clone();
            let bytes = copy_bytes(&self.entries[i].1);
            let ghost prev = entries@.map_values(|e: (String, Vec<u8>)| (e.0@, e.1@));
            assert(key@ == self.entries_spec()[i as int].0);
            assert(bytes@ == self.entries_spec()[i as int].1);
            entries.push((key, bytes));
            assert(entries@.map_values(|e: (String, Vec<u8>)| (e.0@, e.1@)) =~= prev.push(self.entries_spec()[i as int]));
            assert(entries@.map_values(|e: (String, Vec<u8>)| (e.0@, e.1@)) =~= self.entries_spec().take(
                i + 1,
            ));
        }
        assert(self.entries_spec().take(n as int) =~= self.entries_spec());
        AssetMap { entries }
    }
}

impl Default for AssetMap {
    fn default() -> (r: Self)
        ensures
            r@ == Map::<Seq<char>, Seq<u8>>::empty(),
    {
        AssetMap::new()
    }
}

/// A read of a path gives back what the last write there wrote, and a write
/// to one path leaves every other path as it was: when `insert(key, value)`
/// turns `before` into `after`, `get(key)` on `after` gives `value` and `get`
/// of any other path gives what it gave on `before`.
pub proof fn law_read_after_write(
    before: AssetMap,
    after: AssetMap,
    key: Seq<char>,
    value: Seq<u8>,
    other: Seq<char>,
)
    requires
        after@ == before@.insert(key, value),
    ensures
        after@.contains_key(key),
        after@[key] == value,
        other != key ==> (after@.contains_key(other) == before@.contains_key(other)),
        other != key && before@.contains_key(other) ==> after@[other] == before@[other],
{
}

/// The number of paths of a map is the number of paths that it maps: writing
/// a new path adds one to `len`, writing a path that is there keeps `len`.
pub proof fn law_len_after_write(before: AssetMap, after: AssetMap, key: Seq<char>, value: Seq<u8>)
    requires
        before.wf(),
        after.wf(),
        after@ == before@.insert(key, value),
    ensures
        after.len_spec() == if before@.contains_key(key) {
            before.len_spec()
        } else {
            before.len_spec() + 1
        },
{
    before.lemma_len();
    after.lemma_len();
    if before@.contains_key(key) {
        assert(after@.dom() =~= before@.dom());
    } else {
        assert(after@.dom() =~= before@.dom().insert(key));
    }
}

} // verus!

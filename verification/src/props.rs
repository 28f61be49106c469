//! The property map of a node: keyed by property-name text, ordered by key.
//!
//! The entries are held sorted by the lexicographic order of their key text.
//! Assigning a key that is already present overwrites the stored value
//! (replace-on-insert), so iteration order is always by key, never by
//! insertion order — unlike a node's arguments, whose order is the order of
//! construction.

use vstd::prelude::*;

use crate::ast::Value;
use crate::key_order::lemma_text_lt_asymmetric;
use crate::key_order::lemma_text_lt_irreflexive;
use crate::key_order::lemma_text_lt_total;
use crate::key_order::lemma_text_lt_transitive;
use crate::key_order::str_eq;
use crate::key_order::str_lt;
use crate::key_order::text_lt;
use crate::span::Spanned;

verus! {

/// One property: a spanned key and the value assigned to it.
#[derive(Clone, Debug)]
pub struct Property<S> {
    pub name: Spanned<String, S>,
    pub value: Value<S>,
}

/// Entry keys strictly ascend: each key is below every later one, so no key
/// occurs twice.
pub open spec fn entries_sorted<S>(entries: Seq<Property<S>>) -> bool {
    forall|i: int, j: int|
        0 <= i < j < entries.len() ==> text_lt(
            entries[i].name.value@,
            entries[j].name.value@,
        )
}

/// The entry sequence after one keyed assignment: a new key goes to the
/// place the key order gives it; an existing entry for the same key text
/// keeps its stored (first-seen) key and takes the new value.
pub open spec fn entries_insert<S>(
    entries: Seq<Property<S>>,
    name: Spanned<String, S>,
    value: Value<S>,
) -> Seq<Property<S>>
    decreases entries.len(),
{
    if entries.len() == 0 {
        seq![Property { name, value }]
    } else if text_lt(name.value@, entries[0].name.value@) {
        seq![Property { name, value }] + entries
    } else if name.value@ == entries[0].name.value@ {
        seq![Property { name: entries[0].name, value }] + entries.skip(1)
    } else {
        seq![entries[0]] + entries_insert(entries.skip(1), name, value)
    }
}

/// The value stored for the key text `name`, if any.
pub open spec fn entries_lookup<S>(entries: Seq<Property<S>>, name: Seq<char>) -> Option<
    Value<S>,
>
    decreases entries.len(),
{
    if entries.len() == 0 {
        None
    } else if entries[0].name.value@ == name {
        Some(entries[0].value)
    } else {
        entries_lookup(entries.skip(1), name)
    }
}

/// `key` is the inserted key or already occurs in `entries`.
pub open spec fn key_from<S>(entries: Seq<Property<S>>, name: Seq<char>, key: Seq<char>) -> bool {
    key == name || exists|k: int|
        0 <= k < entries.len() && #[trigger] entries[k].name.value@ == key
}

/// Splitting an insertion after a prefix of keys that are all below the
/// inserted key: the prefix is kept as it is.
proof fn lemma_entries_insert_split<S>(
    entries: Seq<Property<S>>,
    i: int,
    name: Spanned<String, S>,
    value: Value<S>,
)
    requires
        0 <= i <= entries.len(),
        forall|j: int| 0 <= j < i ==> text_lt(entries[j].name.value@, name.value@),
    ensures
        entries_insert(entries, name, value) == entries.take(i) + entries_insert(
            entries.skip(i),
            name,
            value,
        ),
    decreases i,
{
    if i == 0 {
        assert(entries.skip(0) =~= entries);
        assert(entries.take(0) + entries_insert(entries, name, value) =~= entries_insert(
            entries,
            name,
            value,
        ));
    } else {
        lemma_text_lt_asymmetric(entries[0].name.value@, name.value@);
        lemma_entries_insert_split(entries.skip(1), i - 1, name, value);
        assert(entries.skip(1).skip(i - 1) =~= entries.skip(i));
        assert(seq![entries[0]] + (entries.skip(1).take(i - 1) + entries_insert(
            entries.skip(i),
            name,
            value,
        )) =~= entries.take(i) + entries_insert(entries.skip(i), name, value));
    }
}

/// Insertion keeps the entries sorted, and brings in no key besides the
/// inserted one.
pub proof fn lemma_entries_insert_sorted<S>(
    entries: Seq<Property<S>>,
    name: Spanned<String, S>,
    value: Value<S>,
)
    requires
        entries_sorted(entries),
    ensures
        entries_sorted(entries_insert(entries, name, value)),
        forall|j: int|
            0 <= j < entries_insert(entries, name, value).len() ==> key_from(
                entries,
                name.value@,
                #[trigger] entries_insert(entries, name, value)[j].name.value@,
            ),
    decreases entries.len(),
{
    let result = entries_insert(entries, name, value);
    if entries.len() == 0 {
        assert(result =~= seq![Property { name, value }]);
    } else if text_lt(name.value@, entries[0].name.value@) {
        assert forall|i: int, j: int| 0 <= i < j < result.len() implies text_lt(
            result[i].name.value@,
            result[j].name.value@,
        ) by {
            if i == 0 && j > 1 {
                lemma_text_lt_transitive(
                    name.value@,
                    entries[0].name.value@,
                    entries[j - 1].name.value@,
                );
            }
        }
    } else if name.value@ == entries[0].name.value@ {
        assert forall|i: int, j: int| 0 <= i < j < result.len() implies text_lt(
            result[i].name.value@,
            result[j].name.value@,
        ) by {
            assert(result[i] == if i == 0 {
                Property { name: entries[0].name, value }
            } else {
                entries.skip(1)[i - 1]
            });
        }
    } else {
        let tail = entries_insert(entries.skip(1), name, value);
        lemma_entries_insert_sorted(entries.skip(1), name, value);
        assert forall|i: int, j: int| 0 <= i < j < result.len() implies text_lt(
            result[i].name.value@,
            result[j].name.value@,
        ) by {
            if i == 0 {
                assert(key_from(entries.skip(1), name.value@, tail[j - 1].name.value@));
                if tail[j - 1].name.value@ == name.value@ {
                    lemma_text_lt_total(name.value@, entries[0].name.value@);
                } else {
                    let k = choose|k: int|
                        0 <= k < entries.skip(1).len() && #[trigger] entries.skip(
                            1,
                        )[k].name.value@ == tail[j - 1].name.value@;
                    assert(text_lt(entries[0].name.value@, entries[k + 1].name.value@));
                }
            }
        }
        assert forall|j: int| 0 <= j < result.len() implies key_from(
            entries,
            name.value@,
            result[j].name.value@,
        ) by {
            if j > 0 {
                assert(key_from(entries.skip(1), name.value@, tail[j - 1].name.value@));
                if tail[j - 1].name.value@ != name.value@ {
                    let k = choose|k: int|
                        0 <= k < entries.skip(1).len() && #[trigger] entries.skip(
                            1,
                        )[k].name.value@ == tail[j - 1].name.value@;
                    assert(entries[k + 1].name.value@ == result[j].name.value@);
                }
            }
        }
    }
}

/// Looking a key up right after assigning it yields the assigned value.
pub proof fn lemma_entries_insert_lookup<S>(
    entries: Seq<Property<S>>,
    name: Spanned<String, S>,
    value: Value<S>,
)
    ensures
        entries_lookup(entries_insert(entries, name, value), name.value@) == Some(value),
    decreases entries.len(),
{
    let result = entries_insert(entries, name, value);
    if entries.len() == 0 {
    } else if text_lt(name.value@, entries[0].name.value@) {
    } else if name.value@ == entries[0].name.value@ {
    } else {
        lemma_text_lt_total(name.value@, entries[0].name.value@);
        lemma_text_lt_asymmetric(entries[0].name.value@, name.value@);
        lemma_entries_insert_lookup(entries.skip(1), name, value);
        assert(result.skip(1) =~= entries_insert(entries.skip(1), name, value));
    }
}

/// A successful lookup names an entry that is really there.
pub proof fn lemma_lookup_finds_entry<S>(entries: Seq<Property<S>>, name: Seq<char>)
    requires
        entries_lookup(entries, name) is Some,
    ensures
        exists|k: int|
            0 <= k < entries.len() && #[trigger] entries[k].name.value@ == name
                && entries[k].value == entries_lookup(entries, name)->Some_0,
    decreases entries.len(),
{
    if entries.len() > 0 && entries[0].name.value@ != name {
        lemma_lookup_finds_entry(entries.skip(1), name);
        let k = choose|k: int|
            0 <= k < entries.skip(1).len() && #[trigger] entries.skip(1)[k].name.value@ == name
                && entries.skip(1)[k].value == entries_lookup(entries.skip(1), name)->Some_0;
        assert(entries[k + 1].name.value@ == name && entries[k + 1].value == entries_lookup(
            entries,
            name,
        )->Some_0);
    }
}

/// A lookup fails exactly when no entry holds the key.
pub proof fn lemma_lookup_none_means_absent<S>(entries: Seq<Property<S>>, name: Seq<char>)
    ensures
        entries_lookup(entries, name) is None <==> (forall|k: int|
            0 <= k < entries.len() ==> entries[k].name.value@ != name),
    decreases entries.len(),
{
    if entries.len() > 0 && entries[0].name.value@ != name {
        lemma_lookup_none_means_absent(entries.skip(1), name);
        if entries_lookup(entries, name) is None {
            assert forall|k: int| 0 <= k < entries.len() implies entries[k].name.value@
                != name by {
                if k > 0 {
                    assert(entries.skip(1)[k - 1] == entries[k]);
                }
            }
        } else {
            let k = choose|k: int|
                0 <= k < entries.skip(1).len() && #[trigger] entries.skip(1)[k].name.value@
                    == name;
            assert(entries[k + 1].name.value@ == name);
        }
    }
}

/// In a sorted entry sequence no key text occurs twice.
pub proof fn lemma_sorted_keys_unique<S>(entries: Seq<Property<S>>)
    requires
        entries_sorted(entries),
    ensures
        forall|i: int, j: int|
            0 <= i < j < entries.len() ==> entries[i].name.value@ != entries[j].name.value@,
{
    assert forall|i: int, j: int|
        0 <= i < j < entries.len() implies entries[i].name.value@
        != entries[j].name.value@ by {
        lemma_text_lt_asymmetric(entries[i].name.value@, entries[j].name.value@);
    }
}

/// Assigning values V1 then V2 to one key is the same as assigning V2 once:
/// the later assignment overwrites the earlier one.
pub proof fn lemma_entries_insert_overwrites<S>(
    entries: Seq<Property<S>>,
    n1: Spanned<String, S>,
    n2: Spanned<String, S>,
    v1: Value<S>,
    v2: Value<S>,
)
    requires
        n1.value@ == n2.value@,
    ensures
        entries_insert(entries_insert(entries, n1, v1), n2, v2) == entries_insert(
            entries,
            n1,
            v2,
        ),
    decreases entries.len(),
{
    let once = entries_insert(entries, n1, v1);
    lemma_text_lt_irreflexive(n1.value@);
    if entries.len() == 0 {
        assert(entries_insert(once, n2, v2) =~= entries_insert(entries, n1, v2));
    } else if text_lt(n1.value@, entries[0].name.value@) {
        assert(once.skip(1) =~= entries);
        assert(entries_insert(once, n2, v2) =~= entries_insert(entries, n1, v2));
    } else if n1.value@ == entries[0].name.value@ {
        assert(once.skip(1) =~= entries.skip(1));
        assert(entries_insert(once, n2, v2) =~= entries_insert(entries, n1, v2));
    } else {
        lemma_text_lt_total(n1.value@, entries[0].name.value@);
        lemma_text_lt_asymmetric(entries[0].name.value@, n1.value@);
        lemma_entries_insert_overwrites(entries.skip(1), n1, n2, v1, v2);
        assert(once.skip(1) =~= entries_insert(entries.skip(1), n1, v1));
        assert(entries_insert(once, n2, v2) =~= entries_insert(entries, n1, v2));
    }
}

/// Assigning values V1 then V2 to one key leaves exactly one entry for that
/// key text, and that entry holds V2.
pub proof fn lemma_insert_twice_single_entry<S>(
    entries: Seq<Property<S>>,
    n1: Spanned<String, S>,
    n2: Spanned<String, S>,
    v1: Value<S>,
    v2: Value<S>,
)
    requires
        entries_sorted(entries),
        n1.value@ == n2.value@,
    ensures
        ({
            let result = entries_insert(entries_insert(entries, n1, v1), n2, v2);
            &&& exists|k: int|
                0 <= k < result.len() && #[trigger] result[k].name.value@ == n2.value@
                    && result[k].value == v2
            &&& forall|i: int, j: int|
                0 <= i < j < result.len() ==> result[i].name.value@ != result[j].name.value@
        }),
{
    let result = entries_insert(entries_insert(entries, n1, v1), n2, v2);
    lemma_entries_insert_overwrites(entries, n1, n2, v1, v2);
    lemma_entries_insert_lookup(entries, n1, v2);
    assert(entries_lookup(result, n2.value@) == Some(v2));
    lemma_lookup_finds_entry(result, n2.value@);
    lemma_entries_insert_sorted(entries, n1, v2);
    lemma_sorted_keys_unique(result);
}

/// Mapping from property-name text to value, ordered by key.
#[derive(Clone, Debug)]
pub struct Properties<S> {
    entries: Vec<Property<S>>,
}

impl<S> View for Properties<S> {
    type V = Seq<Property<S>>;

    closed spec fn view(&self) -> Seq<Property<S>> {
        self.entries@
    }
}

impl<S> Properties<S> {
    /// Well-formed: the entries are strictly sorted by key text.
    pub open spec fn wf(self) -> bool {
        entries_sorted(self@)
    }

    /// An empty property map.
    pub fn new() -> (r: Properties<S>)
        ensures
            r.wf(),
            r@ == Seq::<Property<S>>::empty(),
    {
        Properties { entries: Vec::new() }
    }

    /// How many keys hold a value.
    pub fn len(&self) -> (r: usize)
        ensures
            r == self@.len(),
    {
        self.entries.len()
    }

    /// The entry at position `i` of the key-ordered entries.
    pub fn entry(&self, i: usize) -> (r: &Property<S>)
        requires
            i < self@.len(),
        ensures
            *r == self@[i as int],
    {
        &self.entries[i]
    }

    /// Looks up the value assigned to the key text `name`.
    pub fn get(&self, name: &str) -> (r: Option<&Value<S>>)
        ensures
            (match r {
                Some(v) => entries_lookup(self@, name@) == Some(*v),
                None => entries_lookup(self@, name@) is None,
            }),
    {
        let n = self.entries.len();
        let mut i: usize = 0;
        proof {
            assert(self@.skip(0) =~= self@);
        }
        while i < n
            invariant
                i <= n,
                n == self@.len(),
                entries_lookup(self@, name@) == entries_lookup(self@.skip(i as int), name@),
            decreases n - i,
        {
            assert(self@.skip(i as int)[0] == self@[i as int]);
            if str_eq(self.entries[i].name.value.as_str(), name) {
                return Some(&self.entries[i].value);
            }
            assert(self@.skip(i as int).skip(1) =~= self@.skip(i + 1));
            i += 1;
        }
        assert(self@.skip(n as int).len() == 0);
        None
    }

    /// Assigns `value` to the key `name`, replace-on-insert.
    ///
    /// A new key takes the place the key order gives it; a key that is
    /// already present keeps its stored spanned name and takes the new
    /// value, so the later of two assignments to one key wins.
    pub fn insert(&mut self, name: Spanned<String, S>, value: Value<S>)
        requires
            old(self).wf(),
        ensures
            final(self).wf(),
            final(self)@ == entries_insert(old(self)@, name, value),
    {
        let n = self.entries.len();
        let mut i: usize = 0;
        while i < n && str_lt(self.entries[i].name.value.as_str(), name.value.as_str())
            invariant
                i <= n,
                n == self@.len(),
                *self == *old(self),
                forall|j: int| 0 <= j < i ==> text_lt(self@[j].name.value@, name.value@),
            decreases n - i,
        {
            i += 1;
        }
        proof {
            lemma_entries_insert_split(self@, i as int, name, value);
            lemma_entries_insert_sorted(self@, name, value);
        }
        let ghost prior = self@;
        if i < n {
            assert(prior.skip(i as int)[0] == prior[i as int]);
            if str_eq(self.entries[i].name.value.as_str(), name.value.as_str()) {
                let e = &mut self.entries[i];
                e.value = value;
                proof {
                    lemma_text_lt_irreflexive(name.value@);
                    assert(prior.skip(i as int).skip(1) =~= prior.skip(i as int + 1));
                    assert(self@ =~= prior.take(i as int) + entries_insert(
                        prior.skip(i as int),
                        name,
                        value,
                    ));
                }
                return;
            }
            proof {
                lemma_text_lt_total(prior[i as int].name.value@, name.value@);
            }
        }
        self.entries.insert(i, Property { name, value });
        proof {
            if i < n {
                assert(entries_insert(prior.skip(i as int), name, value) =~= seq![
                    Property { name, value },
                ] + prior.skip(i as int));
            }
            assert(self@ =~= prior.take(i as int) + entries_insert(
                prior.skip(i as int),
                name,
                value,
            ));
        }
    }
}

} // verus!

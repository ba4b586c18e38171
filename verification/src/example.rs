//! `Example`: an untyped, ordered key-value record of field values.
use vstd::prelude::*;
use crate::value::{FieldValue, ValueModel};
use crate::text::{views, str_eq};

verus! {

/// The model of one field: its name and value.
pub type EntryModel = (Seq<char>, ValueModel);

/// The model of an `Example`: its fields in order, and the keys that were
/// marked as inputs, if any were.
pub struct ExampleModel {
    pub entries: Seq<EntryModel>,
    pub input_keys: Option<Seq<Seq<char>>>,
}

/// The models of a sequence of (key, value) pairs.
pub open spec fn entry_models(v: Seq<(String, FieldValue)>) -> Seq<EntryModel> {
    v.map_values(|e: (String, FieldValue)| (e.0@, e.1@))
}

/// The field names, in order.
pub open spec fn keys_of(es: Seq<EntryModel>) -> Seq<Seq<char>> {
    es.map_values(|e: EntryModel| e.0)
}

/// No field name occurs twice.
pub open spec fn distinct_keys(es: Seq<EntryModel>) -> bool {
    forall|i: int, j: int| 0 <= i < es.len() && 0 <= j < es.len() && i != j ==> #[trigger] es[i].0 != #[trigger] es[j].0
}

/// A field named `k` exists.
pub open spec fn has_key(es: Seq<EntryModel>, k: Seq<char>) -> bool {
    exists|i: int| 0 <= i < es.len() && #[trigger] es[i].0 == k
}

/// The position of the field named `k` (meaningful where `has_key`).
pub open spec fn key_index(es: Seq<EntryModel>, k: Seq<char>) -> int {
    choose|i: int| 0 <= i < es.len() && #[trigger] es[i].0 == k
}

/// The value of the field named `k`, if there is one.
pub open spec fn lookup(es: Seq<EntryModel>, k: Seq<char>) -> Option<ValueModel> {
    if has_key(es, k) {
        Some(es[key_index(es, k)].1)
    } else {
        None
    }
}

/// Setting field `k` to `v`: an existing field keeps its place and takes the
/// new value; a new field goes last.
pub open spec fn set_entry(es: Seq<EntryModel>, k: Seq<char>, v: ValueModel) -> Seq<EntryModel> {
    if has_key(es, k) {
        es.update(key_index(es, k), (k, v))
    } else {
        es.push((k, v))
    }
}

/// Removing field `k`, if it exists; the others keep their order.
pub open spec fn remove_entry(es: Seq<EntryModel>, k: Seq<char>) -> Seq<EntryModel> {
    if has_key(es, k) {
        es.remove(key_index(es, k))
    } else {
        es
    }
}

/// Setting the pairs one after another, starting from `es`.
pub open spec fn set_all(es: Seq<EntryModel>, pairs: Seq<EntryModel>) -> Seq<EntryModel>
    decreases pairs.len(),
{
    if pairs.len() == 0 {
        es
    } else {
        set_entry(set_all(es, pairs.drop_last()), pairs.last().0, pairs.last().1)
    }
}

/// The fields that `keys` name, in the order of `keys`, each taken once.
pub open spec fn select_keys(es: Seq<EntryModel>, keys: Seq<Seq<char>>) -> Seq<EntryModel>
    decreases keys.len(),
{
    if keys.len() == 0 {
        Seq::empty()
    } else {
        let prev = select_keys(es, keys.drop_last());
        match lookup(es, keys.last()) {
            Some(v) => set_entry(prev, keys.last(), v),
            None => prev,
        }
    }
}

/// A record of named field values: the inputs and outputs of a task.
///
/// Fields keep the order in which they were first set; a name occurs at most
/// once.  Optionally some keys are marked as the inputs.
#[derive(Debug)]
pub struct Example {
    fields: Vec<(String, FieldValue)>,
    input_keys: Option<Vec<String>>,
}

impl View for Example {
    type V = ExampleModel;

    closed spec fn view(&self) -> ExampleModel {
        ExampleModel {
            entries: entry_models(self.fields@),
            input_keys: match self.input_keys {
                Some(v) => Some(views(v@)),
                None => None,
            },
        }
    }
}

/// The models of pairs with one more pair pushed.
pub proof fn lemma_entry_models_push(v: Seq<(String, FieldValue)>, x: (String, FieldValue))
    ensures
        entry_models(v.push(x)) == entry_models(v).push((x.0@, x.1@)),
{
    assert(entry_models(v.push(x)) =~= entry_models(v).push((x.0@, x.1@)));
}

/// The views of strings with one more pushed.
pub proof fn lemma_views_push(v: Seq<String>, x: String)
    ensures
        views(v.push(x)) == views(v).push(x@),
{
    assert(views(v.push(x)) =~= views(v).push(x@));
}

/// Setting an existing field keeps the names distinct.
pub proof fn lemma_set_entry_distinct(es: Seq<EntryModel>, k: Seq<char>, v: ValueModel)
    requires
        distinct_keys(es),
    ensures
        distinct_keys(set_entry(es, k, v)),
        has_key(set_entry(es, k, v), k),
        lookup(set_entry(es, k, v), k) == Some(v),
        forall|k2: Seq<char>| k2 != k ==> lookup(set_entry(es, k, v), k2) == lookup(es, k2),
        forall|k2: Seq<char>| has_key(set_entry(es, k, v), k2) <==> (k2 == k || has_key(es, k2)),
{
    let r = set_entry(es, k, v);
    if has_key(es, k) {
        let i = key_index(es, k);
        assert(r[i].0 == k);
        assert forall|k2: Seq<char>| has_key(r, k2) <==> (k2 == k || has_key(es, k2)) by {
            if has_key(es, k2) {
                let j = key_index(es, k2);
                if j == i {
                    assert(r[i].0 == k2);
                } else {
                    assert(r[j].0 == k2);
                }
            }
            if has_key(r, k2) {
                let j = key_index(r, k2);
                if j != i {
                    assert(es[j].0 == k2);
                }
            }
        }
        assert forall|k2: Seq<char>| k2 != k implies lookup(r, k2) == lookup(es, k2) by {
            if has_key(es, k2) {
                let j = key_index(es, k2);
                assert(j != i);
                assert(r[j].0 == k2);
                let j2 = key_index(r, k2);
                assert(j2 == j);
            }
        }
        let j = key_index(r, k);
        assert(j == i);
    } else {
        let n = es.len() as int;
        assert(r[n].0 == k);
        assert forall|k2: Seq<char>| has_key(r, k2) <==> (k2 == k || has_key(es, k2)) by {
            if has_key(es, k2) {
                let j = key_index(es, k2);
                assert(r[j].0 == k2);
            }
            if has_key(r, k2) && k2 != k {
                let j = key_index(r, k2);
                assert(j != n);
                assert(es[j].0 == k2);
            }
        }
        assert forall|k2: Seq<char>| k2 != k implies lookup(r, k2) == lookup(es, k2) by {
            if has_key(es, k2) {
                let j = key_index(es, k2);
                assert(r[j].0 == k2);
                let j2 = key_index(r, k2);
                assert(j2 == j);
            }
        }
        let j = key_index(r, k);
        assert(j == n);
    }
}

/// Removing a field keeps the names distinct and drops just that name.
pub proof fn lemma_remove_entry_distinct(es: Seq<EntryModel>, k: Seq<char>)
    requires
        distinct_keys(es),
    ensures
        distinct_keys(remove_entry(es, k)),
        !has_key(remove_entry(es, k), k),
        forall|k2: Seq<char>| k2 != k ==> lookup(remove_entry(es, k), k2) == lookup(es, k2),
{
    let r = remove_entry(es, k);
    if has_key(es, k) {
        let i = key_index(es, k);
        assert forall|a: int, b: int| 0 <= a < r.len() && 0 <= b < r.len() && a != b implies #[trigger] r[a].0 != #[trigger] r[b].0 by {
            let a2 = if a < i { a } else { a + 1 };
            let b2 = if b < i { b } else { b + 1 };
            assert(r[a] == es[a2]);
            assert(r[b] == es[b2]);
        }
        if has_key(r, k) {
            let j = key_index(r, k);
            let j2 = if j < i { j } else { j + 1 };
            assert(r[j] == es[j2]);
        }
        assert forall|k2: Seq<char>| k2 != k implies lookup(r, k2) == lookup(es, k2) by {
            if has_key(es, k2) {
                let j = key_index(es, k2);
                assert(j != i);
                let j2 = if j < i { j } else { j - 1 };
                assert(r[j2] == es[j]);
                let j3 = key_index(r, k2);
                let j4 = if j3 < i { j3 } else { j3 + 1 };
                assert(r[j3] == es[j4]);
            }
            if has_key(r, k2) {
                let j3 = key_index(r, k2);
                let j4 = if j3 < i { j3 } else { j3 + 1 };
                assert(r[j3] == es[j4]);
            }
        }
    }
}

/// Setting pairs with distinct names into an empty example gives them in order.
pub proof fn lemma_set_all_id(pairs: Seq<EntryModel>)
    requires
        distinct_keys(pairs),
    ensures
        set_all(Seq::empty(), pairs) == pairs,
    decreases pairs.len(),
{
    if pairs.len() > 0 {
        let d = pairs.drop_last();
        assert forall|i: int, j: int| 0 <= i < d.len() && 0 <= j < d.len() && i != j implies #[trigger] d[i].0 != #[trigger] d[j].0 by {
            assert(d[i] == pairs[i] && d[j] == pairs[j]);
        }
        lemma_set_all_id(d);
        let k = pairs.last().0;
        if has_key(d, k) {
            let i = key_index(d, k);
            assert(pairs[i].0 == pairs[pairs.len() - 1].0);
        }
        assert(d.push(pairs.last()) =~= pairs);
    }
}

/// Selecting keys keeps the names distinct.
pub proof fn lemma_select_keys_distinct(es: Seq<EntryModel>, keys: Seq<Seq<char>>)
    ensures
        distinct_keys(select_keys(es, keys)),
    decreases keys.len(),
{
    if keys.len() > 0 {
        lemma_select_keys_distinct(es, keys.drop_last());
        match lookup(es, keys.last()) {
            Some(v) => lemma_set_entry_distinct(select_keys(es, keys.drop_last()), keys.last(), v),
            None => {},
        }
    }
}

/// Reading a field back after setting it gives the value set; every other
/// field reads as before; the names present are those before and the one set.
pub proof fn law_get_after_set(es: Seq<EntryModel>, k: Seq<char>, v: ValueModel)
    requires
        distinct_keys(es),
    ensures
        lookup(set_entry(es, k, v), k) == Some(v),
        forall|k2: Seq<char>| k2 != k ==> lookup(set_entry(es, k, v), k2) == lookup(es, k2),
        forall|k2: Seq<char>| has_key(set_entry(es, k, v), k2) <==> (k2 == k || has_key(es, k2)),
        set_entry(es, k, v).len() == if has_key(es, k) { es.len() } else { es.len() + 1 },
{
    lemma_set_entry_distinct(es, k, v);
}

/// After removing a field it is gone; every other field reads as before; the
/// count drops by one where the field was there.
pub proof fn law_remove(es: Seq<EntryModel>, k: Seq<char>)
    requires
        distinct_keys(es),
    ensures
        lookup(remove_entry(es, k), k) is None,
        forall|k2: Seq<char>| k2 != k ==> lookup(remove_entry(es, k), k2) == lookup(es, k2),
        remove_entry(es, k).len() == if has_key(es, k) { es.len() - 1 } else { es.len() as int },
{
    lemma_remove_entry_distinct(es, k);
}

/// The inputs of an example hold exactly the marked keys that it has, each
/// with its value.
pub proof fn law_inputs_are_marked_fields(es: Seq<EntryModel>, keys: Seq<Seq<char>>)
    ensures
        forall|k: Seq<char>| #[trigger] lookup(select_keys(es, keys), k)
            == if keys.contains(k) { lookup(es, k) } else { None },
    decreases keys.len(),
{
    if keys.len() > 0 {
        let d = keys.drop_last();
        law_inputs_are_marked_fields(es, d);
        lemma_select_keys_distinct(es, d);
        let last = keys.last();
        assert forall|k: Seq<char>| #[trigger] lookup(select_keys(es, keys), k)
            == if keys.contains(k) { lookup(es, k) } else { None } by {
            assert(keys.contains(k) <==> (d.contains(k) || k == last)) by {
                if keys.contains(k) {
                    let i = choose|i: int| 0 <= i < keys.len() && keys[i] == k;
                    if i < keys.len() - 1 {
                        assert(d[i] == k);
                    }
                }
                if d.contains(k) {
                    let i = choose|i: int| 0 <= i < d.len() && d[i] == k;
                    assert(keys[i] == k);
                }
                if k == last {
                    assert(keys[keys.len() - 1] == k);
                }
            }
            assert(lookup(select_keys(es, d), k) == if d.contains(k) { lookup(es, k) } else { None });
            match lookup(es, last) {
                Some(v) => {
                    lemma_set_entry_distinct(select_keys(es, d), last, v);
                    assert(select_keys(es, keys) == set_entry(select_keys(es, d), last, v));
                },
                None => {
                    assert(select_keys(es, keys) == select_keys(es, d));
                },
            }
        }
    }
}

impl Example {
    #[verifier::type_invariant]
    spec fn inv(self) -> bool {
        distinct_keys(entry_models(self.fields@))
    }

    /// The position of the field named `key`.
    fn position(&self, key: &str) -> (r: Option<usize>)
        ensures
            match r {
                Some(i) => i < self@.entries.len() && has_key(self@.entries, key@) && key_index(self@.entries, key@) == i as int,
                None => !has_key(self@.entries, key@),
            },
    {
        proof {
            use_type_invariant(self);
        }
        let ghost es = self@.entries;
        let mut i: usize = 0;
        while i < self.fields.len()
            invariant
                i <= self.fields@.len(),
                es == entry_models(self.fields@),
                distinct_keys(es),
                forall|j: int| 0 <= j < i ==> #[trigger] es[j].0 != key@,
            decreases self.fields@.len() - i,
        {
            if str_eq(self.fields[i].0.as_str(), key) {
                proof {
                    assert(es[i as int].0 == key@);
                    let j = key_index(es, key@);
                    assert(es[j].0 == key@);
                    if j != i as int {
                        assert(es[i as int].0 != es[j].0);
                    }
                }
                return Some(i);
            }
            i = i + 1;
        }
        None
    }

    /// States the invariant of every example: no field name occurs twice.
    /// Callers use it to apply the laws of this module to an example they
    /// are handed.
    pub fn has_distinct_keys(&self)
        ensures
            distinct_keys(self@.entries),
    {
        proof {
            use_type_invariant(self);
        }
    }

    /// An empty example.
    pub fn new() -> (r: Example)
        ensures
            r@.entries == Seq::<EntryModel>::empty(),
            r@.input_keys is None,
    {
        Example { fields: Vec::new(), input_keys: None }
    }

    /// An example made of the given pairs, set one after another (a later
    /// pair with a name already given replaces the earlier value).
    pub fn from_map(pairs: Vec<(String, FieldValue)>) -> (r: Example)
        ensures
            r@.entries == set_all(Seq::empty(), entry_models(pairs@)),
            r@.input_keys is None,
    {
        let mut r = Example::new();
        let n = pairs.len();
        let mut i: usize = 0;
        while i < n
            invariant
                i <= n == pairs@.len(),
                r@.entries == set_all(Seq::empty(), entry_models(pairs@).take(i as int)),
                r@.input_keys is None,
            decreases n - i,
        {
            r.set(pairs[i].0.as_str(), pairs[i].1.duplicate());
            assert(entry_models(pairs@).take(i + 1).drop_last() =~= entry_models(pairs@).take(i as int));
            i = i + 1;
        }
        assert(entry_models(pairs@).take(n as int) =~= entry_models(pairs@));
        r
    }

    /// The value of the field named `key`.
    pub fn get(&self, key: &str) -> (r: Option<&FieldValue>)
        ensures
            match r {
                Some(v) => lookup(self@.entries, key@) == Some(v@),
                None => lookup(self@.entries, key@) is None,
            },
    {
        match self.position(key) {
            Some(i) => Some(&self.fields[i].1),
            None => None,
        }
    }

    /// The string value of the field named `key`, if it holds a string.
    pub fn get_str(&self, key: &str) -> (r: Option<&str>)
        ensures
            match r {
                Some(s) => lookup(self@.entries, key@) == Some(ValueModel::Str(s@)),
                None => !(lookup(self@.entries, key@) matches Some(ValueModel::Str(_))),
            },
    {
        match self.get(key) {
            Some(v) => v.as_str(),
            None => None,
        }
    }

    /// Sets the field named `key` to `value`.
    pub fn set(&mut self, key: &str, value: FieldValue)
        ensures
            final(self)@.entries == set_entry(old(self)@.entries, key@, value@),
            final(self)@.input_keys == old(self)@.input_keys,
            lookup(final(self)@.entries, key@) == Some(value@),
            forall|k: Seq<char>| k != key@ ==> #[trigger] lookup(final(self)@.entries, k) == lookup(old(self)@.entries, k),
            final(self)@.entries.len() == if has_key(old(self)@.entries, key@) {
                old(self)@.entries.len()
            } else {
                old(self)@.entries.len() + 1
            },
            distinct_keys(final(self)@.entries),
    {
        proof {
            use_type_invariant(&*self);
            lemma_set_entry_distinct(self@.entries, key@, value@);
            law_get_after_set(self@.entries, key@, value@);
        }
        let pos = self.position(key);
        let mut fields: Vec<(String, FieldValue)> = Vec::new();
        std::mem::swap(&mut fields, &mut self.fields);
        match pos {
            Some(i) => {
                fields.set(i, (key.to_owned(), value));
                assert(entry_models(fields@) =~= old(self)@.entries.update(i as int, (key@, value@)));
            },
            None => {
                fields.push((key.to_owned(), value));
                assert(entry_models(fields@) =~= old(self)@.entries.push((key@, value@)));
            },
        }
        self.fields = fields;
    }

    /// This example with the field named `key` set to `value`.
    pub fn with(self, key: &str, value: FieldValue) -> (r: Example)
        ensures
            r@.entries == set_entry(self@.entries, key@, value@),
            r@.input_keys == self@.input_keys,
            lookup(r@.entries, key@) == Some(value@),
            forall|k: Seq<char>| k != key@ ==> #[trigger] lookup(r@.entries, k) == lookup(self@.entries, k),
            r@.entries.len() == if has_key(self@.entries, key@) { self@.entries.len() } else { self@.entries.len() + 1 },
            distinct_keys(r@.entries),
    {
        let mut r = self;
        r.set(key, value);
        r
    }

    /// The field names, in order.
    pub fn keys(&self) -> (r: Vec<String>)
        ensures
            views(r@) == keys_of(self@.entries),
    {
        let mut r: Vec<String> = Vec::new();
        let mut i: usize = 0;
        while i < self.fields.len()
            invariant
                i <= self.fields@.len(),
                views(r@) == keys_of(self@.entries).take(i as int),
            decreases self.fields@.len() - i,
        {
            let k = self.fields[i].0.clone();
            assert(k@ == keys_of(self@.entries)[i as int]);
            proof {
                lemma_views_push(r@, k);
                assert(keys_of(self@.entries).take(i + 1) =~= keys_of(self@.entries).take(i as int).push(k@));
            }
            r.push(k);
            i = i + 1;
        }
        assert(keys_of(self@.entries).take(i as int) =~= keys_of(self@.entries));
        r
    }

    /// The fields, in order.
    pub fn iter(&self) -> (r: &[(String, FieldValue)])
        ensures
            entry_models(r@) == self@.entries,
    {
        self.fields.as_slice()
    }

    /// The number of fields.
    pub fn len(&self) -> (r: usize)
        ensures
            r == self@.entries.len(),
    {
        self.fields.len()
    }

    /// Whether there is no field.
    pub fn is_empty(&self) -> (r: bool)
        ensures
            r == (self@.entries.len() == 0),
    {
        self.fields.len() == 0
    }

    /// Whether a field named `key` exists.
    pub fn contains_key(&self, key: &str) -> (r: bool)
        ensures
            r == has_key(self@.entries, key@),
    {
        self.position(key).is_some()
    }

    /// Removes the field named `key` and gives back its value.
    pub fn remove(&mut self, key: &str) -> (r: Option<FieldValue>)
        ensures
            final(self)@.entries == remove_entry(old(self)@.entries, key@),
            final(self)@.input_keys == old(self)@.input_keys,
            lookup(final(self)@.entries, key@) is None,
            forall|k: Seq<char>| k != key@ ==> #[trigger] lookup(final(self)@.entries, k) == lookup(old(self)@.entries, k),
            final(self)@.entries.len() == if has_key(old(self)@.entries, key@) {
                old(self)@.entries.len() - 1
            } else {
                old(self)@.entries.len() as int
            },
            distinct_keys(final(self)@.entries),
            match r {
                Some(v) => lookup(old(self)@.entries, key@) == Some(v@),
                None => lookup(old(self)@.entries, key@) is None,
            },
    {
        proof {
            use_type_invariant(&*self);
            lemma_remove_entry_distinct(self@.entries, key@);
            law_remove(self@.entries, key@);
        }
        match self.position(key) {
            Some(i) => {
                let mut fields: Vec<(String, FieldValue)> = Vec::new();
                std::mem::swap(&mut fields, &mut self.fields);
                let (_, v) = fields.remove(i);
                assert(entry_models(fields@) =~= old(self)@.entries.remove(i as int));
                self.fields = fields;
                Some(v)
            },
            None => None,
        }
    }

    /// This example with `keys` marked as its inputs.
    pub fn with_inputs(self, keys: Vec<String>) -> (r: Example)
        ensures
            r@.entries == self@.entries,
            r@.input_keys == Some(views(keys@)),
    {
        proof {
            use_type_invariant(&self);
        }
        let mut r = self;
        r.input_keys = Some(keys);
        r
    }

    /// The keys marked as inputs, if any were.
    pub fn input_keys(&self) -> (r: Option<&[String]>)
        ensures
            match r {
                Some(v) => self@.input_keys == Some(views(v@)),
                None => self@.input_keys is None,
            },
    {
        match &self.input_keys {
            Some(v) => Some(v.as_slice()),
            None => None,
        }
    }

    /// A copy of this example.
    pub fn duplicate(&self) -> (r: Example)
        ensures
            r@ == self@,
    {
        proof {
            use_type_invariant(self);
        }
        let mut fields: Vec<(String, FieldValue)> = Vec::new();
        let mut i: usize = 0;
        while i < self.fields.len()
            invariant
                i <= self.fields@.len(),
                entry_models(fields@) == entry_models(self.fields@).take(i as int),
            decreases self.fields@.len() - i,
        {
            let e = (self.fields[i].0.clone(), self.fields[i].1.duplicate());
            assert((e.0@, e.1@) == entry_models(self.fields@)[i as int]);
            proof {
                lemma_entry_models_push(fields@, e);
                assert(entry_models(self.fields@).take(i + 1) =~= entry_models(self.fields@).take(i as int).push((e.0@, e.1@)));
            }
            fields.push(e);
            i = i + 1;
        }
        assert(entry_models(self.fields@).take(i as int) =~= entry_models(self.fields@));
        let input_keys = match &self.input_keys {
            Some(v) => Some(copy_strings(v)),
            None => None,
        };
        Example { fields, input_keys }
    }

    /// The input fields: where keys are marked as inputs, just the fields
    /// they name (in the order of the keys); otherwise a copy of the whole.
    /// The marked keys are kept.
    pub fn inputs(&self) -> (r: Example)
        ensures
            r@.input_keys == self@.input_keys,
            r@.entries == match self@.input_keys {
                Some(keys) => select_keys(self@.entries, keys),
                None => self@.entries,
            },
    {
        match &self.input_keys {
            Some(keys) => {
                let mut r = Example { fields: Vec::new(), input_keys: Some(copy_strings(keys)) };
                let n = keys.len();
                let mut i: usize = 0;
                while i < n
                    invariant
                        i <= n == keys@.len(),
                        self@.input_keys == Some(views(keys@)),
                        r@.input_keys == Some(views(keys@)),
                        r@.entries == select_keys(self@.entries, views(keys@).take(i as int)),
                    decreases n - i,
                {
                    let ghost prev = views(keys@).take(i as int);
                    assert(views(keys@).take(i + 1).drop_last() =~= prev);
                    match self.get(keys[i].as_str()) {
                        Some(v) => {
                            r.set(keys[i].as_str(), v.duplicate());
                        },
                        None => {},
                    }
                    i = i + 1;
                }
                assert(views(keys@).take(n as int) =~= views(keys@));
                r
            },
            None => self.duplicate(),
        }
    }

    /// The fields, in order.
    pub fn to_map(&self) -> (r: &Vec<(String, FieldValue)>)
        ensures
            entry_models(r@) == self@.entries,
    {
        &self.fields
    }

    /// The fields, in order, taken out of the example.
    pub fn into_map(self) -> (r: Vec<(String, FieldValue)>)
        ensures
            entry_models(r@) == self@.entries,
    {
        self.fields
    }
}

/// A copy of a vector of strings.
pub fn copy_strings(v: &Vec<String>) -> (r: Vec<String>)
    ensures
        views(r@) == views(v@),
        r@.len() == v@.len(),
{
    let mut r: Vec<String> = Vec::new();
    let mut i: usize = 0;
    while i < v.len()
        invariant
            i <= v@.len(),
            views(r@) == views(v@).take(i as int),
            r@.len() == i,
        decreases v@.len() - i,
    {
        r.push(v[i].clone());
        assert(views(r@) =~= views(v@).take(i + 1));
        i = i + 1;
    }
    assert(views(v@).take(i as int) =~= views(v@));
    r
}

impl Clone for Example {
    fn clone(&self) -> (r: Example)
        ensures
            r@ == self@,
    {
        self.duplicate()
    }
}

impl Default for Example {
    fn default() -> (r: Example)
        ensures
            r@.entries == Seq::<EntryModel>::empty(),
            r@.input_keys is None,
    {
        Example::new()
    }
}

} // verus!

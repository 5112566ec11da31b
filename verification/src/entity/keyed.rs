//! Lists of named entries: the model shared by the environment list and the
//! manifest's tables, and `NameMap`, the table itself.
use crate::text::text_eq;
use vstd::prelude::*;
use vstd::string::*;

verus! {

/// No name occurs twice.
pub open spec fn distinct_keys<V>(entries: Seq<(Seq<char>, V)>) -> bool {
    forall|i: int, j: int| 0 <= i < j < entries.len() ==> entries[i].0 != entries[j].0
}

/// The position of `key` among `entries`, from position `i` on.
pub open spec fn position_from<V>(entries: Seq<(Seq<char>, V)>, key: Seq<char>, i: int) -> Option<
    int,
>
    decreases entries.len() - i,
{
    if i < 0 || i >= entries.len() {
        None
    } else if entries[i].0 == key {
        Some(i)
    } else {
        position_from(entries, key, i + 1)
    }
}

/// The position of `key` among `entries`.
pub open spec fn position<V>(entries: Seq<(Seq<char>, V)>, key: Seq<char>) -> Option<int> {
    position_from(entries, key, 0)
}

/// The value that `entries` gives to `key`.
pub open spec fn value_of<V>(entries: Seq<(Seq<char>, V)>, key: Seq<char>) -> Option<V> {
    match position(entries, key) {
        Some(i) => Some(entries[i].1),
        None => None,
    }
}

/// `entries` names `key`.
pub open spec fn has_key<V>(entries: Seq<(Seq<char>, V)>, key: Seq<char>) -> bool {
    position(entries, key) is Some
}

/// `entries` with `key` bound to `value`: a name that is already bound
/// keeps its place, a new one goes last.
pub open spec fn put<V>(entries: Seq<(Seq<char>, V)>, key: Seq<char>, value: V) -> Seq<
    (Seq<char>, V),
> {
    match position(entries, key) {
        Some(i) => entries.update(i, (key, value)),
        None => entries.push((key, value)),
    }
}

/// `entries` without `key`: the last entry takes the place of the removed one.
pub open spec fn swap_removed<V>(entries: Seq<(Seq<char>, V)>, key: Seq<char>) -> Seq<
    (Seq<char>, V),
> {
    match position(entries, key) {
        Some(i) => if i == entries.len() - 1 {
            entries.drop_last()
        } else {
            entries.update(i, entries.last()).drop_last()
        },
        None => entries,
    }
}

/// `entries` after the bindings of `items` from position `i` on were made,
/// one after the other: a later binding of a name wins over an earlier one.
pub open spec fn put_all<V>(entries: Seq<(Seq<char>, V)>, items: Seq<(Seq<char>, V)>, i: int) -> Seq<
    (Seq<char>, V),
>
    decreases items.len() - i,
{
    if i < 0 || i >= items.len() {
        entries
    } else {
        put_all(put(entries, items[i].0, items[i].1), items, i + 1)
    }
}

/// The names of `entries`, in order.
pub open spec fn names_of<V>(entries: Seq<(Seq<char>, V)>) -> Seq<Seq<char>> {
    Seq::new(entries.len(), |i: int| entries[i].0)
}

/// What `position_from` returns is the first entry with that name.
pub proof fn lemma_position_from<V>(entries: Seq<(Seq<char>, V)>, key: Seq<char>, i: int)
    requires
        0 <= i,
    ensures
        match position_from(entries, key, i) {
            Some(k) => i <= k < entries.len() && entries[k].0 == key && forall|j: int|
                i <= j < k ==> entries[j].0 != key,
            None => forall|j: int| i <= j < entries.len() ==> entries[j].0 != key,
        },
    decreases entries.len() - i,
{
    if i < entries.len() && entries[i].0 != key {
        lemma_position_from(entries, key, i + 1);
    }
}

/// Binding a name keeps the names distinct.
pub proof fn lemma_put_distinct<V>(entries: Seq<(Seq<char>, V)>, key: Seq<char>, value: V)
    requires
        distinct_keys(entries),
    ensures
        distinct_keys(put(entries, key, value)),
{
    lemma_position_from(entries, key, 0);
}

/// After binding a name, looking it up gives the bound value, and every
/// other name gives what it gave before.
pub proof fn lemma_put_value_of<V>(
    entries: Seq<(Seq<char>, V)>,
    key: Seq<char>,
    value: V,
    other: Seq<char>,
)
    ensures
        value_of(put(entries, key, value), key) == Some(value),
        other != key ==> value_of(put(entries, key, value), other) == value_of(entries, other),
        put(entries, key, value).len() == if has_key(entries, key) {
            entries.len()
        } else {
            entries.len() + 1
        },
{
    let after = put(entries, key, value);
    lemma_position_from(entries, key, 0);
    lemma_position_from(after, key, 0);
    lemma_position_from(entries, other, 0);
    lemma_position_from(after, other, 0);
    assert(forall|j: int| 0 <= j < entries.len() ==> (#[trigger] after[j]).0 == entries[j].0);
    match position(entries, key) {
        Some(i) => {
            assert(after[i] == (key, value));
        },
        None => {
            assert(after[entries.len() as int] == (key, value));
        },
    }
    if other != key {
        match position(entries, other) {
            Some(k) => {
                assert(after[k] == entries[k]);
                assert(position(after, other) == Some(k));
            },
            None => {
                assert(position(after, other) is None);
            },
        }
    }
}

/// Removing a name keeps the names distinct, leaves the name unbound and
/// leaves every other name with the value it had.
pub proof fn lemma_swap_removed<V>(entries: Seq<(Seq<char>, V)>, key: Seq<char>, other: Seq<char>)
    requires
        distinct_keys(entries),
    ensures
        distinct_keys(swap_removed(entries, key)),
        !has_key(swap_removed(entries, key), key),
        other != key ==> value_of(swap_removed(entries, key), other) == value_of(entries, other),
{
    let after = swap_removed(entries, key);
    let n = entries.len() as int;
    lemma_position_from(entries, key, 0);
    lemma_position_from(after, key, 0);
    lemma_position_from(entries, other, 0);
    lemma_position_from(after, other, 0);
    match position(entries, key) {
        None => {},
        Some(i) => {
            assert(forall|j: int| 0 <= j < n - 1 && j != i ==> #[trigger] after[j] == entries[j]);
            if i < n - 1 {
                assert(after[i] == entries[n - 1]);
            }
            if other != key {
                match position(entries, other) {
                    None => {
                        assert(forall|j: int| 0 <= j < after.len() ==> (#[trigger] after[j]).0
                            != other);
                    },
                    Some(p) => {
                        if p == n - 1 {
                            assert(after[i].0 == other);
                            assert(forall|j: int| 0 <= j < i ==> (#[trigger] after[j]).0 != other);
                            assert(position(after, other) == Some(i));
                        } else {
                            assert(after[p] == entries[p]);
                            assert(entries[n - 1].0 != other);
                            assert(forall|j: int| 0 <= j < p ==> (#[trigger] after[j]).0 != other);
                            assert(position(after, other) == Some(p));
                        }
                    },
                }
            }
        },
    }
}

/// The entries with every value taken by its view.
pub open spec fn deep_entries<V: DeepView>(entries: Seq<(Seq<char>, V)>) -> Seq<(Seq<char>, V::V)> {
    Seq::new(entries.len(), |i: int| (entries[i].0, entries[i].1.deep_view()))
}

/// A name stands at the same position whether the values are taken by
/// their views or not.
pub proof fn lemma_deep_position<V: DeepView>(entries: Seq<(Seq<char>, V)>, key: Seq<char>, i: int)
    requires
        0 <= i,
    ensures
        position_from(deep_entries(entries), key, i) == position_from(entries, key, i),
    decreases entries.len() - i,
{
    if i < entries.len() && entries[i].0 != key {
        lemma_deep_position(entries, key, i + 1);
    }
}

/// Looking a name up and binding a name go through to the views.
pub proof fn lemma_deep_entries<V: DeepView>(entries: Seq<(Seq<char>, V)>, key: Seq<char>, value: V)
    ensures
        position(deep_entries(entries), key) == position(entries, key),
        value_of(deep_entries(entries), key) == value_of(entries, key).deep_view(),
        has_key(deep_entries(entries), key) == has_key(entries, key),
        deep_entries(put(entries, key, value)) == put(
            deep_entries(entries),
            key,
            value.deep_view(),
        ),
{
    lemma_deep_position(entries, key, 0);
    lemma_position_from(entries, key, 0);
    assert(deep_entries(put(entries, key, value)) =~= put(
        deep_entries(entries),
        key,
        value.deep_view(),
    ));
}


/// Taking the values by their views changes no name.
pub proof fn lemma_deep_distinct<V: DeepView>(entries: Seq<(Seq<char>, V)>)
    ensures
        distinct_keys(deep_entries(entries)) == distinct_keys(entries),
{
    if distinct_keys(entries) {
        assert forall|i: int, j: int| 0 <= i < j < deep_entries(entries).len() implies deep_entries(
            entries,
        )[i].0 != deep_entries(entries)[j].0 by {
            assert(entries[i].0 != entries[j].0);
        }
    }
    if distinct_keys(deep_entries(entries)) {
        assert forall|i: int, j: int| 0 <= i < j < entries.len() implies entries[i].0
            != entries[j].0 by {
            assert(deep_entries(entries)[i].0 != deep_entries(entries)[j].0);
        }
    }
}

/// The entries that names and values stand for, pair by pair.
pub open spec fn paired<V>(keys: Seq<String>, values: Seq<V>) -> Seq<(Seq<char>, V)> {
    Seq::new(keys.len(), |i: int| (keys[i]@, values[i]))
}

/// Whether the names are distinct does not depend on the values.
pub proof fn lemma_paired_names<V>(keys: Seq<String>, a: Seq<V>, b: Seq<V>)
    ensures
        distinct_keys(paired(keys, a)) == distinct_keys(paired(keys, b)),
{
    if distinct_keys(paired(keys, a)) {
        assert forall|i: int, j: int| 0 <= i < j < paired(keys, b).len() implies paired(
            keys,
            b,
        )[i].0 != paired(keys, b)[j].0 by {
            assert(paired(keys, a)[i].0 != paired(keys, a)[j].0);
        }
    }
    if distinct_keys(paired(keys, b)) {
        assert forall|i: int, j: int| 0 <= i < j < paired(keys, a).len() implies paired(
            keys,
            a,
        )[i].0 != paired(keys, a)[j].0 by {
            assert(paired(keys, b)[i].0 != paired(keys, b)[j].0);
        }
    }
}

/// A table from names to values that holds each name once and remembers
/// the order in which the names were first bound.
#[derive(Debug, PartialEq, Eq)]
pub struct NameMap<V> {
    keys: Vec<String>,
    values: Vec<V>,
}

impl<V> View for NameMap<V> {
    type V = Seq<(Seq<char>, V)>;

    closed spec fn view(&self) -> Seq<(Seq<char>, V)> {
        paired(self.keys@, self.values@)
    }
}

impl<V: DeepView> DeepView for NameMap<V> {
    type V = Seq<(Seq<char>, V::V)>;

    open spec fn deep_view(&self) -> Seq<(Seq<char>, V::V)> {
        deep_entries(self@)
    }
}

impl<V> NameMap<V> {
    #[verifier::type_invariant]
    closed spec fn names_once(&self) -> bool {
        self.keys@.len() == self.values@.len() && distinct_keys(paired(self.keys@, self.values@))
    }
}

impl<V: DeepView> NameMap<V> {
    /// An empty table.
    pub fn new() -> (r: Self)
        ensures
            r@ == Seq::<(Seq<char>, V)>::empty(),
            r.deep_view() == Seq::<(Seq<char>, V::V)>::empty(),
    {
        let keys: Vec<String> = Vec::new();
        let values: Vec<V> = Vec::new();
        assert(paired(keys@, values@) =~= Seq::<(Seq<char>, V)>::empty());
        let r = NameMap { keys, values };
        assert(r.deep_view() =~= Seq::<(Seq<char>, V::V)>::empty());
        r
    }

    /// The number of names bound. No name is bound twice.
    pub fn len(&self) -> (n: usize)
        ensures
            n == self@.len(),
            n == self.deep_view().len(),
            distinct_keys(self@),
            distinct_keys(self.deep_view()),
    {
        proof {
            use_type_invariant(self);
            lemma_deep_distinct(self@);
        }
        self.keys.len()
    }

    /// Whether no name is bound.
    pub fn is_empty(&self) -> (r: bool)
        ensures
            r == (self.deep_view().len() == 0),
    {
        self.keys.len() == 0
    }

    /// The position of `key` in the table.
    pub fn position_of(&self, key: &str) -> (r: Option<usize>)
        ensures
            match r {
                Some(i) => position(self.deep_view(), key@) == Some(i as int) && i < self@.len(),
                None => position(self.deep_view(), key@) is None,
            },
            position(self.deep_view(), key@) == position(self@, key@),
            distinct_keys(self.deep_view()),
    {
        proof {
            use_type_invariant(self);
            lemma_deep_distinct(self@);
            lemma_deep_position(self@, key@, 0);
            lemma_position_from(self@, key@, 0);
        }
        let mut i: usize = 0;
        while i < self.keys.len()
            invariant
                i <= self.keys.len(),
                position_from(self@, key@, i as int) == position(self@, key@),
                position(self.deep_view(), key@) == position(self@, key@),
                distinct_keys(self.deep_view()),
            decreases self.keys.len() - i,
        {
            if text_eq(self.keys[i].as_str(), key) {
                return Some(i);
            }
            i += 1;
        }
        None
    }

    /// Whether `key` is bound.
    pub fn contains_key(&self, key: &str) -> (r: bool)
        ensures
            r == has_key(self.deep_view(), key@),
    {
        self.position_of(key).is_some()
    }

    /// The value bound to `key`.
    pub fn get(&self, key: &str) -> (r: Option<&V>)
        ensures
            r.deep_view() == value_of(self.deep_view(), key@),
            distinct_keys(self.deep_view()),
            match r {
                Some(v) => value_of(self@, key@) == Some(*v),
                None => value_of(self@, key@) is None,
            },
    {
        proof {
            use_type_invariant(self);
            lemma_deep_entries(self@, key@, arbitrary());
        }
        match self.position_of(key) {
            Some(i) => Some(&self.values[i]),
            None => None,
        }
    }

    /// The value bound to `key`, to be changed in place. The names stay
    /// as they are.
    pub fn get_mut(&mut self, key: &str) -> (r: Option<&mut V>)
        ensures
            match r {
                Some(v) => value_of(old(self)@, key@) == Some(*v) && value_of(
                    old(self).deep_view(),
                    key@,
                ) == Some(v.deep_view()) && final(self)@ == put(old(self)@, key@, *final(v))
                    && final(self).deep_view() == put(
                    old(self).deep_view(),
                    key@,
                    final(v).deep_view(),
                ),
                None => !has_key(old(self).deep_view(), key@) && final(self)@ == old(self)@,
            },
    {
        proof {
            use_type_invariant(&*self);
        }
        let found = self.position_of(key);
        match found {
            Some(i) => {
                let ghost before = self@;
                let ghost names = self.keys@;
                proof {
                    lemma_position_from(before, key@, 0);
                    assert forall|vals: Seq<V>| #[trigger]
                        distinct_keys(paired(self.keys@, vals)) by {
                        lemma_paired_names(self.keys@, self.values@, vals);
                    }
                }
                let r = &mut self.values[i];
                proof {
                    lemma_deep_entries(before, key@, *final(r));
                    assert(paired(names, old(self).values@.update(i as int, *final(r))) =~= put(
                        before,
                        key@,
                        *final(r),
                    ));
                    lemma_put_distinct(before, key@, *final(r));
                }
                Some(r)
            },
            None => None,
        }
    }

    /// Binds `key` to `value`. A name that is already bound keeps its place
    /// in the order; a new name goes last.
    pub fn insert(&mut self, key: String, value: V)
        ensures
            final(self)@ == put(old(self)@, key@, value),
            final(self).deep_view() == put(old(self).deep_view(), key@, value.deep_view()),
    {
        proof {
            use_type_invariant(&*self);
            lemma_deep_entries(self@, key@, value);
            lemma_put_distinct(self@, key@, value);
            lemma_position_from(self@, key@, 0);
        }
        let found = self.position_of(key.as_str());
        let mut taken: NameMap<V> = NameMap::new();
        core::mem::swap(self, &mut taken);
        let mut keys = taken.keys;
        let mut values = taken.values;
        match found {
            Some(i) => {
                keys.set(i, key);
                values.set(i, value);
            },
            None => {
                keys.push(key);
                values.push(value);
            },
        }
        assert(paired(keys@, values@) =~= put(old(self)@, key@, value));
        *self = NameMap { keys, values };
    }

    /// The name at position `i`.
    pub fn name_at(&self, i: usize) -> (r: &String)
        requires
            i < self.deep_view().len(),
        ensures
            r@ == self.deep_view()[i as int].0,
    {
        &self.keys[i]
    }

    /// The value at position `i`.
    pub fn value_at(&self, i: usize) -> (r: &V)
        requires
            i < self.deep_view().len(),
        ensures
            r.deep_view() == self.deep_view()[i as int].1,
            *r == self@[i as int].1,
    {
        proof {
            use_type_invariant(self);
        }
        &self.values[i]
    }
}

} // verus!

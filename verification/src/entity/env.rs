//! Environment variables and the ordered list that holds them.
use crate::entity::keyed::{
    distinct_keys, lemma_put_distinct, lemma_put_value_of, lemma_swap_removed, names_of, put,
    put_all, swap_removed, value_of,
};
use crate::usecase::inventory_tools::{
    is_shell, is_substitution, resolution, resolve_shell, OutcomeView, ShellOutcome,
};
use indexmap::IndexMap;
use vstd::prelude::*;
use vstd::string::*;

verus! {

/// One entry of an environment list as plain text: key, then value.
pub type Pair = (Seq<char>, Seq<char>);

/// `indexmap::IndexMap`, the map that keeps its pairs in the order in
/// which their keys were first inserted. Nothing is known of a value but
/// what the functions below say.
#[verifier::external_type_specification]
#[verifier::external_body]
#[verifier::reject_recursive_types(K)]
#[verifier::reject_recursive_types(V)]
#[verifier::reject_recursive_types(S)]
pub struct ExIndexMap<K, V, S>(IndexMap<K, V, S>);

/// The key-value pairs that an `IndexMap` holds, in its iteration order.
pub uninterp spec fn pairs_of(m: IndexMap<String, String>) -> Seq<Pair>;

/// `IndexMap::new`: the new map holds nothing.
#[verifier::external_body]
fn store_new() -> (m: IndexMap<String, String>)
    ensures
        pairs_of(m).len() == 0,
{
    IndexMap::new()
}

/// `IndexMap::len`: the number of pairs held.
#[verifier::external_body]
fn store_len(m: &IndexMap<String, String>) -> (n: usize)
    ensures
        n == pairs_of(*m).len(),
{
    m.len()
}

/// `IndexMap::get_index`: the pair at a position, for the positions below
/// the length and for no other. The key of that pair is the key of no
/// other pair: a map holds each key once.
#[verifier::external_body]
fn store_get_index(m: &IndexMap<String, String>, index: usize) -> (r: Option<(&String, &String)>)
    ensures
        match r {
            Some(kv) => index < pairs_of(*m).len() && pairs_of(*m)[index as int] == (kv.0@, kv.1@)
                && forall|j: int|
                0 <= j < pairs_of(*m).len() && j != index ==> (#[trigger] pairs_of(*m)[j]).0
                    != kv.0@,
            None => index >= pairs_of(*m).len(),
        },
{
    m.get_index(index)
}

/// `IndexMap::get`: the value stored under an equal key, if a pair has
/// such a key.
#[verifier::external_body]
fn store_get<'a>(m: &'a IndexMap<String, String>, key: &str) -> (r: Option<&'a String>)
    ensures
        r.deep_view() == value_of(pairs_of(*m), key@),
{
    m.get(key)
}

/// `IndexMap::insert`: an equal key keeps its place and takes the new
/// value; a new key is added last.
#[verifier::external_body]
fn store_insert(m: &mut IndexMap<String, String>, key: String, value: String)
    ensures
        pairs_of(*final(m)) == put(pairs_of(*old(m)), key@, value@),
{
    m.insert(key, value);
}

/// `IndexMap::swap_remove`: the pair with an equal key leaves and the last
/// pair takes its place; without such a pair nothing changes.
#[verifier::external_body]
fn store_swap_remove(m: &mut IndexMap<String, String>, key: &str)
    ensures
        pairs_of(*final(m)) == swap_removed(pairs_of(*old(m)), key@),
{
    m.swap_remove(key);
}

/// `IndexMap::clone`: the copy holds the same pairs in the same order.
#[verifier::external_body]
fn store_clone(m: &IndexMap<String, String>) -> (r: IndexMap<String, String>)
    ensures
        pairs_of(r) == pairs_of(*m),
{
    m.clone()
}

/// An environment variable: a key and its value.
#[derive(Debug, PartialEq, Eq)]
pub struct EnvVar {
    pub key: String,
    pub value: String,
}

impl View for EnvVar {
    type V = Pair;

    open spec fn view(&self) -> Pair {
        (self.key@, self.value@)
    }
}

impl DeepView for EnvVar {
    type V = Pair;

    open spec fn deep_view(&self) -> Pair {
        self@
    }
}

impl Clone for EnvVar {
    fn clone(&self) -> (r: Self)
        ensures
            r@ == self@,
    {
        EnvVar { key: self.key.clone(), value: self.value.clone() }
    }
}

/// The text `KEY=VALUE`.
pub open spec fn assignment_text(p: Pair) -> Seq<char> {
    p.0 + "="@ + p.1
}

/// The shell statement `export KEY="VALUE";`.
pub open spec fn export_text(p: Pair) -> Seq<char> {
    "export "@ + p.0 + "=\""@ + p.1 + "\";"@
}

/// The export statements of all entries, in order, separated by one space.
pub open spec fn exports_text(entries: Seq<Pair>) -> Seq<char>
    decreases entries.len(),
{
    if entries.len() == 0 {
        Seq::empty()
    } else if entries.len() == 1 {
        export_text(entries[0])
    } else {
        exports_text(entries.drop_last()) + " "@ + export_text(entries.last())
    }
}

fn assignment_of(key: &str, value: &str) -> (r: String)
    ensures
        r@ == assignment_text((key@, value@)),
{
    let mut r = String::from_str(key);
    r.append("=");
    r.append(value);
    r
}

fn export_of(key: &str, value: &str) -> (r: String)
    ensures
        r@ == export_text((key@, value@)),
{
    let mut r = String::from_str("export ");
    r.append(key);
    r.append("=\"");
    r.append(value);
    r.append("\";");
    r
}

impl EnvVar {
    /// A variable with the given key and value.
    pub fn new(key: &str, value: &str) -> (r: Self)
        ensures
            r@ == (key@, value@),
    {
        EnvVar { key: String::from_str(key), value: String::from_str(value) }
    }

    /// The variable as `KEY=VALUE`.
    pub fn to_string(&self) -> (r: String)
        ensures
            r@ == assignment_text(self@),
    {
        assignment_of(self.key.as_str(), self.value.as_str())
    }

    /// The variable as a shell export statement, `export KEY="VALUE";`.
    /// The value is embedded as it is, without escaping.
    pub fn as_export(&self) -> (r: String)
        ensures
            r@ == export_text(self@),
    {
        export_of(self.key.as_str(), self.value.as_str())
    }
}

/// How the command of one variable ended.
#[derive(Debug, PartialEq, Eq)]
pub struct Resolution {
    pub key: String,
    pub outcome: ShellOutcome,
}

impl View for Resolution {
    type V = (Seq<char>, OutcomeView);

    open spec fn view(&self) -> (Seq<char>, OutcomeView) {
        (self.key@, self.outcome@)
    }
}

impl DeepView for Resolution {
    type V = (Seq<char>, OutcomeView);

    open spec fn deep_view(&self) -> (Seq<char>, OutcomeView) {
        self@
    }
}

/// The entries from position `i` on whose value is a shell substitution.
pub open spec fn unresolved_from(entries: Seq<Pair>, i: int) -> Seq<Pair>
    decreases entries.len() - i,
{
    if i < 0 || i >= entries.len() {
        Seq::empty()
    } else if is_substitution(entries[i].1) {
        seq![entries[i]] + unresolved_from(entries, i + 1)
    } else {
        unresolved_from(entries, i + 1)
    }
}

/// `entries` once the command behind the value of `key` ended as
/// `outcome` says. A resolved value leaves its place and goes last, the
/// last entry taking its place; a value that is no substitution, or whose
/// command did not start, stays as it is.
pub open spec fn entry_resolved(entries: Seq<Pair>, key: Seq<char>, outcome: OutcomeView) -> Seq<
    Pair,
> {
    match value_of(entries, key) {
        Some(v) => match resolution(v, outcome) {
            Ok(text) => put(swap_removed(entries, key), key, text),
            Err(_) => entries,
        },
        None => entries,
    }
}

/// Resolving the value of one key keeps the keys distinct and leaves
/// every other key with the value it had.
pub proof fn lemma_resolution_keeps_others(
    entries: Seq<Pair>,
    key: Seq<char>,
    outcome: OutcomeView,
    other: Seq<char>,
)
    requires
        distinct_keys(entries),
        other != key,
    ensures
        distinct_keys(entry_resolved(entries, key, outcome)),
        value_of(entry_resolved(entries, key, outcome), other) == value_of(entries, other),
{
    lemma_swap_removed(entries, key, other);
    match value_of(entries, key) {
        Some(v) => match resolution(v, outcome) {
            Ok(text) => {
                lemma_put_distinct(swap_removed(entries, key), key, text);
                lemma_put_value_of(swap_removed(entries, key), key, text, other);
            },
            Err(_) => {},
        },
        None => {},
    }
}

/// `entries` once the commands named from position `i` on ended as stated,
/// taken one after the other.
pub open spec fn all_resolved(
    entries: Seq<Pair>,
    outcomes: Seq<(Seq<char>, OutcomeView)>,
    i: int,
) -> Seq<Pair>
    decreases outcomes.len() - i,
{
    if i < 0 || i >= outcomes.len() {
        entries
    } else {
        all_resolved(entry_resolved(entries, outcomes[i].0, outcomes[i].1), outcomes, i + 1)
    }
}

/// An ordered list of environment variables, kept in an `IndexMap`: a key
/// is bound once, and the keys keep the order in which they were first
/// bound.
#[derive(Debug, PartialEq, Eq)]
pub struct EnvList {
    store: IndexMap<String, String>,
}

impl View for EnvList {
    type V = Seq<Pair>;

    closed spec fn view(&self) -> Seq<Pair> {
        pairs_of(self.store)
    }
}

impl DeepView for EnvList {
    type V = Seq<Pair>;

    open spec fn deep_view(&self) -> Seq<Pair> {
        self@
    }
}

impl Clone for EnvList {
    fn clone(&self) -> (r: Self)
        ensures
            r@ == self@,
    {
        EnvList { store: store_clone(&self.store) }
    }
}

impl EnvList {
    /// An empty list.
    pub fn new() -> (r: Self)
        ensures
            r@.len() == 0,
    {
        EnvList { store: store_new() }
    }

    /// The number of variables.
    pub fn len(&self) -> (n: usize)
        ensures
            n == self@.len(),
    {
        store_len(&self.store)
    }

    /// Whether the list holds no variable.
    pub fn is_empty(&self) -> (r: bool)
        ensures
            r == (self@.len() == 0),
    {
        store_len(&self.store) == 0
    }

    /// The value bound to `key`.
    pub fn get(&self, key: &str) -> (r: Option<&str>)
        ensures
            r.deep_view() == value_of(self@, key@),
    {
        match store_get(&self.store, key) {
            Some(v) => Some(v.as_str()),
            None => None,
        }
    }

    /// Binds `key` to `value`. A key that is already bound keeps its place
    /// in the order; a new key goes last.
    pub fn set(&mut self, key: String, value: String)
        ensures
            final(self)@ == put(old(self)@, key@, value@),
    {
        store_insert(&mut self.store, key, value);
    }

    /// The entry at position `i`, as a pair of key and value. Its key
    /// stands at no other position.
    pub fn entry_at(&self, i: usize) -> (r: (&String, &String))
        requires
            i < self@.len(),
        ensures
            (r.0@, r.1@) == self@[i as int],
            forall|j: int| 0 <= j < self@.len() && j != i ==> (#[trigger] self@[j]).0 != r.0@,
    {
        match store_get_index(&self.store, i) {
            Some(kv) => kv,
            None => vstd::pervasive::unreached(),
        }
    }

    /// The keys, in order. No key occurs twice.
    pub fn keys(&self) -> (r: Vec<String>)
        ensures
            r.deep_view() == names_of(self@),
            distinct_keys(self@),
    {
        self.keys_owned()
    }

    /// The keys, in order. No key occurs twice.
    pub fn keys_owned(&self) -> (r: Vec<String>)
        ensures
            r.deep_view() == names_of(self@),
            distinct_keys(self@),
    {
        let n: usize = self.len();
        let mut out: Vec<String> = Vec::new();
        let mut i: usize = 0;
        while i < n
            invariant
                i <= n,
                n == self@.len(),
                out@.len() == i,
                forall|j: int| 0 <= j < i ==> (#[trigger] out@[j])@ == self@[j].0,
                forall|a: int, b: int| 0 <= a < i && a < b < n ==> self@[a].0 != self@[b].0,
            decreases n - i,
        {
            let entry = self.entry_at(i);
            out.push(entry.0.clone());
            i += 1;
        }
        assert(out.deep_view() =~= names_of(self@));
        out
    }

    /// The values, in the order of their keys.
    pub fn values(&self) -> (r: Vec<String>)
        ensures
            r.deep_view() == Seq::new(self@.len(), |i: int| self@[i].1),
    {
        let n: usize = self.len();
        let mut out: Vec<String> = Vec::new();
        let mut i: usize = 0;
        while i < n
            invariant
                i <= n,
                n == self@.len(),
                out@.len() == i,
                forall|j: int| 0 <= j < i ==> (#[trigger] out@[j])@ == self@[j].1,
            decreases n - i,
        {
            let entry = self.entry_at(i);
            out.push(entry.1.clone());
            i += 1;
        }
        assert(out.deep_view() =~= Seq::new(self@.len(), |i: int| self@[i].1));
        out
    }

    /// The variables, in order.
    pub fn iter(&self) -> (r: Vec<EnvVar>)
        ensures
            r.deep_view() == self@,
    {
        let n: usize = self.len();
        let mut out: Vec<EnvVar> = Vec::new();
        let mut i: usize = 0;
        while i < n
            invariant
                i <= n,
                n == self@.len(),
                out@.len() == i,
                forall|j: int| 0 <= j < i ==> (#[trigger] out@[j])@ == self@[j],
            decreases n - i,
        {
            let entry = self.entry_at(i);
            out.push(EnvVar { key: entry.0.clone(), value: entry.1.clone() });
            i += 1;
        }
        assert(out.deep_view() =~= self@);
        out
    }

    /// The variables as `KEY=VALUE`, in order.
    pub fn to_string_vec(&self) -> (r: Vec<String>)
        ensures
            r.deep_view() == Seq::new(self@.len(), |i: int| assignment_text(self@[i])),
    {
        let n: usize = self.len();
        let mut out: Vec<String> = Vec::new();
        let mut i: usize = 0;
        while i < n
            invariant
                i <= n,
                n == self@.len(),
                out@.len() == i,
                forall|j: int| 0 <= j < i ==> (#[trigger] out@[j])@ == assignment_text(self@[j]),
            decreases n - i,
        {
            let entry = self.entry_at(i);
            out.push(assignment_of(entry.0.as_str(), entry.1.as_str()));
            i += 1;
        }
        assert(out.deep_view() =~= Seq::new(self@.len(), |i: int| assignment_text(self@[i])));
        out
    }

    /// The variables as shell export statements on one line, in order,
    /// with one space between two statements.
    pub fn as_export_string(&self) -> (r: String)
        ensures
            r@ == exports_text(self@),
    {
        let n: usize = self.len();
        let mut exports = String::new();
        let mut i: usize = 0;
        assert(self@.take(0) =~= Seq::<Pair>::empty());
        while i < n
            invariant
                i <= n,
                n == self@.len(),
                exports@ == exports_text(self@.take(i as int)),
            decreases n - i,
        {
            let entry = self.entry_at(i);
            let line = export_of(entry.0.as_str(), entry.1.as_str());
            proof {
                assert(self@.take(i + 1).drop_last() =~= self@.take(i as int));
                assert(self@.take(i + 1).last() == self@[i as int]);
                if i > 0 {
                    assert(exports_text(self@.take(i + 1)) == exports_text(self@.take(i as int))
                        + " "@ + export_text(self@[i as int]));
                } else {
                    assert(exports_text(self@.take(1)) == export_text(self@[0]));
                    assert(Seq::<char>::empty() + export_text(self@[0]) =~= export_text(self@[0]));
                }
            }
            if i > 0 {
                exports.append(" ");
            }
            exports.append(line.as_str());
            i += 1;
        }
        assert(self@.take(n as int) =~= self@);
        exports
    }

    /// Makes the bindings of `other`, one after the other. A key of `other`
    /// that is already bound takes the value that `other` gives it and
    /// keeps its place; the others follow in the order of `other`.
    pub fn merge(&mut self, other: &EnvList)
        ensures
            final(self)@ == put_all(old(self)@, other@, 0),
    {
        let n: usize = other.len();
        let mut i: usize = 0;
        while i < n
            invariant
                i <= n,
                n == other@.len(),
                put_all(self@, other@, i as int) == put_all(old(self)@, other@, 0),
            decreases n - i,
        {
            let entry = other.entry_at(i);
            self.set(entry.0.clone(), entry.1.clone());
            i += 1;
        }
    }

    /// The variables whose value is a shell substitution, in order.
    pub fn unresolved(&self) -> (r: Vec<EnvVar>)
        ensures
            r.deep_view() == unresolved_from(self@, 0),
    {
        let n: usize = self.len();
        let mut out: Vec<EnvVar> = Vec::new();
        let mut i: usize = 0;
        assert(out.deep_view() =~= Seq::<Pair>::empty());
        assert(out.deep_view() + unresolved_from(self@, 0) =~= unresolved_from(self@, 0));
        while i < n
            invariant
                i <= n,
                n == self@.len(),
                out.deep_view() + unresolved_from(self@, i as int) == unresolved_from(self@, 0),
            decreases n - i,
        {
            let ghost before = out.deep_view();
            let entry = self.entry_at(i);
            if is_shell(entry.1.as_str()) {
                out.push(EnvVar { key: entry.0.clone(), value: entry.1.clone() });
                assert(out.deep_view() =~= before.push(self@[i as int]));
                assert(before + (seq![self@[i as int]] + unresolved_from(self@, i + 1))
                    =~= before.push(self@[i as int]) + unresolved_from(self@, i + 1));
            }
            i += 1;
        }
        assert(out.deep_view() + Seq::<Pair>::empty() =~= out.deep_view());
        out
    }

    /// Puts the resolved value in the place of the value of `key`,
    /// `outcome` being how the command behind that value ended. A value
    /// whose command did not start stays as it is.
    pub fn resolve_entry(&mut self, key: &str, outcome: &ShellOutcome)
        ensures
            final(self)@ == entry_resolved(old(self)@, key@, outcome@),
    {
        let value: String = match self.get(key) {
            Some(v) => String::from_str(v),
            None => {
                return ;
            },
        };
        match resolve_shell(value.as_str(), outcome) {
            Ok(text) => {
                store_swap_remove(&mut self.store, key);
                store_insert(&mut self.store, String::from_str(key), text);
            },
            Err(_) => {},
        }
    }

    /// Resolves the values that are shell substitutions, `outcomes` saying
    /// how the command of each ended, taken one after the other.
    pub fn resolve_all(&mut self, outcomes: &Vec<Resolution>)
        ensures
            final(self)@ == all_resolved(old(self)@, outcomes.deep_view(), 0),
    {
        let ghost all = outcomes.deep_view();
        let mut i: usize = 0;
        while i < outcomes.len()
            invariant
                i <= outcomes.len(),
                all == outcomes.deep_view(),
                all_resolved(self@, all, i as int) == all_resolved(old(self)@, all, 0),
            decreases outcomes.len() - i,
        {
            assert(all[i as int] == outcomes@[i as int]@);
            self.resolve_entry(outcomes[i].key.as_str(), &outcomes[i].outcome);
            i += 1;
        }
    }
}

} // verus!

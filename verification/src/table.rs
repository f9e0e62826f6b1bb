//! The settings tree that the menu walks: an ordered table of named
//! entries, each either a nested table or a leaf value.
use vstd::prelude::*;

verus! {

/// A value stored under a key of a settings table.
///
/// Floating-point leaves carry the bit pattern of the number, which the
/// menu never inspects.
#[derive(Debug)]
pub enum ConfigValue {
    Table(ConfigTable),
    Integer(i64),
    UInteger(u64),
    Int(i32),
    UInt(u32),
    Short(i16),
    UShort(u16),
    Byte(i8),
    UByte(u8),
    Float(u64),
    Float32(u32),
    Boolean(bool),
    /// Strings, arrays, dates: values that the menu shows but never steps.
    Other,
}

/// One named entry of a table.
#[derive(Debug)]
pub struct ConfigEntry {
    pub key: String,
    pub value: ConfigValue,
}

/// An ordered table of entries, in the order in which the menu lists them.
#[derive(Debug)]
pub struct ConfigTable {
    pub entries: Vec<ConfigEntry>,
}

/// The keys of a table, in order.
pub open spec fn key_seq(t: ConfigTable) -> Seq<Seq<char>> {
    t.entries@.map_values(|e: ConfigEntry| e.key@)
}

/// The value of the first entry named `k`.
pub open spec fn lookup_in(es: Seq<ConfigEntry>, k: Seq<char>) -> Option<ConfigValue>
    decreases es.len(),
{
    if es.len() == 0 {
        None
    } else if es[0].key@ == k {
        Some(es[0].value)
    } else {
        lookup_in(es.drop_first(), k)
    }
}

/// The value stored under `k` in `t`.
pub open spec fn lookup(t: ConfigTable, k: Seq<char>) -> Option<ConfigValue> {
    lookup_in(t.entries@, k)
}

/// The table that `v` holds, when `v` is `Some(Table(..))`.
pub open spec fn sub_table(v: Option<ConfigValue>) -> ConfigTable {
    match v {
        Some(ConfigValue::Table(t)) => t,
        _ => arbitrary(),
    }
}

/// Whether `v` is `Some(Table(..))`.
pub open spec fn holds_table(v: Option<ConfigValue>) -> bool {
    v matches Some(ConfigValue::Table(_))
}

/// The key that follows the last occurrence of `k` (scanning front to back).
pub open spec fn next_key_of(ks: Seq<Seq<char>>, k: Seq<char>) -> Option<Seq<char>>
    decreases ks.len(),
{
    if ks.len() < 2 {
        None
    } else if ks[ks.len() - 2] == k {
        Some(ks.last())
    } else {
        next_key_of(ks.drop_last(), k)
    }
}

/// The key that precedes the first occurrence of `k` (scanning back to front).
pub open spec fn prev_key_of(ks: Seq<Seq<char>>, k: Seq<char>) -> Option<Seq<char>>
    decreases ks.len(),
{
    if ks.len() < 2 {
        None
    } else if ks[1] == k {
        Some(ks[0])
    } else {
        prev_key_of(ks.drop_first(), k)
    }
}

impl ConfigValue {
    /// Whether this value is a nested table.
    pub fn is_table(&self) -> (r: bool)
        ensures
            r == (*self is Table),
    {
        match self {
            ConfigValue::Table(_) => true,
            _ => false,
        }
    }

    /// The nested table, when this value is one.
    pub fn as_table(&self) -> (r: Option<&ConfigTable>)
        ensures
            match r {
                Some(t) => *self == ConfigValue::Table(*t),
                None => !(*self is Table),
            },
    {
        match self {
            ConfigValue::Table(t) => Some(t),
            _ => None,
        }
    }
}

impl ConfigTable {
    /// The position of the first entry named `key`.
    pub fn find(&self, key: &String) -> (r: Option<usize>)
        ensures
            match r {
                Some(j) => first_at(self.entries@, key@, j as int),
                None => forall|i: int| 0 <= i < self.entries@.len() ==> self.entries@[i].key@ != key@,
            },
    {
        let n = self.entries.len();
        let mut i: usize = 0;
        while i < n
            invariant
                n == self.entries@.len(),
                i <= n,
                forall|j: int| 0 <= j < i ==> self.entries@[j].key@ != key@,
            decreases n - i,
        {
            if self.entries[i].key == *key {
                return Some(i);
            }
            i = i + 1;
        }
        None
    }

    /// Replaces the value of entry `j` by `v` and returns the value it held.
    pub fn replace_value(&mut self, j: usize, v: ConfigValue) -> (r: ConfigValue)
        requires
            j < old(self).entries@.len(),
        ensures
            r == old(self).entries@[j as int].value,
            final(self).entries@ == old(self).entries@.update(
                j as int,
                ConfigEntry { key: old(self).entries@[j as int].key, value: v },
            ),
    {
        let mut v = v;
        std::mem::swap(&mut self.entries[j].value, &mut v);
        v
    }

    /// The value stored under `key`.
    pub fn get(&self, key: &String) -> (r: Option<&ConfigValue>)
        ensures
            match r {
                Some(v) => lookup(*self, key@) == Some(*v),
                None => lookup(*self, key@) is None,
            },
    {
        let n = self.entries.len();
        let mut i: usize = 0;
        assert(self.entries@.skip(0) =~= self.entries@);
        while i < n
            invariant
                n == self.entries@.len(),
                i <= n,
                lookup(*self, key@) == lookup_in(self.entries@.skip(i as int), key@),
            decreases n - i,
        {
            assert(self.entries@.skip(i as int).drop_first() =~= self.entries@.skip(i + 1));
            if self.entries[i].key == *key {
                return Some(&self.entries[i].value);
            }
            i = i + 1;
        }
        None
    }
}

/// An entry named `k` makes `k` found.
pub proof fn lemma_lookup_in_found(es: Seq<ConfigEntry>, k: Seq<char>, j: int)
    requires
        0 <= j < es.len(),
        es[j].key@ == k,
    ensures
        lookup_in(es, k) is Some,
    decreases es.len(),
{
    if es[0].key@ != k {
        lemma_lookup_in_found(es.drop_first(), k, j - 1);
    }
}

/// When `next_key_of` finds a key, `k` stands just before it.
pub proof fn lemma_next_key_pos(ks: Seq<Seq<char>>, k: Seq<char>) -> (j: int)
    requires
        next_key_of(ks, k) is Some,
    ensures
        0 <= j < ks.len() - 1,
        ks[j] == k,
        next_key_of(ks, k) == Some(ks[j + 1]),
    decreases ks.len(),
{
    if ks[ks.len() - 2] == k {
        ks.len() - 2
    } else {
        let j = lemma_next_key_pos(ks.drop_last(), k);
        j
    }
}

/// When `prev_key_of` finds a key, `k` stands just after it.
pub proof fn lemma_prev_key_pos(ks: Seq<Seq<char>>, k: Seq<char>) -> (j: int)
    requires
        prev_key_of(ks, k) is Some,
    ensures
        1 <= j < ks.len(),
        ks[j] == k,
        prev_key_of(ks, k) == Some(ks[j - 1]),
    decreases ks.len(),
{
    if ks[1] == k {
        1
    } else {
        let j = lemma_prev_key_pos(ks.drop_first(), k);
        j + 1
    }
}

/// A key reached by a step from `k` and `k` itself are both in the table.
pub proof fn lemma_step_found(t: ConfigTable, k: Seq<char>, down: bool)
    requires
        if down { next_key_of(key_seq(t), k) is Some } else { prev_key_of(key_seq(t), k) is Some },
    ensures
        lookup(t, k) is Some,
        down ==> lookup(t, next_key_of(key_seq(t), k).unwrap()) is Some,
        !down ==> lookup(t, prev_key_of(key_seq(t), k).unwrap()) is Some,
{
    if down {
        let j = lemma_next_key_pos(key_seq(t), k);
        lemma_lookup_in_found(t.entries@, k, j);
        lemma_lookup_in_found(t.entries@, key_seq(t)[j + 1], j + 1);
    } else {
        let j = lemma_prev_key_pos(key_seq(t), k);
        lemma_lookup_in_found(t.entries@, k, j);
        lemma_lookup_in_found(t.entries@, key_seq(t)[j - 1], j - 1);
    }
}

/// No key occurs twice in the table (as in any map).
pub open spec fn keys_distinct(t: ConfigTable) -> bool {
    key_seq(t).no_duplicates()
}

/// With distinct keys, the key after `ks[j]` is `ks[j + 1]`.
pub proof fn lemma_next_key_at(ks: Seq<Seq<char>>, j: int)
    requires
        ks.no_duplicates(),
        0 <= j < ks.len() - 1,
    ensures
        next_key_of(ks, ks[j]) == Some(ks[j + 1]),
    decreases ks.len(),
{
    if ks[ks.len() - 2] != ks[j] {
        let d = ks.drop_last();
        assert(d.no_duplicates());
        assert(d[j] == ks[j]);
        lemma_next_key_at(d, j);
    }
}

/// With distinct keys, the key before `ks[j]` is `ks[j - 1]`.
pub proof fn lemma_prev_key_at(ks: Seq<Seq<char>>, j: int)
    requires
        ks.no_duplicates(),
        1 <= j < ks.len(),
    ensures
        prev_key_of(ks, ks[j]) == Some(ks[j - 1]),
    decreases ks.len(),
{
    if ks[1] != ks[j] {
        let d = ks.drop_first();
        assert(d.no_duplicates());
        assert(d[j - 1] == ks[j]);
        lemma_prev_key_at(d, j - 1);
    }
}

/// A key that occurs nowhere after the front has no key before it.
pub proof fn lemma_prev_key_absent(ks: Seq<Seq<char>>, k: Seq<char>)
    requires
        forall|j: int| 1 <= j < ks.len() ==> ks[j] != k,
    ensures
        prev_key_of(ks, k) is None,
    decreases ks.len(),
{
    if ks.len() >= 2 {
        let d = ks.drop_first();
        assert forall|j: int| 1 <= j < d.len() implies d[j] != k by {
            assert(d[j] == ks[j + 1]);
        }
        lemma_prev_key_absent(d, k);
    }
}

/// Over distinct keys, the key after `a` is `b` exactly when the key
/// before `b` is `a`.
pub proof fn law_next_prev_inverse(ks: Seq<Seq<char>>, a: Seq<char>, b: Seq<char>)
    requires
        ks.no_duplicates(),
    ensures
        next_key_of(ks, a) == Some(b) <==> prev_key_of(ks, b) == Some(a),
{
    if next_key_of(ks, a) == Some(b) {
        let j = lemma_next_key_pos(ks, a);
        lemma_prev_key_at(ks, j + 1);
    }
    if prev_key_of(ks, b) == Some(a) {
        let j = lemma_prev_key_pos(ks, b);
        lemma_next_key_at(ks, j - 1);
    }
}


/// The contents of a table entry, as mathematical values.
pub struct EntryModel {
    pub key: Seq<char>,
    pub value: ValueModel,
}

/// The contents of a value: a nested table's entries, or a leaf.
pub enum ValueModel {
    Table(Seq<EntryModel>),
    Leaf(ConfigValue),
}

/// The contents of a value, nested tables included.
pub open spec fn value_model(v: ConfigValue) -> ValueModel
    decreases v, 0nat,
{
    match v {
        ConfigValue::Table(t) => {
            proof {
                assert(decreases_to!(v => t));
                assert(decreases_to!(t => t.entries));
                assert(decreases_to!(t.entries => t.entries@));
            }
            ValueModel::Table(entries_model(t.entries@))
        },
        _ => ValueModel::Leaf(v),
    }
}

/// The contents of a sequence of entries, nested tables included.
pub open spec fn entries_model(es: Seq<ConfigEntry>) -> Seq<EntryModel>
    decreases es, 1nat,
{
    Seq::new(
        es.len(),
        |i: int|
            if 0 <= i < es.len() {
                proof {
                    assert(decreases_to!(es => es[i]));
                    assert(decreases_to!(es[i] => es[i].value));
                }
                EntryModel { key: es[i].key@, value: value_model(es[i].value) }
            } else {
                arbitrary()
            },
    )
}

/// The contents of a table, nested tables included.
pub open spec fn table_model(t: ConfigTable) -> Seq<EntryModel> {
    entries_model(t.entries@)
}


/// Entry `j` is the first one named `k`.
pub open spec fn first_at(es: Seq<ConfigEntry>, k: Seq<char>, j: int) -> bool {
    &&& 0 <= j < es.len()
    &&& es[j].key@ == k
    &&& forall|i: int| 0 <= i < j ==> es[i].key@ != k
}

/// Entry `j` of the contents is the first one named `k`.
pub open spec fn model_first_at(ms: Seq<EntryModel>, k: Seq<char>, j: int) -> bool {
    &&& 0 <= j < ms.len()
    &&& ms[j].key == k
    &&& forall|i: int| 0 <= i < j ==> ms[i].key != k
}

/// The contents stored under the first entry named `k`.
pub open spec fn model_lookup(ms: Seq<EntryModel>, k: Seq<char>) -> Option<ValueModel> {
    if exists|j: int| model_first_at(ms, k, j) {
        Some(ms[choose|j: int| model_first_at(ms, k, j)].value)
    } else {
        None
    }
}

/// The contents with the value of the first entry named `k` replaced by `v`.
pub open spec fn model_put(ms: Seq<EntryModel>, k: Seq<char>, v: ValueModel) -> Seq<EntryModel> {
    if exists|j: int| model_first_at(ms, k, j) {
        let j = choose|j: int| model_first_at(ms, k, j);
        ms.update(j, EntryModel { key: ms[j].key, value: v })
    } else {
        ms
    }
}

/// The entries of a nested table's contents.
pub open spec fn model_entries(o: Option<ValueModel>) -> Seq<EntryModel> {
    match o {
        Some(ValueModel::Table(es)) => es,
        _ => Seq::empty(),
    }
}

/// There is only one first entry named `k`.
pub proof fn lemma_model_first_unique(ms: Seq<EntryModel>, k: Seq<char>, j1: int, j2: int)
    requires
        model_first_at(ms, k, j1),
        model_first_at(ms, k, j2),
    ensures
        j1 == j2,
{
}

/// Looking up and replacing at the first entry named `k`, found at `j`.
pub proof fn lemma_model_at(ms: Seq<EntryModel>, k: Seq<char>, j: int, v: ValueModel)
    requires
        model_first_at(ms, k, j),
    ensures
        model_lookup(ms, k) == Some(ms[j].value),
        model_put(ms, k, v) == ms.update(j, EntryModel { key: ms[j].key, value: v }),
        model_first_at(model_put(ms, k, v), k, j),
        model_lookup(model_put(ms, k, v), k) == Some(v),
        model_put(model_put(ms, k, v), k, ms[j].value) == ms,
{
    let c = choose|i: int| model_first_at(ms, k, i);
    lemma_model_first_unique(ms, k, c, j);
    let p = ms.update(j, EntryModel { key: ms[j].key, value: v });
    assert(model_first_at(p, k, j));
    let c2 = choose|i: int| model_first_at(p, k, i);
    lemma_model_first_unique(p, k, c2, j);
    assert(p.update(j, EntryModel { key: p[j].key, value: ms[j].value }) =~= ms);
}

/// The contents of the entries, one by one.
pub proof fn lemma_entries_model_index(es: Seq<ConfigEntry>, j: int)
    requires
        0 <= j < es.len(),
    ensures
        entries_model(es).len() == es.len(),
        entries_model(es)[j] == (EntryModel { key: es[j].key@, value: value_model(es[j].value) }),
{
}

/// Replacing one entry replaces its contents.
pub proof fn lemma_entries_model_update(es: Seq<ConfigEntry>, j: int, e: ConfigEntry)
    requires
        0 <= j < es.len(),
    ensures
        entries_model(es.update(j, e)) == entries_model(es).update(
            j,
            EntryModel { key: e.key@, value: value_model(e.value) },
        ),
{
    assert(entries_model(es.update(j, e)) =~= entries_model(es).update(
        j,
        EntryModel { key: e.key@, value: value_model(e.value) },
    ));
}

/// The first entry named `k` is the same in a table and in its contents.
pub proof fn lemma_first_at_model(es: Seq<ConfigEntry>, k: Seq<char>, j: int)
    ensures
        first_at(es, k, j) <==> model_first_at(entries_model(es), k, j),
{
    if first_at(es, k, j) {
        assert forall|i: int| 0 <= i < j implies entries_model(es)[i].key != k by {
            lemma_entries_model_index(es, i);
        }
        lemma_entries_model_index(es, j);
    }
    if model_first_at(entries_model(es), k, j) {
        assert forall|i: int| 0 <= i < j implies es[i].key@ != k by {
            lemma_entries_model_index(es, i);
        }
        lemma_entries_model_index(es, j);
    }
}

/// `lookup_in` finds the first entry named `k`.
pub proof fn lemma_lookup_in_first(es: Seq<ConfigEntry>, k: Seq<char>)
    ensures
        lookup_in(es, k) is Some ==> exists|j: int| first_at(es, k, j),
        forall|j: int| first_at(es, k, j) ==> lookup_in(es, k) == Some(es[j].value),
    decreases es.len(),
{
    if es.len() > 0 {
        let d = es.drop_first();
        lemma_lookup_in_first(d, k);
        if es[0].key@ == k {
            assert(first_at(es, k, 0));
            assert forall|j: int| first_at(es, k, j) implies lookup_in(es, k) == Some(es[j].value) by {
                assert(j == 0);
            }
        } else {
            if lookup_in(es, k) is Some {
                let j = choose|j: int| first_at(d, k, j);
                assert forall|i: int| 0 <= i < j + 1 implies es[i].key@ != k by {
                    if i > 0 {
                        assert(es[i] == d[i - 1]);
                    }
                }
                assert(first_at(es, k, j + 1));
            }
            assert forall|j: int| first_at(es, k, j) implies lookup_in(es, k) == Some(es[j].value) by {
                assert(j > 0);
                assert forall|i: int| 0 <= i < j - 1 implies d[i].key@ != k by {
                    assert(d[i] == es[i + 1]);
                }
                assert(first_at(d, k, j - 1));
            }
        }
    }
}

/// Looking up a key in a table agrees with looking it up in its contents.
pub proof fn lemma_lookup_model(t: ConfigTable, k: Seq<char>)
    ensures
        match lookup(t, k) {
            Some(v) => model_lookup(table_model(t), k) == Some(value_model(v)),
            None => model_lookup(table_model(t), k) is None,
        },
{
    let es = t.entries@;
    lemma_lookup_in_first(es, k);
    if lookup(t, k) is Some {
        let j = choose|j: int| first_at(es, k, j);
        lemma_first_at_model(es, k, j);
        lemma_model_at(table_model(t), k, j, ValueModel::Leaf(ConfigValue::Other));
        lemma_entries_model_index(es, j);
    } else {
        if exists|j: int| model_first_at(table_model(t), k, j) {
            let j = choose|j: int| model_first_at(table_model(t), k, j);
            lemma_first_at_model(es, k, j);
        }
    }
}

/// Equal contents come from equal leaves, and from tables with equal contents.
pub proof fn lemma_value_model_inj(x: ConfigValue, y: ConfigValue)
    ensures
        !(x is Table) && value_model(y) == ValueModel::Leaf(x) ==> y == x,
        value_model(y) matches ValueModel::Table(ms) ==> (y is Table && table_model(
            sub_table(Some(y)),
        ) == ms),
{
}

} // verus!

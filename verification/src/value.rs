//! The configuration value tree: a dynamically typed value as a scripting
//! evaluator hands it over, held as plain data.

use vstd::prelude::*;
use vstd::string::StringExecFns;

verus! {

/// What a configuration value is, mathematically.
pub ghost enum ValueModel {
    Nil,
    Bool(bool),
    Integer(int),
    Text(Seq<char>),
    Table(TableModel),
}

/// What a table is, mathematically: its key/value pairs in declaration order.
/// A positional entry has its integer index as key, a named field its name.
pub ghost struct TableModel {
    pub pairs: Seq<(ValueModel, ValueModel)>,
}

/// Whether a lookup under `wanted` finds an entry stored under `stored`.
/// Booleans, integers and strings are found again by their value. `Nil` is
/// no key, and a table is never found again, since nothing tells two tables
/// with the same content apart from one table.
pub open spec fn same_key(stored: ValueModel, wanted: ValueModel) -> bool {
    match (stored, wanted) {
        (ValueModel::Bool(a), ValueModel::Bool(b)) => a == b,
        (ValueModel::Integer(a), ValueModel::Integer(b)) => a == b,
        (ValueModel::Text(a), ValueModel::Text(b)) => a == b,
        _ => false,
    }
}

/// The index of the first of `pairs` stored under `key`, or `pairs.len()`
/// where there is none.
pub open spec fn position(pairs: Seq<(ValueModel, ValueModel)>, key: ValueModel) -> int
    decreases pairs.len(),
{
    if pairs.len() == 0 {
        0
    } else if same_key(pairs[0].0, key) {
        0
    } else {
        1 + position(pairs.drop_first(), key)
    }
}

/// `position` is the least index whose key matches, and the length where no
/// key matches.
pub proof fn lemma_position(pairs: Seq<(ValueModel, ValueModel)>, key: ValueModel)
    ensures
        0 <= position(pairs, key) <= pairs.len(),
        position(pairs, key) < pairs.len() ==> same_key(pairs[position(pairs, key)].0, key),
        forall|j: int| 0 <= j < position(pairs, key) ==> !same_key(#[trigger] pairs[j].0, key),
    decreases pairs.len(),
{
    if pairs.len() != 0 && !same_key(pairs[0].0, key) {
        let rest = pairs.drop_first();
        lemma_position(rest, key);
        assert forall|j: int| 0 <= j < position(pairs, key) implies !same_key(
            #[trigger] pairs[j].0,
            key,
        ) by {
            if j > 0 {
                assert(pairs[j] == rest[j - 1]);
            }
        }
    }
}

/// An index at which the key matches, with no match before it, is `position`.
pub proof fn lemma_position_is(pairs: Seq<(ValueModel, ValueModel)>, key: ValueModel, i: int)
    requires
        0 <= i <= pairs.len(),
        i < pairs.len() ==> same_key(pairs[i].0, key),
        forall|j: int| 0 <= j < i ==> !same_key(#[trigger] pairs[j].0, key),
    ensures
        position(pairs, key) == i,
{
    lemma_position(pairs, key);
    let p = position(pairs, key);
    if p < i {
        assert(!same_key(pairs[p].0, key));
    }
}

impl TableModel {
    /// The empty table.
    pub open spec fn empty() -> TableModel {
        TableModel { pairs: Seq::empty() }
    }

    /// The value stored under `key`, `Nil` where there is none.
    pub open spec fn get(self, key: ValueModel) -> ValueModel {
        let at = position(self.pairs, key);
        if at < self.pairs.len() {
            self.pairs[at].1
        } else {
            ValueModel::Nil
        }
    }

    /// The table after `key` is bound to `value`. Binding to `Nil` unbinds the
    /// key. A bound key keeps its place; a new key goes to the end. `Nil` and
    /// a table are no keys: with one of them the table stays as it is.
    pub open spec fn set(self, key: ValueModel, value: ValueModel) -> TableModel {
        let at = position(self.pairs, key);
        if !same_key(key, key) {
            self
        } else if value is Nil {
            if at < self.pairs.len() {
                TableModel { pairs: self.pairs.remove(at) }
            } else {
                self
            }
        } else if at < self.pairs.len() {
            TableModel { pairs: self.pairs.update(at, (key, value)) }
        } else {
            TableModel { pairs: self.pairs.push((key, value)) }
        }
    }

    /// No key is bound twice, and nothing is bound to `Nil`.
    pub open spec fn well_formed(self) -> bool {
        &&& forall|i: int|
            0 <= i < self.pairs.len() ==> same_key(#[trigger] self.pairs[i].0, self.pairs[i].0)
        &&& forall|i: int| 0 <= i < self.pairs.len() ==> !((#[trigger] self.pairs[i]).1 is Nil)
        &&& forall|i: int, j: int|
            0 <= i < j < self.pairs.len() ==> !same_key(
                #[trigger] self.pairs[i].0,
                #[trigger] self.pairs[j].0,
            )
    }
}

/// Binding a key keeps a table well formed.
pub proof fn law_set_well_formed(table: TableModel, key: ValueModel, value: ValueModel)
    requires
        table.well_formed(),
    ensures
        table.set(key, value).well_formed(),
{
    lemma_position(table.pairs, key);
}

/// A lookup finds what was bound last: after `key` is bound to `value`, the
/// table holds `value` under `key`. Unbinding takes a well-formed table.
pub proof fn law_get_what_was_set(table: TableModel, key: ValueModel, value: ValueModel)
    requires
        same_key(key, key),
        value is Nil ==> table.well_formed(),
    ensures
        table.set(key, value).get(key) == value,
{
    let at = position(table.pairs, key);
    let after = table.set(key, value).pairs;
    lemma_position(table.pairs, key);
    if value is Nil {
        if at < table.pairs.len() {
            assert forall|j: int| 0 <= j < after.len() implies !same_key(
                #[trigger] after[j].0,
                key,
            ) by {
                if j >= at {
                    assert(after[j] == table.pairs[j + 1]);
                    assert(!same_key(table.pairs[at].0, table.pairs[j + 1].0));
                }
            }
            lemma_position_is(after, key, after.len() as int);
        }
    } else {
        lemma_position_is(after, key, at);
    }
}

/// Binding a key leaves what the table holds under every other key.
pub proof fn law_set_leaves_others(
    table: TableModel,
    key: ValueModel,
    value: ValueModel,
    other: ValueModel,
)
    requires
        !same_key(key, other),
    ensures
        table.set(key, value).get(other) == table.get(other),
{
    let at = position(table.pairs, key);
    let found = position(table.pairs, other);
    let after = table.set(key, value).pairs;
    lemma_position(table.pairs, key);
    lemma_position(table.pairs, other);
    if !same_key(key, key) {
    } else if value is Nil {
        if at < table.pairs.len() {
            if found < at {
                lemma_position_is(after, other, found);
            } else {
                assert forall|j: int| 0 <= j < found - 1 implies !same_key(
                    #[trigger] after[j].0,
                    other,
                ) by {
                    if j >= at {
                        assert(after[j] == table.pairs[j + 1]);
                    }
                }
                lemma_position_is(after, other, found - 1);
            }
        }
    } else if at < table.pairs.len() {
        lemma_position_is(after, other, found);
    } else {
        if found < table.pairs.len() {
            lemma_position_is(after, other, found);
        } else {
            lemma_position_is(after, other, found + 1);
        }
    }
}

/// A node of a dynamically typed configuration tree.
#[derive(Debug, PartialEq)]
pub enum ConfigValue {
    Nil,
    Bool(bool),
    Integer(i64),
    String(String),
    Table(Table),
}

/// A table value: key/value pairs in declaration order.
#[derive(Debug, PartialEq)]
pub struct Table {
    pairs: Vec<(ConfigValue, ConfigValue)>,
}

impl View for ConfigValue {
    type V = ValueModel;

    open spec fn view(&self) -> ValueModel
        decreases self,
    {
        match self {
            ConfigValue::Nil => ValueModel::Nil,
            ConfigValue::Bool(b) => ValueModel::Bool(*b),
            ConfigValue::Integer(n) => ValueModel::Integer(*n as int),
            ConfigValue::String(s) => ValueModel::Text(s@),
            ConfigValue::Table(t) => ValueModel::Table(t@),
        }
    }
}

impl View for Table {
    type V = TableModel;

    closed spec fn view(&self) -> TableModel
        decreases self,
    {
        TableModel {
            pairs: Seq::new(
                self.pairs@.len(),
                |i: int|
                    if 0 <= i < self.pairs@.len() {
                        (self.pairs@[i].0@, self.pairs@[i].1@)
                    } else {
                        (ValueModel::Nil, ValueModel::Nil)
                    },
            ),
        }
    }
}

impl Clone for ConfigValue {
    fn clone(&self) -> (copy: ConfigValue)
        ensures
            copy@ == self@,
        decreases self,
    {
        match self {
            ConfigValue::Nil => ConfigValue::Nil,
            ConfigValue::Bool(b) => ConfigValue::Bool(*b),
            ConfigValue::Integer(n) => ConfigValue::Integer(*n),
            ConfigValue::String(s) => ConfigValue::String(s.clone()),
            ConfigValue::Table(t) => ConfigValue::Table(t.clone()),
        }
    }
}

impl Clone for Table {
    fn clone(&self) -> (copy: Table)
        ensures
            copy@ == self@,
        decreases self,
    {
        let mut pairs: Vec<(ConfigValue, ConfigValue)> = Vec::new();
        let mut i: usize = 0;
        while i < self.pairs.len()
            invariant
                i <= self.pairs.len(),
                pairs.len() == i,
                forall|j: int|
                    0 <= j < i ==> (#[trigger] pairs@[j]).0@ == self.pairs@[j].0@ && pairs@[j].1@
                        == self.pairs@[j].1@,
            decreases self.pairs.len() - i,
        {
            pairs.push((self.pairs[i].0.clone(), self.pairs[i].1.clone()));
            i += 1;
        }
        let copy = Table { pairs };
        assert(copy@.pairs =~= self@.pairs);
        copy
    }
}

impl ConfigValue {
    /// The table, where the value is one.
    pub fn as_table(&self) -> (table: Option<&Table>)
        ensures
            match table {
                Some(t) => self@ == ValueModel::Table(t@),
                None => !(self@ is Table),
            },
    {
        match self {
            ConfigValue::Table(t) => Some(t),
            _ => None,
        }
    }

    /// The text, where the value is a string.
    pub fn as_string(&self) -> (text: Option<&String>)
        ensures
            match text {
                Some(s) => self@ == ValueModel::Text(s@),
                None => !(self@ is Text),
            },
    {
        match self {
            ConfigValue::String(s) => Some(s),
            _ => None,
        }
    }

    /// The flag, where the value is a boolean.
    pub fn as_bool(&self) -> (flag: Option<bool>)
        ensures
            match flag {
                Some(b) => self@ == ValueModel::Bool(b),
                None => !(self@ is Bool),
            },
    {
        match self {
            ConfigValue::Bool(b) => Some(*b),
            _ => None,
        }
    }

    /// Whether a lookup under `wanted` finds an entry stored under `self`.
    pub fn is_key(&self, wanted: &ConfigValue) -> (same: bool)
        ensures
            same == same_key(self@, wanted@),
    {
        match (self, wanted) {
            (ConfigValue::Bool(a), ConfigValue::Bool(b)) => *a == *b,
            (ConfigValue::Integer(a), ConfigValue::Integer(b)) => *a == *b,
            (ConfigValue::String(a), ConfigValue::String(b)) => *a == *b,
            _ => false,
        }
    }
}

impl Table {
    /// A table without entries.
    pub fn new() -> (table: Table)
        ensures
            table@ == TableModel::empty(),
            table@.well_formed(),
    {
        let table = Table { pairs: Vec::new() };
        assert(table@.pairs =~= Seq::empty());
        table
    }

    /// The number of entries.
    pub fn len(&self) -> (n: usize)
        ensures
            n == self@.pairs.len(),
    {
        self.pairs.len()
    }

    /// The key and the value of the entry at `index`, in declaration order.
    pub fn pair(&self, index: usize) -> (entry: (&ConfigValue, &ConfigValue))
        requires
            index < self@.pairs.len(),
        ensures
            entry.0@ == self@.pairs[index as int].0,
            entry.1@ == self@.pairs[index as int].1,
    {
        let entry = &self.pairs[index];
        (&entry.0, &entry.1)
    }

    /// The index of the first entry stored under `key`, or the number of
    /// entries where there is none.
    fn find(&self, key: &ConfigValue) -> (at: usize)
        ensures
            at == position(self@.pairs, key@),
            at <= self.pairs@.len(),
    {
        let mut i: usize = 0;
        while i < self.pairs.len()
            invariant
                i <= self.pairs.len(),
                self@.pairs.len() == self.pairs@.len(),
                forall|j: int| 0 <= j < i ==> !same_key(#[trigger] self@.pairs[j].0, key@),
            decreases self.pairs.len() - i,
        {
            if self.pairs[i].0.is_key(key) {
                proof {
                    lemma_position_is(self@.pairs, key@, i as int);
                }
                return i;
            }
            i += 1;
        }
        proof {
            lemma_position_is(self@.pairs, key@, i as int);
        }
        i
    }

    /// The value stored under `key`, `Nil` where there is none.
    pub fn get(&self, key: &ConfigValue) -> (value: &ConfigValue)
        ensures
            value@ == self@.get(key@),
    {
        let at = self.find(key);
        if at < self.pairs.len() {
            &self.pairs[at].1
        } else {
            &ConfigValue::Nil
        }
    }

    /// The value of the positional entry `index`, `Nil` where there is none.
    pub fn slot(&self, index: i64) -> (value: &ConfigValue)
        ensures
            value@ == self@.get(ValueModel::Integer(index as int)),
    {
        let key = ConfigValue::Integer(index);
        self.get(&key)
    }

    /// The value of the field `name`, `Nil` where there is none.
    pub fn field(&self, name: &str) -> (value: &ConfigValue)
        ensures
            value@ == self@.get(ValueModel::Text(name@)),
    {
        let key = ConfigValue::String(String::from_str(name));
        self.get(&key)
    }

    /// Binds `key` to `value`. Binding to `Nil` unbinds the key. A bound key
    /// keeps its place; a new key goes to the end. `Nil` and a table are no
    /// keys: with one of them the table stays as it is.
    pub fn set(&mut self, key: ConfigValue, value: ConfigValue)
        ensures
            final(self)@ == old(self)@.set(key@, value@),
            old(self)@.well_formed() ==> final(self)@.well_formed(),
    {
        if !key.is_key(&key) {
            return ;
        }
        let at = self.find(&key);
        let ghost before = self@;
        proof {
            if before.well_formed() {
                law_set_well_formed(before, key@, value@);
            }
        }
        if let ConfigValue::Nil = value {
            if at < self.pairs.len() {
                self.pairs.remove(at);
                assert(self@.pairs =~= before.pairs.remove(at as int));
            }
        } else if at < self.pairs.len() {
            self.pairs.set(at, (key, value));
            assert(self@.pairs =~= before.pairs.update(at as int, (key@, value@)));
        } else {
            self.pairs.push((key, value));
            assert(self@.pairs =~= before.pairs.push((key@, value@)));
        }
    }
}

} // verus!

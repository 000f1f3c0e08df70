use crate::number::Float64;
use vstd::prelude::*;

verus! {

/// A structured value as it stands on the wire, before any field is read.
///
/// An integer that the text writes without fraction or exponent is
/// `Unsigned` (or `Signed`, where it is negative); every other number is
/// `Float`. An object keeps its entries in the order of the text, repeated
/// keys included.
#[derive(Debug, PartialEq, Eq)]
pub enum Value {
    Null,
    Bool(bool),
    Unsigned(u64),
    Signed(i64),
    Float(Float64),
    String(String),
    Array(Vec<Value>),
    Object(Vec<(String, Value)>),
}

/// The mathematical reading of a [`Value`].
pub enum ValueModel {
    Null,
    Bool(bool),
    Unsigned(u64),
    Signed(i64),
    Float(Float64),
    String(Seq<char>),
    Array(Seq<ValueModel>),
    Object(Seq<(Seq<char>, ValueModel)>),
}

impl View for Value {
    type V = ValueModel;

    open spec fn view(&self) -> ValueModel
        decreases self, 0nat,
    {
        match self {
            Value::Null => ValueModel::Null,
            Value::Bool(b) => ValueModel::Bool(*b),
            Value::Unsigned(n) => ValueModel::Unsigned(*n),
            Value::Signed(n) => ValueModel::Signed(*n),
            Value::Float(x) => ValueModel::Float(*x),
            Value::String(s) => ValueModel::String(s@),
            Value::Array(items) => ValueModel::Array(items_upto(items@, items@.len())),
            Value::Object(entries) => ValueModel::Object(entries_upto(entries@, entries@.len())),
        }
    }
}

/// The readings of the first `n` items of an array.
pub open spec fn items_upto(items: Seq<Value>, n: nat) -> Seq<ValueModel>
    decreases items, n,
{
    if n == 0 || n > items.len() {
        Seq::empty()
    } else {
        items_upto(items, (n - 1) as nat).push(items[n - 1].view())
    }
}

/// The readings of the first `n` entries of an object.
pub open spec fn entries_upto(entries: Seq<(String, Value)>, n: nat) -> Seq<(Seq<char>, ValueModel)>
    decreases entries, n,
{
    if n == 0 || n > entries.len() {
        Seq::empty()
    } else {
        entries_upto(entries, (n - 1) as nat).push((entries[n - 1].0@, entries[n - 1].1.view()))
    }
}

/// The readings of the items of an array.
pub open spec fn items_view(items: Seq<Value>) -> Seq<ValueModel> {
    Seq::new(items.len(), |i: int| items[i]@)
}

/// The readings of the entries of an object.
pub open spec fn entries_view(entries: Seq<(String, Value)>) -> Seq<(Seq<char>, ValueModel)> {
    Seq::new(entries.len(), |i: int| (entries[i].0@, entries[i].1@))
}

proof fn lemma_items_upto(items: Seq<Value>, n: nat)
    requires
        n <= items.len(),
    ensures
        items_upto(items, n) == items_view(items.take(n as int)),
    decreases n,
{
    if n > 0 {
        lemma_items_upto(items, (n - 1) as nat);
        assert(items_view(items.take(n - 1)).push(items[n - 1]@) =~= items_view(
            items.take(n as int),
        ));
    } else {
        assert(items_view(items.take(0)) =~= Seq::empty());
    }
}

proof fn lemma_entries_upto(entries: Seq<(String, Value)>, n: nat)
    requires
        n <= entries.len(),
    ensures
        entries_upto(entries, n) == entries_view(entries.take(n as int)),
    decreases n,
{
    if n > 0 {
        lemma_entries_upto(entries, (n - 1) as nat);
        assert(entries_view(entries.take(n - 1)).push((entries[n - 1].0@, entries[n - 1].1@))
            =~= entries_view(entries.take(n as int)));
    } else {
        assert(entries_view(entries.take(0)) =~= Seq::empty());
    }
}

/// The reading of an array is the array of its items' readings.
pub proof fn lemma_array_view(items: Vec<Value>)
    ensures
        Value::Array(items)@ == ValueModel::Array(items_view(items@)),
{
    lemma_items_upto(items@, items@.len());
    assert(items@.take(items@.len() as int) =~= items@);
}

/// The reading of an object is the object of its entries' readings.
pub proof fn lemma_object_view(entries: Vec<(String, Value)>)
    ensures
        Value::Object(entries)@ == ValueModel::Object(entries_view(entries@)),
{
    lemma_entries_upto(entries@, entries@.len());
    assert(entries@.take(entries@.len() as int) =~= entries@);
}

/// Whether one of the first `upto` entries has the key `key`.
pub open spec fn seen_before(entries: Seq<(Seq<char>, ValueModel)>, key: Seq<char>, upto: int) -> bool {
    exists|j: int| 0 <= j < upto && j < entries.len() && (#[trigger] entries[j]).0 == key
}

/// Whether an entry has the key `key`.
pub open spec fn has_key(entries: Seq<(Seq<char>, ValueModel)>, key: Seq<char>) -> bool {
    seen_before(entries, key, entries.len() as int)
}

/// Whether entry `j` is the first with the key `key`.
pub open spec fn is_first(entries: Seq<(Seq<char>, ValueModel)>, key: Seq<char>, j: int) -> bool {
    &&& 0 <= j < entries.len()
    &&& entries[j].0 == key
    &&& !seen_before(entries, key, j)
}

/// The value of the first entry with the key `key`.
pub open spec fn value_of(entries: Seq<(Seq<char>, ValueModel)>, key: Seq<char>) -> ValueModel {
    entries[choose|j: int| is_first(entries, key, j)].1
}

/// An entry that is the first with its key gives the key's value.
pub proof fn lemma_value_of(entries: Seq<(Seq<char>, ValueModel)>, key: Seq<char>, j: int)
    requires
        is_first(entries, key, j),
    ensures
        value_of(entries, key) == entries[j].1,
        has_key(entries, key),
{
    let chosen = choose|l: int| is_first(entries, key, l);
    assert(is_first(entries, key, chosen));
    if chosen < j {
        assert(entries[chosen].0 == key);
    }
    if j < chosen {
        assert(entries[j].0 == key);
    }
}

impl Clone for Value {
    #[verifier::loop_isolation(false)]
    fn clone(&self) -> (copy: Value)
        ensures
            copy@ == self@,
        decreases self,
    {
        match self {
            Value::Null => Value::Null,
            Value::Bool(b) => Value::Bool(*b),
            Value::Unsigned(n) => Value::Unsigned(*n),
            Value::Signed(n) => Value::Signed(*n),
            Value::Float(x) => Value::Float(*x),
            Value::String(s) => Value::String(s.clone()),
            Value::Array(items) => {
                let mut copies: Vec<Value> = Vec::new();
                let mut i: usize = 0;
                while i < items.len()
                    invariant
                        i <= items.len(),
                        copies.len() == i,
                        forall|j: int| 0 <= j < i ==> copies[j]@ == items[j]@,
                    decreases items.len() - i,
                {
                    proof {
                        vstd::std_specs::vec::axiom_vec_index_decreases(*items, i as int);
                    }
                    copies.push(items[i].clone());
                    i += 1;
                }
                proof {
                    lemma_array_view(copies);
                    lemma_array_view(*items);
                    assert(items_view(copies@) =~= items_view(items@));
                }
                Value::Array(copies)
            },
            Value::Object(entries) => {
                let mut copies: Vec<(String, Value)> = Vec::new();
                let mut i: usize = 0;
                while i < entries.len()
                    invariant
                        i <= entries.len(),
                        copies.len() == i,
                        forall|j: int|
                            0 <= j < i ==> copies[j].0@ == entries[j].0@ && copies[j].1@
                                == entries[j].1@,
                    decreases entries.len() - i,
                {
                    proof {
                        vstd::std_specs::vec::axiom_vec_index_decreases(*entries, i as int);
                    }
                    copies.push((entries[i].0.clone(), entries[i].1.clone()));
                    i += 1;
                }
                proof {
                    lemma_object_view(copies);
                    lemma_object_view(*entries);
                    assert(entries_view(copies@) =~= entries_view(entries@));
                }
                Value::Object(copies)
            },
        }
    }
}

impl Value {
    /// The entries of an object; `None` for any other value.
    pub fn entries(&self) -> (entries: Option<&Vec<(String, Value)>>)
        ensures
            match entries {
                Some(list) => self@ == ValueModel::Object(entries_view(list@)),
                None => !(self@ is Object),
            },
    {
        match self {
            Value::Object(list) => {
                proof {
                    lemma_object_view(*list);
                }
                Some(list)
            },
            _ => None,
        }
    }

    /// The items of an array; `None` for any other value.
    pub fn items(&self) -> (items: Option<&Vec<Value>>)
        ensures
            match items {
                Some(list) => self@ == ValueModel::Array(items_view(list@)),
                None => !(self@ is Array),
            },
    {
        match self {
            Value::Array(list) => {
                proof {
                    lemma_array_view(*list);
                }
                Some(list)
            },
            _ => None,
        }
    }

    /// The text of a string; `None` for any other value.
    pub fn text(&self) -> (text: Option<&String>)
        ensures
            match text {
                Some(s) => self@ == ValueModel::String(s@),
                None => !(self@ is String),
            },
    {
        match self {
            Value::String(s) => Some(s),
            _ => None,
        }
    }

    /// The object with the given entries.
    pub fn object(entries: Vec<(String, Value)>) -> (value: Value)
        ensures
            value@ == ValueModel::Object(entries_view(entries@)),
    {
        proof {
            lemma_object_view(entries);
        }
        Value::Object(entries)
    }

    /// The array with the given items.
    pub fn array(items: Vec<Value>) -> (value: Value)
        ensures
            value@ == ValueModel::Array(items_view(items@)),
    {
        proof {
            lemma_array_view(items);
        }
        Value::Array(items)
    }
}

} // verus!

//! Dynamically-typed configuration values.
//!
//! `ConfigValue` is the tree of scalars, arrays and objects that every
//! configuration source is turned into before it is merged or filtered.
//! Its mathematical model is `ValueModel`, where strings are `Seq<char>`
//! and objects are sequences of `(key, value)` members in their stored order.

use vstd::prelude::*;

verus! {

/// A configuration value as read from a JSON, TOML or YAML source.
#[derive(Debug)]
pub enum ConfigValue {
    /// The null value
    Null,
    /// A boolean
    Bool(bool),
    /// A single character
    Char(char),
    /// A non-negative integer
    UInt(u128),
    /// A negative integer
    Int(i128),
    /// A floating-point number, kept as its decimal text
    Float(String),
    /// A string
    Str(String),
    /// An array of values
    Array(Vec<ConfigValue>),
    /// An object: `(key, value)` members in their stored order
    Object(Vec<(String, ConfigValue)>),
}

/// Mathematical model of a `ConfigValue`.
pub enum ValueModel {
    Null,
    Bool(bool),
    Char(char),
    UInt(u128),
    Int(i128),
    Float(Seq<char>),
    Str(Seq<char>),
    Array(Seq<ValueModel>),
    Object(Seq<(Seq<char>, ValueModel)>),
}

impl View for ConfigValue {
    type V = ValueModel;

    open spec fn view(&self) -> ValueModel
        decreases self,
    {
        match self {
            ConfigValue::Null => ValueModel::Null,
            ConfigValue::Bool(b) => ValueModel::Bool(*b),
            ConfigValue::Char(c) => ValueModel::Char(*c),
            ConfigValue::UInt(n) => ValueModel::UInt(*n),
            ConfigValue::Int(n) => ValueModel::Int(*n),
            ConfigValue::Float(t) => ValueModel::Float(t@),
            ConfigValue::Str(s) => ValueModel::Str(s@),
            ConfigValue::Array(items) => ValueModel::Array(items_model(items@)),
            ConfigValue::Object(members) => ValueModel::Object(members_model(members@)),
        }
    }
}

/// The models of a sequence of values, element by element.
pub open spec fn items_model(s: Seq<ConfigValue>) -> Seq<ValueModel>
    decreases s,
{
    if s.len() == 0 {
        Seq::empty()
    } else {
        items_model(s.drop_last()).push(s.last()@)
    }
}

/// The models of a sequence of object members, member by member.
pub open spec fn members_model(s: Seq<(String, ConfigValue)>) -> Seq<(Seq<char>, ValueModel)>
    decreases s,
{
    if s.len() == 0 {
        Seq::empty()
    } else {
        members_model(s.drop_last()).push((s.last().0@, s.last().1@))
    }
}

/// `items_model` keeps the length and maps every element to its model.
pub proof fn lemma_items_model(s: Seq<ConfigValue>)
    ensures
        items_model(s).len() == s.len(),
        forall|i: int| 0 <= i < s.len() ==> #[trigger] items_model(s)[i] == s[i]@,
    decreases s.len(),
{
    if s.len() > 0 {
        lemma_items_model(s.drop_last());
        assert(items_model(s) == items_model(s.drop_last()).push(s.last()@));
    } else {
        assert(items_model(s) == Seq::<ValueModel>::empty());
    }
}

/// `members_model` keeps the length and maps every member to its model.
pub proof fn lemma_members_model(s: Seq<(String, ConfigValue)>)
    ensures
        members_model(s).len() == s.len(),
        forall|i: int|
            0 <= i < s.len() ==> #[trigger] members_model(s)[i] == (s[i].0@, s[i].1@),
    decreases s.len(),
{
    if s.len() > 0 {
        lemma_members_model(s.drop_last());
        assert(members_model(s) == members_model(s.drop_last()).push((s.last().0@, s.last().1@)));
    } else {
        assert(members_model(s) == Seq::<(Seq<char>, ValueModel)>::empty());
    }
}

/// Appending one value appends its model.
pub proof fn lemma_items_model_push(s: Seq<ConfigValue>, x: ConfigValue)
    ensures
        items_model(s.push(x)) == items_model(s).push(x@),
{
    assert(s.push(x).drop_last() =~= s);
}

/// Appending one member appends its model.
pub proof fn lemma_members_model_push(s: Seq<(String, ConfigValue)>, x: (String, ConfigValue))
    ensures
        members_model(s.push(x)) == members_model(s).push((x.0@, x.1@)),
{
    assert(s.push(x).drop_last() =~= s);
}

/// Two value sequences with the same element models have the same model.
pub proof fn lemma_items_model_ext(a: Seq<ConfigValue>, b: Seq<ConfigValue>)
    requires
        a.len() == b.len(),
        forall|i: int| 0 <= i < a.len() ==> #[trigger] a[i]@ == b[i]@,
    ensures
        items_model(a) == items_model(b),
{
    lemma_items_model(a);
    lemma_items_model(b);
    assert(items_model(a) =~= items_model(b));
}

/// Two member sequences with the same member models have the same model.
pub proof fn lemma_members_model_ext(a: Seq<(String, ConfigValue)>, b: Seq<(String, ConfigValue)>)
    requires
        a.len() == b.len(),
        forall|i: int| 0 <= i < a.len() ==> #[trigger] a[i].0@ == b[i].0@ && a[i].1@ == b[i].1@,
    ensures
        members_model(a) == members_model(b),
{
    lemma_members_model(a);
    lemma_members_model(b);
    assert(members_model(a) =~= members_model(b));
}

impl ConfigValue {
    /// A copy of this value with the same model.
    pub fn duplicate(&self) -> (r: ConfigValue)
        ensures
            r@ == self@,
        decreases self,
    {
        match self {
            ConfigValue::Null => ConfigValue::Null,
            ConfigValue::Bool(b) => ConfigValue::Bool(*b),
            ConfigValue::Char(c) => ConfigValue::Char(*c),
            ConfigValue::UInt(n) => ConfigValue::UInt(*n),
            ConfigValue::Int(n) => ConfigValue::Int(*n),
            ConfigValue::Float(t) => ConfigValue::Float(t.clone()),
            ConfigValue::Str(s) => ConfigValue::Str(s.clone()),
            ConfigValue::Array(items) => ConfigValue::Array(duplicate_items(items)),
            ConfigValue::Object(members) => ConfigValue::Object(duplicate_members(members)),
        }
    }
}

/// A copy of a value sequence with the same model.
pub fn duplicate_items(items: &Vec<ConfigValue>) -> (r: Vec<ConfigValue>)
    ensures
        r@.len() == items@.len(),
        items_model(r@) == items_model(items@),
    decreases items,
{
    let mut out: Vec<ConfigValue> = Vec::new();
    let mut i: usize = 0;
    while i < items.len()
        invariant
            i <= items@.len(),
            out@.len() == i,
            forall|j: int| 0 <= j < i ==> #[trigger] out@[j]@ == items@[j]@,
        decreases items@.len() - i,
    {
        proof {
            assert(decreases_to!(items => items@));
        }
        let c = items[i].duplicate();
        out.push(c);
        i = i + 1;
    }
    proof {
        lemma_items_model_ext(out@, items@);
    }
    out
}

/// A copy of a member sequence with the same model.
pub fn duplicate_members(members: &Vec<(String, ConfigValue)>) -> (r: Vec<(String, ConfigValue)>)
    ensures
        r@.len() == members@.len(),
        members_model(r@) == members_model(members@),
    decreases members,
{
    let mut out: Vec<(String, ConfigValue)> = Vec::new();
    let mut i: usize = 0;
    while i < members.len()
        invariant
            i <= members@.len(),
            out@.len() == i,
            forall|j: int|
                0 <= j < i ==> #[trigger] out@[j].0@ == members@[j].0@ && out@[j].1@
                    == members@[j].1@,
        decreases members@.len() - i,
    {
        proof {
            assert(decreases_to!(members => members@));
        }
        let key = members[i].0.clone();
        let c = members[i].1.duplicate();
        out.push((key, c));
        i = i + 1;
    }
    proof {
        lemma_members_model_ext(out@, members@);
    }
    out
}

impl ConfigValue {
    /// Structural equality: same variant and equal contents; arrays item by
    /// item, objects member by member in their stored order.
    pub fn equals(&self, other: &ConfigValue) -> (r: bool)
        ensures
            r == (self@ == other@),
        decreases self,
    {
        match (self, other) {
            (ConfigValue::Null, ConfigValue::Null) => true,
            (ConfigValue::Bool(a), ConfigValue::Bool(b)) => *a == *b,
            (ConfigValue::Char(a), ConfigValue::Char(b)) => *a == *b,
            (ConfigValue::UInt(a), ConfigValue::UInt(b)) => *a == *b,
            (ConfigValue::Int(a), ConfigValue::Int(b)) => *a == *b,
            (ConfigValue::Float(a), ConfigValue::Float(b)) => *a == *b,
            (ConfigValue::Str(a), ConfigValue::Str(b)) => *a == *b,
            (ConfigValue::Array(a), ConfigValue::Array(b)) => items_equal(a, b),
            (ConfigValue::Object(a), ConfigValue::Object(b)) => members_equal(a, b),
            _ => false,
        }
    }
}

/// Item-by-item equality of two value sequences.
pub fn items_equal(a: &Vec<ConfigValue>, b: &Vec<ConfigValue>) -> (r: bool)
    ensures
        r == (items_model(a@) == items_model(b@)),
    decreases a,
{
    proof {
        lemma_items_model(a@);
        lemma_items_model(b@);
    }
    if a.len() != b.len() {
        return false;
    }
    let mut i: usize = 0;
    while i < a.len()
        invariant
            a@.len() == b@.len(),
            i <= a@.len(),
            items_model(a@).len() == a@.len(),
            items_model(b@).len() == b@.len(),
            forall|j: int| 0 <= j < a@.len() ==> #[trigger] items_model(a@)[j] == a@[j]@,
            forall|j: int| 0 <= j < b@.len() ==> #[trigger] items_model(b@)[j] == b@[j]@,
            forall|j: int| 0 <= j < i ==> #[trigger] a@[j]@ == b@[j]@,
        decreases a@.len() - i,
    {
        proof {
            assert(decreases_to!(a => a@));
        }
        if !a[i].equals(&b[i]) {
            assert(items_model(a@)[i as int] != items_model(b@)[i as int]);
            return false;
        }
        i = i + 1;
    }
    assert(items_model(a@) =~= items_model(b@));
    true
}

/// Member-by-member equality of two member sequences (keys and values, in order).
pub fn members_equal(a: &Vec<(String, ConfigValue)>, b: &Vec<(String, ConfigValue)>) -> (r: bool)
    ensures
        r == (members_model(a@) == members_model(b@)),
    decreases a,
{
    proof {
        lemma_members_model(a@);
        lemma_members_model(b@);
    }
    if a.len() != b.len() {
        return false;
    }
    let mut i: usize = 0;
    while i < a.len()
        invariant
            a@.len() == b@.len(),
            i <= a@.len(),
            members_model(a@).len() == a@.len(),
            members_model(b@).len() == b@.len(),
            forall|j: int| 0 <= j < a@.len() ==> #[trigger] members_model(a@)[j] == (a@[j].0@, a@[j].1@),
            forall|j: int| 0 <= j < b@.len() ==> #[trigger] members_model(b@)[j] == (b@[j].0@, b@[j].1@),
            forall|j: int| #![trigger a@[j]] 0 <= j < i ==> a@[j].0@ == b@[j].0@ && a@[j].1@ == b@[j].1@,
        decreases a@.len() - i,
    {
        proof {
            assert(decreases_to!(a => a@));
        }
        let same_key = a[i].0 == b[i].0;
        if !same_key || !a[i].1.equals(&b[i].1) {
            assert(members_model(a@)[i as int] != members_model(b@)[i as int]);
            return false;
        }
        assert(a@[i as int].0@ == b@[i as int].0@ && a@[i as int].1@ == b@[i as int].1@);
        i = i + 1;
    }
    assert(members_model(a@) =~= members_model(b@));
    true
}

/// The keys of the members of an object, in order; none for any other value.
pub open spec fn top_keys(v: ValueModel) -> Seq<Seq<char>> {
    match v {
        ValueModel::Object(es) => es.map_values(|e: (Seq<char>, ValueModel)| e.0),
        _ => Seq::empty(),
    }
}

/// The top-level keys of a configuration value (see `top_keys`).
pub fn top_level_keys(value: &ConfigValue) -> (r: Vec<String>)
    ensures
        r.deep_view() == top_keys(value@),
{
    let mut out: Vec<String> = Vec::new();
    match value {
        ConfigValue::Object(members) => {
            proof {
                lemma_members_model(members@);
            }
            let ghost es = members_model(members@);
            let mut i: usize = 0;
            while i < members.len()
                invariant
                    i <= members@.len(),
                    es == members_model(members@),
                    es.len() == members@.len(),
                    forall|k: int| 0 <= k < members@.len() ==> #[trigger] es[k] == (members@[k].0@, members@[k].1@),
                    out.deep_view() == es.map_values(|e: (Seq<char>, ValueModel)| e.0).subrange(0, i as int),
                decreases members@.len() - i,
            {
                let ghost before = out.deep_view();
                out.push(members[i].0.as_str().to_owned());
                assert(out.deep_view() =~= before.push(es[i as int].0));
                assert(es.map_values(|e: (Seq<char>, ValueModel)| e.0).subrange(0, i + 1) =~= before.push(es[i as int].0));
                i = i + 1;
            }
            assert(es.map_values(|e: (Seq<char>, ValueModel)| e.0).subrange(0, i as int) =~= es.map_values(|e: (Seq<char>, ValueModel)| e.0));
        },
        _ => {
            assert(out.deep_view() =~= Seq::<Seq<char>>::empty());
        },
    }
    out
}

} // verus!

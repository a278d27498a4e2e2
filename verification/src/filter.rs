//! Removal of empty values, so that empty command-line values do not mask
//! meaningful values from files.
//!
//! Empty strings, empty arrays and empty objects are removed from arrays and
//! objects at every depth, after their own contents have been filtered; all
//! other values, `false` and `0` among them, are kept as they are.

use vstd::prelude::*;
use crate::array_merge::{depth, depth_items, depth_members, lemma_depth_items_elem, lemma_depth_members_elem};
use crate::value::{
    ConfigValue, ValueModel, items_model, members_model, lemma_items_model, lemma_members_model,
    lemma_items_model_push, lemma_members_model_push,
};

verus! {

/// Null, an empty string, an empty array or an empty object.
pub open spec fn is_empty_model(v: ValueModel) -> bool {
    match v {
        ValueModel::Null => true,
        ValueModel::Str(s) => s.len() == 0,
        ValueModel::Array(a) => a.len() == 0,
        ValueModel::Object(o) => o.len() == 0,
        _ => false,
    }
}

/// `v` with empty values removed from its arrays and objects at every depth.
pub open spec fn filter_model(v: ValueModel) -> ValueModel
    decreases v,
{
    match v {
        ValueModel::Array(s) => ValueModel::Array(filter_items(s)),
        ValueModel::Object(es) => ValueModel::Object(filter_members(es)),
        _ => v,
    }
}

/// The filtered items of `s` that are not empty once filtered.
pub open spec fn filter_items(s: Seq<ValueModel>) -> Seq<ValueModel>
    decreases s,
{
    if s.len() == 0 {
        Seq::empty()
    } else {
        let rest = filter_items(s.drop_last());
        let f = filter_model(s.last());
        if is_empty_model(f) { rest } else { rest.push(f) }
    }
}

/// The members of `es` with filtered values, without those whose value is
/// empty once filtered.
pub open spec fn filter_members(es: Seq<(Seq<char>, ValueModel)>) -> Seq<(Seq<char>, ValueModel)>
    decreases es,
{
    if es.len() == 0 {
        Seq::empty()
    } else {
        let rest = filter_members(es.drop_last());
        let f = filter_model(es.last().1);
        if is_empty_model(f) { rest } else { rest.push((es.last().0, f)) }
    }
}

/// No array or object inside `v`, at any depth, holds an empty value.
pub open spec fn no_empty_inside(v: ValueModel) -> bool
    decreases v,
{
    match v {
        ValueModel::Array(s) => items_clean(s),
        ValueModel::Object(es) => members_clean(es),
        _ => true,
    }
}

/// Every item is non-empty and clean inside.
pub open spec fn items_clean(s: Seq<ValueModel>) -> bool
    decreases s,
{
    if s.len() == 0 {
        true
    } else {
        items_clean(s.drop_last()) && !is_empty_model(s.last()) && no_empty_inside(s.last())
    }
}

/// Every member value is non-empty and clean inside.
pub open spec fn members_clean(es: Seq<(Seq<char>, ValueModel)>) -> bool
    decreases es,
{
    if es.len() == 0 {
        true
    } else {
        members_clean(es.drop_last()) && !is_empty_model(es.last().1) && no_empty_inside(es.last().1)
    }
}

/// Filtering leaves no empty value inside arrays and objects, at any depth.
pub proof fn law_filter_leaves_no_empty(v: ValueModel)
    ensures
        no_empty_inside(filter_model(v)),
    decreases v,
{
    match v {
        ValueModel::Array(s) => lemma_filter_items_clean(s),
        ValueModel::Object(es) => lemma_filter_members_clean(es),
        _ => {},
    }
}

proof fn lemma_filter_items_clean(s: Seq<ValueModel>)
    ensures
        items_clean(filter_items(s)),
    decreases s,
{
    if s.len() > 0 {
        lemma_filter_items_clean(s.drop_last());
        law_filter_leaves_no_empty(s.last());
        let rest = filter_items(s.drop_last());
        let f = filter_model(s.last());
        if !is_empty_model(f) {
            assert(rest.push(f).drop_last() =~= rest);
        }
    }
}

proof fn lemma_filter_members_clean(es: Seq<(Seq<char>, ValueModel)>)
    ensures
        members_clean(filter_members(es)),
    decreases es,
{
    if es.len() > 0 {
        lemma_filter_members_clean(es.drop_last());
        law_filter_leaves_no_empty(es.last().1);
        let rest = filter_members(es.drop_last());
        let f = filter_model(es.last().1);
        if !is_empty_model(f) {
            assert(rest.push((es.last().0, f)).drop_last() =~= rest);
        }
    }
}

/// A value with no empty value inside is left as it is.
pub proof fn lemma_filter_clean_unchanged(v: ValueModel)
    requires
        no_empty_inside(v),
    ensures
        filter_model(v) == v,
    decreases v,
{
    match v {
        ValueModel::Array(s) => lemma_filter_items_clean_unchanged(s),
        ValueModel::Object(es) => lemma_filter_members_clean_unchanged(es),
        _ => {},
    }
}

proof fn lemma_filter_items_clean_unchanged(s: Seq<ValueModel>)
    requires
        items_clean(s),
    ensures
        filter_items(s) == s,
    decreases s,
{
    if s.len() > 0 {
        lemma_filter_items_clean_unchanged(s.drop_last());
        lemma_filter_clean_unchanged(s.last());
        assert(s.drop_last().push(s.last()) =~= s);
    } else {
        assert(s =~= Seq::<ValueModel>::empty());
    }
}

proof fn lemma_filter_members_clean_unchanged(es: Seq<(Seq<char>, ValueModel)>)
    requires
        members_clean(es),
    ensures
        filter_members(es) == es,
    decreases es,
{
    if es.len() > 0 {
        lemma_filter_members_clean_unchanged(es.drop_last());
        lemma_filter_clean_unchanged(es.last().1);
        assert(es.drop_last().push((es.last().0, es.last().1)) =~= es);
    } else {
        assert(es =~= Seq::<(Seq<char>, ValueModel)>::empty());
    }
}

/// Filtering twice is filtering once.
pub proof fn law_filter_idempotent(v: ValueModel)
    ensures
        filter_model(filter_model(v)) == filter_model(v),
{
    law_filter_leaves_no_empty(v);
    lemma_filter_clean_unchanged(filter_model(v));
}

/// Values other than arrays and objects, `false` and `0` among them, pass
/// through unchanged; so does an empty string at the top.
pub proof fn law_filter_keeps_scalars(v: ValueModel)
    requires
        !(v is Array),
        !(v is Object),
    ensures
        filter_model(v) == v,
{
}

/// Whether `value` is null, an empty string, an empty array or an empty object.
pub fn is_empty_value(value: &ConfigValue) -> (r: bool)
    ensures
        r == is_empty_model(value@),
{
    proof {
        match value {
            ConfigValue::Array(items) => lemma_items_model(items@),
            ConfigValue::Object(members) => lemma_members_model(members@),
            _ => {},
        }
    }
    match value {
        ConfigValue::Null => true,
        ConfigValue::Str(s) => s.unicode_len() == 0,
        ConfigValue::Array(items) => items.len() == 0,
        ConfigValue::Object(members) => members.len() == 0,
        _ => false,
    }
}

/// `value` with empty values removed from its arrays and objects at every
/// depth.
pub fn filter_empty_values(value: &ConfigValue) -> (r: ConfigValue)
    ensures
        r@ == filter_model(value@),
    decreases depth(value@) + 1, 0nat,
{
    match value {
        ConfigValue::Array(items) => ConfigValue::Array(filter_item_vec(items)),
        ConfigValue::Object(members) => ConfigValue::Object(filter_member_vec(members)),
        _ => value.duplicate(),
    }
}

/// The filtered items that are not empty once filtered.
fn filter_item_vec(items: &Vec<ConfigValue>) -> (r: Vec<ConfigValue>)
    ensures
        items_model(r@) == filter_items(items_model(items@)),
    decreases depth_items(items_model(items@)), items@.len(),
{
    let ghost s = items_model(items@);
    proof {
        lemma_items_model(items@);
        lemma_depth_items_elem(s);
    }
    let mut out: Vec<ConfigValue> = Vec::new();
    let mut i: usize = 0;
    while i < items.len()
        invariant
            i <= items@.len(),
            s == items_model(items@),
            s.len() == items@.len(),
            forall|j: int| 0 <= j < items@.len() ==> #[trigger] s[j] == items@[j]@,
            forall|j: int| 0 <= j < s.len() ==> depth(#[trigger] s[j]) + 1 <= depth_items(s),
            items_model(out@) == filter_items(s.take(i as int)),
        decreases items@.len() - i,
    {
        assert(s.take(i + 1).drop_last() =~= s.take(i as int));
        assert(s.take(i + 1).last() == s[i as int]);
        assert(depth(items@[i as int]@) + 1 <= depth_items(s));
        let f = filter_empty_values(&items[i]);
        if !is_empty_value(&f) {
            proof {
                lemma_items_model_push(out@, f);
            }
            out.push(f);
        }
        i = i + 1;
    }
    assert(s.take(items@.len() as int) =~= s);
    out
}

/// The members with filtered values, without those whose value is empty once
/// filtered.
fn filter_member_vec(members: &Vec<(String, ConfigValue)>) -> (r: Vec<(String, ConfigValue)>)
    ensures
        members_model(r@) == filter_members(members_model(members@)),
    decreases depth_members(members_model(members@)), members@.len(),
{
    let ghost es = members_model(members@);
    proof {
        lemma_members_model(members@);
        lemma_depth_members_elem(es);
    }
    let mut out: Vec<(String, ConfigValue)> = Vec::new();
    let mut i: usize = 0;
    while i < members.len()
        invariant
            i <= members@.len(),
            es == members_model(members@),
            es.len() == members@.len(),
            forall|j: int| 0 <= j < members@.len() ==> #[trigger] es[j] == (members@[j].0@, members@[j].1@),
            forall|j: int| 0 <= j < es.len() ==> depth(#[trigger] es[j].1) + 1 <= depth_members(es),
            members_model(out@) == filter_members(es.take(i as int)),
        decreases members@.len() - i,
    {
        assert(es.take(i + 1).drop_last() =~= es.take(i as int));
        assert(es.take(i + 1).last() == es[i as int]);
        assert(es[i as int] == (members@[i as int].0@, members@[i as int].1@));
        assert(depth(es[i as int].1) + 1 <= depth_members(es));
        let f = filter_empty_values(&members[i].1);
        if !is_empty_value(&f) {
            let entry = (members[i].0.as_str().to_owned(), f);
            proof {
                lemma_members_model_push(out@, entry);
            }
            out.push(entry);
        }
        i = i + 1;
    }
    assert(es.take(members@.len() as int) =~= es);
    out
}

/// The top-level members of a profile with empty values removed at every
/// depth, the way the empty-value provider filters each profile.
pub fn filter_profile_data(members: &Vec<(String, ConfigValue)>) -> (r: Vec<(String, ConfigValue)>)
    ensures
        members_model(r@) == filter_members(members_model(members@)),
{
    filter_member_vec(members)
}

} // verus!

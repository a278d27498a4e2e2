//! Array merging with the `_add` / `_remove` key suffixes.
//!
//! In an object, a member `name_add` whose value is an array extends the
//! array `name`, and a member `name_remove` whose value is an array removes
//! every listed item from it:
//!
//! ```text
//! ignore_paths        = ["*.tmp", "*.log"]
//! ignore_paths_add    = ["*.cache", "build/*"]
//! ignore_paths_remove = ["*.tmp"]
//! ```
//!
//! becomes `ignore_paths = ["*.log", "*.cache", "build/*"]`. The rewriting is
//! applied to every object, at every depth, including objects inside arrays.

use vstd::prelude::*;
use crate::text::{ends_with, has_suffix, concat, substring, str_equal, contains_string};
use crate::value::{
    ConfigValue, ValueModel, items_model, members_model, duplicate_items, lemma_items_model,
    lemma_members_model, lemma_items_model_push, lemma_members_model_push,
};

verus! {

// ---------------------------------------------------------------------------
// Keys
// ---------------------------------------------------------------------------

/// The suffix that marks items to add to an array.
pub open spec fn add_suffix() -> Seq<char> {
    seq!['_', 'a', 'd', 'd']
}

/// The suffix that marks items to remove from an array.
pub open spec fn remove_suffix() -> Seq<char> {
    seq!['_', 'r', 'e', 'm', 'o', 'v', 'e']
}

/// A key that names an array operation (`..._add` or `..._remove`).
pub open spec fn is_merge_key(k: Seq<char>) -> bool {
    ends_with(k, add_suffix()) || ends_with(k, remove_suffix())
}

/// The name of the array that a merge key operates on.
pub open spec fn merge_base(k: Seq<char>) -> Seq<char> {
    if ends_with(k, add_suffix()) {
        k.subrange(0, k.len() - 4)
    } else {
        k.subrange(0, k.len() - 7)
    }
}

// ---------------------------------------------------------------------------
// Objects as member sequences
// ---------------------------------------------------------------------------

/// The value stored under `k`: that of the first member with key `k`.
pub open spec fn member_value(es: Seq<(Seq<char>, ValueModel)>, k: Seq<char>) -> Option<ValueModel>
    decreases es.len(),
{
    if es.len() == 0 {
        None
    } else if es[0].0 == k {
        Some(es[0].1)
    } else {
        member_value(es.drop_first(), k)
    }
}

/// The items of an array value; no items for anything else.
pub open spec fn array_items(v: Option<ValueModel>) -> Seq<ValueModel> {
    match v {
        Some(ValueModel::Array(s)) => s,
        _ => Seq::empty(),
    }
}

/// The items of `s` that do not occur in `r`, in their order.
pub open spec fn seq_without(s: Seq<ValueModel>, r: Seq<ValueModel>) -> Seq<ValueModel>
    decreases s.len(),
{
    if s.len() == 0 {
        s
    } else {
        let rest = seq_without(s.drop_last(), r);
        if r.contains(s.last()) {
            rest
        } else {
            rest.push(s.last())
        }
    }
}

/// The merged array `b`: its own items followed by those of `b_add`,
/// without the items listed in `b_remove`.
pub open spec fn merged_items(es: Seq<(Seq<char>, ValueModel)>, b: Seq<char>) -> Seq<ValueModel> {
    seq_without(
        array_items(member_value(es, b)) + array_items(member_value(es, b + add_suffix())),
        array_items(member_value(es, b + remove_suffix())),
    )
}

/// `k` names an array that some member of the object adds to or removes from.
pub open spec fn is_base_field(es: Seq<(Seq<char>, ValueModel)>, k: Seq<char>) -> bool {
    member_value(es, k + add_suffix()) is Some || member_value(es, k + remove_suffix()) is Some
}

/// The member `k` is an array operation that is consumed by the merge.
pub open spec fn is_consumed(es: Seq<(Seq<char>, ValueModel)>, k: Seq<char>) -> bool {
    is_merge_key(k) && member_value(es, k) matches Some(ValueModel::Array(_))
}

/// The members of `s` (a prefix of the object `es`) after the rewrite:
/// consumed operations are dropped and base arrays are replaced by their
/// merged form; everything else is kept in place.
pub open spec fn kept_members(es: Seq<(Seq<char>, ValueModel)>, s: Seq<(Seq<char>, ValueModel)>) -> Seq<(Seq<char>, ValueModel)>
    decreases s.len(),
{
    if s.len() == 0 {
        Seq::empty()
    } else {
        let prev = kept_members(es, s.drop_last());
        let k = s.last().0;
        if is_consumed(es, k) {
            prev
        } else if is_base_field(es, k) {
            prev.push((k, ValueModel::Array(merged_items(es, k))))
        } else {
            prev.push(s.last())
        }
    }
}

/// The base arrays named by the operations in `s` that the object `es`
/// lacks, once each, in the order of their first operation.
pub open spec fn new_bases(es: Seq<(Seq<char>, ValueModel)>, s: Seq<(Seq<char>, ValueModel)>) -> Seq<Seq<char>>
    decreases s.len(),
{
    if s.len() == 0 {
        Seq::empty()
    } else {
        let prev = new_bases(es, s.drop_last());
        let k = s.last().0;
        if is_merge_key(k) && member_value(es, merge_base(k)) is None && !prev.contains(merge_base(k)) {
            prev.push(merge_base(k))
        } else {
            prev
        }
    }
}

/// The members of the object `es` after one level of array merging:
/// the rewritten existing members, then the base arrays that were missing.
pub open spec fn rewritten_members(es: Seq<(Seq<char>, ValueModel)>) -> Seq<(Seq<char>, ValueModel)> {
    kept_members(es, es) + new_bases(es, es).map_values(
        |b: Seq<char>| (b, ValueModel::Array(merged_items(es, b))),
    )
}

// ---------------------------------------------------------------------------
// Nesting depth (the measure of the recursive rewrite)
// ---------------------------------------------------------------------------

/// Nesting depth of a value: scalars are 0.
pub open spec fn depth(v: ValueModel) -> nat
    decreases v,
{
    match v {
        ValueModel::Array(s) => depth_items(s),
        ValueModel::Object(es) => depth_members(es),
        _ => 0,
    }
}

/// One more than the greatest depth of the items (0 when there are none).
pub open spec fn depth_items(s: Seq<ValueModel>) -> nat
    decreases s,
{
    if s.len() == 0 {
        0
    } else {
        let a = depth_items(s.drop_last());
        let b = depth(s.last()) + 1;
        if a >= b { a } else { b }
    }
}

/// One more than the greatest depth of the member values (0 when there are none).
pub open spec fn depth_members(es: Seq<(Seq<char>, ValueModel)>) -> nat
    decreases es,
{
    if es.len() == 0 {
        0
    } else {
        let a = depth_members(es.drop_last());
        let b = depth(es.last().1) + 1;
        if a >= b { a } else { b }
    }
}

/// Every item is shallower than the sequence.
pub proof fn lemma_depth_items_elem(s: Seq<ValueModel>)
    ensures
        forall|i: int| 0 <= i < s.len() ==> depth(#[trigger] s[i]) + 1 <= depth_items(s),
    decreases s.len(),
{
    if s.len() > 0 {
        lemma_depth_items_elem(s.drop_last());
        assert forall|i: int| 0 <= i < s.len() implies depth(#[trigger] s[i]) + 1 <= depth_items(s) by {
            if i < s.len() - 1 {
                assert(s[i] == s.drop_last()[i]);
            }
        }
    }
}

/// A sequence whose items are all shallower than `n` has depth at most `n`.
pub proof fn lemma_depth_items_bound(s: Seq<ValueModel>, n: nat)
    requires
        forall|i: int| 0 <= i < s.len() ==> depth(#[trigger] s[i]) + 1 <= n,
    ensures
        depth_items(s) <= n,
    decreases s.len(),
{
    if s.len() > 0 {
        assert forall|i: int| 0 <= i < s.drop_last().len() implies depth(#[trigger] s.drop_last()[i]) + 1 <= n by {
            assert(s.drop_last()[i] == s[i]);
        }
        lemma_depth_items_bound(s.drop_last(), n);
    }
}

/// Every member value is shallower than the object.
pub proof fn lemma_depth_members_elem(es: Seq<(Seq<char>, ValueModel)>)
    ensures
        forall|i: int| 0 <= i < es.len() ==> depth(#[trigger] es[i].1) + 1 <= depth_members(es),
    decreases es.len(),
{
    if es.len() > 0 {
        lemma_depth_members_elem(es.drop_last());
        assert forall|i: int| 0 <= i < es.len() implies depth(#[trigger] es[i].1) + 1 <= depth_members(es) by {
            if i < es.len() - 1 {
                assert(es[i] == es.drop_last()[i]);
            }
        }
    }
}

/// An object whose member values are all shallower than `n` has depth at most `n`.
pub proof fn lemma_depth_members_bound(es: Seq<(Seq<char>, ValueModel)>, n: nat)
    requires
        forall|i: int| 0 <= i < es.len() ==> depth(#[trigger] es[i].1) + 1 <= n,
    ensures
        depth_members(es) <= n,
    decreases es.len(),
{
    if es.len() > 0 {
        assert forall|i: int| 0 <= i < es.drop_last().len() implies depth(#[trigger] es.drop_last()[i].1) + 1 <= n by {
            assert(es.drop_last()[i] == es[i]);
        }
        lemma_depth_members_bound(es.drop_last(), n);
    }
}

/// A value found under a key is one of the member values.
pub proof fn lemma_member_value_found(es: Seq<(Seq<char>, ValueModel)>, k: Seq<char>)
    requires
        member_value(es, k) is Some,
    ensures
        exists|i: int| 0 <= i < es.len() && es[i].0 == k && #[trigger] es[i].1 == member_value(es, k).unwrap(),
    decreases es.len(),
{
    if es[0].0 == k {
        assert(es[0].1 == member_value(es, k).unwrap());
    } else {
        lemma_member_value_found(es.drop_first(), k);
        let j = choose|j: int| 0 <= j < es.drop_first().len() && es.drop_first()[j].0 == k && #[trigger] es.drop_first()[j].1 == member_value(es.drop_first(), k).unwrap();
        assert(es[j + 1] == es.drop_first()[j]);
    }
}

/// The items of an array found under a key are two levels shallower than the object.
pub proof fn lemma_array_items_depth(es: Seq<(Seq<char>, ValueModel)>, k: Seq<char>)
    ensures
        forall|i: int| 0 <= i < array_items(member_value(es, k)).len() ==>
            depth(#[trigger] array_items(member_value(es, k))[i]) + 2 <= depth_members(es),
{
    if let Some(ValueModel::Array(s)) = member_value(es, k) {
        lemma_member_value_found(es, k);
        lemma_depth_members_elem(es);
        lemma_depth_items_elem(s);
        let j = choose|j: int| 0 <= j < es.len() && es[j].0 == k && #[trigger] es[j].1 == member_value(es, k).unwrap();
        assert(depth(es[j].1) == depth_items(s));
    }
}

/// Every item left by `seq_without` is an item of the first sequence.
pub proof fn lemma_seq_without_subset(s: Seq<ValueModel>, r: Seq<ValueModel>)
    ensures
        forall|i: int| 0 <= i < seq_without(s, r).len() ==> s.contains(#[trigger] seq_without(s, r)[i]),
    decreases s.len(),
{
    if s.len() > 0 {
        lemma_seq_without_subset(s.drop_last(), r);
        let rest = seq_without(s.drop_last(), r);
        assert forall|i: int| 0 <= i < seq_without(s, r).len() implies s.contains(#[trigger] seq_without(s, r)[i]) by {
            if i < rest.len() {
                assert(seq_without(s, r)[i] == rest[i]);
                let j = choose|j: int| 0 <= j < s.drop_last().len() && s.drop_last()[j] == rest[i];
                assert(s[j] == s.drop_last()[j]);
            } else {
                assert(seq_without(s, r)[i] == s.last());
                assert(s[s.len() - 1] == s.last());
            }
        }
    }
}

/// A merged base array is shallower than the object it belongs to.
pub proof fn lemma_merged_items_depth(es: Seq<(Seq<char>, ValueModel)>, b: Seq<char>)
    requires
        es.len() > 0,
    ensures
        depth(ValueModel::Array(merged_items(es, b))) + 1 <= depth_members(es),
{
    let base = array_items(member_value(es, b));
    let add = array_items(member_value(es, b + add_suffix()));
    let rem = array_items(member_value(es, b + remove_suffix()));
    let joined = base + add;
    lemma_array_items_depth(es, b);
    lemma_array_items_depth(es, b + add_suffix());
    lemma_seq_without_subset(joined, rem);
    lemma_depth_members_elem(es);
    assert(depth(es[0].1) + 1 <= depth_members(es));
    let m = merged_items(es, b);
    assert forall|i: int| 0 <= i < m.len() implies depth(#[trigger] m[i]) + 1 <= (depth_members(es) - 1) as nat by {
        assert(joined.contains(m[i]));
        let j = choose|j: int| 0 <= j < joined.len() && joined[j] == m[i];
        if j < base.len() {
            assert(joined[j] == base[j]);
        } else {
            assert(joined[j] == add[j - base.len()]);
        }
    }
    lemma_depth_items_bound(m, (depth_members(es) - 1) as nat);
}

/// The members kept from a prefix are either members of the prefix or merged base arrays.
pub proof fn lemma_kept_members_origin(es: Seq<(Seq<char>, ValueModel)>, s: Seq<(Seq<char>, ValueModel)>)
    ensures
        forall|i: int| 0 <= i < kept_members(es, s).len() ==>
            s.contains(#[trigger] kept_members(es, s)[i])
            || kept_members(es, s)[i].1 == ValueModel::Array(merged_items(es, kept_members(es, s)[i].0)),
    decreases s.len(),
{
    if s.len() > 0 {
        lemma_kept_members_origin(es, s.drop_last());
        let prev = kept_members(es, s.drop_last());
        assert forall|i: int| 0 <= i < kept_members(es, s).len() implies
            s.contains(#[trigger] kept_members(es, s)[i])
            || kept_members(es, s)[i].1 == ValueModel::Array(merged_items(es, kept_members(es, s)[i].0)) by {
            if i < prev.len() {
                assert(kept_members(es, s)[i] == prev[i]);
                if s.drop_last().contains(prev[i]) {
                    let j = choose|j: int| 0 <= j < s.drop_last().len() && s.drop_last()[j] == prev[i];
                    assert(s[j] == s.drop_last()[j]);
                }
            } else {
                assert(s[s.len() - 1] == s.last());
            }
        }
    }
}

/// One level of rewriting never makes an object deeper.
pub proof fn lemma_rewritten_depth(es: Seq<(Seq<char>, ValueModel)>)
    ensures
        depth_members(rewritten_members(es)) <= depth_members(es),
{
    let rw = rewritten_members(es);
    let kept = kept_members(es, es);
    let added = new_bases(es, es).map_values(|b: Seq<char>| (b, ValueModel::Array(merged_items(es, b))));
    lemma_kept_members_origin(es, es);
    lemma_depth_members_elem(es);
    lemma_new_bases_empty(es, es);
    assert forall|i: int| 0 <= i < rw.len() implies depth(#[trigger] rw[i].1) + 1 <= depth_members(es) by {
        if i < kept.len() {
            assert(rw[i] == kept[i]);
            if es.contains(kept[i]) {
                let j = choose|j: int| 0 <= j < es.len() && es[j] == kept[i];
                assert(depth(es[j].1) + 1 <= depth_members(es));
            } else {
                lemma_merged_items_depth(es, kept[i].0);
            }
        } else {
            assert(rw[i] == added[i - kept.len()]);
            lemma_merged_items_depth(es, new_bases(es, es)[i - kept.len()]);
        }
    }
    lemma_depth_members_bound(rw, depth_members(es));
}

/// An object without members names no new base arrays.
pub proof fn lemma_new_bases_empty(es: Seq<(Seq<char>, ValueModel)>, s: Seq<(Seq<char>, ValueModel)>)
    ensures
        s.len() == 0 ==> new_bases(es, s).len() == 0,
        kept_members(es, s).len() <= s.len(),
        new_bases(es, s).len() <= s.len(),
    decreases s.len(),
{
    if s.len() > 0 {
        lemma_new_bases_empty(es, s.drop_last());
    }
}

// ---------------------------------------------------------------------------
// The recursive merge
// ---------------------------------------------------------------------------

/// The value after array merging at every depth.
pub open spec fn merge_model(v: ValueModel) -> ValueModel
    decreases depth(v) + 1, 0nat,
{
    match v {
        ValueModel::Array(s) => ValueModel::Array(merge_items(s)),
        ValueModel::Object(es) => {
            proof {
                lemma_rewritten_depth(es);
            }
            ValueModel::Object(merge_members(rewritten_members(es)))
        },
        _ => v,
    }
}

/// Array merging applied to each item.
pub open spec fn merge_items(s: Seq<ValueModel>) -> Seq<ValueModel>
    decreases depth_items(s), s.len(),
{
    if s.len() == 0 {
        s
    } else {
        merge_items(s.drop_last()).push(merge_model(s.last()))
    }
}

/// Array merging applied to each member value; keys are kept.
pub open spec fn merge_members(es: Seq<(Seq<char>, ValueModel)>) -> Seq<(Seq<char>, ValueModel)>
    decreases depth_members(es), es.len(),
{
    if es.len() == 0 {
        es
    } else {
        merge_members(es.drop_last()).push((es.last().0, merge_model(es.last().1)))
    }
}

// ---------------------------------------------------------------------------
// Detecting merge operations
// ---------------------------------------------------------------------------

/// Some object at some depth of `v` has a key ending with `_add` or `_remove`.
pub open spec fn has_merge_keys(v: ValueModel) -> bool
    decreases v,
{
    match v {
        ValueModel::Array(s) => items_have_merge_keys(s),
        ValueModel::Object(es) => members_have_merge_keys(es),
        _ => false,
    }
}

/// Some item of `s` has merge keys.
pub open spec fn items_have_merge_keys(s: Seq<ValueModel>) -> bool
    decreases s,
{
    if s.len() == 0 {
        false
    } else {
        items_have_merge_keys(s.drop_last()) || has_merge_keys(s.last())
    }
}

/// Some member of `es` is a merge key or has merge keys in its value.
pub open spec fn members_have_merge_keys(es: Seq<(Seq<char>, ValueModel)>) -> bool
    decreases es,
{
    if es.len() == 0 {
        false
    } else {
        members_have_merge_keys(es.drop_last()) || is_merge_key(es.last().0) || has_merge_keys(
            es.last().1,
        )
    }
}

/// `items_have_merge_keys` holds exactly when some item has merge keys.
pub proof fn lemma_items_have_merge_keys(s: Seq<ValueModel>)
    ensures
        items_have_merge_keys(s) <==> exists|i: int| 0 <= i < s.len() && has_merge_keys(#[trigger] s[i]),
    decreases s.len(),
{
    if s.len() > 0 {
        lemma_items_have_merge_keys(s.drop_last());
        if items_have_merge_keys(s.drop_last()) {
            let i = choose|i: int| 0 <= i < s.drop_last().len() && has_merge_keys(#[trigger] s.drop_last()[i]);
            assert(s[i] == s.drop_last()[i]);
        }
        if has_merge_keys(s.last()) {
            assert(s[s.len() - 1] == s.last());
        }
        if exists|i: int| 0 <= i < s.len() && has_merge_keys(#[trigger] s[i]) {
            let i = choose|i: int| 0 <= i < s.len() && has_merge_keys(#[trigger] s[i]);
            if i < s.len() - 1 {
                assert(s[i] == s.drop_last()[i]);
            }
        }
    }
}

/// `members_have_merge_keys` holds exactly when some member key is a merge
/// key or some member value has merge keys.
#[verifier::spinoff_prover]
pub proof fn lemma_members_have_merge_keys(es: Seq<(Seq<char>, ValueModel)>)
    ensures
        members_have_merge_keys(es) <==> exists|i: int| #![trigger es[i]]
            0 <= i < es.len() && (is_merge_key(es[i].0) || has_merge_keys(es[i].1)),
    decreases es.len(),
{
    if es.len() > 0 {
        let d = es.drop_last();
        lemma_members_have_merge_keys(d);
        assert forall|i: int| 0 <= i < d.len() implies #[trigger] d[i] == es[i] by {}
        if members_have_merge_keys(d) {
            let i = choose|i: int|
                0 <= i < d.len() && (is_merge_key(#[trigger] d[i].0) || has_merge_keys(d[i].1));
            assert(d[i] == es[i]);
            assert(is_merge_key(es[i].0) || has_merge_keys(es[i].1));
        }
        if is_merge_key(es.last().0) || has_merge_keys(es.last().1) {
            assert(es[es.len() - 1] == es.last());
        }
        if exists|i: int| 0 <= i < es.len() && (is_merge_key(#[trigger] es[i].0) || has_merge_keys(es[i].1)) {
            let i = choose|i: int| 0 <= i < es.len() && (is_merge_key(#[trigger] es[i].0) || has_merge_keys(es[i].1));
            if i < es.len() - 1 {
                assert(d[i] == es[i]);
                assert(is_merge_key(d[i].0) || has_merge_keys(d[i].1));
            } else {
                assert(es[i] == es.last());
            }
        }
    }
}

// ---------------------------------------------------------------------------
// Law: a value without merge keys is left unchanged
// ---------------------------------------------------------------------------

/// A key followed by `_add` or `_remove` is a merge key.
proof fn lemma_suffixed_is_merge_key(k: Seq<char>)
    ensures
        is_merge_key(k + add_suffix()),
        is_merge_key(k + remove_suffix()),
{
    assert((k + add_suffix()).subrange(k.len() as int, k.len() + 4int) =~= add_suffix());
    assert((k + remove_suffix()).subrange(k.len() as int, k.len() + 7int) =~= remove_suffix());
}

/// In an object without merge keys, no key names a base array.
proof fn lemma_no_base_fields(es: Seq<(Seq<char>, ValueModel)>, k: Seq<char>)
    requires
        forall|i: int| 0 <= i < es.len() ==> !is_merge_key(#[trigger] es[i].0),
    ensures
        !is_base_field(es, k),
{
    lemma_suffixed_is_merge_key(k);
    if member_value(es, k + add_suffix()) is Some {
        lemma_member_value_found(es, k + add_suffix());
        let i = choose|i: int| 0 <= i < es.len() && es[i].0 == k + add_suffix() && #[trigger] es[i].1 == member_value(es, k + add_suffix()).unwrap();
        assert(!is_merge_key(es[i].0));
    }
    if member_value(es, k + remove_suffix()) is Some {
        lemma_member_value_found(es, k + remove_suffix());
        let i = choose|i: int| 0 <= i < es.len() && es[i].0 == k + remove_suffix() && #[trigger] es[i].1 == member_value(es, k + remove_suffix()).unwrap();
        assert(!is_merge_key(es[i].0));
    }
}

/// Without merge keys, the rewrite keeps every member and adds none.
proof fn lemma_kept_identity(es: Seq<(Seq<char>, ValueModel)>, s: Seq<(Seq<char>, ValueModel)>)
    requires
        forall|i: int| 0 <= i < es.len() ==> !is_merge_key(#[trigger] es[i].0),
        forall|i: int| 0 <= i < s.len() ==> !is_merge_key(#[trigger] s[i].0),
    ensures
        kept_members(es, s) == s,
        new_bases(es, s).len() == 0,
    decreases s.len(),
{
    if s.len() > 0 {
        assert forall|i: int| 0 <= i < s.drop_last().len() implies !is_merge_key(#[trigger] s.drop_last()[i].0) by {
            assert(s.drop_last()[i] == s[i]);
        }
        lemma_kept_identity(es, s.drop_last());
        assert(s[s.len() - 1] == s.last());
        lemma_no_base_fields(es, s.last().0);
        assert(s.drop_last().push(s.last()) =~= s);
    }
}

/// A value without merge keys is unchanged by array merging.
pub proof fn lemma_merge_identity(v: ValueModel)
    requires
        !has_merge_keys(v),
    ensures
        merge_model(v) == v,
    decreases depth(v) + 1, 0nat,
{
    match v {
        ValueModel::Array(s) => {
            lemma_merge_items_identity(s);
        },
        ValueModel::Object(es) => {
            lemma_members_have_merge_keys(es);
            assert forall|i: int| 0 <= i < es.len() implies !is_merge_key(#[trigger] es[i].0) by {}
            lemma_kept_identity(es, es);
            assert(rewritten_members(es) =~= es);
            lemma_merge_members_identity(es);
        },
        _ => {},
    }
}

/// Items without merge keys are unchanged by array merging.
pub proof fn lemma_merge_items_identity(s: Seq<ValueModel>)
    requires
        !items_have_merge_keys(s),
    ensures
        merge_items(s) == s,
    decreases depth_items(s), s.len(),
{
    if s.len() > 0 {
        lemma_merge_items_identity(s.drop_last());
        lemma_merge_identity(s.last());
        assert(s.drop_last().push(s.last()) =~= s);
    }
}

/// Members without merge keys are unchanged by array merging.
pub proof fn lemma_merge_members_identity(es: Seq<(Seq<char>, ValueModel)>)
    requires
        !members_have_merge_keys(es),
    ensures
        merge_members(es) == es,
    decreases depth_members(es), es.len(),
{
    if es.len() > 0 {
        lemma_merge_members_identity(es.drop_last());
        lemma_merge_identity(es.last().1);
        assert(es.drop_last().push((es.last().0, es.last().1)) =~= es);
    }
}

// ---------------------------------------------------------------------------
// Executable merge
// ---------------------------------------------------------------------------

/// Index of the first member with key `key`, if any.
pub fn find_member(members: &Vec<(String, ConfigValue)>, key: &str) -> (r: Option<usize>)
    ensures
        match r {
            Some(i) => i < members@.len() && members@[i as int].0@ == key@
                && member_value(members_model(members@), key@) == Some(members@[i as int].1@),
            None => member_value(members_model(members@), key@) is None,
        },
{
    let ghost m = members_model(members@);
    proof {
        lemma_members_model(members@);
        assert(m.subrange(0, m.len() as int) =~= m);
    }
    let mut i: usize = 0;
    while i < members.len()
        invariant
            i <= members@.len(),
            m == members_model(members@),
            m.len() == members@.len(),
            forall|j: int| 0 <= j < members@.len() ==> #[trigger] m[j] == (members@[j].0@, members@[j].1@),
            member_value(m, key@) == member_value(m.subrange(i as int, m.len() as int), key@),
        decreases members@.len() - i,
    {
        let ghost rest = m.subrange(i as int, m.len() as int);
        assert(rest[0] == m[i as int]);
        if str_equal(members[i].0.as_str(), key) {
            return Some(i);
        }
        assert(rest.drop_first() =~= m.subrange(i + 1, m.len() as int));
        i = i + 1;
    }
    None
}

/// Whether the array `items` holds an item equal to `x`.
pub fn contains_item(items: &Vec<ConfigValue>, x: &ConfigValue) -> (r: bool)
    ensures
        r == items_model(items@).contains(x@),
{
    proof {
        lemma_items_model(items@);
    }
    let mut i: usize = 0;
    while i < items.len()
        invariant
            i <= items@.len(),
            items_model(items@).len() == items@.len(),
            forall|j: int| 0 <= j < items@.len() ==> #[trigger] items_model(items@)[j] == items@[j]@,
            forall|j: int| 0 <= j < i ==> items_model(items@)[j] != x@,
        decreases items@.len() - i,
    {
        if items[i].equals(x) {
            assert(items_model(items@)[i as int] == x@);
            return true;
        }
        i = i + 1;
    }
    false
}

/// A copy of the items of the array stored under `key` (none if it is absent or not an array).
fn array_items_of(members: &Vec<(String, ConfigValue)>, key: &str) -> (r: Vec<ConfigValue>)
    ensures
        items_model(r@) == array_items(member_value(members_model(members@), key@)),
{
    match find_member(members, key) {
        Some(i) => match &members[i].1 {
            ConfigValue::Array(items) => duplicate_items(items),
            _ => Vec::new(),
        },
        None => Vec::new(),
    }
}

/// Whether `key` ends with `_add` or `_remove`.
pub fn is_merge_key_exec(key: &str) -> (r: bool)
    ensures
        r == is_merge_key(key@),
{
    proof {
        reveal_strlit("_add");
        reveal_strlit("_remove");
        assert("_add"@ =~= add_suffix());
        assert("_remove"@ =~= remove_suffix());
    }
    has_suffix(key, "_add") || has_suffix(key, "_remove")
}

/// The array name that a merge key operates on.
pub fn merge_base_exec(key: &str) -> (r: String)
    requires
        is_merge_key(key@),
    ensures
        r@ == merge_base(key@),
{
    proof {
        reveal_strlit("_add");
        assert("_add"@ =~= add_suffix());
    }
    let n = key.unicode_len();
    if has_suffix(key, "_add") {
        substring(key, 0, n - 4)
    } else {
        substring(key, 0, n - 7)
    }
}

/// `key` followed by `_add`.
fn add_key_of(key: &str) -> (r: String)
    ensures
        r@ == key@ + add_suffix(),
{
    proof {
        reveal_strlit("_add");
        assert("_add"@ =~= add_suffix());
    }
    concat(key, "_add")
}

/// `key` followed by `_remove`.
fn remove_key_of(key: &str) -> (r: String)
    ensures
        r@ == key@ + remove_suffix(),
{
    proof {
        reveal_strlit("_remove");
        assert("_remove"@ =~= remove_suffix());
    }
    concat(key, "_remove")
}

/// The merged array `base`: its items, then those of `base_add`, without
/// the items listed in `base_remove`.
pub fn merged_array(members: &Vec<(String, ConfigValue)>, base: &str) -> (r: Vec<ConfigValue>)
    ensures
        items_model(r@) == merged_items(members_model(members@), base@),
{
    let ghost es = members_model(members@);
    let mut joined = array_items_of(members, base);
    let add_key = add_key_of(base);
    let mut added = array_items_of(members, add_key.as_str());
    let remove_key = remove_key_of(base);
    let removed = array_items_of(members, remove_key.as_str());
    let ghost j1 = joined@;
    let ghost a1 = added@;
    joined.append(&mut added);
    proof {
        lemma_items_model(j1);
        lemma_items_model(a1);
        lemma_items_model(joined@);
        assert(items_model(joined@) =~= items_model(j1) + items_model(a1));
    }
    let ghost js = items_model(joined@);
    let ghost rs = items_model(removed@);
    let mut out: Vec<ConfigValue> = Vec::new();
    let mut i: usize = 0;
    while i < joined.len()
        invariant
            i <= joined@.len(),
            js == items_model(joined@),
            rs == items_model(removed@),
            js.len() == joined@.len(),
            forall|j: int| 0 <= j < joined@.len() ==> #[trigger] js[j] == joined@[j]@,
            items_model(out@) == seq_without(js.take(i as int), rs),
        decreases joined@.len() - i,
    {
        let keep = !contains_item(&removed, &joined[i]);
        assert(js.take(i + 1).drop_last() =~= js.take(i as int));
        assert(js.take(i + 1).last() == js[i as int]);
        if keep {
            let c = joined[i].duplicate();
            proof {
                lemma_items_model_push(out@, c);
            }
            out.push(c);
        }
        i = i + 1;
    }
    assert(js.take(joined@.len() as int) =~= js);
    out
}

/// The existing members after one level of array merging: consumed
/// operations dropped, base arrays merged, the rest copied.
fn rewrite_kept_members(members: &Vec<(String, ConfigValue)>) -> (r: Vec<(String, ConfigValue)>)
    ensures
        members_model(r@) == kept_members(members_model(members@), members_model(members@)),
{
    let ghost es = members_model(members@);
    proof {
        lemma_members_model(members@);
    }
    let mut out: Vec<(String, ConfigValue)> = Vec::new();
    let mut i: usize = 0;
    while i < members.len()
        invariant
            i <= members@.len(),
            es == members_model(members@),
            es.len() == members@.len(),
            forall|j: int| 0 <= j < members@.len() ==> #[trigger] es[j] == (members@[j].0@, members@[j].1@),
            members_model(out@) == kept_members(es, es.take(i as int)),
        decreases members@.len() - i,
    {
        let key = members[i].0.as_str();
        assert(es.take(i + 1).drop_last() =~= es.take(i as int));
        assert(es.take(i + 1).last() == es[i as int]);
        let merge_key = is_merge_key_exec(key);
        let consumed = if merge_key {
            match find_member(members, key) {
                Some(j) => match &members[j].1 {
                    ConfigValue::Array(_) => true,
                    _ => false,
                },
                None => false,
            }
        } else {
            false
        };
        if !consumed {
            let add_key = add_key_of(key);
            let remove_key = remove_key_of(key);
            let is_base = find_member(members, add_key.as_str()).is_some()
                || find_member(members, remove_key.as_str()).is_some();
            if is_base {
                let items = merged_array(members, key);
                let entry = (members[i].0.clone(), ConfigValue::Array(items));
                proof {
                    lemma_members_model_push(out@, entry);
                }
                out.push(entry);
            } else {
                let entry = (members[i].0.clone(), members[i].1.duplicate());
                proof {
                    lemma_members_model_push(out@, entry);
                }
                out.push(entry);
            }
        }
        i = i + 1;
    }
    assert(es.take(members@.len() as int) =~= es);
    out
}

/// The names of the base arrays that operations refer to but the object
/// lacks, once each, in the order of their first operation.
fn missing_bases(members: &Vec<(String, ConfigValue)>) -> (r: Vec<String>)
    ensures
        r.deep_view() == new_bases(members_model(members@), members_model(members@)),
{
    let ghost es = members_model(members@);
    proof {
        lemma_members_model(members@);
    }
    let mut bases: Vec<String> = Vec::new();
    let mut i: usize = 0;
    while i < members.len()
        invariant
            i <= members@.len(),
            es == members_model(members@),
            es.len() == members@.len(),
            forall|j: int| 0 <= j < members@.len() ==> #[trigger] es[j] == (members@[j].0@, members@[j].1@),
            bases.deep_view() == new_bases(es, es.take(i as int)),
        decreases members@.len() - i,
    {
        let key = members[i].0.as_str();
        assert(es.take(i + 1).drop_last() =~= es.take(i as int));
        assert(es.take(i + 1).last() == es[i as int]);
        if is_merge_key_exec(key) {
            let base = merge_base_exec(key);
            if find_member(members, base.as_str()).is_none() && !contains_string(&bases, base.as_str()) {
                let ghost before = bases.deep_view();
                bases.push(base);
                assert(bases.deep_view() =~= before.push(merge_base(key@)));
            }
        }
        i = i + 1;
    }
    assert(es.take(members@.len() as int) =~= es);
    bases
}

/// The members of an object after one level of array merging (nested values
/// are not yet rewritten).
pub fn rewrite_members(members: &Vec<(String, ConfigValue)>) -> (r: Vec<(String, ConfigValue)>)
    ensures
        members_model(r@) == rewritten_members(members_model(members@)),
{
    let ghost es = members_model(members@);
    let mut out = rewrite_kept_members(members);
    let ghost kept = out@;
    let bases = missing_bases(members);
    let ghost nb = new_bases(es, es);
    let ghost added_spec = nb.map_values(|b: Seq<char>| (b, ValueModel::Array(merged_items(es, b))));
    assert(added_spec.take(0) =~= Seq::<(Seq<char>, ValueModel)>::empty());
    assert(members_model(out@) + added_spec.take(0) =~= members_model(out@));
    let mut k: usize = 0;
    while k < bases.len()
        invariant
            k <= bases@.len(),
            es == members_model(members@),
            bases.deep_view() == nb,
            added_spec.len() == nb.len(),
            forall|j: int| 0 <= j < nb.len() ==> #[trigger] added_spec[j] == (nb[j], ValueModel::Array(merged_items(es, nb[j]))),
            members_model(kept) == kept_members(es, es),
            members_model(out@) == members_model(kept) + added_spec.take(k as int),
        decreases bases@.len() - k,
    {
        let items = merged_array(members, bases[k].as_str());
        let entry = (bases[k].clone(), ConfigValue::Array(items));
        proof {
            lemma_members_model_push(out@, entry);
            assert(nb[k as int] == bases@[k as int]@);
            assert(added_spec.take(k + 1) =~= added_spec.take(k as int).push(added_spec[k as int]));
        }
        out.push(entry);
        k = k + 1;
    }
    assert(added_spec.take(bases@.len() as int) =~= added_spec);
    out
}

/// Array merging at every depth of a value.
pub fn merge_value(v: &ConfigValue) -> (r: ConfigValue)
    ensures
        r@ == merge_model(v@),
    decreases depth(v@) + 1, 0nat,
{
    match v {
        ConfigValue::Array(items) => ConfigValue::Array(merge_item_vec(items)),
        ConfigValue::Object(members) => {
            let rewritten = rewrite_members(members);
            proof {
                lemma_rewritten_depth(members_model(members@));
            }
            ConfigValue::Object(merge_member_vec(&rewritten))
        },
        _ => v.duplicate(),
    }
}

/// Array merging applied to every item of an array.
fn merge_item_vec(items: &Vec<ConfigValue>) -> (r: Vec<ConfigValue>)
    ensures
        items_model(r@) == merge_items(items_model(items@)),
    decreases depth_items(items_model(items@)), items@.len(),
{
    let ghost s = items_model(items@);
    proof {
        lemma_items_model(items@);
        lemma_depth_items_elem(s);
    }
    let mut out: Vec<ConfigValue> = Vec::new();
    let mut i: usize = 0;
    while i < items.len()
        invariant
            i <= items@.len(),
            s == items_model(items@),
            s.len() == items@.len(),
            forall|j: int| 0 <= j < items@.len() ==> #[trigger] s[j] == items@[j]@,
            forall|j: int| 0 <= j < s.len() ==> depth(#[trigger] s[j]) + 1 <= depth_items(s),
            items_model(out@) == merge_items(s.take(i as int)),
        decreases items@.len() - i,
    {
        assert(s.take(i + 1).drop_last() =~= s.take(i as int));
        assert(s.take(i + 1).last() == s[i as int]);
        assert(depth(items@[i as int]@) + 1 <= depth_items(s));
        let m = merge_value(&items[i]);
        proof {
            lemma_items_model_push(out@, m);
        }
        out.push(m);
        i = i + 1;
    }
    assert(s.take(items@.len() as int) =~= s);
    out
}

/// Array merging applied to every member value of an object; keys are kept.
fn merge_member_vec(members: &Vec<(String, ConfigValue)>) -> (r: Vec<(String, ConfigValue)>)
    ensures
        members_model(r@) == merge_members(members_model(members@)),
    decreases depth_members(members_model(members@)), members@.len(),
{
    let ghost es = members_model(members@);
    proof {
        lemma_members_model(members@);
        lemma_depth_members_elem(es);
    }
    let mut out: Vec<(String, ConfigValue)> = Vec::new();
    let mut i: usize = 0;
    while i < members.len()
        invariant
            i <= members@.len(),
            es == members_model(members@),
            es.len() == members@.len(),
            forall|j: int| 0 <= j < members@.len() ==> #[trigger] es[j] == (members@[j].0@, members@[j].1@),
            forall|j: int| 0 <= j < es.len() ==> depth(#[trigger] es[j].1) + 1 <= depth_members(es),
            members_model(out@) == merge_members(es.take(i as int)),
        decreases members@.len() - i,
    {
        assert(es.take(i + 1).drop_last() =~= es.take(i as int));
        assert(es.take(i + 1).last() == es[i as int]);
        assert(es[i as int].1 == members@[i as int].1@);
        assert(depth(members@[i as int].1@) + 1 <= depth_members(es));
        let m = merge_value(&members[i].1);
        let entry = (members[i].0.clone(), m);
        proof {
            lemma_members_model_push(out@, entry);
        }
        out.push(entry);
        i = i + 1;
    }
    assert(es.take(members@.len() as int) =~= es);
    out
}

/// Whether some object at some depth of `value` has a key ending with
/// `_add` or `_remove`.
pub fn contains_merge_patterns(value: &ConfigValue) -> (r: bool)
    ensures
        r == has_merge_keys(value@),
    decreases value,
{
    match value {
        ConfigValue::Object(members) => members_contain_merge_patterns(members),
        ConfigValue::Array(items) => items_contain_merge_patterns(items),
        _ => false,
    }
}

/// Whether some member key is a merge key or some member value holds one.
fn members_contain_merge_patterns(members: &Vec<(String, ConfigValue)>) -> (r: bool)
    ensures
        r == members_have_merge_keys(members_model(members@)),
    decreases members,
{
    let ghost es = members_model(members@);
    proof {
        lemma_members_model(members@);
        lemma_members_have_merge_keys(es);
    }
    let mut i: usize = 0;
    while i < members.len()
        invariant
            i <= members@.len(),
            es == members_model(members@),
            es.len() == members@.len(),
            forall|j: int| 0 <= j < members@.len() ==> #[trigger] es[j] == (members@[j].0@, members@[j].1@),
            forall|j: int| 0 <= j < i ==> !is_merge_key(#[trigger] es[j].0),
        decreases members@.len() - i,
    {
        if is_merge_key_exec(members[i].0.as_str()) {
            assert(is_merge_key(es[i as int].0));
            proof {
                lemma_members_have_merge_keys(es);
            }
            return true;
        }
        i = i + 1;
    }
    let mut i: usize = 0;
    while i < members.len()
        invariant
            i <= members@.len(),
            es == members_model(members@),
            es.len() == members@.len(),
            forall|j: int| 0 <= j < members@.len() ==> #[trigger] es[j] == (members@[j].0@, members@[j].1@),
            forall|j: int| 0 <= j < members@.len() ==> !is_merge_key(#[trigger] es[j].0),
            forall|j: int| 0 <= j < i ==> !has_merge_keys(#[trigger] es[j].1),
        decreases members@.len() - i,
    {
        proof {
            assert(decreases_to!(members => members@));
        }
        if contains_merge_patterns(&members[i].1) {
            proof {
                let k = i as int;
                assert(is_merge_key(es[k].0) || has_merge_keys(es[k].1));
                lemma_members_have_merge_keys(es);
            }
            return true;
        }
        i = i + 1;
    }
    false
}

/// Whether some item holds a merge key.
fn items_contain_merge_patterns(items: &Vec<ConfigValue>) -> (r: bool)
    ensures
        r == items_have_merge_keys(items_model(items@)),
    decreases items,
{
    let ghost s = items_model(items@);
    proof {
        lemma_items_model(items@);
        lemma_items_have_merge_keys(s);
    }
    let mut i: usize = 0;
    while i < items.len()
        invariant
            i <= items@.len(),
            s == items_model(items@),
            s.len() == items@.len(),
            forall|j: int| 0 <= j < items@.len() ==> #[trigger] s[j] == items@[j]@,
            forall|j: int| 0 <= j < i ==> !has_merge_keys(#[trigger] s[j]),
        decreases items@.len() - i,
    {
        proof {
            assert(decreases_to!(items => items@));
        }
        if contains_merge_patterns(&items[i]) {
            assert(has_merge_keys(s[i as int]));
            proof {
                lemma_items_have_merge_keys(s);
            }
            return true;
        }
        i = i + 1;
    }
    false
}

/// Array merging applied to a whole value (objects at every depth).
pub fn merge_object_arrays(value: ConfigValue) -> (r: ConfigValue)
    ensures
        r@ == merge_model(value@),
{
    merge_value(&value)
}

/// Whether array merging is needed, given the configuration extracted as a
/// value (`None` when the extraction failed, in which case no merging is done).
pub fn needs_array_merging(extracted: &Option<ConfigValue>) -> (r: bool)
    ensures
        r == (extracted matches Some(v) && has_merge_keys(v@)),
{
    match extracted {
        Some(v) => contains_merge_patterns(v),
        None => false,
    }
}

/// The configuration after array merging, given the configuration extracted
/// as a value; `None` (keep the configuration as it was) when the extraction
/// failed.
pub fn apply_array_merging(extracted: Option<ConfigValue>) -> (r: Option<ConfigValue>)
    ensures
        match extracted {
            Some(v) => r matches Some(m) && m@ == merge_model(v@),
            None => r is None,
        },
{
    match extracted {
        Some(v) => Some(merge_object_arrays(v)),
        None => None,
    }
}

/// Law: merging arrays only when `needs_array_merging` says so gives the same
/// configuration as merging always, since a value without merge keys is left
/// unchanged.
pub proof fn law_merge_skip_is_sound(v: ValueModel)
    requires
        !has_merge_keys(v),
    ensures
        merge_model(v) == v,
{
    lemma_merge_identity(v);
}

/// The test that keeps the items not listed in `r`.
pub open spec fn not_listed(r: Seq<ValueModel>) -> spec_fn(ValueModel) -> bool {
    |x: ValueModel| !r.contains(x)
}

/// Removing the items listed in `r` from `s` keeps exactly the items of `s`
/// that `r` does not list, in their order.
proof fn lemma_seq_without_filters(s: Seq<ValueModel>, r: Seq<ValueModel>)
    ensures
        seq_without(s, r) == s.filter(not_listed(r)),
        forall|x: ValueModel| #[trigger] seq_without(s, r).contains(x) <==> (s.contains(x) && !r.contains(x)),
    decreases s.len(),
{
    reveal(Seq::filter);
    if s.len() > 0 {
        lemma_seq_without_filters(s.drop_last(), r);
        let rest = seq_without(s.drop_last(), r);
        assert forall|x: ValueModel| #[trigger] seq_without(s, r).contains(x) <==> (s.contains(x) && !r.contains(x)) by {
            if s.contains(x) && !r.contains(x) {
                let j = choose|j: int| 0 <= j < s.len() && s[j] == x;
                if j < s.len() - 1 {
                    assert(s.drop_last()[j] == x);
                    assert(rest.contains(x));
                    let k = choose|k: int| 0 <= k < rest.len() && rest[k] == x;
                    if !r.contains(s.last()) {
                        assert(rest.push(s.last())[k] == x);
                    }
                } else {
                    assert(s.last() == x);
                    assert(rest.push(s.last())[rest.len() as int] == x);
                }
            }
            if seq_without(s, r).contains(x) {
                let k = choose|k: int| 0 <= k < seq_without(s, r).len() && seq_without(s, r)[k] == x;
                if k < rest.len() {
                    assert(rest[k] == x);
                    assert(rest.contains(x));
                    let j = choose|j: int| 0 <= j < s.drop_last().len() && s.drop_last()[j] == x;
                    assert(s[j] == x);
                } else {
                    assert(x == s.last());
                    assert(s[s.len() - 1] == x);
                }
            }
        }
    } else {
        assert forall|x: ValueModel| #[trigger] seq_without(s, r).contains(x) <==> (s.contains(x) && !r.contains(x)) by {}
    }
}

/// Array merging: the merged array `b` is its own items followed by the
/// items of `b_add`, with every item that `b_remove` lists taken out, wherever
/// it came from. So no listed item remains (an item added by one file and
/// removed by a later one is gone), and every other item of the array or of
/// `b_add` is kept, in order.
pub proof fn law_merged_array_removes_listed(es: Seq<(Seq<char>, ValueModel)>, b: Seq<char>)
    ensures
        merged_items(es, b) == (array_items(member_value(es, b)) + array_items(member_value(es, b + add_suffix())))
            .filter(|x: ValueModel| !array_items(member_value(es, b + remove_suffix())).contains(x)),
        forall|x: ValueModel| array_items(member_value(es, b + remove_suffix())).contains(x)
            ==> !(#[trigger] merged_items(es, b).contains(x)),
        forall|x: ValueModel| (array_items(member_value(es, b)).contains(x) || array_items(member_value(es, b + add_suffix())).contains(x))
            && !array_items(member_value(es, b + remove_suffix())).contains(x)
            ==> #[trigger] merged_items(es, b).contains(x),
{
    let base = array_items(member_value(es, b));
    let add = array_items(member_value(es, b + add_suffix()));
    let rem = array_items(member_value(es, b + remove_suffix()));
    let joined = base + add;
    lemma_seq_without_filters(joined, rem);
    assert(not_listed(rem) == (|x: ValueModel| !rem.contains(x)));
    assert forall|x: ValueModel| (base.contains(x) || add.contains(x)) && !rem.contains(x)
        implies #[trigger] merged_items(es, b).contains(x) by {
        if base.contains(x) {
            let j = choose|j: int| 0 <= j < base.len() && base[j] == x;
            assert(joined[j] == x);
        } else {
            let j = choose|j: int| 0 <= j < add.len() && add[j] == x;
            assert(joined[base.len() + j] == x);
        }
    }
}

} // verus!

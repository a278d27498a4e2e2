//! Cascading configuration: files found along a hierarchy of directories are
//! merged from the least specific to the most specific, objects deeply, and
//! the `_add` / `_remove` arrays of all files are applied together at the end.

use vstd::prelude::*;
use crate::array_merge::{depth, depth_members, merge_model, merge_value, lemma_depth_members_elem};
use crate::fluent::{join_path, path_join};
use crate::text::{ends_with, has_suffix, concat, str_equal, copy_strings};
use crate::value::{
    ConfigValue, ValueModel, items_model, members_model, lemma_items_model, lemma_members_model,
    lemma_members_model_push, duplicate_items,
};
use crate::wildcard::paths::{path_same, path_equal};

verus! {

/// Whether values under `k` are combined rather than replaced when both are
/// arrays: keys ending in `_add` or `_remove`.
pub open spec fn is_combined_key(k: Seq<char>) -> bool {
    ends_with(k, "_add"@) || ends_with(k, "_remove"@)
}

/// Position of the first member with key `k`.
pub open spec fn key_position(es: Seq<(Seq<char>, ValueModel)>, k: Seq<char>) -> Option<int>
    decreases es.len(),
{
    if es.len() == 0 {
        None
    } else if es[0].0 == k {
        Some(0)
    } else {
        match key_position(es.drop_first(), k) {
            Some(i) => Some(i + 1),
            None => None,
        }
    }
}

/// `base` with every member of `over` merged into it in turn.
pub open spec fn merge_into(base: Seq<(Seq<char>, ValueModel)>, over: Seq<(Seq<char>, ValueModel)>) -> Seq<
    (Seq<char>, ValueModel),
>
    decreases depth_members(over), over.len(),
{
    if over.len() == 0 {
        base
    } else {
        merge_one(merge_into(base, over.drop_last()), over.last().0, over.last().1)
    }
}

/// `base` with the member `(k, v)` merged into it: a new key is appended; two
/// objects are merged deeply; two arrays under an `_add` or `_remove` key are
/// concatenated; otherwise `v` replaces the value.
pub open spec fn merge_one(base: Seq<(Seq<char>, ValueModel)>, k: Seq<char>, v: ValueModel) -> Seq<
    (Seq<char>, ValueModel),
>
    decreases depth(v) + 1, 0nat,
{
    match key_position(base, k) {
        None => base.push((k, v)),
        Some(i) => {
            let e = base[i].1;
            if e is Object && v is Object {
                base.update(i, (k, ValueModel::Object(merge_into(e->Object_0, v->Object_0))))
            } else if is_combined_key(k) && e is Array && v is Array {
                base.update(i, (k, ValueModel::Array(e->Array_0 + v->Array_0)))
            } else {
                base.update(i, (k, v))
            }
        },
    }
}

proof fn lemma_key_position(es: Seq<(Seq<char>, ValueModel)>, k: Seq<char>)
    ensures
        key_position(es, k) matches Some(i) ==> 0 <= i < es.len() && es[i].0 == k,
    decreases es.len(),
{
    if es.len() > 0 && es[0].0 != k {
        lemma_key_position(es.drop_first(), k);
    }
}

/// Position of the first member with key `key`, if any.
fn position_of_key(members: &Vec<(String, ConfigValue)>, key: &str) -> (r: Option<usize>)
    ensures
        r matches Some(i) ==> key_position(members_model(members@), key@) == Some(i as int),
        r is None ==> key_position(members_model(members@), key@) is None,
{
    let ghost m = members_model(members@);
    proof {
        lemma_members_model(members@);
        assert(m.subrange(0, m.len() as int) =~= m);
    }
    let mut i: usize = 0;
    while i < members.len()
        invariant
            i <= members@.len(),
            m == members_model(members@),
            m.len() == members@.len(),
            forall|j: int| 0 <= j < members@.len() ==> #[trigger] m[j] == (members@[j].0@, members@[j].1@),
            key_position(m, key@) == match key_position(m.subrange(i as int, m.len() as int), key@) {
                Some(p) => Some(p + i),
                None => None,
            },
        decreases members@.len() - i,
    {
        let ghost rest = m.subrange(i as int, m.len() as int);
        assert(rest[0] == m[i as int]);
        if str_equal(members[i].0.as_str(), key) {
            return Some(i);
        }
        assert(rest.drop_first() =~= m.subrange(i + 1, m.len() as int));
        i = i + 1;
    }
    None
}

/// Whether `key` ends in `_add` or `_remove`.
fn combined_key(key: &str) -> (r: bool)
    ensures
        r == is_combined_key(key@),
{
    proof {
        reveal_strlit("_add");
        reveal_strlit("_remove");
    }
    has_suffix(key, "_add") || has_suffix(key, "_remove")
}

/// Merges the member `(key, value)` into `base` (see `merge_one`).
fn merge_member(base: &mut Vec<(String, ConfigValue)>, key: &str, value: &ConfigValue)
    ensures
        members_model(final(base)@) == merge_one(members_model(old(base)@), key@, value@),
    decreases depth(value@) + 1, 0nat,
{
    let ghost m = members_model(base@);
    proof {
        lemma_members_model(base@);
        lemma_key_position(m, key@);
    }
    match position_of_key(base, key) {
        None => {
            let entry = (key.to_owned(), value.duplicate());
            proof {
                lemma_members_model_push(base@, entry);
            }
            base.push(entry);
        },
        Some(i) => {
            let ghost e = m[i as int].1;
            assert(e == base@[i as int].1@);
            let merged: ConfigValue = match (&base[i].1, value) {
                (ConfigValue::Object(existing), ConfigValue::Object(over)) => {
                    let mut inner = duplicate_member_list(existing);
                    merge_members_into(&mut inner, over);
                    ConfigValue::Object(inner)
                },
                (ConfigValue::Array(existing), ConfigValue::Array(more)) => {
                    if combined_key(key) {
                        let mut items = duplicate_items(existing);
                        let mut extra = duplicate_items(more);
                        let ghost a = items@;
                        let ghost b = extra@;
                        items.append(&mut extra);
                        proof {
                            lemma_items_model(a);
                            lemma_items_model(b);
                            lemma_items_model(items@);
                            assert(items_model(items@) =~= items_model(a) + items_model(b));
                        }
                        ConfigValue::Array(items)
                    } else {
                        value.duplicate()
                    }
                },
                _ => value.duplicate(),
            };
            let ghost old_base = base@;
            let ghost mv = merged@;
            proof {
                if e is Object && value@ is Object {
                    assert(mv == ValueModel::Object(merge_into(e->Object_0, value@->Object_0)));
                } else if is_combined_key(key@) && e is Array && value@ is Array {
                    assert(mv == ValueModel::Array(e->Array_0 + value@->Array_0));
                } else {
                    assert(mv == value@);
                }
            }
            base.set(i, (key.to_owned(), merged));
            proof {
                lemma_members_model(old_base);
                lemma_members_model(base@);
                assert(members_model(base@) =~= members_model(old_base).update(i as int, (key@, mv)));
                assert(key_position(m, key@) == Some(i as int));
                assert(merge_one(m, key@, value@) == m.update(i as int, (key@, mv)));
            }
        },
    }
}

/// A copy of a member list.
fn duplicate_member_list(members: &Vec<(String, ConfigValue)>) -> (r: Vec<(String, ConfigValue)>)
    ensures
        members_model(r@) == members_model(members@),
{
    crate::value::duplicate_members(members)
}

/// Merges every member of `over` into `base` in turn (see `merge_into`).
pub fn merge_members_into(base: &mut Vec<(String, ConfigValue)>, over: &Vec<(String, ConfigValue)>)
    ensures
        members_model(final(base)@) == merge_into(members_model(old(base)@), members_model(over@)),
    decreases depth_members(members_model(over@)), over@.len(),
{
    let ghost es = members_model(over@);
    let ghost start = members_model(base@);
    proof {
        lemma_members_model(over@);
        lemma_depth_members_elem(es);
    }
    let mut i: usize = 0;
    assert(es.subrange(0, 0) =~= Seq::<(Seq<char>, ValueModel)>::empty());
    while i < over.len()
        invariant
            i <= over@.len(),
            es == members_model(over@),
            es.len() == over@.len(),
            forall|j: int| 0 <= j < over@.len() ==> #[trigger] es[j] == (over@[j].0@, over@[j].1@),
            forall|j: int| 0 <= j < es.len() ==> depth(#[trigger] es[j].1) + 1 <= depth_members(es),
            members_model(base@) == merge_into(start, es.subrange(0, i as int)),
        decreases over@.len() - i,
    {
        let ghost pre = es.subrange(0, i as int);
        let ghost next = es.subrange(0, i + 1);
        assert(next.drop_last() =~= pre);
        assert(next.last() == es[i as int]);
        assert(es[i as int] == (over@[i as int].0@, over@[i as int].1@));
        assert(depth(es[i as int].1) + 1 <= depth_members(es));
        merge_member(base, over[i].0.as_str(), &over[i].1);
        i = i + 1;
    }
    assert(es.subrange(0, es.len() as int) =~= es);
}

/// The members of several configurations merged in order; `None` for no
/// configuration at all.
pub open spec fn merged_profile(configs: Seq<Seq<(Seq<char>, ValueModel)>>) -> Seq<(Seq<char>, ValueModel)>
    decreases configs.len(),
{
    if configs.len() == 0 {
        Seq::empty()
    } else {
        merge_into(merged_profile(configs.drop_last()), configs.last())
    }
}

/// The members of a value after array merging, when it is an object.
pub open spec fn object_members(v: ValueModel) -> Seq<(Seq<char>, ValueModel)> {
    match v {
        ValueModel::Object(es) => es,
        _ => Seq::empty(),
    }
}

/// The models of several configurations.
pub open spec fn configs_model(configs: Seq<Vec<(String, ConfigValue)>>) -> Seq<Seq<(Seq<char>, ValueModel)>> {
    configs.map_values(|c: Vec<(String, ConfigValue)>| members_model(c@))
}

/// Array merging of a member list (as an object).
fn merge_arrays_of(members: Vec<(String, ConfigValue)>) -> (r: Vec<(String, ConfigValue)>)
    ensures
        members_model(r@) == object_members(merge_model(ValueModel::Object(members_model(members@)))),
{
    let ghost es = members_model(members@);
    let v = ConfigValue::Object(members);
    assert(v@ == ValueModel::Object(es));
    assert(merge_model(ValueModel::Object(es)) is Object);
    match merge_value(&v) {
        ConfigValue::Object(out) => out,
        _ => Vec::new(),
    }
}

/// The data of one profile from several configuration files, least specific
/// first: the files are merged in order (objects deeply, `_add` / `_remove`
/// arrays concatenated), then their array merges applied together. No file
/// gives no data; a single file only has its array merges applied.
pub fn merge_profile_configs(configs: Vec<Vec<(String, ConfigValue)>>) -> (r: Vec<(String, ConfigValue)>)
    ensures
        configs@.len() == 0 ==> r@.len() == 0,
        configs@.len() == 1 ==> members_model(r@) == object_members(
            merge_model(ValueModel::Object(members_model(configs@[0]@))),
        ),
        configs@.len() > 1 ==> members_model(r@) == object_members(
            merge_model(ValueModel::Object(merged_profile(configs_model(configs@)))),
        ),
{
    let n = configs.len();
    if n == 0 {
        return Vec::new();
    }
    let ghost cm = configs_model(configs@);
    if n == 1 {
        let mut cs = configs;
        let single = cs.remove(0);
        return merge_arrays_of(single);
    }
    let mut result: Vec<(String, ConfigValue)> = Vec::new();
    let mut i: usize = 0;
    assert(cm.subrange(0, 0) =~= Seq::<Seq<(Seq<char>, ValueModel)>>::empty());
    assert(members_model(result@) =~= Seq::<(Seq<char>, ValueModel)>::empty());
    while i < n
        invariant
            n == configs@.len(),
            cm == configs_model(configs@),
            cm.len() == n,
            i <= n,
            members_model(result@) == merged_profile(cm.subrange(0, i as int)),
        decreases n - i,
    {
        assert(cm.subrange(0, i + 1).drop_last() =~= cm.subrange(0, i as int));
        assert(cm[i as int] == members_model(configs@[i as int]@));
        merge_members_into(&mut result, &configs[i]);
        i = i + 1;
    }
    assert(cm.subrange(0, n as int) =~= cm);
    merge_arrays_of(result)
}

/// The extensions tried, in order, for a configuration file of a directory.
pub open spec fn config_extensions() -> Seq<Seq<char>> {
    seq!["toml"@, "yaml"@, "yml"@, "json"@, "cfg"@]
}

/// The candidate files of `dir` for `base`: `base.toml`, `base.yaml`,
/// `base.yml`, `base.json`, `base.cfg`, then `base` itself.
pub open spec fn file_candidates(dir: Seq<char>, base: Seq<char>) -> Seq<Seq<char>> {
    seq![
        path_join(dir, base + ".toml"@),
        path_join(dir, base + ".yaml"@),
        path_join(dir, base + ".yml"@),
        path_join(dir, base + ".json"@),
        path_join(dir, base + ".cfg"@),
        path_join(dir, base),
    ]
}

/// The candidate files of `dir` for `base` (see `file_candidates`).
pub fn config_file_candidates(dir: &str, base: &str) -> (r: Vec<String>)
    ensures
        r.deep_view() == file_candidates(dir@, base@),
{
    let mut out: Vec<String> = Vec::new();
    out.push(join_path(dir, concat(base, ".toml").as_str()));
    out.push(join_path(dir, concat(base, ".yaml").as_str()));
    out.push(join_path(dir, concat(base, ".yml").as_str()));
    out.push(join_path(dir, concat(base, ".json").as_str()));
    out.push(join_path(dir, concat(base, ".cfg").as_str()));
    out.push(join_path(dir, base));
    assert(out.deep_view() =~= file_candidates(dir@, base@));
    out
}

/// The file chosen in a directory: the first candidate with an extension
/// that is a file, else the bare name when it is a file.
pub open spec fn chosen_file(cands: Seq<Seq<char>>, present: Seq<bool>) -> Option<Seq<char>> {
    if present[0] {
        Some(cands[0])
    } else if present[1] {
        Some(cands[1])
    } else if present[2] {
        Some(cands[2])
    } else if present[3] {
        Some(cands[3])
    } else if present[4] {
        Some(cands[4])
    } else if present[5] {
        Some(cands[5])
    } else {
        None
    }
}

/// The chosen files of the directories, in the order of the directories.
pub open spec fn chosen_files(cands: Seq<Seq<Seq<char>>>, present: Seq<Seq<bool>>) -> Seq<Seq<char>>
    decreases cands.len(),
{
    if cands.len() == 0 {
        Seq::empty()
    } else {
        let rest = chosen_files(cands.drop_last(), present.drop_last());
        match chosen_file(cands.last(), present.last()) {
            Some(f) => rest.push(f),
            None => rest,
        }
    }
}

/// Whether `s` holds a path that names the same path as `p`.
pub open spec fn holds_same_path(s: Seq<Seq<char>>, p: Seq<char>) -> bool {
    exists|i: int| 0 <= i < s.len() && path_same(#[trigger] s[i], p)
}

/// `s` without each path that names the same path as an earlier one.
pub open spec fn first_of_each(s: Seq<Seq<char>>) -> Seq<Seq<char>>
    decreases s.len(),
{
    if s.len() == 0 {
        s
    } else {
        let d = first_of_each(s.drop_last());
        if holds_same_path(d, s.last()) { d } else { d.push(s.last()) }
    }
}

/// Whether `v` holds a path that names the same path as `p`.
fn holds_path(v: &Vec<String>, p: &str) -> (r: bool)
    ensures
        r == holds_same_path(v.deep_view(), p@),
{
    let mut i: usize = 0;
    while i < v.len()
        invariant
            i <= v@.len(),
            forall|j: int| 0 <= j < i ==> !path_same(#[trigger] v.deep_view()[j], p@),
        decreases v@.len() - i,
    {
        assert(v.deep_view()[i as int] == v@[i as int]@);
        if path_equal(v[i].as_str(), p) {
            return true;
        }
        i = i + 1;
    }
    false
}

/// The configuration files to load, least specific first: in each search
/// directory (given from least to most specific, with `candidates` and the
/// answers `present` of whether each candidate is a file, see
/// `config_file_candidates`) the first present candidate is taken, so that
/// files of earlier directories come first and have lower priority; a path
/// that names an earlier one is dropped.
pub fn find_config_files(candidates: &Vec<Vec<String>>, present: &Vec<Vec<bool>>) -> (r: Vec<String>)
    requires
        candidates@.len() == present@.len(),
        forall|i: int| 0 <= i < candidates@.len() ==> (#[trigger] candidates@[i])@.len() == 6,
        forall|i: int| 0 <= i < present@.len() ==> (#[trigger] present@[i])@.len() == 6,
    ensures
        r.deep_view() == first_of_each(
            chosen_files(
                candidates@.map_values(|c: Vec<String>| c.deep_view()),
                present@.map_values(|p: Vec<bool>| p@),
            ),
        ),
{
    let ghost cs = candidates@.map_values(|c: Vec<String>| c.deep_view());
    let ghost ps = present@.map_values(|p: Vec<bool>| p@);
    let mut found: Vec<String> = Vec::new();
    let mut i: usize = 0;
    assert(cs.subrange(0, 0) =~= Seq::<Seq<Seq<char>>>::empty());
    while i < candidates.len()
        invariant
            candidates@.len() == present@.len(),
            forall|k: int| 0 <= k < candidates@.len() ==> (#[trigger] candidates@[k])@.len() == 6,
            forall|k: int| 0 <= k < present@.len() ==> (#[trigger] present@[k])@.len() == 6,
            cs == candidates@.map_values(|c: Vec<String>| c.deep_view()),
            ps == present@.map_values(|p: Vec<bool>| p@),
            i <= candidates@.len(),
            found.deep_view() == chosen_files(cs.subrange(0, i as int), ps.subrange(0, i as int)),
        decreases candidates@.len() - i,
    {
        assert(cs.subrange(0, i + 1).drop_last() =~= cs.subrange(0, i as int));
        assert(ps.subrange(0, i + 1).drop_last() =~= ps.subrange(0, i as int));
        assert(cs[i as int] == candidates@[i as int].deep_view());
        assert(ps[i as int] == present@[i as int]@);
        let c = &candidates[i];
        let p = &present[i];
        let mut k: usize = 0;
        while k < 6 && !p[k]
            invariant
                p@.len() == 6,
                k <= 6,
                forall|j: int| 0 <= j < k ==> !p@[j],
            decreases 6 - k,
        {
            k = k + 1;
        }
        if k < 6 {
            let ghost before = found.deep_view();
            found.push(c[k].as_str().to_owned());
            assert(c.deep_view()[k as int] == c@[k as int]@);
            assert(found.deep_view() =~= before.push(c.deep_view()[k as int]));
        }
        i = i + 1;
    }
    assert(cs.subrange(0, cs.len() as int) =~= cs);
    assert(ps.subrange(0, ps.len() as int) =~= ps);
    let ghost rv = found.deep_view();
    let mut unique: Vec<String> = Vec::new();
    let mut t: usize = 0;
    while t < found.len()
        invariant
            rv == found.deep_view(),
            t <= rv.len(),
            unique.deep_view() == first_of_each(rv.subrange(0, t as int)),
        decreases rv.len() - t,
    {
        assert(rv.subrange(0, t + 1).drop_last() =~= rv.subrange(0, t as int));
        assert(rv[t as int] == found@[t as int]@);
        if !holds_path(&unique, found[t].as_str()) {
            let ghost before = unique.deep_view();
            unique.push(found[t].as_str().to_owned());
            assert(unique.deep_view() =~= before.push(rv[t as int]));
        }
        t = t + 1;
    }
    assert(rv.subrange(0, rv.len() as int) =~= rv);
    unique
}


proof fn lemma_key_position_first(es: Seq<(Seq<char>, ValueModel)>, k: Seq<char>)
    ensures
        key_position(es, k) matches Some(i) ==> forall|j: int| 0 <= j < i ==> (#[trigger] es[j]).0 != k,
        key_position(es, k) is None ==> forall|j: int| 0 <= j < es.len() ==> (#[trigger] es[j]).0 != k,
    decreases es.len(),
{
    lemma_key_position(es, k);
    if es.len() > 0 && es[0].0 != k {
        lemma_key_position_first(es.drop_first(), k);
        lemma_key_position(es.drop_first(), k);
        if let Some(i) = key_position(es, k) {
            assert forall|j: int| 0 <= j < i implies (#[trigger] es[j]).0 != k by {
                if j > 0 {
                    assert(es[j] == es.drop_first()[j - 1]);
                }
            }
        } else {
            assert forall|j: int| 0 <= j < es.len() implies (#[trigger] es[j]).0 != k by {
                if j > 0 {
                    assert(es[j] == es.drop_first()[j - 1]);
                }
            }
        }
    }
}

proof fn lemma_key_position_at(es: Seq<(Seq<char>, ValueModel)>, k: Seq<char>, i: int)
    requires
        0 <= i < es.len(),
        es[i].0 == k,
        forall|j: int| 0 <= j < i ==> (#[trigger] es[j]).0 != k,
    ensures
        key_position(es, k) == Some(i),
    decreases i,
{
    if i > 0 {
        assert forall|j: int| 0 <= j < i - 1 implies (#[trigger] es.drop_first()[j]).0 != k by {
            assert(es.drop_first()[j] == es[j + 1]);
        }
        lemma_key_position_at(es.drop_first(), k, i - 1);
    }
}

/// A later value replaces an earlier one under the same key, and a new key is
/// added, unless both values are objects (merged deeply) or arrays under an
/// `_add` / `_remove` key (concatenated): after merging `(k, v)`, the key `k`
/// holds `v`.
pub proof fn law_later_value_wins(base: Seq<(Seq<char>, ValueModel)>, k: Seq<char>, v: ValueModel)
    requires
        !(v is Object),
        !(is_combined_key(k) && v is Array),
    ensures
        merge_one(base, k, v)[key_position(merge_one(base, k, v), k).unwrap()].1 == v,
        key_position(merge_one(base, k, v), k) is Some,
{
    lemma_key_position(base, k);
    lemma_key_position_first(base, k);
    let r = merge_one(base, k, v);
    match key_position(base, k) {
        None => {
            assert(r == base.push((k, v)));
            assert forall|j: int| 0 <= j < base.len() implies (#[trigger] r[j]).0 != k by {
                assert(r[j] == base[j]);
            }
            lemma_key_position_at(r, k, base.len() as int);
        },
        Some(i) => {
            assert(r == base.update(i, (k, v)));
            assert forall|j: int| 0 <= j < i implies (#[trigger] r[j]).0 != k by {
                assert(r[j] == base[j]);
            }
            lemma_key_position_at(r, k, i);
        },
    }
}

/// Merging objects deeply: when both the earlier and the later value under
/// `k` are objects, `k` afterwards holds the merge of the two.
pub proof fn law_objects_merge_deeply(
    base: Seq<(Seq<char>, ValueModel)>,
    k: Seq<char>,
    earlier: Seq<(Seq<char>, ValueModel)>,
    later: Seq<(Seq<char>, ValueModel)>,
)
    requires
        key_position(base, k) is Some,
        base[key_position(base, k).unwrap()].1 == ValueModel::Object(earlier),
    ensures
        merge_one(base, k, ValueModel::Object(later))[key_position(base, k).unwrap()] == (
            k,
            ValueModel::Object(merge_into(earlier, later)),
        ),
        merge_one(base, k, ValueModel::Object(later)).len() == base.len(),
{
    lemma_key_position(base, k);
}

/// Arrays under an `_add` or `_remove` key are concatenated across files, so
/// that the operations of every file reach the final array merge.
pub proof fn law_merge_operations_accumulate(
    base: Seq<(Seq<char>, ValueModel)>,
    k: Seq<char>,
    earlier: Seq<ValueModel>,
    later: Seq<ValueModel>,
)
    requires
        is_combined_key(k),
        key_position(base, k) is Some,
        base[key_position(base, k).unwrap()].1 == ValueModel::Array(earlier),
    ensures
        merge_one(base, k, ValueModel::Array(later))[key_position(base, k).unwrap()] == (
            k,
            ValueModel::Array(earlier + later),
        ),
{
    lemma_key_position(base, k);
}


/// The search directories of a hierarchy for `base`, least specific first:
/// the ancestors of the current directory from the root down, then, when
/// there is a home directory, the home directory, `~/.base` and
/// `~/.config/base`. `ancestors` lists the current directory first, then
/// each parent up to the root.
pub open spec fn search_paths(base: Seq<char>, home: Option<Seq<char>>, ancestors: Seq<Seq<char>>) -> Seq<Seq<char>> {
    let user: Seq<Seq<char>> = match home {
        Some(h) => seq![path_join(path_join(h, ".config"@), base), path_join(h, "."@ + base), h],
        None => Seq::empty(),
    };
    (user + ancestors).reverse()
}

/// The search directories of a hierarchy for `base` (see `search_paths`).
pub fn generate_default_search_paths(base: &str, home: Option<&str>, ancestors: &Vec<String>) -> (r: Vec<String>)
    ensures
        r.deep_view() == search_paths(base@, match home {
            Some(h) => Some(h@),
            None => None,
        }, ancestors.deep_view()),
{
    let mut paths: Vec<String> = Vec::new();
    match home {
        Some(h) => {
            let config = join_path(h, ".config");
            paths.push(join_path(config.as_str(), base));
            let dotted = concat(".", base);
            paths.push(join_path(h, dotted.as_str()));
            paths.push(h.to_owned());
        },
        None => {},
    }
    let ghost user = paths.deep_view();
    let mut more = copy_strings(ancestors);
    paths.append(&mut more);
    assert(paths.deep_view() =~= user + ancestors.deep_view());
    let ghost all = paths.deep_view();
    let mut out: Vec<String> = Vec::new();
    let mut j: usize = paths.len();
    while j > 0
        invariant
            all == paths.deep_view(),
            j <= all.len(),
            out.deep_view() == all.subrange(j as int, all.len() as int).reverse(),
        decreases j,
    {
        j = j - 1;
        let ghost before = out.deep_view();
        out.push(paths[j].as_str().to_owned());
        assert(all[j as int] == paths@[j as int]@);
        assert(out.deep_view() =~= before.push(all[j as int]));
        assert(all.subrange(j as int, all.len() as int).reverse() =~= all.subrange(j + 1, all.len() as int).reverse().push(
            all[j as int],
        ));
    }
    assert(all.subrange(0, all.len() as int) =~= all);
    proof {
        reveal_strlit(".config");
        reveal_strlit(".");
    }
    out
}

/// A key not yet present is added: merging `(k, v)` into members that have
/// no key `k` keeps them all in place and appends `(k, v)` after them,
/// whatever `v` is (an object included).
pub proof fn law_new_key_is_added(base: Seq<(Seq<char>, ValueModel)>, k: Seq<char>, v: ValueModel)
    requires
        forall|j: int| 0 <= j < base.len() ==> (#[trigger] base[j]).0 != k,
    ensures
        merge_one(base, k, v).len() == base.len() + 1,
        merge_one(base, k, v).subrange(0, base.len() as int) == base,
        merge_one(base, k, v)[base.len() as int] == (k, v),
{
    lemma_key_position(base, k);
    assert(key_position(base, k) is None);
    assert(merge_one(base, k, v) == base.push((k, v)));
    assert(base.push((k, v)).subrange(0, base.len() as int) =~= base);
}

/// Merging one member never loses a key: every member keeps its key and
/// position, the members under other keys keep their values, and the merged
/// key is present afterwards.
pub proof fn law_merge_keeps_keys(base: Seq<(Seq<char>, ValueModel)>, k: Seq<char>, v: ValueModel)
    ensures
        merge_one(base, k, v).len() >= base.len(),
        forall|j: int| 0 <= j < base.len() ==> (#[trigger] merge_one(base, k, v)[j]).0 == base[j].0,
        forall|j: int| 0 <= j < base.len() && base[j].0 != k ==> #[trigger] merge_one(base, k, v)[j] == base[j],
        exists|j: int| 0 <= j < merge_one(base, k, v).len() && (#[trigger] merge_one(base, k, v)[j]).0 == k,
{
    lemma_key_position(base, k);
    let r = merge_one(base, k, v);
    match key_position(base, k) {
        None => {
            assert(r == base.push((k, v)));
            assert(r[base.len() as int].0 == k);
        },
        Some(i) => {
            assert(r.len() == base.len());
            assert(r[i].0 == k);
        },
    }
}

/// Whether some member of `es` has the key `k`.
pub open spec fn holds_key(es: Seq<(Seq<char>, ValueModel)>, k: Seq<char>) -> bool {
    exists|j: int| 0 <= j < es.len() && (#[trigger] es[j]).0 == k
}

/// Merging members into a configuration never loses a key: every key of the
/// earlier members and every key of the merged members is present after.
pub proof fn law_merge_into_keeps_keys(base: Seq<(Seq<char>, ValueModel)>, over: Seq<(Seq<char>, ValueModel)>)
    ensures
        forall|i: int| 0 <= i < base.len() ==> holds_key(merge_into(base, over), (#[trigger] base[i]).0),
        forall|i: int| 0 <= i < over.len() ==> holds_key(merge_into(base, over), (#[trigger] over[i]).0),
    decreases over.len(),
{
    let r = merge_into(base, over);
    if over.len() > 0 {
        let d = over.drop_last();
        law_merge_into_keeps_keys(base, d);
        let m = merge_into(base, d);
        assert(r == merge_one(m, over.last().0, over.last().1));
        law_merge_keeps_keys(m, over.last().0, over.last().1);
        assert forall|i: int| 0 <= i < base.len() implies holds_key(r, (#[trigger] base[i]).0) by {
            assert(holds_key(m, base[i].0));
            let j0 = choose|j: int| 0 <= j < m.len() && (#[trigger] m[j]).0 == base[i].0;
            assert(r[j0].0 == m[j0].0);
        }
        assert forall|i: int| 0 <= i < over.len() implies holds_key(r, (#[trigger] over[i]).0) by {
            if i < over.len() - 1 {
                assert(over[i] == d[i]);
                assert(holds_key(m, d[i].0));
                let j0 = choose|j: int| 0 <= j < m.len() && (#[trigger] m[j]).0 == d[i].0;
                assert(r[j0].0 == m[j0].0);
            } else {
                assert(over[i] == over.last());
            }
        }
    } else {
        assert(r == base);
        assert forall|i: int| 0 <= i < base.len() implies holds_key(r, (#[trigger] base[i]).0) by {
            assert(r[i] == base[i]);
        }
    }
}

} // verus!

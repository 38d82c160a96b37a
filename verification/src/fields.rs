//! How a field of an event relates to the field of the log that it comes from.
//!
//! The predicates speak of JSON values alone, by what kind of value they are. The
//! parsers' laws are stated with them.

use vstd::prelude::*;
use crate::json;
use crate::json::{JsonModel, JsonNumber};

verus! {

/// The integer that a value is, if it is one that fits in 64 signed bits.
pub open spec fn integer_of(value: Option<JsonModel>) -> Option<int> {
    match value {
        Some(JsonModel::Number(JsonNumber::PosInt(n))) => if n <= i64::MAX {
            Some(n as int)
        } else {
            None
        },
        Some(JsonModel::Number(JsonNumber::NegInt(n))) => Some(n as int),
        _ => None,
    }
}

/// The number that writes an integer.
pub open spec fn written(n: int) -> JsonModel {
    if n < 0 {
        JsonModel::Number(JsonNumber::NegInt(n as i64))
    } else {
        JsonModel::Number(JsonNumber::PosInt(n as u64))
    }
}

/// The field is there, and is the integer `n`.
pub open spec fn is_int(field: Option<JsonModel>, n: int) -> bool {
    field == Some(written(n))
}

/// The field is there, and is the string `s`.
pub open spec fn is_str(field: Option<JsonModel>, s: Seq<char>) -> bool {
    field == Some(JsonModel::Str(s))
}

/// The field is the integer in the source, and `default` where that holds none.
pub open spec fn takes_int(
    field: Option<JsonModel>,
    source: Option<JsonModel>,
    default: int,
) -> bool {
    match integer_of(source) {
        Some(n) => is_int(field, n),
        None => is_int(field, default),
    }
}

/// The field is the string in the source, and `default` where that holds none.
pub open spec fn takes_str(
    field: Option<JsonModel>,
    source: Option<JsonModel>,
    default: Seq<char>,
) -> bool {
    match source {
        Some(JsonModel::Str(s)) => is_str(field, s),
        _ => is_str(field, default),
    }
}

/// The field is the source as it stands, and `default` where there is none.
pub open spec fn takes_value(
    field: Option<JsonModel>,
    source: Option<JsonModel>,
    default: JsonModel,
) -> bool {
    match source {
        Some(v) => field == Some(v),
        None => field == Some(default),
    }
}

/// The field is the integer in the source, and missing where that holds none.
pub open spec fn passes_int(field: Option<JsonModel>, source: Option<JsonModel>) -> bool {
    match integer_of(source) {
        Some(n) => is_int(field, n),
        None => field is None,
    }
}

/// The field is the string in the source, and missing where that holds none.
pub open spec fn passes_str(field: Option<JsonModel>, source: Option<JsonModel>) -> bool {
    match source {
        Some(JsonModel::Str(s)) => is_str(field, s),
        _ => field is None,
    }
}

/// The field is the boolean in the source, and missing where that holds none.
pub open spec fn passes_bool(field: Option<JsonModel>, source: Option<JsonModel>) -> bool {
    match source {
        Some(JsonModel::Bool(b)) => field == Some(JsonModel::Bool(b)),
        _ => field is None,
    }
}

/// The field lists the integers of the source, in order, and nothing where that
/// is no array.
pub open spec fn lists_ints(field: Option<JsonModel>, source: Option<JsonModel>) -> bool {
    match source {
        Some(JsonModel::Array(items)) => field == Some(
            JsonModel::Array(
                items.filter(|v: JsonModel| integer_of(Some(v)) is Some).map_values(
                    |v: JsonModel| written(integer_of(Some(v)).unwrap()),
                ),
            ),
        ),
        _ => field == Some(JsonModel::Array(Seq::empty())),
    }
}

/// The field lists the strings of the source, in order, and nothing where that is
/// no array.
pub open spec fn lists_strs(field: Option<JsonModel>, source: Option<JsonModel>) -> bool {
    match source {
        Some(JsonModel::Array(items)) => field == Some(
            JsonModel::Array(items.filter(|v: JsonModel| v is Str)),
        ),
        _ => field == Some(JsonModel::Array(Seq::empty())),
    }
}

/// The field lists what `f` makes of those items of the source that have an
/// integer under `id`, in order, and nothing where the source is no array.
pub open spec fn lists_identified(
    field: Option<JsonModel>,
    source: Option<JsonModel>,
    id: Seq<char>,
    f: spec_fn(JsonModel) -> Option<JsonModel>,
) -> bool {
    match source {
        Some(JsonModel::Array(items)) => field == Some(
            JsonModel::Array(
                items.filter(|v: JsonModel| integer_of(v.get(id)) is Some).map_values(
                    |v: JsonModel| f(v).unwrap(),
                ),
            ),
        ),
        _ => field == Some(JsonModel::Array(Seq::empty())),
    }
}

/// How many members a field that may be missing makes.
pub open spec fn presence(field: Option<JsonModel>) -> int {
    if field is Some {
        1
    } else {
        0
    }
}

// ---------------------------------------------------------------------------
// Facts about lists
// ---------------------------------------------------------------------------

/// A filter that maps is a filter and then a map.
pub proof fn lemma_filter_then_map<A>(
    items: Seq<JsonModel>,
    f: spec_fn(JsonModel) -> Option<A>,
    p: spec_fn(JsonModel) -> bool,
    g: spec_fn(JsonModel) -> A,
)
    requires
        forall|v: JsonModel| #[trigger] p(v) <==> f(v) is Some,
        forall|v: JsonModel| p(v) ==> f(v) == Some(#[trigger] g(v)),
    ensures
        json::filter_mapped(items, f) == items.filter(p).map_values(g),
    decreases items.len(),
{
    reveal(Seq::filter);
    if items.len() > 0 {
        lemma_filter_then_map(items.drop_last(), f, p, g);
        let v = items.last();
        let front = items.drop_last().filter(p);
        if p(v) {
            assert(f(v) == Some(g(v)));
            assert(front.push(v).map_values(g) =~= front.map_values(g).push(g(v)));
        } else {
            assert(f(v) is None);
        }
    } else {
        assert(json::filter_mapped(items, f) =~= items.filter(p).map_values(g));
    }
}

/// A list of the integers in a value is one of its integers.
pub proof fn lemma_lists_ints(source: Option<JsonModel>)
    ensures
        lists_ints(Some(json::ints_json(json::ints_in(source))), source),
{
    match source {
        Some(JsonModel::Array(items)) => {
            let f = |j: JsonModel| j.as_i64();
            let p = |v: JsonModel| integer_of(Some(v)) is Some;
            let g = |v: JsonModel| v.as_i64().unwrap();
            let w = |v: JsonModel| written(integer_of(Some(v)).unwrap());
            lemma_filter_then_map(items, f, p, g);
            lemma_kept_satisfy(items, p);
            let kept = items.filter(p);
            assert forall|i: int| 0 <= i < kept.len() implies json::int_json(
                kept.map_values(g)[i],
            ) == w(#[trigger] kept[i]) by {
                assert(p(kept[i]));
            }
            assert(json::ints_json(kept.map_values(g))->Array_0 =~= kept.map_values(w));
        },
        _ => {
            assert(json::ints_json(Seq::<i64>::empty())->Array_0 =~= Seq::<JsonModel>::empty());
        },
    }
}

/// What a filter keeps satisfies its condition.
pub proof fn lemma_kept_satisfy(items: Seq<JsonModel>, p: spec_fn(JsonModel) -> bool)
    ensures
        forall|i: int| 0 <= i < items.filter(p).len() ==> p(#[trigger] items.filter(p)[i]),
    decreases items.len(),
{
    reveal(Seq::filter);
    if items.len() > 0 {
        lemma_kept_satisfy(items.drop_last(), p);
    }
}

/// A list of the strings in a value is one of its strings.
pub proof fn lemma_lists_strs(source: Option<JsonModel>)
    ensures
        lists_strs(Some(json::strs_json(json::strs_in(source))), source),
{
    match source {
        Some(JsonModel::Array(items)) => {
            let f = |j: JsonModel| j.as_str();
            let p = |v: JsonModel| v is Str;
            let g = |v: JsonModel| v.as_str().unwrap();
            lemma_filter_then_map(items, f, p, g);
            lemma_kept_satisfy(items, p);
            let kept = items.filter(p);
            assert forall|i: int| 0 <= i < kept.len() implies JsonModel::Str(
                kept.map_values(g)[i],
            ) == #[trigger] kept[i] by {
                assert(p(kept[i]));
            }
            assert(json::strs_json(kept.map_values(g))->Array_0 =~= kept);
        },
        _ => {
            assert(json::strs_json(Seq::<Seq<char>>::empty())->Array_0 =~= Seq::<
                JsonModel,
            >::empty());
        },
    }
}

/// What a filter makes of the items with an integer under `id` is a list of them.
pub proof fn lemma_lists_identified(
    source: Option<JsonModel>,
    id: Seq<char>,
    f: spec_fn(JsonModel) -> Option<JsonModel>,
)
    requires
        forall|v: JsonModel| integer_of(v.get(id)) is Some <==> (#[trigger] f(v)) is Some,
    ensures
        lists_identified(
            Some(
                JsonModel::Array(
                    match json::array_in(source) {
                        Some(items) => json::filter_mapped(items, f),
                        None => Seq::empty(),
                    },
                ),
            ),
            source,
            id,
            f,
        ),
{
    match source {
        Some(JsonModel::Array(items)) => {
            let p = |v: JsonModel| integer_of(v.get(id)) is Some;
            let g = |v: JsonModel| f(v).unwrap();
            assert forall|v: JsonModel| #[trigger] p(v) <==> f(v) is Some by {}
            lemma_filter_then_map(items, f, p, g);
        },
        _ => {},
    }
}

// ---------------------------------------------------------------------------
// Laws of reading and writing
// ---------------------------------------------------------------------------

/// Reading an integer takes the one that is there, or else the default, and
/// writing it writes that integer.
pub proof fn law_integers_are_taken(source: Option<JsonModel>, default: i64)
    ensures
        takes_int(Some(json::int_json(json::int_or(source, default))), source, default as int),
        passes_int(json::opt_int(json::int_in(source)), source),
{
}

/// Reading a string takes the one that is there, or else the default, and writing
/// it writes that string.
pub proof fn law_strings_are_taken(source: Option<JsonModel>, default: Seq<char>)
    ensures
        takes_str(Some(JsonModel::Str(json::str_or(source, default))), source, default),
        passes_str(json::opt_str(json::str_in(source)), source),
{
}

/// Reading a list takes the integers, or the strings, that are there.
pub proof fn law_lists_are_taken(source: Option<JsonModel>)
    ensures
        lists_ints(Some(json::ints_json(json::ints_in(source))), source),
        lists_strs(Some(json::strs_json(json::strs_in(source))), source),
{
    lemma_lists_ints(source);
    lemma_lists_strs(source);
}

/// A member stands under its name in an object in which no earlier one has that
/// name, whatever stands behind it.
pub proof fn law_member_is_found(
    before: Seq<(Seq<char>, JsonModel)>,
    name: Seq<char>,
    value: JsonModel,
    after: Seq<(Seq<char>, JsonModel)>,
)
    requires
        forall|i: int| 0 <= i < before.len() ==> (#[trigger] before[i]).0 != name,
    ensures
        JsonModel::Object(before + seq![(name, value)] + after).get(name) == Some(value),
        json::get_in(
            Some(JsonModel::Object(before + seq![(name, value)] + after)),
            name,
        ) == Some(value),
{
    let all = before + seq![(name, value)] + after;
    let n = before.len() as int;
    assert(all[n] == (name, value));
    assert forall|j: int| 0 <= j < n implies (#[trigger] all[j]).0 != all[n].0 by {
        assert(all[j] == before[j]);
    }
    json::lemma_lookup_at(all, n);
}

/// Nothing stands under a name that no member has, in what is no object, or in
/// nothing.
pub proof fn law_missing_member_is_not_found(value: JsonModel, name: Seq<char>)
    requires
        value is Object ==> forall|i: int|
            0 <= i < value->Object_0.len() ==> (#[trigger] value->Object_0[i]).0 != name,
    ensures
        value.get(name) is None,
        json::get_in(Some(value), name) is None,
        json::get_in(None, name) is None,
{
    if value is Object {
        json::lemma_lookup_missing(value->Object_0, name);
    }
}

/// Only an array has items, and its first item is the one at its front.
pub proof fn law_arrays_have_items(value: JsonModel)
    ensures
        value is Array ==> json::array_in(Some(value)) == Some(value->Array_0),
        value is Array && value->Array_0.len() > 0 ==> json::first_in(Some(value)) == Some(
            value->Array_0[0],
        ),
        value is Array && value->Array_0.len() == 0 ==> json::first_in(Some(value)) is None,
        !(value is Array) ==> json::array_in(Some(value)) is None && json::first_in(Some(value))
            is None,
        json::array_in(None) is None,
        json::first_in(None) is None,
{
}

/// Only a string reads as a string, and only a boolean as a boolean.
pub proof fn law_kinds_are_kept_apart(value: JsonModel)
    ensures
        json::str_in(Some(value)) == match value {
            JsonModel::Str(s) => Some(s),
            _ => None,
        },
        value.as_str() == json::str_in(Some(value)),
        value.as_bool() == match value {
            JsonModel::Bool(b) => Some(b),
            _ => None,
        },
        value.as_i64() is Some <==> integer_of(Some(value)) is Some,
        value.as_i64() matches Some(n) ==> integer_of(Some(value)) == Some(n as int),
        json::str_in(None) is None,
        json::int_in(None) is None,
{
}

/// A value is taken as it stands, or else the default.
pub proof fn law_values_are_taken(source: Option<JsonModel>, default: JsonModel)
    ensures
        takes_value(Some(json::value_or(source, default)), source, default),
{
}

/// A list of integers, and a list of strings, writes each of them at its place.
pub proof fn law_lists_are_written(ns: Seq<i64>, ss: Seq<Seq<char>>)
    ensures
        json::ints_json(ns) matches JsonModel::Array(items) && items.len() == ns.len() && forall|
            i: int,
        |
            0 <= i < ns.len() ==> #[trigger] items[i] == written(ns[i] as int),
        json::strs_json(ss) matches JsonModel::Array(items) && items.len() == ss.len() && forall|
            i: int,
        |
            0 <= i < ss.len() ==> #[trigger] items[i] == JsonModel::Str(ss[i]),
{
}

/// In a well-formed value no object names a member twice, at any level.
pub proof fn law_well_formed_names_members_once(value: JsonModel)
    requires
        json::well_formed(value),
    ensures
        value matches JsonModel::Object(members) ==> {
            &&& forall|i: int, j: int|
                0 <= i < members.len() && 0 <= j < members.len() && (#[trigger] members[i]).0 == (
                #[trigger] members[j]).0 ==> i == j
            &&& forall|i: int|
                0 <= i < members.len() ==> json::well_formed((#[trigger] members[i]).1)
        },
        value matches JsonModel::Array(items) ==> forall|i: int|
            0 <= i < items.len() ==> json::well_formed(#[trigger] items[i]),
{
    if value is Object {
        let members = value->Object_0;
        assert forall|i: int, j: int|
            0 <= i < members.len() && 0 <= j < members.len() && (#[trigger] members[i]).0 == (
            #[trigger] members[j]).0 implies i == j by {
            if i < j {
                assert(members[i].0 != members[j].0);
            } else if j < i {
                assert(members[j].0 != members[i].0);
            }
        }
    }
}

} // verus!

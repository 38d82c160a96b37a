//! JSON values: the type that log payloads are read into and event payloads
//! are written in.
//!
//! [`Json`] is the executable value and [`JsonModel`] its mathematical
//! reading. Every contract in the crate that speaks of JSON speaks of models.

use vstd::prelude::*;
use crate::text::str_eq;

verus! {

// ---------------------------------------------------------------------------
// Values and their models
// ---------------------------------------------------------------------------

/// A JSON number, kept as the integer or the bit pattern it was read as.
#[derive(Clone, Copy, Debug, PartialEq, Eq, Structural)]
pub enum JsonNumber {
    /// A non-negative integer.
    PosInt(u64),
    /// A negative integer.
    NegInt(i64),
    /// A binary64 value, by its bit pattern.
    Float(u64),
}

/// The mathematical reading of a [`Json`] value.
///
/// An object is the sequence of its members, each a name and a value.
#[verifier::ext_equal]
pub enum JsonModel {
    Null,
    Bool(bool),
    Number(JsonNumber),
    Str(Seq<char>),
    Array(Seq<JsonModel>),
    Object(Seq<(Seq<char>, JsonModel)>),
}

/// A JSON value.
#[derive(Debug)]
pub enum Json {
    Null,
    Bool(bool),
    Number(JsonNumber),
    Str(String),
    Array(Vec<Json>),
    Object(Vec<JsonMember>),
}

/// One named member of a JSON object.
#[derive(Debug)]
pub struct JsonMember {
    pub name: String,
    pub value: Json,
}

impl View for Json {
    type V = JsonModel;

    open spec fn view(&self) -> JsonModel
        decreases self,
    {
        match self {
            Json::Null => JsonModel::Null,
            Json::Bool(b) => JsonModel::Bool(*b),
            Json::Number(n) => JsonModel::Number(*n),
            Json::Str(s) => JsonModel::Str(s@),
            Json::Array(items) => JsonModel::Array(
                Seq::new(
                    items@.len(),
                    |i: int|
                        if 0 <= i < items@.len() {
                            items@[i]@
                        } else {
                            JsonModel::Null
                        },
                ),
            ),
            Json::Object(members) => JsonModel::Object(
                Seq::new(
                    members@.len(),
                    |i: int|
                        if 0 <= i < members@.len() {
                            (members@[i].name@, members@[i].value@)
                        } else {
                            (Seq::empty(), JsonModel::Null)
                        },
                ),
            ),
        }
    }
}

/// The models of a sequence of values.
pub open spec fn item_models(items: Seq<Json>) -> Seq<JsonModel> {
    Seq::new(items.len(), |i: int| items[i]@)
}

/// The names and value models of a sequence of members.
pub open spec fn member_models(members: Seq<JsonMember>) -> Seq<(Seq<char>, JsonModel)> {
    Seq::new(members.len(), |i: int| (members[i].name@, members[i].value@))
}

/// The model behind an optional reference.
pub open spec fn opt_model(value: Option<&Json>) -> Option<JsonModel> {
    match value {
        Some(v) => Some(v@),
        None => None,
    }
}

/// The model of an optional value.
pub open spec fn owned_model(value: Option<Json>) -> Option<JsonModel> {
    match value {
        Some(v) => Some(v@),
        None => None,
    }
}

proof fn lemma_array_view(items: Vec<Json>)
    ensures
        Json::Array(items)@ == JsonModel::Array(item_models(items@)),
{
    reveal_with_fuel(<Json as View>::view, 2);
    assert(Json::Array(items)@->Array_0 =~= item_models(items@));
}

proof fn lemma_object_view(members: Vec<JsonMember>)
    ensures
        Json::Object(members)@ == JsonModel::Object(member_models(members@)),
{
    reveal_with_fuel(<Json as View>::view, 2);
    assert(Json::Object(members)@->Object_0 =~= member_models(members@));
}

/// A value reads as the model of its own kind, with what it holds.
pub proof fn law_value_reads_as_its_kind(
    b: bool,
    n: JsonNumber,
    s: String,
    items: Vec<Json>,
    members: Vec<JsonMember>,
)
    ensures
        Json::Null@ == JsonModel::Null,
        Json::Bool(b)@ == JsonModel::Bool(b),
        Json::Number(n)@ == JsonModel::Number(n),
        Json::Str(s)@ == JsonModel::Str(s@),
        Json::Array(items)@ matches JsonModel::Array(models) && models.len() == items@.len()
            && forall|i: int| 0 <= i < items@.len() ==> #[trigger] models[i] == items@[i]@,
        Json::Object(members)@ matches JsonModel::Object(models) && models.len()
            == members@.len() && forall|i: int|
            0 <= i < members@.len() ==> #[trigger] models[i] == (
                members@[i].name@,
                members@[i].value@,
            ),
{
    lemma_array_view(items);
    lemma_object_view(members);
}

/// Several values, members or strings read one for one, in order, and a value that may
/// be absent reads as absent where it is.
pub proof fn law_several_read_one_for_one(
    items: Seq<Json>,
    members: Seq<JsonMember>,
    ss: Seq<String>,
    value: Json,
)
    ensures
        item_models(items).len() == items.len(),
        forall|i: int| 0 <= i < items.len() ==> #[trigger] item_models(items)[i] == items[i]@,
        member_models(members).len() == members.len(),
        forall|i: int|
            0 <= i < members.len() ==> #[trigger] member_models(members)[i] == (
                members[i].name@,
                members[i].value@,
            ),
        string_models(ss).len() == ss.len(),
        forall|i: int| 0 <= i < ss.len() ==> #[trigger] string_models(ss)[i] == ss[i]@,
        opt_model(Some(&value)) == Some(value@),
        opt_model(None) is None,
        owned_model(Some(value)) == Some(value@),
        owned_model(None) is None,
{
}

// ---------------------------------------------------------------------------
// Reading models
// ---------------------------------------------------------------------------

/// The value of the first member called `key`, if there is one.
pub open spec fn lookup(members: Seq<(Seq<char>, JsonModel)>, key: Seq<char>) -> Option<JsonModel>
    decreases members.len(),
{
    if members.len() == 0 {
        None
    } else if members[0].0 == key {
        Some(members[0].1)
    } else {
        lookup(members.drop_first(), key)
    }
}

/// A member is found under its name where no earlier one has that name.
pub proof fn lemma_lookup_at(members: Seq<(Seq<char>, JsonModel)>, i: int)
    requires
        0 <= i < members.len(),
        forall|j: int| 0 <= j < i ==> (#[trigger] members[j]).0 != members[i].0,
    ensures
        lookup(members, members[i].0) == Some(members[i].1),
    decreases i,
{
    if i > 0 {
        let rest = members.drop_first();
        assert(members[0].0 != members[i].0);
        assert forall|j: int| 0 <= j < i - 1 implies (#[trigger] rest[j]).0 != rest[i - 1].0 by {
            assert(rest[j] == members[j + 1]);
        }
        lemma_lookup_at(rest, i - 1);
    }
}

/// Where names are distinct, every member is found under its own.
pub proof fn lemma_lookup_all(members: Seq<(Seq<char>, JsonModel)>)
    requires
        distinct_names(members),
    ensures
        forall|i: int|
            0 <= i < members.len() ==> lookup(members, (#[trigger] members[i]).0) == Some(
                members[i].1,
            ),
{
    assert forall|i: int| 0 <= i < members.len() implies lookup(
        members,
        (#[trigger] members[i]).0,
    ) == Some(members[i].1) by {
        lemma_lookup_at(members, i);
    }
}

/// Nothing is found under a name that no member has.
pub proof fn lemma_lookup_missing(members: Seq<(Seq<char>, JsonModel)>, key: Seq<char>)
    requires
        forall|j: int| 0 <= j < members.len() ==> (#[trigger] members[j]).0 != key,
    ensures
        lookup(members, key) is None,
    decreases members.len(),
{
    if members.len() > 0 {
        let rest = members.drop_first();
        assert(members[0].0 != key);
        assert forall|j: int| 0 <= j < rest.len() implies (#[trigger] rest[j]).0 != key by {
            assert(rest[j] == members[j + 1]);
        }
        lemma_lookup_missing(rest, key);
    }
}

/// What is found in two runs of members is what is found in the first, or else
/// in the second.
pub proof fn lemma_lookup_concat(
    a: Seq<(Seq<char>, JsonModel)>,
    b: Seq<(Seq<char>, JsonModel)>,
    key: Seq<char>,
)
    ensures
        lookup(a + b, key) == match lookup(a, key) {
            Some(v) => Some(v),
            None => lookup(b, key),
        },
    decreases a.len(),
{
    if a.len() == 0 {
        assert(a + b =~= b);
    } else {
        assert((a + b).drop_first() =~= a.drop_first() + b);
        assert((a + b)[0] == a[0]);
        lemma_lookup_concat(a.drop_first(), b, key);
    }
}

/// An optional member is found under its own name only.
pub proof fn lemma_lookup_optional(name: Seq<char>, value: Option<JsonModel>, key: Seq<char>)
    ensures
        lookup(optional(name, value), key) == if name == key {
            value
        } else {
            None
        },
{
    reveal_with_fuel(lookup, 2);
}

/// Whether no two members have the same name.
pub open spec fn distinct_names(members: Seq<(Seq<char>, JsonModel)>) -> bool {
    forall|i: int, j: int|
        0 <= i < j < members.len() ==> (#[trigger] members[i]).0 != (#[trigger] members[j]).0
}

/// Whether every object in a value, at any level, names each of its members
/// once.
pub open spec fn well_formed(value: JsonModel) -> bool
    decreases value,
{
    match value {
        JsonModel::Array(items) => forall|i: int|
            0 <= i < items.len() ==> well_formed(#[trigger] items[i]),
        JsonModel::Object(members) => distinct_names(members) && forall|i: int|
            0 <= i < members.len() ==> well_formed((#[trigger] members[i]).1),
        _ => true,
    }
}

/// Whether a value that may be absent is well formed where it is there.
pub open spec fn opt_well_formed(value: Option<JsonModel>) -> bool {
    match value {
        Some(v) => well_formed(v),
        None => true,
    }
}

/// Whether all values of a sequence are well formed.
pub open spec fn all_well_formed(items: Seq<JsonModel>) -> bool {
    forall|i: int| 0 <= i < items.len() ==> well_formed(#[trigger] items[i])
}

/// What a well-formed value holds under a name is well formed.
pub proof fn lemma_get_well_formed(value: JsonModel, key: Seq<char>)
    requires
        well_formed(value),
    ensures
        opt_well_formed(value.get(key)),
{
    match value {
        JsonModel::Object(members) => {
            lemma_lookup_well_formed(members, key);
        },
        _ => {},
    }
}

proof fn lemma_lookup_well_formed(members: Seq<(Seq<char>, JsonModel)>, key: Seq<char>)
    requires
        forall|i: int| 0 <= i < members.len() ==> well_formed((#[trigger] members[i]).1),
    ensures
        opt_well_formed(lookup(members, key)),
    decreases members.len(),
{
    if members.len() > 0 {
        let rest = members.drop_first();
        assert(well_formed(members[0].1));
        assert forall|i: int| 0 <= i < rest.len() implies well_formed((#[trigger] rest[i]).1) by {
            assert(rest[i] == members[i + 1]);
        }
        lemma_lookup_well_formed(rest, key);
    }
}

/// What a well-formed value that may be absent holds under a name is well
/// formed.
pub proof fn lemma_get_in_well_formed(value: Option<JsonModel>, key: Seq<char>)
    requires
        opt_well_formed(value),
    ensures
        opt_well_formed(get_in(value, key)),
{
    match value {
        Some(v) => {
            lemma_get_well_formed(v, key);
        },
        None => {},
    }
}

/// Lists of integers and of strings are well formed.
pub proof fn lemma_lists_well_formed(ns: Seq<i64>, ss: Seq<Seq<char>>)
    ensures
        well_formed(ints_json(ns)),
        well_formed(strs_json(ss)),
{
    reveal_with_fuel(well_formed, 2);
}

/// What a filter keeps is well formed where it makes well-formed values of
/// well-formed items.
pub proof fn lemma_filter_well_formed(
    items: Seq<JsonModel>,
    f: spec_fn(JsonModel) -> Option<JsonModel>,
)
    requires
        forall|i: int| 0 <= i < items.len() ==> opt_well_formed(f(#[trigger] items[i])),
    ensures
        all_well_formed(filter_mapped(items, f)),
    decreases items.len(),
{
    if items.len() > 0 {
        let front = items.drop_last();
        assert(opt_well_formed(f(items[items.len() - 1])));
        assert forall|i: int| 0 <= i < front.len() implies opt_well_formed(
            f(#[trigger] front[i]),
        ) by {
            assert(front[i] == items[i]);
        }
        lemma_filter_well_formed(front, f);
    }
}

/// An object is well formed where its names are distinct and its values well
/// formed.
pub proof fn lemma_object_well_formed(members: Seq<(Seq<char>, JsonModel)>)
    requires
        distinct_names(members),
        forall|i: int| 0 <= i < members.len() ==> well_formed((#[trigger] members[i]).1),
    ensures
        well_formed(JsonModel::Object(members)),
{
}

/// Whether no member has the given name.
pub open spec fn lacks(members: Seq<(Seq<char>, JsonModel)>, key: Seq<char>) -> bool {
    forall|i: int| 0 <= i < members.len() ==> (#[trigger] members[i]).0 != key
}

/// An optional member brings in no name but its own.
pub proof fn lemma_optional_lacks(
    members: Seq<(Seq<char>, JsonModel)>,
    name: Seq<char>,
    value: Option<JsonModel>,
    key: Seq<char>,
)
    requires
        lacks(members, key),
        name != key,
    ensures
        lacks(members + optional(name, value), key),
{
}

/// An optional member under a new name keeps an object well formed.
pub proof fn lemma_optional_keeps(
    members: Seq<(Seq<char>, JsonModel)>,
    name: Seq<char>,
    value: Option<JsonModel>,
)
    requires
        well_formed(JsonModel::Object(members)),
        lacks(members, name),
        opt_well_formed(value),
    ensures
        well_formed(JsonModel::Object(members + optional(name, value))),
{
    let more = members + optional(name, value);
    assert forall|i: int| 0 <= i < more.len() implies well_formed((#[trigger] more[i]).1) by {
        if i < members.len() {
            assert(more[i] == members[i]);
        }
    }
    lemma_object_well_formed(more);
}

impl JsonNumber {
    /// The number as a signed 64-bit integer, where it is one.
    pub open spec fn int_model(self) -> Option<i64> {
        match self {
            JsonNumber::PosInt(n) => if n <= i64::MAX {
                Some(n as i64)
            } else {
                None
            },
            JsonNumber::NegInt(n) => Some(n),
            JsonNumber::Float(_) => None,
        }
    }
}

impl JsonModel {
    /// The member called `key`; nothing on anything but an object.
    pub open spec fn get(self, key: Seq<char>) -> Option<JsonModel> {
        match self {
            JsonModel::Object(members) => lookup(members, key),
            _ => None,
        }
    }

    /// The characters of a string.
    pub open spec fn as_str(self) -> Option<Seq<char>> {
        match self {
            JsonModel::Str(s) => Some(s),
            _ => None,
        }
    }

    /// The value of a number that is a signed 64-bit integer.
    pub open spec fn as_i64(self) -> Option<i64> {
        match self {
            JsonModel::Number(n) => n.int_model(),
            _ => None,
        }
    }

    /// The value of a boolean.
    pub open spec fn as_bool(self) -> Option<bool> {
        match self {
            JsonModel::Bool(b) => Some(b),
            _ => None,
        }
    }

    /// The items of an array.
    pub open spec fn as_array(self) -> Option<Seq<JsonModel>> {
        match self {
            JsonModel::Array(items) => Some(items),
            _ => None,
        }
    }
}

/// The member called `key` of a value that may be absent.
pub open spec fn get_in(value: Option<JsonModel>, key: Seq<char>) -> Option<JsonModel> {
    match value {
        Some(v) => v.get(key),
        None => None,
    }
}

/// The first item of an array, if there is one.
pub open spec fn first_in(value: Option<JsonModel>) -> Option<JsonModel> {
    match array_in(value) {
        Some(items) => if items.len() > 0 {
            Some(items[0])
        } else {
            None
        },
        None => None,
    }
}

/// The items of a value that may be absent.
pub open spec fn array_in(value: Option<JsonModel>) -> Option<Seq<JsonModel>> {
    match value {
        Some(v) => v.as_array(),
        None => None,
    }
}

/// The string in `value`, if it holds one.
pub open spec fn str_in(value: Option<JsonModel>) -> Option<Seq<char>> {
    match value {
        Some(v) => v.as_str(),
        None => None,
    }
}

/// The integer in `value`, if it holds one.
pub open spec fn int_in(value: Option<JsonModel>) -> Option<i64> {
    match value {
        Some(v) => v.as_i64(),
        None => None,
    }
}

/// The string in `value`, or `default`.
pub open spec fn str_or(value: Option<JsonModel>, default: Seq<char>) -> Seq<char> {
    match str_in(value) {
        Some(s) => s,
        None => default,
    }
}

/// The integer in `value`, or `default`.
pub open spec fn int_or(value: Option<JsonModel>, default: i64) -> i64 {
    match int_in(value) {
        Some(n) => n,
        None => default,
    }
}

/// `value`, or `default` where it is absent.
pub open spec fn value_or(value: Option<JsonModel>, default: JsonModel) -> JsonModel {
    match value {
        Some(v) => v,
        None => default,
    }
}

/// The results of `f` on the items it accepts, in the order of the items.
pub open spec fn filter_mapped<A>(
    items: Seq<JsonModel>,
    f: spec_fn(JsonModel) -> Option<A>,
) -> Seq<A>
    decreases items.len(),
{
    if items.len() == 0 {
        Seq::empty()
    } else {
        let front = filter_mapped(items.drop_last(), f);
        match f(items.last()) {
            Some(a) => front.push(a),
            None => front,
        }
    }
}

/// One more item is one more step of [`filter_mapped`].
pub proof fn lemma_filter_mapped_step<A>(
    items: Seq<JsonModel>,
    f: spec_fn(JsonModel) -> Option<A>,
    i: int,
)
    requires
        0 <= i < items.len(),
    ensures
        filter_mapped(items.take(i + 1), f) == match f(items[i]) {
            Some(a) => filter_mapped(items.take(i), f).push(a),
            None => filter_mapped(items.take(i), f),
        },
{
    assert(items.take(i + 1).drop_last() =~= items.take(i));
    assert(items.take(i + 1).last() == items[i]);
}

/// Filtering two runs of items gives the two results one behind the other.
pub proof fn law_filter_concatenates<A>(
    a: Seq<JsonModel>,
    b: Seq<JsonModel>,
    f: spec_fn(JsonModel) -> Option<A>,
)
    ensures
        filter_mapped(a + b, f) == filter_mapped(a, f) + filter_mapped(b, f),
    decreases b.len(),
{
    if b.len() == 0 {
        assert(a + b =~= a);
        assert(filter_mapped(a + b, f) =~= filter_mapped(a, f) + filter_mapped(b, f));
    } else {
        assert((a + b).drop_last() =~= a + b.drop_last());
        assert((a + b).last() == b.last());
        law_filter_concatenates(a, b.drop_last(), f);
        assert(filter_mapped(a + b, f) =~= filter_mapped(a, f) + filter_mapped(b, f));
    }
}

/// Where every item is accepted, none is left out and each keeps its place.
pub proof fn law_filter_keeps_accepted<A>(
    items: Seq<JsonModel>,
    f: spec_fn(JsonModel) -> Option<A>,
)
    requires
        forall|i: int| 0 <= i < items.len() ==> f(#[trigger] items[i]) is Some,
    ensures
        filter_mapped(items, f).len() == items.len(),
        forall|i: int|
            0 <= i < items.len() ==> Some(#[trigger] filter_mapped(items, f)[i]) == f(items[i]),
    decreases items.len(),
{
    if items.len() > 0 {
        let front = items.drop_last();
        assert(f(items[items.len() - 1]) is Some);
        assert forall|i: int| 0 <= i < front.len() implies f(#[trigger] front[i]) is Some by {
            assert(front[i] == items[i]);
        }
        law_filter_keeps_accepted(front, f);
        assert forall|i: int| 0 <= i < items.len() implies Some(
            #[trigger] filter_mapped(items, f)[i],
        ) == f(items[i]) by {
            if i < front.len() {
                assert(filter_mapped(items, f)[i] == filter_mapped(front, f)[i]);
                assert(front[i] == items[i]);
            }
        }
    }
}

/// Whatever is kept comes from one of the items, and no more is kept than
/// there was.
pub proof fn law_filter_adds_nothing<A>(
    items: Seq<JsonModel>,
    f: spec_fn(JsonModel) -> Option<A>,
    k: int,
)
    requires
        0 <= k < filter_mapped(items, f).len(),
    ensures
        filter_mapped(items, f).len() <= items.len(),
        exists|i: int|
            k <= i < items.len() && f(#[trigger] items[i]) == Some(filter_mapped(items, f)[k]),
    decreases items.len(),
{
    if items.len() > 0 {
        let front = items.drop_last();
        let kept = filter_mapped(front, f);
        lemma_filter_len(front, f);
        if k < kept.len() {
            law_filter_adds_nothing(front, f, k);
            let i = choose|i: int| k <= i < front.len() && f(#[trigger] front[i]) == Some(kept[k]);
            assert(items[i] == front[i]);
        } else {
            assert(f(items[items.len() - 1]) == Some(filter_mapped(items, f)[k]));
        }
    }
}

proof fn lemma_filter_len<A>(items: Seq<JsonModel>, f: spec_fn(JsonModel) -> Option<A>)
    ensures
        filter_mapped(items, f).len() <= items.len(),
    decreases items.len(),
{
    if items.len() > 0 {
        lemma_filter_len(items.drop_last(), f);
    }
}

/// The integers of an array, other items left out; none where `value` is no
/// array.
pub open spec fn ints_in(value: Option<JsonModel>) -> Seq<i64> {
    match array_in(value) {
        Some(items) => filter_mapped(items, |j: JsonModel| j.as_i64()),
        None => Seq::empty(),
    }
}

/// The strings of an array, other items left out; none where `value` is no
/// array.
pub open spec fn strs_in(value: Option<JsonModel>) -> Seq<Seq<char>> {
    match array_in(value) {
        Some(items) => filter_mapped(items, |j: JsonModel| j.as_str()),
        None => Seq::empty(),
    }
}

// ---------------------------------------------------------------------------
// Writing models
// ---------------------------------------------------------------------------

/// The model of an integer.
pub open spec fn int_json(n: i64) -> JsonModel {
    JsonModel::Number(
        if n >= 0 {
            JsonNumber::PosInt(n as u64)
        } else {
            JsonNumber::NegInt(n)
        },
    )
}

/// The model of a sequence of integers.
pub open spec fn ints_json(ns: Seq<i64>) -> JsonModel {
    JsonModel::Array(Seq::new(ns.len(), |i: int| int_json(ns[i])))
}

/// The model of a sequence of strings.
pub open spec fn strs_json(ss: Seq<Seq<char>>) -> JsonModel {
    JsonModel::Array(Seq::new(ss.len(), |i: int| JsonModel::Str(ss[i])))
}

/// A member where there is a value, no member where there is none.
pub open spec fn optional(
    name: Seq<char>,
    value: Option<JsonModel>,
) -> Seq<(Seq<char>, JsonModel)> {
    match value {
        Some(v) => seq![(name, v)],
        None => Seq::empty(),
    }
}

/// The model of an integer that may be absent.
pub open spec fn opt_int(n: Option<i64>) -> Option<JsonModel> {
    match n {
        Some(n) => Some(int_json(n)),
        None => None,
    }
}

/// The model of a string that may be absent.
pub open spec fn opt_str(s: Option<Seq<char>>) -> Option<JsonModel> {
    match s {
        Some(s) => Some(JsonModel::Str(s)),
        None => None,
    }
}

/// An integer reads back as itself.
pub proof fn law_int_reads_back(n: i64)
    ensures
        int_json(n).as_i64() == Some(n),
{
}

// ---------------------------------------------------------------------------
// Reading values
// ---------------------------------------------------------------------------

/// The value of the first of `members` that is called `key`.
fn find_member<'a>(members: &'a Vec<JsonMember>, key: &str) -> (found: Option<&'a Json>)
    ensures
        opt_model(found) == lookup(member_models(members@), key@),
{
    let ghost all = member_models(members@);
    assert(all.skip(0) =~= all);
    let mut i: usize = 0;
    while i < members.len()
        invariant
            i <= members@.len(),
            all == member_models(members@),
            lookup(all, key@) == lookup(all.skip(i as int), key@),
        decreases members@.len() - i,
    {
        assert(all.skip(i as int).drop_first() =~= all.skip(i + 1));
        if str_eq(members[i].name.as_str(), key) {
            return Some(&members[i].value);
        }
        i += 1;
    }
    None
}

impl Json {
    /// The member called `key`; nothing on anything but an object.
    pub fn get(&self, key: &str) -> (found: Option<&Json>)
        ensures
            opt_model(found) == self@.get(key@),
    {
        match self {
            Json::Object(members) => {
                proof {
                    lemma_object_view(*members);
                }
                find_member(members, key)
            },
            _ => None,
        }
    }

    /// The string behind a string value.
    pub fn as_str(&self) -> (s: Option<&str>)
        ensures
            match s {
                Some(t) => self@.as_str() == Some(t@),
                None => self@.as_str() is None,
            },
    {
        match self {
            Json::Str(s) => Some(s.as_str()),
            _ => None,
        }
    }

    /// The value of a number that is a signed 64-bit integer.
    pub fn as_i64(&self) -> (n: Option<i64>)
        ensures
            n == self@.as_i64(),
    {
        match self {
            Json::Number(JsonNumber::PosInt(n)) => if *n <= i64::MAX as u64 {
                Some(*n as i64)
            } else {
                None
            },
            Json::Number(JsonNumber::NegInt(n)) => Some(*n),
            _ => None,
        }
    }

    /// The value of a boolean.
    pub fn as_bool(&self) -> (b: Option<bool>)
        ensures
            b == self@.as_bool(),
    {
        match self {
            Json::Bool(b) => Some(*b),
            _ => None,
        }
    }

    /// The items of an array.
    pub fn as_array(&self) -> (items: Option<&Vec<Json>>)
        ensures
            match items {
                Some(v) => self@.as_array() == Some(item_models(v@)),
                None => self@.as_array() is None,
            },
    {
        match self {
            Json::Array(items) => {
                proof {
                    lemma_array_view(*items);
                }
                Some(items)
            },
            _ => None,
        }
    }

    /// The members of an object.
    pub fn as_object(&self) -> (members: Option<&Vec<JsonMember>>)
        ensures
            match members {
                Some(v) => self@ == JsonModel::Object(member_models(v@)),
                None => !(self@ is Object),
            },
    {
        match self {
            Json::Object(members) => {
                proof {
                    lemma_object_view(*members);
                }
                Some(members)
            },
            _ => None,
        }
    }

    /// Whether the value is an object.
    pub fn is_object(&self) -> (b: bool)
        ensures
            b == (self@ is Object),
    {
        match self {
            Json::Object(_) => true,
            _ => false,
        }
    }
}

impl Clone for Json {
    fn clone(&self) -> (copy: Json)
        ensures
            copy@ == self@,
        decreases self,
    {
        match self {
            Json::Null => Json::Null,
            Json::Bool(b) => Json::Bool(*b),
            Json::Number(n) => Json::Number(*n),
            Json::Str(s) => Json::Str(s.clone()),
            Json::Array(items) => {
                let mut copies: Vec<Json> = Vec::new();
                let mut i: usize = 0;
                while i < items.len()
                    invariant
                        i <= items@.len(),
                        self == Json::Array(*items),
                        copies@.len() == i,
                        forall|j: int| 0 <= j < i ==> copies@[j]@ == #[trigger] items@[j]@,
                    decreases items@.len() - i,
                {
                    assert(decreases_to!(*self => self->Array_0));
                    assert(decreases_to!(*items => items[i as int]));
                    copies.push(items[i].clone());
                    i += 1;
                }
                proof {
                    lemma_array_view(copies);
                    lemma_array_view(*items);
                    assert(item_models(copies@) =~= item_models(items@));
                }
                Json::Array(copies)
            },
            Json::Object(members) => {
                let mut copies: Vec<JsonMember> = Vec::new();
                let mut i: usize = 0;
                while i < members.len()
                    invariant
                        i <= members@.len(),
                        self == Json::Object(*members),
                        copies@.len() == i,
                        forall|j: int|
                            0 <= j < i ==> copies@[j].name@ == (#[trigger] members@[j]).name@
                                && copies@[j].value@ == members@[j].value@,
                    decreases members@.len() - i,
                {
                    assert(decreases_to!(*self => self->Object_0));
                    assert(decreases_to!(*members => members[i as int]));
                    assert(decreases_to!(members[i as int] => members[i as int].value));
                    let value = members[i].value.clone();
                    copies.push(JsonMember { name: members[i].name.clone(), value });
                    i += 1;
                }
                proof {
                    lemma_object_view(copies);
                    lemma_object_view(*members);
                    assert(member_models(copies@) =~= member_models(members@));
                }
                Json::Object(copies)
            },
        }
    }
}

/// The member called `key` of a value that may be absent.
pub fn get_field<'a>(value: Option<&'a Json>, key: &str) -> (found: Option<&'a Json>)
    ensures
        opt_model(found) == get_in(opt_model(value), key@),
{
    match value {
        Some(v) => v.get(key),
        None => None,
    }
}

/// The string in `value`, if it holds one.
pub fn str_field<'a>(value: Option<&'a Json>) -> (s: Option<&'a str>)
    ensures
        match s {
            Some(t) => str_in(opt_model(value)) == Some(t@),
            None => str_in(opt_model(value)) is None,
        },
{
    match value {
        Some(v) => v.as_str(),
        None => None,
    }
}

/// The string in `value`, or `default`.
pub fn str_field_or<'a>(value: Option<&'a Json>, default: &'a str) -> (s: &'a str)
    ensures
        s@ == str_or(opt_model(value), default@),
{
    match str_field(value) {
        Some(s) => s,
        None => default,
    }
}

/// The integer in `value`, if it holds one.
pub fn int_field(value: Option<&Json>) -> (n: Option<i64>)
    ensures
        n == int_in(opt_model(value)),
{
    match value {
        Some(v) => v.as_i64(),
        None => None,
    }
}

/// The integer in `value`, or `default`.
pub fn int_field_or(value: Option<&Json>, default: i64) -> (n: i64)
    ensures
        n == int_or(opt_model(value), default),
{
    match int_field(value) {
        Some(n) => n,
        None => default,
    }
}

/// The items of a value that may be absent.
pub fn array_field<'a>(value: Option<&'a Json>) -> (items: Option<&'a Vec<Json>>)
    ensures
        match items {
            Some(v) => array_in(opt_model(value)) == Some(item_models(v@)),
            None => array_in(opt_model(value)) is None,
        },
{
    match value {
        Some(v) => v.as_array(),
        None => None,
    }
}

/// The first item of an array, if there is one.
pub fn first_item<'a>(value: Option<&'a Json>) -> (item: Option<&'a Json>)
    ensures
        opt_model(item) == first_in(opt_model(value)),
{
    match array_field(value) {
        Some(items) => if items.len() > 0 {
            Some(&items[0])
        } else {
            None
        },
        None => None,
    }
}

/// A copy of `value`, or `default` where it is absent.
pub fn value_field_or(value: Option<&Json>, default: Json) -> (copy: Json)
    ensures
        copy@ == value_or(opt_model(value), default@),
{
    match value {
        Some(v) => v.clone(),
        None => default,
    }
}

/// The integers of an array, other items left out.
pub fn int_items(value: Option<&Json>) -> (ns: Vec<i64>)
    ensures
        ns@ == ints_in(opt_model(value)),
{
    let mut ns: Vec<i64> = Vec::new();
    match array_field(value) {
        None => {},
        Some(items) => {
            let ghost all = item_models(items@);
            let ghost f = |j: JsonModel| j.as_i64();
            let mut i: usize = 0;
            while i < items.len()
                invariant
                    i <= items@.len(),
                    all == item_models(items@),
                    f == (|j: JsonModel| j.as_i64()),
                    ns@ == filter_mapped(all.take(i as int), f),
                decreases items@.len() - i,
            {
                proof {
                    lemma_filter_mapped_step(all, f, i as int);
                }
                match items[i].as_i64() {
                    Some(n) => {
                        ns.push(n);
                    },
                    None => {},
                }
                i += 1;
            }
            assert(all.take(i as int) =~= all);
        },
    }
    ns
}

/// The character sequences of a vector of strings.
pub open spec fn string_models(ss: Seq<String>) -> Seq<Seq<char>> {
    Seq::new(ss.len(), |i: int| ss[i]@)
}

/// The strings of an array, other items left out.
pub fn str_items(value: Option<&Json>) -> (ss: Vec<String>)
    ensures
        string_models(ss@) == strs_in(opt_model(value)),
{
    let mut ss: Vec<String> = Vec::new();
    match array_field(value) {
        None => {
            assert(string_models(ss@) =~= Seq::<Seq<char>>::empty());
        },
        Some(items) => {
            let ghost all = item_models(items@);
            let ghost f = |j: JsonModel| j.as_str();
            assert(string_models(ss@) =~= filter_mapped(all.take(0), f));
            let mut i: usize = 0;
            while i < items.len()
                invariant
                    i <= items@.len(),
                    all == item_models(items@),
                    f == (|j: JsonModel| j.as_str()),
                    string_models(ss@) == filter_mapped(all.take(i as int), f),
                decreases items@.len() - i,
            {
                proof {
                    lemma_filter_mapped_step(all, f, i as int);
                }
                let ghost before = ss@;
                match items[i].as_str() {
                    Some(s) => {
                        ss.push(s.to_owned());
                        assert(string_models(ss@) =~= string_models(before).push(s@));
                    },
                    None => {},
                }
                i += 1;
            }
            assert(all.take(i as int) =~= all);
        },
    }
    ss
}

// ---------------------------------------------------------------------------
// Writing values
// ---------------------------------------------------------------------------

impl Json {
    /// A string value.
    pub fn string(s: &str) -> (v: Json)
        ensures
            v@ == JsonModel::Str(s@),
    {
        Json::Str(s.to_owned())
    }

    /// An integer value.
    pub fn integer(n: i64) -> (v: Json)
        ensures
            v@ == int_json(n),
    {
        if n >= 0 {
            Json::Number(JsonNumber::PosInt(n as u64))
        } else {
            Json::Number(JsonNumber::NegInt(n))
        }
    }

    /// An array of the given values.
    pub fn array(items: Vec<Json>) -> (v: Json)
        ensures
            v@ == JsonModel::Array(item_models(items@)),
    {
        proof {
            lemma_array_view(items);
        }
        Json::Array(items)
    }

    /// An array of integers.
    pub fn ints(ns: Vec<i64>) -> (v: Json)
        ensures
            v@ == ints_json(ns@),
    {
        let mut items: Vec<Json> = Vec::new();
        let mut i: usize = 0;
        while i < ns.len()
            invariant
                i <= ns@.len(),
                items@.len() == i,
                forall|j: int| 0 <= j < i ==> (#[trigger] items@[j])@ == int_json(ns@[j]),
            decreases ns@.len() - i,
        {
            items.push(Json::integer(ns[i]));
            i += 1;
        }
        assert(item_models(items@) =~= ints_json(ns@)->Array_0);
        Json::array(items)
    }

    /// An array of strings.
    pub fn strings(ss: Vec<String>) -> (v: Json)
        ensures
            v@ == strs_json(string_models(ss@)),
    {
        let mut items: Vec<Json> = Vec::new();
        let mut i: usize = 0;
        while i < ss.len()
            invariant
                i <= ss@.len(),
                items@.len() == i,
                forall|j: int| 0 <= j < i ==> (#[trigger] items@[j])@ == JsonModel::Str(ss@[j]@),
            decreases ss@.len() - i,
        {
            items.push(Json::Str(ss[i].clone()));
            i += 1;
        }
        assert(item_models(items@) =~= strs_json(string_models(ss@))->Array_0);
        Json::array(items)
    }
}

/// An object under construction.
#[derive(Debug)]
pub struct JsonObject {
    members: Vec<JsonMember>,
}

impl View for JsonObject {
    type V = Seq<(Seq<char>, JsonModel)>;

    closed spec fn view(&self) -> Seq<(Seq<char>, JsonModel)> {
        member_models(self.members@)
    }
}

impl JsonObject {
    /// An object without members.
    pub fn new() -> (object: JsonObject)
        ensures
            object@ == Seq::<(Seq<char>, JsonModel)>::empty(),
    {
        let object = JsonObject { members: Vec::new() };
        assert(object@ =~= Seq::<(Seq<char>, JsonModel)>::empty());
        object
    }

    /// Adds a member behind those already there.
    pub fn push(&mut self, name: &str, value: Json)
        ensures
            final(self)@ == old(self)@.push((name@, value@)),
    {
        self.members.push(JsonMember { name: name.to_owned(), value });
        assert(self@ =~= old(self)@.push((name@, value@)));
    }

    /// Adds an integer member where there is an integer.
    pub fn push_int(&mut self, name: &str, value: Option<i64>)
        ensures
            final(self)@ == old(self)@ + optional(name@, opt_int(value)),
    {
        match value {
            Some(n) => {
                self.push(name, Json::integer(n));
            },
            None => {},
        }
        assert(self@ =~= old(self)@ + optional(name@, opt_int(value)));
    }

    /// Adds a string member where there is a string.
    pub fn push_str(&mut self, name: &str, value: Option<&str>)
        ensures
            final(self)@ == old(self)@ + optional(
                name@,
                match value {
                    Some(s) => Some(JsonModel::Str(s@)),
                    None => None,
                },
            ),
    {
        let ghost member = optional(
            name@,
            match value {
                Some(s) => Some(JsonModel::Str(s@)),
                None => None,
            },
        );
        match value {
            Some(s) => {
                self.push(name, Json::string(s));
            },
            None => {},
        }
        assert(self@ =~= old(self)@ + member);
    }

    /// Adds a boolean member where there is a boolean.
    pub fn push_bool(&mut self, name: &str, value: Option<bool>)
        ensures
            final(self)@ == old(self)@ + optional(
                name@,
                match value {
                    Some(b) => Some(JsonModel::Bool(b)),
                    None => None,
                },
            ),
    {
        let ghost member = optional(
            name@,
            match value {
                Some(b) => Some(JsonModel::Bool(b)),
                None => None,
            },
        );
        match value {
            Some(b) => {
                self.push(name, Json::Bool(b));
            },
            None => {},
        }
        assert(self@ =~= old(self)@ + member);
    }

    /// The value of the first member called `key`.
    pub fn get(&self, key: &str) -> (found: Option<&Json>)
        ensures
            opt_model(found) == lookup(self@, key@),
    {
        find_member(&self.members, key)
    }

    /// The finished object.
    pub fn finish(self) -> (v: Json)
        ensures
            v@ == JsonModel::Object(self@),
    {
        proof {
            lemma_object_view(self.members);
        }
        Json::Object(self.members)
    }
}

} // verus!

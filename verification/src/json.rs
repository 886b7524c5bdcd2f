//! A JSON document as plain values, and the lookups the dashboard makes in it.

use vstd::prelude::*;
use crate::text::same_text;

verus! {

/// A JSON value. Numbers keep their written form; an object keeps its members
/// in document order.
pub enum Json {
    Null,
    Bool(bool),
    Number(String),
    Str(String),
    Array(Vec<Json>),
    Object(Vec<(String, Json)>),
}

/// The plain content of a JSON value.
pub enum JsonV {
    Null,
    Bool(bool),
    Number(Seq<char>),
    Str(Seq<char>),
    Array(Seq<JsonV>),
    Object(Seq<(Seq<char>, JsonV)>),
}

impl View for Json {
    type V = JsonV;

    open spec fn view(&self) -> JsonV {
        json_view(*self)
    }
}

/// The plain content of a JSON value.
pub open spec fn json_view(j: Json) -> JsonV
    decreases j, 0nat,
{
    match j {
        Json::Null => JsonV::Null,
        Json::Bool(b) => JsonV::Bool(b),
        Json::Number(n) => JsonV::Number(n@),
        Json::Str(s) => JsonV::Str(s@),
        Json::Array(items) => JsonV::Array(items_view(items@)),
        Json::Object(fields) => JsonV::Object(fields_view(fields@)),
    }
}

/// The plain contents of a sequence of JSON values.
pub open spec fn items_view(items: Seq<Json>) -> Seq<JsonV>
    decreases items, 1nat,
{
    if items.len() == 0 {
        Seq::empty()
    } else {
        items_view(items.drop_last()).push(json_view(items.last()))
    }
}

/// The plain contents of the members of an object.
pub open spec fn fields_view(fields: Seq<(String, Json)>) -> Seq<(Seq<char>, JsonV)>
    decreases fields, 1nat,
{
    if fields.len() == 0 {
        Seq::empty()
    } else {
        fields_view(fields.drop_last()).push((fields.last().0@, json_view(fields.last().1)))
    }
}

/// Each element's content is in place in the contents of a sequence.
pub proof fn lemma_items_view(items: Seq<Json>)
    ensures
        items_view(items).len() == items.len(),
        forall|i: int| 0 <= i < items.len() ==> #[trigger] items_view(items)[i] == json_view(items[i]),
    decreases items.len(),
{
    if items.len() > 0 {
        lemma_items_view(items.drop_last());
    }
}

/// Each member's name and content are in place in the contents of an object.
pub proof fn lemma_fields_view(fields: Seq<(String, Json)>)
    ensures
        fields_view(fields).len() == fields.len(),
        forall|i: int|
            0 <= i < fields.len() ==> #[trigger] fields_view(fields)[i] == (
                fields[i].0@,
                json_view(fields[i].1),
            ),
    decreases fields.len(),
{
    if fields.len() > 0 {
        lemma_fields_view(fields.drop_last());
    }
}

/// Whether no object in `j`, at any depth, has two members of the same name, as
/// in every document a JSON parser yields.
pub open spec fn json_wf(j: JsonV) -> bool
    decreases j, 0nat,
{
    match j {
        JsonV::Array(items) => items_wf(items),
        JsonV::Object(fields) => names_distinct(fields) && members_wf(fields),
        _ => true,
    }
}

/// Whether every value of `items` is well-formed.
pub open spec fn items_wf(items: Seq<JsonV>) -> bool
    decreases items, 1nat,
{
    if items.len() == 0 {
        true
    } else {
        items_wf(items.drop_last()) && json_wf(items.last())
    }
}

/// Whether the value of every member of `fields` is well-formed.
pub open spec fn members_wf(fields: Seq<(Seq<char>, JsonV)>) -> bool
    decreases fields, 1nat,
{
    if fields.len() == 0 {
        true
    } else {
        members_wf(fields.drop_last()) && json_wf(fields.last().1)
    }
}

/// Whether no two members of `fields` share a name.
pub open spec fn names_distinct(fields: Seq<(Seq<char>, JsonV)>) -> bool {
    forall|a: int, b: int| 0 <= a < b < fields.len() ==> #[trigger] fields[a].0 != #[trigger] fields[b].0
}

/// Every member of a well-formed object has a well-formed value.
pub proof fn lemma_members_wf(fields: Seq<(Seq<char>, JsonV)>)
    requires
        members_wf(fields),
    ensures
        forall|i: int| 0 <= i < fields.len() ==> json_wf(#[trigger] fields[i].1),
    decreases fields.len(),
{
    if fields.len() > 0 {
        lemma_members_wf(fields.drop_last());
        assert forall|i: int| 0 <= i < fields.len() implies json_wf(#[trigger] fields[i].1) by {
            if i < fields.len() - 1 {
                assert(fields[i] == fields.drop_last()[i]);
            }
        }
    }
}

/// Every element of a well-formed array is well-formed.
pub proof fn lemma_items_wf(items: Seq<JsonV>)
    requires
        items_wf(items),
    ensures
        forall|i: int| 0 <= i < items.len() ==> json_wf(#[trigger] items[i]),
    decreases items.len(),
{
    if items.len() > 0 {
        lemma_items_wf(items.drop_last());
        assert forall|i: int| 0 <= i < items.len() implies json_wf(#[trigger] items[i]) by {
            if i < items.len() - 1 {
                assert(items[i] == items.drop_last()[i]);
            }
        }
    }
}

/// Index of the first member named `key`, or the number of members where there is none.
pub open spec fn member_index(fields: Seq<(Seq<char>, JsonV)>, key: Seq<char>) -> int
    decreases fields.len(),
{
    if fields.len() == 0 || fields[0].0 == key {
        0
    } else {
        1 + member_index(fields.drop_first(), key)
    }
}

/// The member `key` of an object (`serde_json::Value::get` with a `&str`).
pub open spec fn get_key(j: JsonV, key: Seq<char>) -> Option<JsonV> {
    match j {
        JsonV::Object(fields) => {
            let i = member_index(fields, key);
            if i < fields.len() {
                Some(fields[i].1)
            } else {
                None
            }
        },
        _ => None,
    }
}

/// The element at `i` of an array (`serde_json::Value::get` with a `usize`).
pub open spec fn get_at(j: JsonV, i: int) -> Option<JsonV> {
    match j {
        JsonV::Array(items) => if 0 <= i < items.len() {
            Some(items[i])
        } else {
            None
        },
        _ => None,
    }
}

/// `get_key` after a lookup that may have found nothing.
pub open spec fn then_key(j: Option<JsonV>, key: Seq<char>) -> Option<JsonV> {
    match j {
        Some(v) => get_key(v, key),
        None => None,
    }
}

/// `get_at` after a lookup that may have found nothing.
pub open spec fn then_at(j: Option<JsonV>, i: int) -> Option<JsonV> {
    match j {
        Some(v) => get_at(v, i),
        None => None,
    }
}

/// The text of a string value (`serde_json::Value::as_str`).
pub open spec fn text_of(j: Option<JsonV>) -> Option<Seq<char>> {
    match j {
        Some(JsonV::Str(s)) => Some(s),
        _ => None,
    }
}

/// The content of a looked-up value.
pub open spec fn view_ref(r: Option<&Json>) -> Option<JsonV> {
    match r {
        Some(v) => Some(v@),
        None => None,
    }
}

/// The content of an optional value.
pub open spec fn view_opt(r: Option<Json>) -> Option<JsonV> {
    match r {
        Some(v) => Some(v@),
        None => None,
    }
}

/// A text, read through the `String`.
pub open spec fn text_view(r: Option<String>) -> Option<Seq<char>> {
    match r {
        Some(s) => Some(s@),
        None => None,
    }
}

pub proof fn lemma_member_index(fields: Seq<(Seq<char>, JsonV)>, key: Seq<char>)
    ensures
        0 <= member_index(fields, key) <= fields.len(),
        forall|j: int| 0 <= j < member_index(fields, key) ==> fields[j].0 != key,
        member_index(fields, key) < fields.len() ==> fields[member_index(fields, key)].0 == key,
    decreases fields.len(),
{
    if fields.len() > 0 && fields[0].0 != key {
        lemma_member_index(fields.drop_first(), key);
        assert forall|j: int| 0 <= j < member_index(fields, key) implies fields[j].0 != key by {
            if j > 0 {
                assert(fields[j] == fields.drop_first()[j - 1]);
            }
        }
    }
}

/// In a well-formed document, the member `key` of an object is the one member of
/// that name, and it is well-formed itself.
pub proof fn lemma_get_key_wf(j: JsonV, key: Seq<char>)
    requires
        json_wf(j),
    ensures
        get_key(j, key) matches Some(v) ==> json_wf(v),
        j matches JsonV::Object(fields) ==> forall|i: int|
            0 <= i < fields.len() && fields[i].0 == key ==> get_key(j, key) == Some(
                #[trigger] fields[i].1,
            ),
{
    if let JsonV::Object(fields) = j {
        lemma_member_index(fields, key);
        lemma_members_wf(fields);
        let m = member_index(fields, key);
        assert forall|i: int| 0 <= i < fields.len() && fields[i].0 == key implies get_key(j, key)
            == Some(#[trigger] fields[i].1) by {
            if m < i {
                assert(fields[m].0 != fields[i].0);
            }
        }
    }
}

impl Json {
    /// The member `key` of this value, if it is an object that has one.
    pub fn get(&self, key: &str) -> (r: Option<&Json>)
        ensures
            view_ref(r) == get_key(self@, key@),
    {
        match self {
            Json::Object(fields) => {
                let ghost fv = self@->Object_0;
                proof { lemma_fields_view(fields@); }
                assert(forall|j: int| 0 <= j < fields@.len() ==> #[trigger] fv[j] == (fields@[j].0@, fields@[j].1@));
                proof { lemma_member_index(fv, key@); }
                let mut i: usize = 0;
                while i < fields.len()
                    invariant
                        i <= fields@.len() == fv.len(),
                        *self == Json::Object(*fields),
                        fv == self@->Object_0,
                        fv == fields_view(fields@),
                        forall|j: int| 0 <= j < fields@.len() ==> #[trigger] fv[j] == (fields@[j].0@, fields@[j].1@),
                        forall|j: int| 0 <= j < i ==> fields@[j].0@ != key@,
                        0 <= member_index(fv, key@) <= fv.len(),
                        forall|j: int| 0 <= j < member_index(fv, key@) ==> fv[j].0 != key@,
                        member_index(fv, key@) < fv.len() ==> fv[member_index(fv, key@)].0 == key@,
                    decreases fields@.len() - i,
                {
                    if same_text(fields[i].0.as_str(), key) {
                        assert(fv[i as int].0 == key@);
                        assert(member_index(fv, key@) == i);
                        return Some(&fields[i].1);
                    }
                    assert(fv[i as int].0 != key@);
                    i = i + 1;
                }
                None
            },
            _ => None,
        }
    }

    /// The element at `i` of this value, if it is an array that long.
    pub fn get_index(&self, i: usize) -> (r: Option<&Json>)
        ensures
            view_ref(r) == get_at(self@, i as int),
    {
        match self {
            Json::Array(items) => {
                proof { lemma_items_view(items@); }
                if i < items.len() {
                    Some(&items[i])
                } else {
                    None
                }
            },
            _ => None,
        }
    }

    /// The text of this value, if it is a string.
    pub fn as_text(&self) -> (r: Option<&str>)
        ensures
            r matches Some(s) ==> text_of(Some(self@)) == Some(s@),
            r is None <==> text_of(Some(self@)) is None,
    {
        match self {
            Json::Str(s) => Some(s.as_str()),
            _ => None,
        }
    }

    /// A copy of this value.
    pub fn deep_clone(&self) -> (r: Json)
        ensures
            r@ == self@,
    {
        clone_json(self)
    }
}

/// A copy of `j`.
fn clone_json(j: &Json) -> (r: Json)
    ensures
        r@ == j@,
    decreases j,
{
    match j {
        Json::Null => Json::Null,
        Json::Bool(b) => Json::Bool(*b),
        Json::Number(n) => Json::Number(n.clone()),
        Json::Str(s) => Json::Str(s.clone()),
        Json::Array(items) => {
            assert(decreases_to!(*j => *items));
            let out = clone_items(items);
            proof {
                lemma_items_view(out@);
                lemma_items_view(items@);
                assert(items_view(out@) =~= items_view(items@));
            }
            Json::Array(out)
        },
        Json::Object(fields) => {
            assert(decreases_to!(*j => *fields));
            let out = clone_fields(fields);
            proof {
                lemma_fields_view(out@);
                lemma_fields_view(fields@);
                assert(fields_view(out@) =~= fields_view(fields@));
            }
            Json::Object(out)
        },
    }
}

/// A copy of each of `items`.
fn clone_items(items: &Vec<Json>) -> (out: Vec<Json>)
    ensures
        out@.len() == items@.len(),
        forall|k: int| 0 <= k < items@.len() ==> #[trigger] json_view(out@[k]) == json_view(items@[k]),
    decreases items,
{
    let mut out: Vec<Json> = Vec::new();
    let mut i: usize = 0;
    while i < items.len()
        invariant
            i <= items@.len(),
            out@.len() == i,
            forall|k: int| 0 <= k < i ==> #[trigger] json_view(out@[k]) == json_view(items@[k]),
        decreases items@.len() - i,
    {
        assert(decreases_to!(*items => items@[i as int]));
        out.push(clone_json(&items[i]));
        i = i + 1;
    }
    out
}

/// A copy of each of the members `fields`.
fn clone_fields(fields: &Vec<(String, Json)>) -> (out: Vec<(String, Json)>)
    ensures
        out@.len() == fields@.len(),
        forall|k: int|
            0 <= k < fields@.len() ==> #[trigger] out@[k].0@ == fields@[k].0@ && json_view(out@[k].1)
                == json_view(fields@[k].1),
    decreases fields,
{
    let mut out: Vec<(String, Json)> = Vec::new();
    let mut i: usize = 0;
    while i < fields.len()
        invariant
            i <= fields@.len(),
            out@.len() == i,
            forall|k: int|
                0 <= k < i ==> #[trigger] out@[k].0@ == fields@[k].0@ && json_view(out@[k].1)
                    == json_view(fields@[k].1),
        decreases fields@.len() - i,
    {
        assert(decreases_to!(*fields => fields@[i as int]));
        assert(decreases_to!(fields@[i as int] => fields@[i as int].1));
        let v = clone_json(&fields[i].1);
        out.push((fields[i].0.clone(), v));
        i = i + 1;
    }
    out
}

/// Whether no object in `j`, at any depth, has two members of the same name.
pub fn json_well_formed(j: &Json) -> (r: bool)
    ensures
        r == json_wf(j@),
    decreases j,
{
    match j {
        Json::Null | Json::Bool(_) | Json::Number(_) | Json::Str(_) => true,
        Json::Array(items) => {
            assert(decreases_to!(*j => *items));
            items_well_formed(items)
        },
        Json::Object(fields) => {
            assert(decreases_to!(*j => *fields));
            names_well_formed(fields) && fields_well_formed(fields)
        },
    }
}

fn items_well_formed(items: &Vec<Json>) -> (r: bool)
    ensures
        r == items_wf(items_view(items@)),
    decreases items,
{
    let ghost v = items_view(items@);
    proof { lemma_items_view(items@); }
    let mut i: usize = 0;
    assert(v.take(0) =~= Seq::<JsonV>::empty());
    while i < items.len()
        invariant
            i <= items@.len() == v.len(),
            v == items_view(items@),
            forall|k: int| 0 <= k < items@.len() ==> #[trigger] v[k] == json_view(items@[k]),
            items_wf(v.take(i as int)),
        decreases items@.len() - i,
    {
        assert(decreases_to!(*items => items@[i as int]));
        let ok = json_well_formed(&items[i]);
        assert(v.take(i + 1).drop_last() =~= v.take(i as int));
        if !ok {
            proof { lemma_items_wf_prefix(v, i + 1, v.len() as int); }
            return false;
        }
        i = i + 1;
    }
    assert(v.take(i as int) =~= v);
    true
}

fn fields_well_formed(fields: &Vec<(String, Json)>) -> (r: bool)
    ensures
        r == members_wf(fields_view(fields@)),
    decreases fields,
{
    let ghost v = fields_view(fields@);
    proof { lemma_fields_view(fields@); }
    let mut i: usize = 0;
    assert(v.take(0) =~= Seq::<(Seq<char>, JsonV)>::empty());
    while i < fields.len()
        invariant
            i <= fields@.len() == v.len(),
            v == fields_view(fields@),
            forall|k: int| 0 <= k < fields@.len() ==> #[trigger] v[k] == (fields@[k].0@, json_view(fields@[k].1)),
            members_wf(v.take(i as int)),
        decreases fields@.len() - i,
    {
        assert(decreases_to!(*fields => fields@[i as int]));
        assert(decreases_to!(fields@[i as int] => fields@[i as int].1));
        let ok = json_well_formed(&fields[i].1);
        assert(v.take(i + 1).drop_last() =~= v.take(i as int));
        if !ok {
            proof { lemma_members_wf_prefix(v, i + 1, v.len() as int); }
            return false;
        }
        i = i + 1;
    }
    assert(v.take(i as int) =~= v);
    true
}

fn names_well_formed(fields: &Vec<(String, Json)>) -> (r: bool)
    ensures
        r == names_distinct(fields_view(fields@)),
{
    let ghost v = fields_view(fields@);
    proof { lemma_fields_view(fields@); }
    let n = fields.len();
    let mut b: usize = 0;
    while b < n
        invariant
            b <= n == fields@.len() == v.len(),
            v == fields_view(fields@),
            forall|k: int| 0 <= k < fields@.len() ==> #[trigger] v[k] == (fields@[k].0@, json_view(fields@[k].1)),
            forall|x: int, y: int| 0 <= x < y < b ==> #[trigger] v[x].0 != #[trigger] v[y].0,
        decreases n - b,
    {
        let mut a: usize = 0;
        while a < b
            invariant
                a <= b < n == fields@.len() == v.len(),
                v == fields_view(fields@),
                forall|k: int| 0 <= k < fields@.len() ==> #[trigger] v[k] == (fields@[k].0@, json_view(fields@[k].1)),
                forall|x: int, y: int| 0 <= x < y < b ==> #[trigger] v[x].0 != #[trigger] v[y].0,
                forall|x: int| 0 <= x < a ==> #[trigger] v[x].0 != v[b as int].0,
            decreases b - a,
        {
            if fields[a].0 == fields[b].0 {
                assert(v[a as int].0 == v[b as int].0);
                return false;
            }
            a = a + 1;
        }
        b = b + 1;
    }
    true
}

proof fn lemma_items_wf_prefix(v: Seq<JsonV>, i: int, n: int)
    requires
        0 < i <= n == v.len(),
        !items_wf(v.take(i)),
    ensures
        !items_wf(v),
    decreases n - i,
{
    if i < n {
        assert(v.take(i + 1).drop_last() =~= v.take(i));
        lemma_items_wf_prefix(v, i + 1, n);
    } else {
        assert(v.take(i) =~= v);
    }
}

proof fn lemma_members_wf_prefix(v: Seq<(Seq<char>, JsonV)>, i: int, n: int)
    requires
        0 < i <= n == v.len(),
        !members_wf(v.take(i)),
    ensures
        !members_wf(v),
    decreases n - i,
{
    if i < n {
        assert(v.take(i + 1).drop_last() =~= v.take(i));
        lemma_members_wf_prefix(v, i + 1, n);
    } else {
        assert(v.take(i) =~= v);
    }
}

/// What `serde_json::from_str::<serde_json::Value>` makes of `text`: the document
/// read, or the text of the error it reports.
pub uninterp spec fn json_parse(text: Seq<char>) -> Result<JsonV, Seq<char>>;

/// The document `text` holds, where it holds one.
pub open spec fn json_document(text: Seq<char>) -> Option<JsonV> {
    match json_parse(text) {
        Ok(d) => Some(d),
        Err(_) => None,
    }
}

#[verifier::external_type_specification]
#[verifier::external_body]
pub struct ExValue(serde_json::Value);

/// Copies a document parsed by `serde_json` into a `Json`, member by member and
/// element by element; a number keeps the text `serde_json` writes for it.
#[verifier::external_body]
fn json_of_value(v: &serde_json::Value) -> Json {
    match v {
        serde_json::Value::Null => Json::Null,
        serde_json::Value::Bool(b) => Json::Bool(*b),
        serde_json::Value::Number(n) => Json::Number(n.to_string()),
        serde_json::Value::String(s) => Json::Str(s.clone()),
        serde_json::Value::Array(a) => Json::Array(a.iter().map(json_of_value).collect()),
        serde_json::Value::Object(m) => Json::Object(
            m.iter().map(|(k, x)| (k.clone(), json_of_value(x))).collect(),
        ),
    }
}

/// `serde_json::from_str::<serde_json::Value>(text)`, the document copied into a
/// `Json` and the error turned into its text. Trusted to give `json_parse(text)`;
/// and, as a `serde_json` object is a map with one entry per key, a document in
/// which no object repeats a member name.
#[verifier::external_body]
pub(crate) fn parse_json_text(text: &str) -> (r: Result<Json, String>)
    ensures
        match r {
            Ok(j) => json_parse(text@) == Ok::<JsonV, Seq<char>>(j@) && json_wf(j@),
            Err(e) => json_parse(text@) == Err::<JsonV, Seq<char>>(e@),
        },
{
    match serde_json::from_str::<serde_json::Value>(text) {
        Ok(v) => Ok(json_of_value(&v)),
        Err(e) => Err(e.to_string()),
    }
}

/// The document `text` holds, where it holds one; no object in it repeats a member name.
pub fn parse_json(text: &str) -> (r: Option<Json>)
    ensures
        view_opt(r) == json_document(text@),
        r matches Some(j) ==> json_wf(j@),
{
    match parse_json_text(text) {
        Ok(j) => Some(j),
        Err(_) => None,
    }
}

/// A copy of an optional value.
pub fn clone_opt(j: Option<&Json>) -> (r: Option<Json>)
    ensures
        view_opt(r) == view_ref(j),
{
    match j {
        Some(v) => Some(v.deep_clone()),
        None => None,
    }
}

/// The text of an optional string value, as an owned `String`.
pub fn text_opt(j: Option<&Json>) -> (r: Option<String>)
    ensures
        text_view(r) == text_of(view_ref(j)),
{
    match j {
        Some(v) => match v.as_text() {
            Some(s) => Some(s.to_owned()),
            None => None,
        },
        None => None,
    }
}

} // verus!

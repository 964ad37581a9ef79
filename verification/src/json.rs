//! JSON documents as plain values. `serde_json` reads and writes the text.

use crate::text;
use serde_json::Value;
use vstd::prelude::*;
use vstd::string::*;

verus! {

/// A JSON value. The members of an object stand in the order in which
/// `serde_json` keeps them; no key occurs twice in what it reads.
#[derive(Debug)]
pub enum Json {
    Null,
    Bool(bool),
    /// A number: its value if it is a `u64`, and the number as `serde_json` holds
    /// it.
    Number(Option<u64>, serde_json::Number),
    Str(String),
    Array(Vec<Json>),
    Object(Vec<(String, Json)>),
}

pub enum JsonView {
    Null,
    Bool(bool),
    Number(Option<u64>, serde_json::Number),
    Str(Seq<char>),
    Array(Seq<JsonView>),
    Object(Seq<(Seq<char>, JsonView)>),
}

impl Json {
    pub open spec fn view(&self) -> JsonView
        decreases self,
    {
        match *self {
            Json::Null => JsonView::Null,
            Json::Bool(b) => JsonView::Bool(b),
            Json::Number(n, held) => JsonView::Number(n, held),
            Json::Str(s) => JsonView::Str(s@),
            Json::Array(v) => JsonView::Array(
                Seq::new(
                    v@.len(),
                    |i: int|
                        if 0 <= i < v@.len() {
                            v@[i].view()
                        } else {
                            JsonView::Null
                        },
                ),
            ),
            Json::Object(v) => JsonView::Object(
                Seq::new(
                    v@.len(),
                    |i: int|
                        if 0 <= i < v@.len() {
                            (v@[i].0@, v@[i].1.view())
                        } else {
                            (seq![], JsonView::Null)
                        },
                ),
            ),
        }
    }
}

pub open spec fn json_views(v: Seq<Json>) -> Seq<JsonView> {
    v.map_values(|j: Json| j.view())
}

pub open spec fn member_views(v: Seq<(String, Json)>) -> Seq<(Seq<char>, JsonView)> {
    v.map_values(|m: (String, Json)| (m.0@, m.1.view()))
}

pub proof fn array_view(v: Vec<Json>)
    ensures
        Json::Array(v).view() == JsonView::Array(json_views(v@)),
{
    if let JsonView::Array(a) = Json::Array(v).view() {
        assert(a =~= json_views(v@));
    }
}

pub proof fn object_view(v: Vec<(String, Json)>)
    ensures
        Json::Object(v).view() == JsonView::Object(member_views(v@)),
{
    if let JsonView::Object(a) = Json::Object(v).view() {
        assert(a =~= member_views(v@));
    }
}

/// The member of that name.
pub open spec fn member_of(ms: Seq<(Seq<char>, JsonView)>, key: Seq<char>) -> Option<JsonView>
    decreases ms.len(),
{
    if ms.len() == 0 {
        None
    } else if ms[0].0 == key {
        Some(ms[0].1)
    } else {
        member_of(ms.skip(1), key)
    }
}

/// The member of that name, if `v` is an object that has one.
pub open spec fn get_of(v: JsonView, key: Seq<char>) -> Option<JsonView> {
    match v {
        JsonView::Object(ms) => member_of(ms, key),
        _ => None,
    }
}

/// The text that `v` is, if it is one.
pub open spec fn str_of(v: JsonView) -> Option<Seq<char>> {
    match v {
        JsonView::Str(s) => Some(s),
        _ => None,
    }
}

/// The text that the member `key` is, if `v` has one.
pub open spec fn get_str_of(v: JsonView, key: Seq<char>) -> Option<Seq<char>> {
    match get_of(v, key) {
        Some(m) => str_of(m),
        None => None,
    }
}

pub open spec fn u64_of(v: JsonView) -> Option<u64> {
    match v {
        JsonView::Number(n, _) => n,
        _ => None,
    }
}

pub open spec fn get_u64_of(v: JsonView, key: Seq<char>) -> Option<u64> {
    match get_of(v, key) {
        Some(m) => u64_of(m),
        None => None,
    }
}

pub open spec fn bool_of(v: JsonView) -> Option<bool> {
    match v {
        JsonView::Bool(b) => Some(b),
        _ => None,
    }
}

pub open spec fn opt_view(v: Option<&Json>) -> Option<JsonView> {
    match v {
        Some(j) => Some(j.view()),
        None => None,
    }
}

proof fn member_found(ms: Seq<(Seq<char>, JsonView)>, key: Seq<char>, i: int)
    requires
        0 <= i < ms.len(),
        ms[i].0 == key,
        forall|j: int| 0 <= j < i ==> (#[trigger] ms[j]).0 != key,
    ensures
        member_of(ms, key) == Some(ms[i].1),
    decreases i,
{
    if i > 0 {
        assert(ms[0].0 != key);
        assert forall|j: int| 0 <= j < i - 1 implies (#[trigger] ms.skip(1)[j]).0 != key by {
            assert(ms[j + 1].0 != key);
        }
        member_found(ms.skip(1), key, i - 1);
    }
}

proof fn member_absent(ms: Seq<(Seq<char>, JsonView)>, key: Seq<char>)
    requires
        forall|j: int| 0 <= j < ms.len() ==> (#[trigger] ms[j]).0 != key,
    ensures
        member_of(ms, key) is None,
    decreases ms.len(),
{
    if ms.len() > 0 {
        assert(ms[0].0 != key);
        assert forall|j: int| 0 <= j < ms.skip(1).len() implies (#[trigger] ms.skip(1)[j]).0
            != key by {
            assert(ms[j + 1].0 != key);
        }
        member_absent(ms.skip(1), key);
    }
}

/// The member of that name in a list of members.
pub fn find_member<'a>(ms: &'a Vec<(String, Json)>, key: &str) -> (r: Option<&'a Json>)
    ensures
        opt_view(r) == member_of(member_views(ms@), key@),
{
    let ghost views = member_views(ms@);
    let mut i: usize = 0;
    while i < ms.len()
        invariant
            i <= ms@.len(),
            views == member_views(ms@),
            forall|j: int| 0 <= j < i ==> (#[trigger] views[j]).0 != key@,
        decreases ms@.len() - i,
    {
        assert(views[i as int].0 == ms@[i as int].0@);
        if text::same(ms[i].0.as_str(), key) {
            proof {
                member_found(views, key@, i as int);
            }
            return Some(&ms[i].1);
        }
        i = i + 1;
    }
    proof {
        member_absent(views, key@);
    }
    None
}

/// A member is found by its name, the first of that name where there are several; and
/// nothing is found where no member has the name.
pub proof fn members_are_found_by_name(ms: &Vec<(String, Json)>, key: &str, r: Option<&Json>, i: int)
    requires
        call_ensures(find_member, (ms, key), r),
    ensures
        0 <= i < ms@.len() && ms@[i].0@ == key@ && (forall|j: int|
            0 <= j < i ==> (#[trigger] ms@[j]).0@ != key@) ==> r is Some && r->0.view()
            == ms@[i].1.view(),
        (forall|j: int| 0 <= j < ms@.len() ==> (#[trigger] ms@[j]).0@ != key@) ==> r is None,
{
    let views = member_views(ms@);
    if 0 <= i < ms@.len() && ms@[i].0@ == key@ && (forall|j: int|
        0 <= j < i ==> (#[trigger] ms@[j]).0@ != key@) {
        assert forall|j: int| 0 <= j < i implies (#[trigger] views[j]).0 != key@ by {
            assert(ms@[j].0@ != key@);
        }
        member_found(views, key@, i);
    }
    if forall|j: int| 0 <= j < ms@.len() ==> (#[trigger] ms@[j]).0@ != key@ {
        assert forall|j: int| 0 <= j < views.len() implies (#[trigger] views[j]).0 != key@ by {
            assert(ms@[j].0@ != key@);
        }
        member_absent(views, key@);
    }
}

impl Json {
    /// The member of that name, if this is an object that has one.
    pub fn get(&self, key: &str) -> (r: Option<&Json>)
        ensures
            opt_view(r) == get_of(self.view(), key@),
    {
        match self {
            Json::Object(ms) => {
                proof {
                    object_view(*ms);
                }
                find_member(ms, key)
            },
            _ => None,
        }
    }

    pub fn as_str(&self) -> (r: Option<&str>)
        ensures
            (match r {
                Some(s) => str_of(self.view()) == Some(s@),
                None => str_of(self.view()) is None,
            }),
    {
        match self {
            Json::Str(s) => Some(s.as_str()),
            _ => None,
        }
    }

    pub fn as_u64(&self) -> (r: Option<u64>)
        ensures
            r == u64_of(self.view()),
    {
        match self {
            Json::Number(n, _) => *n,
            _ => None,
        }
    }

    pub fn as_bool(&self) -> (r: Option<bool>)
        ensures
            r == bool_of(self.view()),
    {
        match self {
            Json::Bool(b) => Some(*b),
            _ => None,
        }
    }

    /// The text that the member `key` is.
    pub fn get_str(&self, key: &str) -> (r: Option<&str>)
        ensures
            (match r {
                Some(s) => get_str_of(self.view(), key@) == Some(s@),
                None => get_str_of(self.view(), key@) is None,
            }),
    {
        match self.get(key) {
            Some(v) => v.as_str(),
            None => None,
        }
    }

    pub fn get_u64(&self, key: &str) -> (r: Option<u64>)
        ensures
            r == get_u64_of(self.view(), key@),
    {
        match self.get(key) {
            Some(v) => v.as_u64(),
            None => None,
        }
    }
}

/// A copy of a list of values.
fn copy_items(v: &Vec<Json>) -> (r: Vec<Json>)
    ensures
        json_views(r@) == json_views(v@),
    decreases v,
{
    let mut out: Vec<Json> = Vec::new();
    let mut i: usize = 0;
    while i < v.len()
        invariant
            i <= v@.len(),
            json_views(out@) == json_views(v@).take(i as int),
        decreases v@.len() - i,
    {
        assert(decreases_to!(v => v@));
        assert(decreases_to!(v@ => v@[i as int]));
        let ghost before = json_views(out@);
        let item = v[i].copy();
        let ghost view = item.view();
        out.push(item);
        assert(json_views(out@) =~= before.push(view));
        assert(json_views(v@).take(i + 1) =~= json_views(v@).take(i as int).push(view));
        i = i + 1;
    }
    assert(json_views(v@).take(i as int) =~= json_views(v@));
    out
}

/// A copy of a list of members.
fn copy_members(v: &Vec<(String, Json)>) -> (r: Vec<(String, Json)>)
    ensures
        member_views(r@) == member_views(v@),
    decreases v,
{
    let mut out: Vec<(String, Json)> = Vec::new();
    let mut i: usize = 0;
    while i < v.len()
        invariant
            i <= v@.len(),
            member_views(out@) == member_views(v@).take(i as int),
        decreases v@.len() - i,
    {
        assert(decreases_to!(v => v@));
        assert(decreases_to!(v@ => v@[i as int]));
        assert(decreases_to!(v@[i as int] => v@[i as int].1));
        let ghost before = member_views(out@);
        let name = v[i].0.clone();
        let item = v[i].1.copy();
        let ghost view = (name@, item.view());
        out.push((name, item));
        assert(member_views(out@) =~= before.push(view));
        assert(member_views(v@).take(i + 1) =~= member_views(v@).take(i as int).push(view));
        i = i + 1;
    }
    assert(member_views(v@).take(i as int) =~= member_views(v@));
    out
}

impl Json {
    /// A copy of the value.
    pub fn copy(&self) -> (r: Json)
        ensures
            r.view() == self.view(),
        decreases self,
    {
        match self {
            Json::Null => Json::Null,
            Json::Bool(b) => Json::Bool(*b),
            Json::Number(n, held) => Json::Number(*n, held.clone()),
            Json::Str(s) => Json::Str(s.clone()),
            Json::Array(v) => {
                let items = copy_items(v);
                proof {
                    array_view(*v);
                    array_view(items);
                }
                Json::Array(items)
            },
            Json::Object(v) => {
                let members = copy_members(v);
                proof {
                    object_view(*v);
                    object_view(members);
                }
                Json::Object(members)
            },
        }
    }
}

// ── Reading and writing text ─────────────────────────────────────────────

#[verifier::external_type_specification]
#[verifier::external_body]
pub struct ExValue(serde_json::Value);

#[verifier::external_type_specification]
#[verifier::external_body]
pub struct ExNumber(serde_json::Number);

/// `serde_json::Number::clone`. The claim is that the copy is the same number.
pub assume_specification[ <serde_json::Number as Clone>::clone ](
    n: &serde_json::Number,
) -> (r: serde_json::Number)
    ensures
        r == *n,
;

/// Turns a `serde_json::Value` into a [`Json`], variant by variant.
#[verifier::external_body]
fn json_of(v: serde_json::Value) -> Json {
    match v {
        Value::Null => Json::Null,
        Value::Bool(b) => Json::Bool(b),
        Value::Number(n) => Json::Number(n.as_u64(), n),
        Value::String(s) => Json::Str(s),
        Value::Array(a) => Json::Array(a.into_iter().map(json_of).collect()),
        Value::Object(o) => Json::Object(o.into_iter().map(|(k, v)| (k, json_of(v))).collect()),
    }
}

/// Turns a [`Json`] into a `serde_json::Value`, variant by variant.
#[verifier::external_body]
fn value_of(j: &Json) -> serde_json::Value {
    match j {
        Json::Null => Value::Null,
        Json::Bool(b) => Value::Bool(*b),
        Json::Number(_, held) => Value::Number(held.clone()),
        Json::Str(s) => Value::String(s.clone()),
        Json::Array(a) => Value::Array(a.iter().map(value_of).collect()),
        Json::Object(o) => Value::Object(o.iter().map(|(k, v)| (k.clone(), value_of(v))).collect()),
    }
}

/// What a text is as a JSON document, or what is wrong with it.
pub uninterp spec fn parsed_json(text: Seq<char>) -> Result<JsonView, Seq<char>>;

/// `serde_json::from_str` to a `serde_json::Value`, with the error as its text.
/// The claim is that the document, or the error's text, depends on the text
/// alone.
#[verifier::external_body]
pub(crate) fn read_json(s: &str) -> (r: Result<Json, String>)
    ensures
        (match r {
            Ok(v) => parsed_json(s@) == Ok::<JsonView, Seq<char>>(v.view()),
            Err(e) => parsed_json(s@) == Err::<JsonView, Seq<char>>(e@),
        }),
{
    serde_json::from_str::<serde_json::Value>(s).map(json_of).map_err(|e| e.to_string())
}

/// What a text is as a JSON document, if it is one.
pub open spec fn document_in(text: Seq<char>) -> Option<JsonView> {
    match parsed_json(text) {
        Ok(v) => Some(v),
        Err(_) => None,
    }
}

/// The JSON document that a text is, if it is one.
pub fn parse_json(s: &str) -> (r: Option<Json>)
    ensures
        (match r {
            Some(v) => document_in(s@) == Some(v.view()),
            None => document_in(s@) is None,
        }),
{
    match read_json(s) {
        Ok(v) => Some(v),
        Err(_) => None,
    }
}

/// The compact text of a JSON document.
pub uninterp spec fn compact_json(v: JsonView) -> Seq<char>;

/// `serde_json::Value::to_string`. The claim is that the text depends on the
/// document alone.
#[verifier::external_body]
pub(crate) fn render_compact(v: &Json) -> (r: String)
    ensures
        r@ == compact_json(v.view()),
{
    value_of(v).to_string()
}

} // verus!

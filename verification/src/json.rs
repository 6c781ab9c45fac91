//! JSON documents: an owned value type with a mathematical model, and the
//! reading and building helpers the protocol code uses.

use vstd::prelude::*;
use crate::text::{decimal_seq, owned, parse_u64, parse_u64_seq, str_eq, u64_to_decimal};

verus! {

/// A JSON document as the library reads and builds it.
///
/// Numbers keep the text that `serde_json` writes for them; objects keep
/// their members in order.
#[derive(Debug)]
pub enum JsonValue {
    Null,
    Bool(bool),
    Number(String),
    Str(String),
    Array(Vec<JsonValue>),
    Object(Vec<(String, JsonValue)>),
}

/// The mathematical model of a JSON document.
pub enum Json {
    Null,
    Bool(bool),
    Number(Seq<char>),
    Str(Seq<char>),
    Array(Seq<Json>),
    Object(Seq<JsonMember>),
}

/// A member of an object in the model.
pub struct JsonMember {
    pub name: Seq<char>,
    pub value: Json,
}

impl View for JsonValue {
    type V = Json;

    open spec fn view(&self) -> Json
        decreases self,
    {
        match self {
            JsonValue::Null => Json::Null,
            JsonValue::Bool(b) => Json::Bool(*b),
            JsonValue::Number(n) => Json::Number(n@),
            JsonValue::Str(s) => Json::Str(s@),
            JsonValue::Array(v) => Json::Array(
                Seq::new(
                    v@.len(),
                    |i: int|
                        if 0 <= i < v@.len() {
                            v@[i].view()
                        } else {
                            Json::Null
                        },
                ),
            ),
            JsonValue::Object(v) => Json::Object(
                Seq::new(
                    v@.len(),
                    |i: int|
                        if 0 <= i < v@.len() {
                            JsonMember { name: v@[i].0@, value: v@[i].1.view() }
                        } else {
                            JsonMember { name: Seq::empty(), value: Json::Null }
                        },
                ),
            ),
        }
    }
}

/// The models of a sequence of documents.
pub open spec fn json_views(v: Seq<JsonValue>) -> Seq<Json> {
    Seq::new(v.len(), |i: int| v[i]@)
}

/// The models of a sequence of object members.
pub open spec fn member_views(v: Seq<(String, JsonValue)>) -> Seq<JsonMember> {
    Seq::new(v.len(), |i: int| JsonMember { name: v[i].0@, value: v[i].1@ })
}

pub proof fn lemma_array_view(v: Vec<JsonValue>)
    ensures
        JsonValue::Array(v)@ == Json::Array(json_views(v@)),
{
    let w = Seq::new(
        v@.len(),
        |i: int|
            if 0 <= i < v@.len() {
                v@[i].view()
            } else {
                Json::Null
            },
    );
    let a = JsonValue::Array(v)@;
    assert(a->Array_0 =~= json_views(v@));
}

pub proof fn lemma_object_view(v: Vec<(String, JsonValue)>)
    ensures
        JsonValue::Object(v)@ == Json::Object(member_views(v@)),
{
    let w = Seq::new(
        v@.len(),
        |i: int|
            if 0 <= i < v@.len() {
                (v@[i].0@, v@[i].1.view())
            } else {
                (Seq::empty(), Json::Null)
            },
    );
    let a = JsonValue::Object(v)@;
    assert(a->Object_0.len() == v@.len());
    assert(a->Object_0 =~= member_views(v@));
}

/// The first member of `members` whose name is `key`.
pub open spec fn members_lookup(members: Seq<JsonMember>, key: Seq<char>) -> Option<Json>
    decreases members.len(),
{
    if members.len() == 0 {
        None
    } else if members[0].name == key {
        Some(members[0].value)
    } else {
        members_lookup(members.drop_first(), key)
    }
}

/// `members` with the member `key` set to `value`: replaced in place where
/// it is present, appended otherwise.
pub open spec fn members_set(members: Seq<JsonMember>, key: Seq<char>, value: Json) -> Seq<JsonMember>
    decreases members.len(),
{
    if members.len() == 0 {
        seq![JsonMember { name: key, value }]
    } else if members[0].name == key {
        members.update(0, JsonMember { name: key, value })
    } else {
        seq![members[0]] + members_set(members.drop_first(), key, value)
    }
}

impl Json {
    /// `value.get(key)`: the member `key` of an object.
    pub open spec fn get(self, key: Seq<char>) -> Option<Json> {
        match self {
            Json::Object(m) => members_lookup(m, key),
            _ => None,
        }
    }

    /// `value.get(i)`: the element `i` of an array.
    pub open spec fn at(self, i: int) -> Option<Json> {
        match self {
            Json::Array(a) => if 0 <= i < a.len() {
                Some(a[i])
            } else {
                None
            },
            _ => None,
        }
    }

    pub open spec fn as_str(self) -> Option<Seq<char>> {
        match self {
            Json::Str(s) => Some(s),
            _ => None,
        }
    }

    pub open spec fn as_bool(self) -> Option<bool> {
        match self {
            Json::Bool(b) => Some(b),
            _ => None,
        }
    }

    pub open spec fn as_array(self) -> Option<Seq<Json>> {
        match self {
            Json::Array(a) => Some(a),
            _ => None,
        }
    }

    /// `Value::as_u64`: a number written as plain decimal digits that fits.
    pub open spec fn as_u64(self) -> Option<u64> {
        match self {
            Json::Number(t) => parse_u64_seq(t),
            _ => None,
        }
    }

    /// An object with no members.
    pub open spec fn is_empty_object(self) -> bool {
        match self {
            Json::Object(m) => m.len() == 0,
            _ => false,
        }
    }

    pub open spec fn is_object(self) -> bool {
        self is Object
    }

    /// The string member `key` of an object (`v[key].as_str()`).
    pub open spec fn str_at(self, key: Seq<char>) -> Option<Seq<char>> {
        match self.get(key) {
            Some(v) => v.as_str(),
            None => None,
        }
    }
}

pub open spec fn opt_json(o: Option<JsonValue>) -> Option<Json> {
    match o {
        Some(v) => Some(v@),
        None => None,
    }
}

pub open spec fn opt_json_ref(o: Option<&JsonValue>) -> Option<Json> {
    match o {
        Some(v) => Some(v@),
        None => None,
    }
}

// ── serde_json ───────────────────────────────────────────────────────────

#[verifier::external_type_specification]
#[verifier::external_body]
pub struct ExSerdeValue(serde_json::Value);

/// What `serde_json::from_str::<serde_json::Value>` gives back for a text:
/// `None` where it reports an error.
pub uninterp spec fn spec_parse_json(text: Seq<char>) -> Option<Json>;

/// What `serde_json::to_string` writes for a document (compact form).
pub uninterp spec fn spec_json_text(v: Json) -> Seq<char>;

/// `serde_json::from_str::<serde_json::Value>`. Claimed: the result, taken
/// as a model, depends on the text alone; nothing is said of which texts
/// parse.
#[verifier::external_body]
pub(crate) fn parse_json(text: &str) -> (r: Option<JsonValue>)
    ensures
        opt_json(r) == spec_parse_json(text@),
{
    serde_json::from_str::<serde_json::Value>(text).ok().map(from_serde)
}

/// One-for-one conversion of a parsed `serde_json::Value` (used only
/// inside `parse_json`).
#[verifier::external_body]
fn from_serde(v: serde_json::Value) -> JsonValue {
    match v {
        serde_json::Value::Null => JsonValue::Null,
        serde_json::Value::Bool(b) => JsonValue::Bool(b),
        serde_json::Value::Number(n) => JsonValue::Number(n.to_string()),
        serde_json::Value::String(s) => JsonValue::Str(s),
        serde_json::Value::Array(a) => JsonValue::Array(a.into_iter().map(from_serde).collect()),
        serde_json::Value::Object(o) => JsonValue::Object(
            o.into_iter().map(|(k, x)| (k, from_serde(x))).collect(),
        ),
    }
}

/// One-for-one conversion into a `serde_json::Value` (used only inside
/// `render_json`).
#[verifier::external_body]
fn to_serde(v: &JsonValue) -> serde_json::Value {
    match v {
        JsonValue::Null => serde_json::Value::Null,
        JsonValue::Bool(b) => serde_json::Value::Bool(*b),
        JsonValue::Number(t) => serde_json::from_str::<serde_json::Number>(t).map(
            serde_json::Value::Number,
        ).unwrap_or(serde_json::Value::Null),
        JsonValue::Str(s) => serde_json::Value::String(s.clone()),
        JsonValue::Array(a) => serde_json::Value::Array(a.iter().map(to_serde).collect()),
        JsonValue::Object(o) => serde_json::Value::Object(
            o.iter().map(|(k, x)| (k.clone(), to_serde(x))).collect(),
        ),
    }
}

/// `serde_json::to_string` of a document. Claimed: the text depends on the
/// document's model alone.
#[verifier::external_body]
pub(crate) fn render_json(v: &JsonValue) -> (r: String)
    ensures
        r@ == spec_json_text(v@),
{
    to_serde(v).to_string()
}

/// Whether `text` parses as JSON (`serde_json::from_str::<Value>(..).is_ok()`).
pub fn is_valid_json(text: &str) -> (r: bool)
    ensures
        r == (spec_parse_json(text@) is Some),
{
    parse_json(text).is_some()
}

// ── Reading ──────────────────────────────────────────────────────────────

impl JsonValue {
    /// A copy with the same model.
    pub fn deep_clone(&self) -> (r: JsonValue)
        ensures
            r@ == self@,
        decreases self,
    {
        match self {
            JsonValue::Null => JsonValue::Null,
            JsonValue::Bool(b) => JsonValue::Bool(*b),
            JsonValue::Number(n) => JsonValue::Number(n.clone()),
            JsonValue::Str(s) => JsonValue::Str(s.clone()),
            JsonValue::Array(v) => {
                let mut out: Vec<JsonValue> = Vec::new();
                let mut i: usize = 0;
                #[verifier::loop_isolation(false)]
                while i < v.len()
                    invariant
                        i <= v@.len(),
                        json_views(out@) == json_views(v@).take(i as int),
                    decreases v@.len() - i,
                {
                    let x = v[i].deep_clone();
                    let ghost old_out = out@;
                    out.push(x);
                    assert(out@ == old_out.push(x));
                    assert(json_views(out@)[i as int] == x@);
                    assert(json_views(out@) =~= json_views(v@).take(i + 1));
                    i += 1;
                }
                proof {
                    lemma_array_view(*v);
                    lemma_array_view(out);
                    assert(json_views(v@).take(v@.len() as int) =~= json_views(v@));
                }
                JsonValue::Array(out)
            },
            JsonValue::Object(v) => {
                let mut out: Vec<(String, JsonValue)> = Vec::new();
                let mut i: usize = 0;
                #[verifier::loop_isolation(false)]
                while i < v.len()
                    invariant
                        i <= v@.len(),
                        member_views(out@) == member_views(v@).take(i as int),
                    decreases v@.len() - i,
                {
                    let x = v[i].1.deep_clone();
                    let k = v[i].0.clone();
                    let ghost old_out = out@;
                    out.push((k, x));
                    assert(out@ == old_out.push((k, x)));
                    assert(member_views(out@)[i as int] == JsonMember { name: k@, value: x@ });
                    assert(member_views(out@) =~= member_views(v@).take(i + 1));
                    i += 1;
                }
                proof {
                    lemma_object_view(*v);
                    lemma_object_view(out);
                    assert(member_views(v@).take(v@.len() as int) =~= member_views(v@));
                }
                JsonValue::Object(out)
            },
        }
    }

    /// `Value::get(key)`.
    pub fn get(&self, key: &str) -> (r: Option<&JsonValue>)
        ensures
            opt_json_ref(r) == self@.get(key@),
    {
        match self {
            JsonValue::Object(m) => {
                proof {
                    lemma_object_view(*m);
                }
                match find_member(m, key) {
                    Some(i) => {
                        proof {
                            lemma_members_first(member_views(m@), key@, i as int);
                        }
                        Some(&m[i].1)
                    },
                    None => {
                        proof {
                            lemma_members_absent(member_views(m@), key@);
                        }
                        None
                    },
                }
            },
            _ => None,
        }
    }

    /// `Value::get(i)` on an array.
    pub fn at(&self, i: usize) -> (r: Option<&JsonValue>)
        ensures
            opt_json_ref(r) == self@.at(i as int),
    {
        match self {
            JsonValue::Array(a) => {
                proof {
                    lemma_array_view(*a);
                }
                if i < a.len() {
                    Some(&a[i])
                } else {
                    None
                }
            },
            _ => None,
        }
    }

    /// `Value::as_str`.
    pub fn as_str(&self) -> (r: Option<&String>)
        ensures
            match r {
                Some(s) => self@.as_str() == Some(s@),
                None => self@.as_str() is None,
            },
    {
        match self {
            JsonValue::Str(s) => Some(s),
            _ => None,
        }
    }

    /// `Value::as_bool`.
    pub fn as_bool(&self) -> (r: Option<bool>)
        ensures
            r == self@.as_bool(),
    {
        match self {
            JsonValue::Bool(b) => Some(*b),
            _ => None,
        }
    }

    /// `Value::as_array`.
    pub fn as_array(&self) -> (r: Option<&Vec<JsonValue>>)
        ensures
            match r {
                Some(a) => self@.as_array() == Some(json_views(a@)),
                None => self@.as_array() is None,
            },
    {
        match self {
            JsonValue::Array(a) => {
                proof {
                    lemma_array_view(*a);
                }
                Some(a)
            },
            _ => None,
        }
    }

    /// `Value::as_u64`.
    pub fn as_u64(&self) -> (r: Option<u64>)
        ensures
            r == self@.as_u64(),
    {
        match self {
            JsonValue::Number(t) => parse_u64(t.as_str()),
            _ => None,
        }
    }

    /// `value == "s"`: a string equal to `s`.
    pub fn is_str(&self, s: &str) -> (r: bool)
        ensures
            r == (self@ == Json::Str(s@)),
    {
        match self {
            JsonValue::Str(t) => str_eq(t.as_str(), s),
            _ => false,
        }
    }

    /// `value.as_object().is_some_and(|o| !o.is_empty())`.
    pub fn is_nonempty_object(&self) -> (r: bool)
        ensures
            r == (self@.is_object() && !self@.is_empty_object()),
    {
        match self {
            JsonValue::Object(m) => {
                proof {
                    lemma_object_view(*m);
                }
                m.len() > 0
            },
            _ => false,
        }
    }

    /// The string member `key` (`v[key].as_str()`), copied.
    pub fn str_member(&self, key: &str) -> (r: Option<String>)
        ensures
            match r {
                Some(s) => self@.str_at(key@) == Some(s@),
                None => self@.str_at(key@) is None,
            },
    {
        match self.get(key) {
            Some(v) => match v.as_str() {
                Some(s) => Some(s.clone()),
                None => None,
            },
            None => None,
        }
    }
}

// ── Building ─────────────────────────────────────────────────────────────

/// A JSON string holding a copy of `s`.
pub fn json_str(s: &str) -> (r: JsonValue)
    ensures
        r@ == Json::Str(s@),
{
    JsonValue::Str(owned(s))
}

/// A JSON number holding `n`.
pub fn json_u64(n: u64) -> (r: JsonValue)
    ensures
        r@ == Json::Number(decimal_seq(n as nat)),
{
    JsonValue::Number(u64_to_decimal(n))
}

/// `Option<&str>` as JSON: the string, or `null`.
pub fn json_opt_str(s: Option<&str>) -> (r: JsonValue)
    ensures
        r@ == match s {
            Some(t) => Json::Str(t@),
            None => Json::Null,
        },
{
    match s {
        Some(t) => json_str(t),
        None => JsonValue::Null,
    }
}

/// The position of the first member named `key`.
pub fn find_member(m: &Vec<(String, JsonValue)>, key: &str) -> (r: Option<usize>)
    ensures
        match r {
            Some(i) => i < m@.len() && m@[i as int].0@ == key@ && forall|j: int|
                0 <= j < i ==> (#[trigger] m@[j]).0@ != key@,
            None => forall|j: int| 0 <= j < m@.len() ==> (#[trigger] m@[j]).0@ != key@,
        },
{
    let mut i: usize = 0;
    while i < m.len()
        invariant
            i <= m@.len(),
            forall|j: int| 0 <= j < i ==> (#[trigger] m@[j]).0@ != key@,
        decreases m@.len() - i,
    {
        if str_eq(m[i].0.as_str(), key) {
            return Some(i);
        }
        i += 1;
    }
    None
}

proof fn lemma_members_first(ms: Seq<JsonMember>, key: Seq<char>, i: int)
    requires
        0 <= i < ms.len(),
        ms[i].name == key,
        forall|j: int| 0 <= j < i ==> (#[trigger] ms[j]).name != key,
    ensures
        members_lookup(ms, key) == Some(ms[i].value),
        forall|v: Json|
            #[trigger] members_set(ms, key, v) == ms.update(i, JsonMember { name: key, value: v }),
    decreases i,
{
    if i > 0 {
        lemma_members_first(ms.drop_first(), key, i - 1);
        assert forall|v: Json| #[trigger]
            members_set(ms, key, v) == ms.update(i, JsonMember { name: key, value: v }) by {
            assert(members_set(ms, key, v) == seq![ms[0]] + members_set(ms.drop_first(), key, v));
            assert(seq![ms[0]] + ms.drop_first().update(i - 1, JsonMember { name: key, value: v })
                =~= ms.update(i, JsonMember { name: key, value: v }));
        }
    }
}

proof fn lemma_members_absent(ms: Seq<JsonMember>, key: Seq<char>)
    requires
        forall|j: int| 0 <= j < ms.len() ==> (#[trigger] ms[j]).name != key,
    ensures
        members_lookup(ms, key) is None,
        forall|v: Json|
            #[trigger] members_set(ms, key, v) == ms.push(JsonMember { name: key, value: v }),
    decreases ms.len(),
{
    if ms.len() > 0 {
        assert(ms[0].name != key);
        assert forall|j: int| 0 <= j < ms.drop_first().len() implies (#[trigger] ms.drop_first()[j]).name != key by {
            assert(ms.drop_first()[j] == ms[j + 1]);
        }
        lemma_members_absent(ms.drop_first(), key);
        assert forall|v: Json| #[trigger]
            members_set(ms, key, v) == ms.push(JsonMember { name: key, value: v }) by {
            assert(members_set(ms, key, v) == seq![ms[0]] + members_set(ms.drop_first(), key, v));
            assert(members_set(ms.drop_first(), key, v) == ms.drop_first().push(
                JsonMember { name: key, value: v },
            ));
            assert(seq![ms[0]] + ms.drop_first().push(JsonMember { name: key, value: v })
                =~= ms.push(JsonMember { name: key, value: v }));
        }
    } else {
        assert forall|v: Json| #[trigger]
            members_set(ms, key, v) == ms.push(JsonMember { name: key, value: v }) by {
            assert(seq![JsonMember { name: key, value: v }] =~= ms.push(JsonMember { name: key, value: v }));
        }
    }
}

/// Reading a member back after setting it gives the value set.
pub proof fn lemma_set_then_get(ms: Seq<JsonMember>, key: Seq<char>, v: Json)
    ensures
        members_lookup(members_set(ms, key, v), key) == Some(v),
    decreases ms.len(),
{
    if ms.len() > 0 && ms[0].name != key {
        lemma_set_then_get(ms.drop_first(), key, v);
        let rest = members_set(ms.drop_first(), key, v);
        assert((seq![ms[0]] + rest).drop_first() =~= rest);
    }
}

impl JsonValue {
    /// `self[key] = value` on an object; other values are left alone.
    pub fn set(&mut self, key: &str, value: JsonValue)
        ensures
            match old(self)@ {
                Json::Object(m) => final(self)@ == Json::Object(members_set(m, key@, value@)),
                _ => final(self)@ == old(self)@,
            },
    {
        if let JsonValue::Object(m) = self {
            proof {
                lemma_object_view(*m);
            }
            let ghost old_m = member_views(m@);
            let ghost vv = value@;
            match find_member(m, key) {
                Some(i) => {
                    proof {
                        lemma_members_first(old_m, key@, i as int);
                    }
                    let k = owned(key);
                    m.set(i, (k, value));
                    proof {
                        assert(member_views(m@) =~= old_m.update(
                            i as int,
                            JsonMember { name: key@, value: vv },
                        ));
                        lemma_object_view(*m);
                    }
                },
                None => {
                    proof {
                        lemma_members_absent(old_m, key@);
                    }
                    let k = owned(key);
                    m.push((k, value));
                    proof {
                        assert(member_views(m@) =~= old_m.push(JsonMember { name: key@, value: vv }));
                        lemma_object_view(*m);
                    }
                },
            }
        }
    }
}

} // verus!

verus! {

// ── Optional lookups ─────────────────────────────────────────────────────

/// `o.and_then(|v| v.get(key))`.
pub open spec fn opt_get(o: Option<Json>, key: Seq<char>) -> Option<Json> {
    match o {
        Some(v) => v.get(key),
        None => None,
    }
}

/// `o.and_then(|v| v.as_str())`.
pub open spec fn opt_as_str(o: Option<Json>) -> Option<Seq<char>> {
    match o {
        Some(v) => v.as_str(),
        None => None,
    }
}

/// `o.unwrap_or(d)` for text.
pub open spec fn str_or(o: Option<Seq<char>>, d: Seq<char>) -> Seq<char> {
    match o {
        Some(s) => s,
        None => d,
    }
}

/// The member `key` of `o` is the string `s` (`v[key] == "s"`).
pub open spec fn opt_member_is(o: Option<Json>, key: Seq<char>, s: Seq<char>) -> bool {
    opt_get(o, key) == Some(Json::Str(s))
}

pub fn opt_get_exec<'a>(o: Option<&'a JsonValue>, key: &str) -> (r: Option<&'a JsonValue>)
    ensures
        opt_json_ref(r) == opt_get(opt_json_ref(o), key@),
{
    match o {
        Some(v) => v.get(key),
        None => None,
    }
}

/// The string member `key` of `o`, copied (`o[key].as_str()`).
pub fn opt_str_member(o: Option<&JsonValue>, key: &str) -> (r: Option<String>)
    ensures
        match r {
            Some(s) => opt_as_str(opt_get(opt_json_ref(o), key@)) == Some(s@),
            None => opt_as_str(opt_get(opt_json_ref(o), key@)) is None,
        },
{
    match opt_get_exec(o, key) {
        Some(v) => match v.as_str() {
            Some(s) => Some(s.clone()),
            None => None,
        },
        None => None,
    }
}

/// `o[key].as_str().unwrap_or(d)`, copied.
pub fn opt_str_member_or(o: Option<&JsonValue>, key: &str, d: &str) -> (r: String)
    ensures
        r@ == str_or(opt_as_str(opt_get(opt_json_ref(o), key@)), d@),
{
    match opt_str_member(o, key) {
        Some(s) => s,
        None => crate::text::owned(d),
    }
}

/// `o[key] == "s"`.
pub fn opt_member_is_exec(o: Option<&JsonValue>, key: &str, s: &str) -> (r: bool)
    ensures
        r == opt_member_is(opt_json_ref(o), key@, s@),
{
    match opt_get_exec(o, key) {
        Some(v) => v.is_str(s),
        None => false,
    }
}

} // verus!

verus! {

// ── Object and array literals ────────────────────────────────────────────

pub open spec fn member(name: Seq<char>, value: Json) -> JsonMember {
    JsonMember { name, value }
}

pub open spec fn jobj1(k1: Seq<char>, v1: Json) -> Json {
    Json::Object(seq![member(k1, v1)])
}

pub open spec fn jobj2(k1: Seq<char>, v1: Json, k2: Seq<char>, v2: Json) -> Json {
    Json::Object(seq![member(k1, v1), member(k2, v2)])
}

pub open spec fn jobj3(k1: Seq<char>, v1: Json, k2: Seq<char>, v2: Json, k3: Seq<char>, v3: Json) -> Json {
    Json::Object(seq![member(k1, v1), member(k2, v2), member(k3, v3)])
}

pub open spec fn jobj4(
    k1: Seq<char>,
    v1: Json,
    k2: Seq<char>,
    v2: Json,
    k3: Seq<char>,
    v3: Json,
    k4: Seq<char>,
    v4: Json,
) -> Json {
    Json::Object(seq![member(k1, v1), member(k2, v2), member(k3, v3), member(k4, v4)])
}

pub fn obj1(k1: &str, v1: JsonValue) -> (r: JsonValue)
    ensures
        r@ == jobj1(k1@, v1@),
{
    let ghost g1 = v1@;
    let v = vec![(owned(k1), v1)];
    proof {
        lemma_object_view(v);
        assert(member_views(v@) =~= seq![member(k1@, g1)]);
    }
    JsonValue::Object(v)
}

pub fn obj2(k1: &str, v1: JsonValue, k2: &str, v2: JsonValue) -> (r: JsonValue)
    ensures
        r@ == jobj2(k1@, v1@, k2@, v2@),
{
    let ghost g1 = v1@;
    let ghost g2 = v2@;
    let v = vec![(owned(k1), v1), (owned(k2), v2)];
    proof {
        lemma_object_view(v);
        assert(member_views(v@) =~= seq![member(k1@, g1), member(k2@, g2)]);
    }
    JsonValue::Object(v)
}

pub fn obj3(k1: &str, v1: JsonValue, k2: &str, v2: JsonValue, k3: &str, v3: JsonValue) -> (r: JsonValue)
    ensures
        r@ == jobj3(k1@, v1@, k2@, v2@, k3@, v3@),
{
    let ghost g1 = v1@;
    let ghost g2 = v2@;
    let ghost g3 = v3@;
    let v = vec![(owned(k1), v1), (owned(k2), v2), (owned(k3), v3)];
    proof {
        lemma_object_view(v);
        assert(member_views(v@) =~= seq![member(k1@, g1), member(k2@, g2), member(k3@, g3)]);
    }
    JsonValue::Object(v)
}

pub fn obj4(
    k1: &str,
    v1: JsonValue,
    k2: &str,
    v2: JsonValue,
    k3: &str,
    v3: JsonValue,
    k4: &str,
    v4: JsonValue,
) -> (r: JsonValue)
    ensures
        r@ == jobj4(k1@, v1@, k2@, v2@, k3@, v3@, k4@, v4@),
{
    let ghost g1 = v1@;
    let ghost g2 = v2@;
    let ghost g3 = v3@;
    let ghost g4 = v4@;
    let v = vec![(owned(k1), v1), (owned(k2), v2), (owned(k3), v3), (owned(k4), v4)];
    proof {
        lemma_object_view(v);
        assert(member_views(v@) =~= seq![
            member(k1@, g1),
            member(k2@, g2),
            member(k3@, g3),
            member(k4@, g4),
        ]);
    }
    JsonValue::Object(v)
}

/// An array of the given documents.
pub fn json_array(v: Vec<JsonValue>) -> (r: JsonValue)
    ensures
        r@ == Json::Array(json_views(v@)),
{
    proof {
        lemma_array_view(v);
    }
    JsonValue::Array(v)
}

/// Appends a document to a list being built.
pub fn push_json(v: &mut Vec<JsonValue>, x: JsonValue)
    ensures
        json_views(final(v)@) == json_views(old(v)@).push(x@),
{
    let ghost before = v@;
    let ghost gx = x@;
    v.push(x);
    assert(json_views(v@) =~= json_views(before).push(gx));
}

} // verus!

verus! {

// ── Objects of any size ──────────────────────────────────────────────────

/// One member of an object being built.
pub fn field(name: &str, value: JsonValue) -> (r: (String, JsonValue))
    ensures
        r.0@ == name@,
        r.1@ == value@,
{
    (owned(name), value)
}

/// An object with the given members, in order.
pub fn object(members: Vec<(String, JsonValue)>) -> (r: JsonValue)
    ensures
        r@ == Json::Object(member_views(members@)),
{
    proof {
        lemma_object_view(members);
    }
    JsonValue::Object(members)
}

/// The decimal text of a signed integer.
pub open spec fn signed_decimal(n: int) -> Seq<char> {
    if n < 0 {
        "-"@ + decimal_seq((-n) as nat)
    } else {
        decimal_seq(n as nat)
    }
}

/// A JSON number holding `n`.
pub fn json_i64(n: i64) -> (r: JsonValue)
    ensures
        r@ == Json::Number(signed_decimal(n as int)),
{
    if n < 0 {
        let m: u64 = (0i128 - (n as i128)) as u64;
        let mut s = owned("-");
        let d = u64_to_decimal(m);
        crate::text::push_str(&mut s, d.as_str());
        proof {
            reveal_strlit("-");
        }
        JsonValue::Number(s)
    } else {
        JsonValue::Number(u64_to_decimal(n as u64))
    }
}

} // verus!

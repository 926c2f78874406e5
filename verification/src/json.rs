//! A JSON document model: the executable value `JsonValue` and its mathematical view `Json`.
//!
//! Objects keep their members in the order in which they were read; lookups take the first
//! member with the key, as a map with unique keys would.
use vstd::prelude::*;
use crate::text::str_eq;

verus! {

/// A JSON number, kept as the integer readings the logic asks for and its source text.
pub struct JsonNumber {
    /// The number as an `i64`, when it is an integer in that range.
    pub as_i64: Option<i64>,
    /// The number as a `u64`, when it is a non-negative integer in that range.
    pub as_u64: Option<u64>,
    /// The number as written in JSON.
    pub text: String,
}

/// One member of a JSON object.
pub struct JsonMember {
    pub key: String,
    pub value: JsonValue,
}

/// A JSON value.
pub enum JsonValue {
    Null,
    Bool(bool),
    Number(JsonNumber),
    Str(String),
    Array(Vec<JsonValue>),
    Object(Vec<JsonMember>),
}

/// The mathematical view of a JSON value.
pub enum Json {
    Null,
    Bool(bool),
    Number(Option<i64>, Option<u64>, Seq<char>),
    Str(Seq<char>),
    Array(Seq<Json>),
    Object(Seq<(Seq<char>, Json)>),
}

impl JsonValue {
    pub open spec fn model(self) -> Json
        decreases self, 0int,
    {
        match self {
            JsonValue::Null => Json::Null,
            JsonValue::Bool(b) => Json::Bool(b),
            JsonValue::Number(n) => Json::Number(n.as_i64, n.as_u64, n.text@),
            JsonValue::Str(s) => Json::Str(s@),
            JsonValue::Array(v) => Json::Array(models(v@)),
            JsonValue::Object(m) => Json::Object(member_models(m@)),
        }
    }
}

/// The views of a sequence of values.
pub open spec fn models(s: Seq<JsonValue>) -> Seq<Json>
    decreases s, s.len(),
{
    if s.len() == 0 {
        seq![]
    } else {
        models(s.drop_last()).push(s.last().model())
    }
}

/// The views of a sequence of object members.
pub open spec fn member_models(s: Seq<JsonMember>) -> Seq<(Seq<char>, Json)>
    decreases s, s.len(),
{
    if s.len() == 0 {
        seq![]
    } else {
        member_models(s.drop_last()).push((s.last().key@, s.last().value.model()))
    }
}

pub open spec fn opt_model(r: Option<&JsonValue>) -> Option<Json> {
    match r {
        Some(v) => Some(v.model()),
        None => None,
    }
}

pub open spec fn opt_str_view(r: Option<String>) -> Option<Seq<char>> {
    match r {
        Some(s) => Some(s@),
        None => None,
    }
}

/// The first position in `m` whose key is `key`.
pub open spec fn member_index_from(m: Seq<(Seq<char>, Json)>, key: Seq<char>, k: int) -> Option<int>
    decreases m.len() - k,
{
    if k < 0 || k >= m.len() {
        None
    } else if m[k].0 == key {
        Some(k)
    } else {
        member_index_from(m, key, k + 1)
    }
}

pub open spec fn member_index(m: Seq<(Seq<char>, Json)>, key: Seq<char>) -> Option<int> {
    member_index_from(m, key, 0)
}

/// No key occurs twice among the members.
pub open spec fn keys_unique(m: Seq<(Seq<char>, Json)>) -> bool {
    forall|i: int, j: int| 0 <= i < j < m.len() ==> m[i].0 != m[j].0
}

/// The members with `key` set to `v`: the first member with that key gets the value, or a
/// member is added at the end.
pub open spec fn members_insert(m: Seq<(Seq<char>, Json)>, key: Seq<char>, v: Json) -> Seq<
    (Seq<char>, Json),
> {
    match member_index(m, key) {
        Some(i) => m.update(i, (key, v)),
        None => m.push((key, v)),
    }
}

/// The members without the first member that has `key`.
pub open spec fn members_remove(m: Seq<(Seq<char>, Json)>, key: Seq<char>) -> Seq<
    (Seq<char>, Json),
> {
    match member_index(m, key) {
        Some(i) => m.remove(i),
        None => m,
    }
}

impl Json {
    /// The value of `key` in an object (what `Value::get` with a string key finds).
    pub open spec fn get(self, key: Seq<char>) -> Option<Json> {
        match self {
            Json::Object(m) => match member_index(m, key) {
                Some(i) => Some(m[i].1),
                None => None,
            },
            _ => None,
        }
    }

    pub open spec fn as_str(self) -> Option<Seq<char>> {
        match self {
            Json::Str(s) => Some(s),
            _ => None,
        }
    }

    pub open spec fn as_i64(self) -> Option<i64> {
        match self {
            Json::Number(i, _, _) => i,
            _ => None,
        }
    }

    pub open spec fn as_u64(self) -> Option<u64> {
        match self {
            Json::Number(_, u, _) => u,
            _ => None,
        }
    }

    pub open spec fn as_bool(self) -> Option<bool> {
        match self {
            Json::Bool(b) => Some(b),
            _ => None,
        }
    }

    pub open spec fn as_array(self) -> Option<Seq<Json>> {
        match self {
            Json::Array(a) => Some(a),
            _ => None,
        }
    }

    pub open spec fn as_object(self) -> Option<Seq<(Seq<char>, Json)>> {
        match self {
            Json::Object(m) => Some(m),
            _ => None,
        }
    }

    /// The string stored under `key`, if any.
    pub open spec fn get_str(self, key: Seq<char>) -> Option<Seq<char>> {
        match self.get(key) {
            Some(v) => v.as_str(),
            None => None,
        }
    }

    /// The integer stored under `key`, if any.
    pub open spec fn get_i64(self, key: Seq<char>) -> Option<i64> {
        match self.get(key) {
            Some(v) => v.as_i64(),
            None => None,
        }
    }

    /// The array stored under `key`, if any.
    pub open spec fn get_array(self, key: Seq<char>) -> Option<Seq<Json>> {
        match self.get(key) {
            Some(v) => v.as_array(),
            None => None,
        }
    }

    /// The boolean stored under `key`, if any.
    pub open spec fn get_bool(self, key: Seq<char>) -> Option<bool> {
        match self.get(key) {
            Some(v) => v.as_bool(),
            None => None,
        }
    }

    /// The unsigned integer stored under `key`, if any.
    pub open spec fn get_u64(self, key: Seq<char>) -> Option<u64> {
        match self.get(key) {
            Some(v) => v.as_u64(),
            None => None,
        }
    }

    /// The value with `key` set to `v` when it is an object; other values stay as they are.
    pub open spec fn insert(self, key: Seq<char>, v: Json) -> Json {
        match self {
            Json::Object(m) => Json::Object(members_insert(m, key, v)),
            other => other,
        }
    }

    /// The value without `key` when it is an object; other values stay as they are.
    pub open spec fn remove(self, key: Seq<char>) -> Json {
        match self {
            Json::Object(m) => Json::Object(members_remove(m, key)),
            other => other,
        }
    }
}

/// What merging the JSON `patch` into `target` gives: objects merge member by member (a member
/// of the patch that the target lacks is added), anything else is replaced by the patch.
pub open spec fn spec_merge(target: Json, patch: Json) -> Json
    decreases patch, 0int,
{
    match patch {
        Json::Object(pm) => match target {
            Json::Object(tm) => Json::Object(merge_members(tm, pm)),
            _ => patch,
        },
        _ => patch,
    }
}

/// The members `tm` after merging in the members `pm` one after another.
pub open spec fn merge_members(tm: Seq<(Seq<char>, Json)>, pm: Seq<(Seq<char>, Json)>) -> Seq<
    (Seq<char>, Json),
>
    decreases pm, pm.len(),
{
    if pm.len() == 0 {
        tm
    } else {
        let acc = merge_members(tm, pm.drop_last());
        let k = pm.last().0;
        let v = pm.last().1;
        match member_index(acc, k) {
            Some(i) => acc.update(i, (k, spec_merge(acc[i].1, v))),
            None => acc.push((k, v)),
        }
    }
}

// ---------------------------------------------------------------------------
// Lemmas
// ---------------------------------------------------------------------------

pub proof fn lemma_models(s: Seq<JsonValue>)
    ensures
        models(s).len() == s.len(),
        forall|i: int| 0 <= i < s.len() ==> #[trigger] models(s)[i] == s[i].model(),
    decreases s.len(),
{
    if s.len() > 0 {
        lemma_models(s.drop_last());
        assert forall|i: int| 0 <= i < s.len() implies #[trigger] models(s)[i] == s[i].model() by {
            if i < s.len() - 1 {
                assert(models(s.drop_last())[i] == s.drop_last()[i].model());
            }
        }
    }
}

pub proof fn lemma_member_models(s: Seq<JsonMember>)
    ensures
        member_models(s).len() == s.len(),
        forall|i: int|
            0 <= i < s.len() ==> #[trigger] member_models(s)[i] == (s[i].key@, s[i].value.model()),
    decreases s.len(),
{
    if s.len() > 0 {
        lemma_member_models(s.drop_last());
        assert forall|i: int| 0 <= i < s.len() implies #[trigger] member_models(s)[i] == (
            s[i].key@,
            s[i].value.model(),
        ) by {
            if i < s.len() - 1 {
                assert(member_models(s.drop_last())[i] == (
                    s.drop_last()[i].key@,
                    s.drop_last()[i].value.model(),
                ));
            }
        }
    }
}

pub proof fn lemma_models_push(s: Seq<JsonValue>, v: JsonValue)
    ensures
        models(s.push(v)) == models(s).push(v.model()),
{
    assert(s.push(v).drop_last() =~= s);
}

pub proof fn lemma_member_models_push(s: Seq<JsonMember>, m: JsonMember)
    ensures
        member_models(s.push(m)) == member_models(s).push((m.key@, m.value.model())),
{
    assert(s.push(m).drop_last() =~= s);
}

pub proof fn lemma_member_index_from(m: Seq<(Seq<char>, Json)>, key: Seq<char>, k: int)
    requires
        0 <= k,
    ensures
        member_index_from(m, key, k) matches Some(i) ==> k <= i < m.len() && m[i].0 == key
            && forall|j: int| k <= j < i ==> m[j].0 != key,
        member_index_from(m, key, k) is None ==> forall|j: int| k <= j < m.len() ==> m[j].0 != key,
    decreases m.len() - k,
{
    if k < m.len() && m[k].0 != key {
        lemma_member_index_from(m, key, k + 1);
    }
}

pub proof fn lemma_member_index_unique(m: Seq<(Seq<char>, Json)>, key: Seq<char>, i: int)
    requires
        0 <= i < m.len(),
        m[i].0 == key,
        keys_unique(m),
    ensures
        member_index(m, key) == Some(i),
{
    lemma_member_index_from(m, key, 0);
}

// ---------------------------------------------------------------------------
// Executable operations
// ---------------------------------------------------------------------------

impl JsonNumber {
    pub fn deep_clone(&self) -> (r: JsonNumber)
        ensures
            r.as_i64 == self.as_i64,
            r.as_u64 == self.as_u64,
            r.text@ == self.text@,
    {
        JsonNumber { as_i64: self.as_i64, as_u64: self.as_u64, text: self.text.clone() }
    }
}

impl JsonValue {
    /// A copy of this value.
    #[verifier::loop_isolation(false)]
    pub fn deep_clone(&self) -> (r: JsonValue)
        ensures
            r.model() == self.model(),
        decreases self,
    {
        match self {
            JsonValue::Null => JsonValue::Null,
            JsonValue::Bool(b) => JsonValue::Bool(*b),
            JsonValue::Number(n) => JsonValue::Number(n.deep_clone()),
            JsonValue::Str(s) => JsonValue::Str(s.clone()),
            JsonValue::Array(v) => {
                let mut out: Vec<JsonValue> = Vec::new();
                let mut i: usize = 0;
                while i < v.len()
                    invariant
                        i <= v.len(),
                        models(out@) == models(v@.take(i as int)),
                    decreases v.len() - i,
                {
                    proof {
                        lemma_models_push(out@, v@[i as int]);
                    }
                    proof {
                        assert(decreases_to!(*v => v[i as int]));
                        assert(decreases_to!(*self => v[i as int]));
                    }
                    let c = v[i].deep_clone();
                    proof {
                        lemma_models_push(out@, c);
                        assert(v@.take(i + 1) =~= v@.take(i as int).push(v@[i as int]));
                        lemma_models_push(v@.take(i as int), v@[i as int]);
                    }
                    out.push(c);
                    i += 1;
                }
                assert(v@.take(v.len() as int) =~= v@);
                JsonValue::Array(out)
            },
            JsonValue::Object(m) => {
                let mut out: Vec<JsonMember> = Vec::new();
                let mut i: usize = 0;
                while i < m.len()
                    invariant
                        i <= m.len(),
                        member_models(out@) == member_models(m@.take(i as int)),
                    decreases m.len() - i,
                {
                    proof {
                        assert(decreases_to!(*m => m[i as int]));
                        assert(decreases_to!(*self => m[i as int].value));
                    }
                    let c = JsonMember { key: m[i].key.clone(), value: m[i].value.deep_clone() };
                    proof {
                        lemma_member_models_push(out@, c);
                        assert(m@.take(i + 1) =~= m@.take(i as int).push(m@[i as int]));
                        lemma_member_models_push(m@.take(i as int), m@[i as int]);
                    }
                    out.push(c);
                    i += 1;
                }
                assert(m@.take(m.len() as int) =~= m@);
                JsonValue::Object(out)
            },
        }
    }

    /// The value of `key`, when this is an object that has it.
    #[verifier::loop_isolation(false)]
    pub fn get(&self, key: &str) -> (r: Option<&JsonValue>)
        ensures
            opt_model(r) == self.model().get(key@),
    {
        match self {
            JsonValue::Object(m) => {
                proof {
                    lemma_member_models(m@);
                }
                let ghost mm = member_models(m@);
                let mut i: usize = 0;
                while i < m.len()
                    invariant
                        i <= m.len(),
                        mm == member_models(m@),
                        mm.len() == m.len(),
                        member_index(mm, key@) == member_index_from(mm, key@, i as int),
                        forall|j: int| 0 <= j < m.len() ==> #[trigger] mm[j] == (m@[j].key@, m@[j].value.model()),
                    decreases m.len() - i,
                {
                    if str_eq(m[i].key.as_str(), key) {
                        assert(mm[i as int].0 == key@);
                        assert(member_index_from(mm, key@, i as int) == Some(i as int));
                        assert(self.model() == Json::Object(mm));
                        return Some(&m[i].value);
                    }
                    i += 1;
                }
                None
            },
            _ => None,
        }
    }

    /// The text when this is a string.
    pub fn as_str(&self) -> (r: Option<&String>)
        ensures
            match r {
                Some(s) => self.model().as_str() == Some(s@),
                None => self.model().as_str() is None,
            },
    {
        match self {
            JsonValue::Str(s) => Some(s),
            _ => None,
        }
    }

    pub fn as_i64(&self) -> (r: Option<i64>)
        ensures
            r == self.model().as_i64(),
    {
        match self {
            JsonValue::Number(n) => n.as_i64,
            _ => None,
        }
    }

    pub fn as_u64(&self) -> (r: Option<u64>)
        ensures
            r == self.model().as_u64(),
    {
        match self {
            JsonValue::Number(n) => n.as_u64,
            _ => None,
        }
    }

    pub fn as_bool(&self) -> (r: Option<bool>)
        ensures
            r == self.model().as_bool(),
    {
        match self {
            JsonValue::Bool(b) => Some(*b),
            _ => None,
        }
    }

    /// The elements when this is an array.
    pub fn as_array(&self) -> (r: Option<&Vec<JsonValue>>)
        ensures
            match r {
                Some(v) => self.model().as_array() == Some(models(v@)),
                None => self.model().as_array() is None,
            },
    {
        match self {
            JsonValue::Array(v) => Some(v),
            _ => None,
        }
    }

    /// The members when this is an object.
    pub fn as_object(&self) -> (r: Option<&Vec<JsonMember>>)
        ensures
            match r {
                Some(m) => self.model().as_object() == Some(member_models(m@)),
                None => self.model().as_object() is None,
            },
    {
        match self {
            JsonValue::Object(m) => Some(m),
            _ => None,
        }
    }

    /// A copy of the string stored under `key`, if any.
    pub fn get_str(&self, key: &str) -> (r: Option<String>)
        ensures
            opt_str_view(r) == self.model().get_str(key@),
    {
        match self.get(key) {
            Some(v) => match v.as_str() {
                Some(s) => Some(s.clone()),
                None => None,
            },
            None => None,
        }
    }

    /// The integer stored under `key`, if any.
    pub fn get_i64(&self, key: &str) -> (r: Option<i64>)
        ensures
            r == self.model().get_i64(key@),
    {
        match self.get(key) {
            Some(v) => v.as_i64(),
            None => None,
        }
    }

    /// The unsigned integer stored under `key`, if any.
    pub fn get_u64(&self, key: &str) -> (r: Option<u64>)
        ensures
            r == self.model().get_u64(key@),
    {
        match self.get(key) {
            Some(v) => v.as_u64(),
            None => None,
        }
    }

    /// The boolean stored under `key`, if any.
    pub fn get_bool(&self, key: &str) -> (r: Option<bool>)
        ensures
            r == self.model().get_bool(key@),
    {
        match self.get(key) {
            Some(v) => v.as_bool(),
            None => None,
        }
    }

    /// The array stored under `key`, if any.
    pub fn get_array(&self, key: &str) -> (r: Option<&Vec<JsonValue>>)
        ensures
            match r {
                Some(v) => self.model().get_array(key@) == Some(models(v@)),
                None => self.model().get_array(key@) is None,
            },
    {
        match self.get(key) {
            Some(v) => v.as_array(),
            None => None,
        }
    }

    /// The position of the first member with `key`, when this is an object.
    #[verifier::loop_isolation(false)]
    pub fn member_position(&self, key: &str) -> (r: Option<usize>)
        ensures
            match self.model() {
                Json::Object(mm) => match r {
                    Some(i) => member_index(mm, key@) == Some(i as int),
                    None => member_index(mm, key@) is None,
                },
                _ => r is None,
            },
    {
        match self {
            JsonValue::Object(m) => {
                proof {
                    lemma_member_models(m@);
                }
                let ghost mm = member_models(m@);
                let mut i: usize = 0;
                while i < m.len()
                    invariant
                        i <= m.len(),
                        member_index(mm, key@) == member_index_from(mm, key@, i as int),
                    decreases m.len() - i,
                {
                    if str_eq(m[i].key.as_str(), key) {
                        assert(mm[i as int].0 == key@);
                        assert(member_index_from(mm, key@, i as int) == Some(i as int));
                        return Some(i);
                    }
                    i += 1;
                }
                None
            },
            _ => None,
        }
    }

    /// Sets `key` to `value` when this is an object (what `Map::insert` on the object does).
    pub fn insert(&mut self, key: String, value: JsonValue)
        ensures
            final(self).model() == old(self).model().insert(key@, value.model()),
    {
        let pos = self.member_position(key.as_str());
        match self {
            JsonValue::Object(m) => {
                proof {
                    lemma_member_models(m@);
                }
                let ghost mm = member_models(m@);
                match pos {
                    Some(i) => {
                        proof {
                            lemma_member_index_from(mm, key@, 0);
                        }
                        let ghost kv = key@;
                        let ghost vm = value.model();
                        m.set(i, JsonMember { key, value });
                        proof {
                            lemma_member_models(m@);
                            assert(member_models(m@) =~= mm.update(i as int, (kv, vm)));
                        }
                    },
                    None => {
                        let ghost old_m = m@;
                        m.push(JsonMember { key, value });
                        proof {
                            assert(m@ == old_m.push(m@.last()));
                            lemma_member_models_push(old_m, m@.last());
                        }
                    },
                }
            },
            _ => {},
        }
    }

    /// Removes `key` when this is an object; true when there was such a member.
    pub fn remove(&mut self, key: &str) -> (removed: bool)
        ensures
            final(self).model() == old(self).model().remove(key@),
            removed == (old(self).model().get(key@) is Some),
    {
        let pos = self.member_position(key);
        match self {
            JsonValue::Object(m) => {
                proof {
                    lemma_member_models(m@);
                }
                let ghost mm = member_models(m@);
                match pos {
                    Some(i) => {
                        proof {
                            lemma_member_index_from(mm, key@, 0);
                        }
                        m.remove(i);
                        proof {
                            lemma_member_models(m@);
                            assert(member_models(m@) =~= mm.remove(i as int));
                        }
                        true
                    },
                    None => false,
                }
            },
            _ => false,
        }
    }
}

/// The position in `m` of the first member with `key`.
pub fn member_position_in(m: &Vec<JsonMember>, key: &str) -> (r: Option<usize>)
    ensures
        match r {
            Some(i) => member_index(member_models(m@), key@) == Some(i as int) && i < m.len(),
            None => member_index(member_models(m@), key@) is None,
        },
{
    proof {
        lemma_member_models(m@);
        lemma_member_index_from(member_models(m@), key@, 0);
    }
    let ghost mm = member_models(m@);
    let mut i: usize = 0;
    while i < m.len()
        invariant
            i <= m.len(),
            mm == member_models(m@),
            mm.len() == m.len(),
            member_index(mm, key@) == member_index_from(mm, key@, i as int),
            forall|j: int| 0 <= j < m.len() ==> #[trigger] mm[j] == (m@[j].key@, m@[j].value.model()),
        decreases m.len() - i,
    {
        if str_eq(m[i].key.as_str(), key) {
            assert(mm[i as int].0 == key@);
            assert(member_index_from(mm, key@, i as int) == Some(i as int));
            return Some(i);
        }
        i += 1;
    }
    None
}

/// Merges `patch` into `target`: when both are objects, each member of the patch is merged into
/// the target's member with the same key (or added when the target has none); otherwise the
/// target becomes a copy of the patch.
pub fn merge_json_value(target: &mut JsonValue, patch: &JsonValue)
    ensures
        final(target).model() == spec_merge(old(target).model(), patch.model()),
    decreases patch,
{
    match patch {
        JsonValue::Object(pm) => {
            let target_is_object = match target {
                JsonValue::Object(_) => true,
                _ => false,
            };
            if target_is_object {
                match target {
                    JsonValue::Object(tm) => {
                        proof {
                            assert(decreases_to!(*patch => *pm));
                        }
                        merge_members_into(tm, pm);
                    },
                    _ => {},
                }
            } else {
                *target = patch.deep_clone();
            }
        },
        _ => {
            *target = patch.deep_clone();
        },
    }
}

/// Merges the members `pm` one after another into the members `tm`.
#[verifier::loop_isolation(false)]
fn merge_members_into(tm: &mut Vec<JsonMember>, pm: &Vec<JsonMember>)
    ensures
        member_models(final(tm)@) == merge_members(member_models(old(tm)@), member_models(pm@)),
    decreases pm,
{
    proof {
        lemma_member_models(pm@);
    }
    let ghost t0 = member_models(tm@);
    let ghost pmm = member_models(pm@);
    assert(pmm.take(0) =~= Seq::<(Seq<char>, Json)>::empty());
    let mut i: usize = 0;
    while i < pm.len()
        invariant
            i <= pm.len(),
            pmm.len() == pm.len(),
            member_models(tm@) == merge_members(t0, pmm.take(i as int)),
        decreases pm.len() - i,
    {
        let ghost acc = member_models(tm@);
        assert(pmm.take(i + 1).drop_last() =~= pmm.take(i as int));
        assert(pmm.take(i + 1).last() == pmm[i as int]);
        assert(pmm[i as int] == (pm@[i as int].key@, pm@[i as int].value.model()));
        let pos = member_position_in(tm, pm[i].key.as_str());
        match pos {
            Some(j) => {
                proof {
                    lemma_member_models(tm@);
                }
                let mut mem = tm.remove(j);
                assert(mem.key@ == acc[j as int].0);
                assert(mem.value.model() == acc[j as int].1);
                proof {
                    assert(decreases_to!(*pm => pm[i as int]));
                }
                merge_json_value(&mut mem.value, &pm[i].value);
                let ghost merged = mem.value.model();
                let ghost key_view = mem.key@;
                tm.insert(j, mem);
                proof {
                    lemma_member_models(tm@);
                    lemma_member_index_from(acc, pm@[i as int].key@, 0);
                    assert(member_models(tm@) =~= acc.update(j as int, (key_view, merged)));
                }
            },
            None => {
                let mem = JsonMember { key: pm[i].key.clone(), value: pm[i].value.deep_clone() };
                let ghost before = tm@;
                tm.push(mem);
                proof {
                    assert(tm@ == before.push(tm@.last()));
                    lemma_member_models_push(before, tm@.last());
                }
            },
        }
        i += 1;
    }
    assert(pmm.take(pm.len() as int) =~= pmm);
}

// ---------------------------------------------------------------------------
// Laws of merging
// ---------------------------------------------------------------------------

/// No object anywhere in `j` has a key twice (as in every value that a JSON map holds).
pub open spec fn json_wf(j: Json) -> bool
    decreases j, 0int,
{
    match j {
        Json::Object(m) => keys_unique(m) && members_wf(m),
        Json::Array(a) => values_wf(a),
        _ => true,
    }
}

/// Every member value is well-formed.
pub open spec fn members_wf(m: Seq<(Seq<char>, Json)>) -> bool
    decreases m, m.len(),
{
    m.len() == 0 || (members_wf(m.drop_last()) && json_wf(m.last().1))
}

/// Every element is well-formed.
pub open spec fn values_wf(a: Seq<Json>) -> bool
    decreases a, a.len(),
{
    a.len() == 0 || (values_wf(a.drop_last()) && json_wf(a.last()))
}

pub proof fn lemma_members_wf(m: Seq<(Seq<char>, Json)>)
    requires
        members_wf(m),
    ensures
        forall|i: int| 0 <= i < m.len() ==> #[trigger] json_wf(m[i].1),
    decreases m.len(),
{
    if m.len() > 0 {
        lemma_members_wf(m.drop_last());
        assert forall|i: int| 0 <= i < m.len() implies #[trigger] json_wf(m[i].1) by {
            if i < m.len() - 1 {
                assert(m.drop_last()[i] == m[i]);
            }
        }
    }
}

proof fn lemma_member_index_from_same_keys(
    a: Seq<(Seq<char>, Json)>,
    b: Seq<(Seq<char>, Json)>,
    key: Seq<char>,
    k: int,
)
    requires
        a.len() == b.len(),
        forall|i: int| 0 <= i < a.len() ==> #[trigger] a[i].0 == b[i].0,
    ensures
        member_index_from(a, key, k) == member_index_from(b, key, k),
    decreases a.len() - k,
{
    if 0 <= k < a.len() && a[k].0 != key {
        lemma_member_index_from_same_keys(a, b, key, k + 1);
    }
}

proof fn lemma_member_index_from_push(
    a: Seq<(Seq<char>, Json)>,
    x: (Seq<char>, Json),
    key: Seq<char>,
    k: int,
)
    requires
        0 <= k <= a.len(),
    ensures
        member_index_from(a, key, k) is Some ==> member_index_from(a.push(x), key, k)
            == member_index_from(a, key, k),
        member_index_from(a, key, k) is None && x.0 == key ==> member_index_from(a.push(x), key, k)
            == Some(a.len() as int),
    decreases a.len() - k,
{
    if k < a.len() {
        assert(a.push(x)[k] == a[k]);
        if a[k].0 != key {
            lemma_member_index_from_push(a, x, key, k + 1);
        }
    } else {
        assert(a.push(x)[k] == x);
    }
}

proof fn lemma_member_index_push(a: Seq<(Seq<char>, Json)>, x: (Seq<char>, Json), key: Seq<char>)
    ensures
        member_index(a, key) is Some ==> member_index(a.push(x), key) == member_index(a, key),
        member_index(a, key) is None && x.0 == key ==> member_index(a.push(x), key) == Some(
            a.len() as int,
        ),
{
    lemma_member_index_from_push(a, x, key, 0);
}

/// Merging a well-formed value into itself gives the value back.
proof fn lemma_merge_self(v: Json)
    requires
        json_wf(v),
    ensures
        spec_merge(v, v) == v,
    decreases v, 1int,
{
    match v {
        Json::Object(vm) => {
            lemma_members_wf(vm);
            lemma_merge_members_self(vm, vm.len() as int);
            assert(vm.take(vm.len() as int) =~= vm);
        },
        _ => {},
    }
}

proof fn lemma_merge_members_self(vm: Seq<(Seq<char>, Json)>, n: int)
    requires
        0 <= n <= vm.len(),
        keys_unique(vm),
        forall|i: int| 0 <= i < vm.len() ==> #[trigger] json_wf(vm[i].1),
    ensures
        merge_members(vm, vm.take(n)) == vm,
    decreases vm, n,
{
    if n > 0 {
        lemma_merge_members_self(vm, n - 1);
        assert(vm.take(n).drop_last() =~= vm.take(n - 1));
        assert(vm.take(n).last() == vm[n - 1]);
        lemma_member_index_unique(vm, vm[n - 1].0, n - 1);
        assert(decreases_to!(vm => vm[n - 1].1));
        lemma_merge_self(vm[n - 1].1);
        assert(vm.update(n - 1, (vm[n - 1].0, vm[n - 1].1)) =~= vm);
    } else {
        assert(vm.take(0) =~= Seq::<(Seq<char>, Json)>::empty());
    }
}

/// Every member of `pm` among the first `n` is present in `a` with a value that absorbs it.
spec fn absorbs_prefix(a: Seq<(Seq<char>, Json)>, pm: Seq<(Seq<char>, Json)>, n: int) -> bool {
    forall|j: int|
        0 <= j < n ==> {
            &&& #[trigger] member_index(a, pm[j].0) matches Some(i)
            &&& 0 <= i < a.len()
            &&& a[i].0 == pm[j].0
            &&& spec_merge(a[i].1, pm[j].1) == a[i].1
        }
}

proof fn lemma_merge_members_absorbs(tm: Seq<(Seq<char>, Json)>, pm: Seq<(Seq<char>, Json)>, n: int)
    requires
        0 <= n <= pm.len(),
        keys_unique(pm),
        forall|i: int| 0 <= i < pm.len() ==> #[trigger] json_wf(pm[i].1),
    ensures
        absorbs_prefix(merge_members(tm, pm.take(n)), pm, n),
    decreases pm, n,
{
    if n > 0 {
        lemma_merge_members_absorbs(tm, pm, n - 1);
        let b = merge_members(tm, pm.take(n - 1));
        assert(pm.take(n).drop_last() =~= pm.take(n - 1));
        assert(pm.take(n).last() == pm[n - 1]);
        let k = pm[n - 1].0;
        let v = pm[n - 1].1;
        let c = merge_members(tm, pm.take(n));
        lemma_member_index_from(b, k, 0);
        assert(decreases_to!(pm => pm[n - 1].1));
        match member_index(b, k) {
            Some(i) => {
                assert(c == b.update(i, (k, spec_merge(b[i].1, v))));
                lemma_merge_idempotent(b[i].1, v);
                assert forall|t: int| 0 <= t < b.len() implies #[trigger] b[t].0 == c[t].0 by {
                    if t == i {
                        assert(b[i].0 == k);
                    }
                }
                assert forall|j: int| 0 <= j < n implies {
                    &&& #[trigger] member_index(c, pm[j].0) matches Some(t)
                    &&& 0 <= t < c.len()
                    &&& c[t].0 == pm[j].0
                    &&& spec_merge(c[t].1, pm[j].1) == c[t].1
                } by {
                    lemma_member_index_from_same_keys(b, c, pm[j].0, 0);
                    if j < n - 1 {
                        assert(pm[j].0 != k);
                        assert(member_index(b, pm[j].0) matches Some(t) && 0 <= t < b.len()
                            && b[t].0 == pm[j].0 && spec_merge(b[t].1, pm[j].1) == b[t].1);
                        let t = member_index(b, pm[j].0)->0;
                        assert(t != i);
                        assert(c[t] == b[t]);
                    } else {
                        assert(j == n - 1);
                        assert(member_index(c, k) == Some(i));
                    }
                }
            },
            None => {
                assert(c == b.push((k, v)));
                lemma_merge_self(v);
                assert forall|j: int| 0 <= j < n - 1 implies {
                    &&& #[trigger] member_index(b, pm[j].0) matches Some(t)
                    &&& 0 <= t < b.len()
                    &&& b[t].0 == pm[j].0
                    &&& spec_merge(b[t].1, pm[j].1) == b[t].1
                } by {}
                assert forall|j: int| 0 <= j < n implies {
                    &&& #[trigger] member_index(c, pm[j].0) matches Some(t)
                    &&& 0 <= t < c.len()
                    &&& c[t].0 == pm[j].0
                    &&& spec_merge(c[t].1, pm[j].1) == c[t].1
                } by {
                    lemma_member_index_push(b, (k, v), pm[j].0);
                    if j < n - 1 {
                        let t = member_index(b, pm[j].0)->0;
                        assert(c[t] == b[t]);
                    }
                }
            },
        }
    }
}

proof fn lemma_merge_members_fixed(a: Seq<(Seq<char>, Json)>, pm: Seq<(Seq<char>, Json)>, n: int)
    requires
        0 <= n <= pm.len(),
        absorbs_prefix(a, pm, pm.len() as int),
    ensures
        merge_members(a, pm.take(n)) == a,
    decreases n,
{
    if n > 0 {
        lemma_merge_members_fixed(a, pm, n - 1);
        assert(pm.take(n).drop_last() =~= pm.take(n - 1));
        assert(pm.take(n).last() == pm[n - 1]);
        let j = n - 1;
        assert(member_index(a, pm[j].0) is Some);
        let i = member_index(a, pm[j].0)->0;
        assert(a.update(i, (pm[j].0, spec_merge(a[i].1, pm[j].1))) =~= a);
    } else {
        assert(pm.take(0) =~= Seq::<(Seq<char>, Json)>::empty());
    }
}

/// Merging the same well-formed patch twice gives what merging it once gives.
pub proof fn lemma_merge_idempotent(target: Json, patch: Json)
    requires
        json_wf(patch),
    ensures
        spec_merge(spec_merge(target, patch), patch) == spec_merge(target, patch),
    decreases patch, 2int,
{
    match patch {
        Json::Object(pm) => match target {
            Json::Object(tm) => {
                lemma_members_wf(pm);
                lemma_merge_members_absorbs(tm, pm, pm.len() as int);
                assert(pm.take(pm.len() as int) =~= pm);
                let a = merge_members(tm, pm);
                lemma_merge_members_fixed(a, pm, pm.len() as int);
            },
            _ => {
                lemma_merge_self(patch);
            },
        },
        _ => {},
    }
}


// ---------------------------------------------------------------------------
// Building values
// ---------------------------------------------------------------------------

/// The JSON number of an unsigned integer.
pub open spec fn spec_json_u64(n: u64) -> Json {
    Json::Number(
        if n <= i64::MAX as u64 {
            Some(n as i64)
        } else {
            None
        },
        Some(n),
        crate::numbers::spec_decimal(n as int),
    )
}

/// An array of strings.
pub open spec fn spec_str_array(s: Seq<Seq<char>>) -> Json {
    Json::Array(s.map_values(|t: Seq<char>| Json::Str(t)))
}

pub open spec fn empty_object() -> Json {
    Json::Object(Seq::empty())
}

impl JsonValue {
    /// The number `n`.
    pub fn from_u64(n: u64) -> (r: JsonValue)
        ensures
            r.model() == spec_json_u64(n),
    {
        let as_i64 = if n <= 9223372036854775807u64 {
            Some(n as i64)
        } else {
            None
        };
        JsonValue::Number(JsonNumber { as_i64: as_i64, as_u64: Some(n), text: crate::numbers::u64_text(n) })
    }

    /// An object without members.
    pub fn new_object() -> (r: JsonValue)
        ensures
            r.model() == empty_object(),
    {
        let v: Vec<JsonMember> = Vec::new();
        let r = JsonValue::Object(v);
        assert(member_models(v@) =~= Seq::<(Seq<char>, Json)>::empty());
        r
    }

    /// The array of the strings `lines`.
    pub fn from_strings(lines: &Vec<String>) -> (r: JsonValue)
        ensures
            r.model() == spec_str_array(lines@.map_values(|t: String| t@)),
    {
        let mut out: Vec<JsonValue> = Vec::new();
        let mut i: usize = 0;
        while i < lines.len()
            invariant
                i <= lines.len(),
                models(out@) == lines@.take(i as int).map_values(|t: String| t@).map_values(
                    |t: Seq<char>| Json::Str(t),
                ),
            decreases lines.len() - i,
        {
            let ghost before = out@;
            out.push(JsonValue::Str(lines[i].clone()));
            proof {
                lemma_models_push(before, out@.last());
                assert(out@ == before.push(out@.last()));
            }
            assert(models(out@) =~= lines@.take(i as int + 1).map_values(|t: String| t@).map_values(
                |t: Seq<char>| Json::Str(t),
            ));
            i += 1;
        }
        assert(lines@.take(lines.len() as int) =~= lines@);
        JsonValue::Array(out)
    }
}

} // verus!

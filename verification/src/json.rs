//! A plain JSON document model. Control payloads and replies of the
//! descriptor host calls are JSON documents; the library reads and builds them
//! through this model.
use vstd::prelude::*;

verus! {

/// A JSON number, as JSON parsers classify it: a non-negative integer, a
/// negative integer, or any other number, held as its decimal text.
#[derive(Debug)]
pub enum JsonNumber {
    PosInt(u64),
    NegInt(i64),
    Float(String),
}

/// A JSON document. Object members keep their order; a lookup finds the
/// first member with the key.
#[derive(Debug)]
pub enum JsonValue {
    Null,
    Bool(bool),
    Number(JsonNumber),
    Str(String),
    Array(Vec<JsonValue>),
    Object(Vec<(String, JsonValue)>),
}

/// The mathematical content of a [`JsonNumber`].
pub enum JsonNum {
    PosInt(u64),
    NegInt(i64),
    Float(Seq<char>),
}

/// The mathematical content of a [`JsonValue`]: strings are taken by their
/// characters.
pub enum JsonData {
    Null,
    Bool(bool),
    Number(JsonNum),
    Str(Seq<char>),
    Array(Seq<JsonData>),
    Object(Seq<(Seq<char>, JsonData)>),
}

impl JsonNumber {
    pub open spec fn view(&self) -> JsonNum {
        match self {
            JsonNumber::PosInt(n) => JsonNum::PosInt(*n),
            JsonNumber::NegInt(n) => JsonNum::NegInt(*n),
            JsonNumber::Float(t) => JsonNum::Float(t@),
        }
    }

    /// A copy of the number.
    pub fn duplicate(&self) -> (r: JsonNumber)
        ensures
            r@ == self@,
    {
        match self {
            JsonNumber::PosInt(n) => JsonNumber::PosInt(*n),
            JsonNumber::NegInt(n) => JsonNumber::NegInt(*n),
            JsonNumber::Float(t) => JsonNumber::Float(t.clone()),
        }
    }
}

/// The content of a JSON value.
pub open spec fn json_data(v: JsonValue) -> JsonData
    decreases v,
{
    match v {
        JsonValue::Null => JsonData::Null,
        JsonValue::Bool(b) => JsonData::Bool(b),
        JsonValue::Number(n) => JsonData::Number(n@),
        JsonValue::Str(s) => JsonData::Str(s@),
        JsonValue::Array(a) => JsonData::Array(json_data_seq(a@)),
        JsonValue::Object(m) => JsonData::Object(json_data_members(m@)),
    }
}

/// The contents of a sequence of JSON values.
pub open spec fn json_data_seq(s: Seq<JsonValue>) -> Seq<JsonData>
    decreases s,
{
    if s.len() == 0 {
        Seq::empty()
    } else {
        seq![json_data(s[0])] + json_data_seq(s.subrange(1, s.len() as int))
    }
}

/// The contents of a sequence of object members.
pub open spec fn json_data_members(s: Seq<(String, JsonValue)>) -> Seq<(Seq<char>, JsonData)>
    decreases s,
{
    if s.len() == 0 {
        Seq::empty()
    } else {
        seq![(s[0].0@, json_data(s[0].1))] + json_data_members(s.subrange(1, s.len() as int))
    }
}

/// Two value sequences with pointwise equal contents have equal contents.
pub proof fn lemma_json_data_seq_pointwise(s1: Seq<JsonValue>, s2: Seq<JsonValue>)
    requires
        s1.len() == s2.len(),
        forall|j: int| 0 <= j < s1.len() ==> json_data(#[trigger] s1[j]) == json_data(s2[j]),
    ensures
        json_data_seq(s1) == json_data_seq(s2),
    decreases s1.len(),
{
    if s1.len() > 0 {
        let t1 = s1.subrange(1, s1.len() as int);
        let t2 = s2.subrange(1, s2.len() as int);
        assert forall|j: int| 0 <= j < t1.len() implies json_data(#[trigger] t1[j]) == json_data(t2[j]) by {
            assert(t1[j] == s1[j + 1]);
            assert(t2[j] == s2[j + 1]);
        }
        lemma_json_data_seq_pointwise(t1, t2);
        assert(json_data(s1[0]) == json_data(s2[0]));
    }
}

/// Two member sequences with pointwise equal names and contents have equal
/// contents.
pub proof fn lemma_json_data_members_pointwise(s1: Seq<(String, JsonValue)>, s2: Seq<(String, JsonValue)>)
    requires
        s1.len() == s2.len(),
        forall|j: int| 0 <= j < s1.len() ==> (#[trigger] s1[j]).0@ == s2[j].0@ && json_data(s1[j].1) == json_data(s2[j].1),
    ensures
        json_data_members(s1) == json_data_members(s2),
    decreases s1.len(),
{
    if s1.len() > 0 {
        let t1 = s1.subrange(1, s1.len() as int);
        let t2 = s2.subrange(1, s2.len() as int);
        assert forall|j: int| 0 <= j < t1.len() implies (#[trigger] t1[j]).0@ == t2[j].0@ && json_data(t1[j].1) == json_data(t2[j].1) by {
            assert(t1[j] == s1[j + 1]);
            assert(t2[j] == s2[j + 1]);
        }
        lemma_json_data_members_pointwise(t1, t2);
        assert(s1[0].0@ == s2[0].0@);
    }
}

/// Index of the first member named `key`, if any.
pub open spec fn spec_member_index(members: Seq<(String, JsonValue)>, key: Seq<char>) -> Option<int>
    decreases members.len(),
{
    if members.len() == 0 {
        None
    } else if members[0].0@ == key {
        Some(0)
    } else {
        match spec_member_index(members.drop_first(), key) {
            Some(i) => Some(i + 1),
            None => None,
        }
    }
}

/// The value of the first member named `key`, if any.
pub open spec fn spec_member(members: Seq<(String, JsonValue)>, key: Seq<char>) -> Option<JsonValue> {
    match spec_member_index(members, key) {
        Some(i) => Some(members[i].1),
        None => None,
    }
}

pub proof fn lemma_member_index_bounds(members: Seq<(String, JsonValue)>, key: Seq<char>)
    ensures
        spec_member_index(members, key) matches Some(i) ==> 0 <= i < members.len() && members[i].0@ == key
            && forall|j: int| 0 <= j < i ==> members[j].0@ != key,
        spec_member_index(members, key) is None ==> forall|j: int|
            0 <= j < members.len() ==> members[j].0@ != key,
    decreases members.len(),
{
    if members.len() > 0 {
        lemma_member_index_bounds(members.drop_first(), key);
        if members[0].0@ != key {
            assert forall|j: int| 1 <= j < members.len() implies members[j] == members.drop_first()[j - 1] by {}
        }
    }
}

impl JsonValue {
    pub open spec fn view(&self) -> JsonData {
        json_data(*self)
    }

    /// A deep copy of the value.
    pub fn duplicate(&self) -> (r: JsonValue)
        ensures
            r@ == self@,
        decreases self,
    {
        match self {
            JsonValue::Null => JsonValue::Null,
            JsonValue::Bool(b) => JsonValue::Bool(*b),
            JsonValue::Number(n) => JsonValue::Number(n.duplicate()),
            JsonValue::Str(t) => JsonValue::Str(t.clone()),
            JsonValue::Array(a) => {
                let mut out: Vec<JsonValue> = Vec::new();
                let mut i: usize = 0;
                while i < a.len()
                    invariant
                        0 <= i <= a.len(),
                        out@.len() == i,
                        *self == JsonValue::Array(*a),
                        forall|j: int| 0 <= j < i ==> json_data(#[trigger] out@[j]) == json_data(a@[j]),
                    decreases a.len() - i,
                {
                    proof {
                        assert(decreases_to!(*self => (*self)->Array_0));
                        assert(decreases_to!(*a => a@));
                        assert(decreases_to!(a@ => a@[i as int]));
                    }
                    let c = a[i].duplicate();
                    out.push(c);
                    i = i + 1;
                }
                proof {
                    lemma_json_data_seq_pointwise(out@, a@);
                }
                JsonValue::Array(out)
            },
            JsonValue::Object(m) => {
                let mut out: Vec<(String, JsonValue)> = Vec::new();
                let mut i: usize = 0;
                while i < m.len()
                    invariant
                        0 <= i <= m.len(),
                        out@.len() == i,
                        *self == JsonValue::Object(*m),
                        forall|j: int| 0 <= j < i ==> (#[trigger] out@[j]).0@ == m@[j].0@ && json_data(out@[j].1) == json_data(m@[j].1),
                    decreases m.len() - i,
                {
                    proof {
                        assert(decreases_to!(*self => (*self)->Object_0));
                        assert(decreases_to!(*m => m@));
                        assert(decreases_to!(m@ => m@[i as int]));
                        assert(decreases_to!(m@[i as int] => m@[i as int].1));
                    }
                    let k = m[i].0.clone();
                    let c = m[i].1.duplicate();
                    out.push((k, c));
                    i = i + 1;
                }
                proof {
                    lemma_json_data_members_pointwise(out@, m@);
                }
                JsonValue::Object(out)
            },
        }
    }

    /// The member `key` of an object; `None` for other values or a missing key.
    pub open spec fn spec_get(self, key: Seq<char>) -> Option<JsonValue> {
        match self {
            JsonValue::Object(members) => spec_member(members@, key),
            _ => None,
        }
    }

    /// The text of a string value.
    pub open spec fn spec_as_str(self) -> Option<Seq<char>> {
        match self {
            JsonValue::Str(s) => Some(s@),
            _ => None,
        }
    }

    /// The value of a non-negative integer.
    pub open spec fn spec_as_u64(self) -> Option<u64> {
        match self {
            JsonValue::Number(JsonNumber::PosInt(n)) => Some(n),
            _ => None,
        }
    }

    /// The value of a boolean.
    pub open spec fn spec_as_bool(self) -> Option<bool> {
        match self {
            JsonValue::Bool(b) => Some(b),
            _ => None,
        }
    }

    /// Whether the value is an object.
    pub open spec fn spec_is_object(self) -> bool {
        self is Object
    }

    /// Looks up the member `key` of an object.
    pub fn get(&self, key: &str) -> (r: Option<&JsonValue>)
        ensures
            match r {
                Some(v) => self.spec_get(key@) == Some(*v),
                None => self.spec_get(key@) is None,
            },
    {
        match self {
            JsonValue::Object(members) => members_get(members, key),
            _ => None,
        }
    }

    /// The text of a string value.
    pub fn as_str(&self) -> (r: Option<&str>)
        ensures
            match r {
                Some(s) => self.spec_as_str() == Some(s@),
                None => self.spec_as_str() is None,
            },
    {
        match self {
            JsonValue::Str(s) => Some(s.as_str()),
            _ => None,
        }
    }

    /// The value of a non-negative integer.
    pub fn as_u64(&self) -> (r: Option<u64>)
        ensures
            r == self.spec_as_u64(),
    {
        match self {
            JsonValue::Number(JsonNumber::PosInt(n)) => Some(*n),
            _ => None,
        }
    }

    /// The value of a boolean.
    pub fn as_bool(&self) -> (r: Option<bool>)
        ensures
            r == self.spec_as_bool(),
    {
        match self {
            JsonValue::Bool(b) => Some(*b),
            _ => None,
        }
    }

    /// Whether the value is an object.
    pub fn is_object(&self) -> (r: bool)
        ensures
            r == self.spec_is_object(),
    {
        match self {
            JsonValue::Object(_) => true,
            _ => false,
        }
    }
}

/// Appending a value appends its content.
pub proof fn lemma_json_data_seq_push(s: Seq<JsonValue>, x: JsonValue)
    ensures
        json_data_seq(s.push(x)) == json_data_seq(s).push(json_data(x)),
    decreases s.len(),
{
    if s.len() == 0 {
        assert(s.push(x).subrange(1, 1) =~= Seq::<JsonValue>::empty());
        assert(json_data_seq(Seq::<JsonValue>::empty()) =~= Seq::<JsonData>::empty());
        assert(json_data_seq(s.push(x)) =~= seq![json_data(x)]);
    } else {
        let t = s.subrange(1, s.len() as int);
        lemma_json_data_seq_push(t, x);
        assert(s.push(x).subrange(1, s.len() + 1int) =~= t.push(x));
        assert(s.push(x)[0] == s[0]);
        assert(json_data_seq(s.push(x)) =~= seq![json_data(s[0])] + json_data_seq(t.push(x)));
        assert(json_data_seq(s) =~= seq![json_data(s[0])] + json_data_seq(t));
    }
}

/// Appending a member appends its name and content.
pub proof fn lemma_json_data_members_push(s: Seq<(String, JsonValue)>, x: (String, JsonValue))
    ensures
        json_data_members(s.push(x)) == json_data_members(s).push((x.0@, json_data(x.1))),
    decreases s.len(),
{
    if s.len() == 0 {
        assert(s.push(x).subrange(1, 1) =~= Seq::<(String, JsonValue)>::empty());
        assert(json_data_members(Seq::<(String, JsonValue)>::empty()) =~= Seq::<(Seq<char>, JsonData)>::empty());
        assert(json_data_members(s.push(x)) =~= seq![(x.0@, json_data(x.1))]);
    } else {
        let t = s.subrange(1, s.len() as int);
        lemma_json_data_members_push(t, x);
        assert(s.push(x).subrange(1, s.len() + 1int) =~= t.push(x));
        assert(s.push(x)[0] == s[0]);
        assert(json_data_members(s.push(x)) =~= seq![(s[0].0@, json_data(s[0].1))] + json_data_members(t.push(x)));
        assert(json_data_members(s) =~= seq![(s[0].0@, json_data(s[0].1))] + json_data_members(t));
    }
}

/// A string value with the text of `s`.
pub fn json_str(s: &str) -> (r: JsonValue)
    ensures
        r@ == JsonData::Str(s@),
{
    JsonValue::Str(s.to_string())
}

/// A non-negative integer value.
pub fn json_u64(n: u64) -> (r: JsonValue)
    ensures
        r@ == JsonData::Number(JsonNum::PosInt(n)),
{
    JsonValue::Number(JsonNumber::PosInt(n))
}

/// An object builder: members are appended in order.
pub struct JsonObjectBuilder {
    pub members: Vec<(String, JsonValue)>,
}

impl JsonObjectBuilder {
    pub open spec fn view(&self) -> Seq<(Seq<char>, JsonData)> {
        json_data_members(self.members@)
    }

    /// An empty object.
    pub fn new() -> (r: Self)
        ensures
            r@ == Seq::<(Seq<char>, JsonData)>::empty(),
    {
        let r = JsonObjectBuilder { members: Vec::new() };
        assert(r@ =~= Seq::<(Seq<char>, JsonData)>::empty());
        r
    }

    /// Appends member `key` with value `v`.
    pub fn add(&mut self, key: &str, v: JsonValue)
        ensures
            final(self)@ == old(self)@.push((key@, v@)),
    {
        let k = key.to_string();
        proof {
            lemma_json_data_members_push(self.members@, (k, v));
        }
        self.members.push((k, v));
    }

    /// The finished object.
    pub fn build(self) -> (r: JsonValue)
        ensures
            r@ == JsonData::Object(self@),
    {
        JsonValue::Object(self.members)
    }
}

/// A builder for arrays.
pub struct JsonArrayBuilder {
    pub items: Vec<JsonValue>,
}

impl JsonArrayBuilder {
    pub open spec fn view(&self) -> Seq<JsonData> {
        json_data_seq(self.items@)
    }

    /// An empty array.
    pub fn new() -> (r: Self)
        ensures
            r@ == Seq::<JsonData>::empty(),
    {
        let r = JsonArrayBuilder { items: Vec::new() };
        assert(r@ =~= Seq::<JsonData>::empty());
        r
    }

    /// Appends `v`.
    pub fn add(&mut self, v: JsonValue)
        ensures
            final(self)@ == old(self)@.push(v@),
    {
        proof {
            lemma_json_data_seq_push(self.items@, v);
        }
        self.items.push(v);
    }

    /// The finished array.
    pub fn build(self) -> (r: JsonValue)
        ensures
            r@ == JsonData::Array(self@),
    {
        JsonValue::Array(self.items)
    }
}

/// Member sequences with the same names find a key at the same index.
pub proof fn lemma_member_index_same_names(s1: Seq<(String, JsonValue)>, s2: Seq<(String, JsonValue)>, key: Seq<char>)
    requires
        s1.len() == s2.len(),
        forall|j: int| 0 <= j < s1.len() ==> (#[trigger] s1[j]).0@ == s2[j].0@,
    ensures
        spec_member_index(s1, key) == spec_member_index(s2, key),
    decreases s1.len(),
{
    if s1.len() > 0 {
        assert(s1[0].0@ == s2[0].0@);
        let t1 = s1.drop_first();
        let t2 = s2.drop_first();
        assert forall|j: int| 0 <= j < t1.len() implies (#[trigger] t1[j]).0@ == t2[j].0@ by {
            assert(t1[j] == s1[j + 1]);
            assert(t2[j] == s2[j + 1]);
        }
        lemma_member_index_same_names(t1, t2, key);
    }
}

/// Looks up the first member named `key`.
pub fn members_get<'a>(members: &'a Vec<(String, JsonValue)>, key: &str) -> (r: Option<&'a JsonValue>)
    ensures
        match r {
            Some(v) => spec_member(members@, key@) == Some(*v),
            None => spec_member(members@, key@) is None,
        },
{
    let mut i: usize = 0;
    proof {
        lemma_member_index_bounds(members@, key@);
    }
    while i < members.len()
        invariant
            0 <= i <= members.len(),
            forall|j: int| 0 <= j < i ==> members@[j].0@ != key@,
            spec_member_index(members@, key@) matches Some(k) ==> (0 <= k < members.len() && members@[k].0@
                == key@ && forall|j: int| 0 <= j < k ==> members@[j].0@ != key@),
            spec_member_index(members@, key@) is None ==> forall|j: int|
                0 <= j < members.len() ==> members@[j].0@ != key@,
        decreases members.len() - i,
    {
        if str_eq(members[i].0.as_str(), key) {
            proof {
                match spec_member_index(members@, key@) {
                    Some(k) => {
                        if k < i { assert(false); }
                        if k > i { assert(members@[i as int].0@ != key@); }
                    },
                    None => { assert(members@[i as int].0@ != key@); },
                }
            }
            return Some(&members[i].1);
        }
        i = i + 1;
    }
    proof {
        match spec_member_index(members@, key@) {
            Some(k) => { assert(members@[k].0@ != key@); },
            None => {},
        }
    }
    None
}

/// Binds member `key` to `v`: the first member of that name is replaced, or
/// a member is appended when there is none.
pub fn members_upsert(members: &mut Vec<(String, JsonValue)>, key: String, v: JsonValue)
    ensures
        spec_member(final(members)@, key@) == Some(v),
        forall|k: Seq<char>| k != key@ ==> #[trigger] spec_member(final(members)@, k) == spec_member(old(members)@, k),
{
    let ghost old_m = members@;
    let mut i: usize = 0;
    proof {
        lemma_member_index_bounds(members@, key@);
    }
    while i < members.len()
        invariant
            0 <= i <= members.len(),
            members@ == old_m,
            old_m == old(members)@,
            forall|j: int| 0 <= j < i ==> members@[j].0@ != key@,
        decreases members.len() - i,
    {
        if str_eq(members[i].0.as_str(), key.as_str()) {
            let ghost kept = members@[i as int].0;
            let ghost entry = (key, v);
            members.set(i, (key, v));
            proof {
                assert(members@ == old_m.update(i as int, entry));
                lemma_member_index_bounds(members@, key@);
                assert(spec_member_index(members@, key@) == Some(i as int)) by {
                    match spec_member_index(members@, key@) {
                        Some(k) => {
                            if k < i { assert(members@[k] == old_m[k]); }
                            if k > i { assert(members@[i as int].0@ == key@); }
                        },
                        None => { assert(members@[i as int].0@ == key@); },
                    }
                }
                assert forall|k: Seq<char>| k != key@ implies #[trigger] spec_member(members@, k) == spec_member(old_m, k) by {
                    assert forall|j: int| 0 <= j < members@.len() implies (#[trigger] members@[j]).0@ == old_m[j].0@ by {
                        if j == i {
                            assert(old_m[i as int].0@ == key@);
                        }
                    }
                    lemma_member_index_same_names(members@, old_m, k);
                    lemma_member_index_bounds(old_m, k);
                    match spec_member_index(old_m, k) {
                        Some(a) => {
                            assert(a != i);
                            assert(members@[a] == old_m[a]);
                        },
                        None => {},
                    }
                }
            }
            return;
        }
        i = i + 1;
    }
    proof {
        lemma_member_index_bounds(old_m, key@);
    }
    members.push((key, v));
    proof {
        lemma_member_index_bounds(members@, key@);
        assert(spec_member_index(members@, key@) == Some(old_m.len() as int)) by {
            match spec_member_index(members@, key@) {
                Some(k) => {
                    if k < old_m.len() { assert(members@[k] == old_m[k]); }
                },
                None => { assert(members@[old_m.len() as int].0@ == key@); },
            }
        }
        assert forall|k: Seq<char>| k != key@ implies #[trigger] spec_member(members@, k) == spec_member(old_m, k) by {
            lemma_member_index_bounds(members@, k);
            lemma_member_index_bounds(old_m, k);
            match (spec_member_index(members@, k), spec_member_index(old_m, k)) {
                (Some(a), Some(b)) => {
                    if a < b { assert(members@[a] == old_m[a]); }
                    if b < a { assert(members@[b] == old_m[b]); }
                },
                (Some(a), None) => { assert(a < old_m.len()); assert(members@[a] == old_m[a]); },
                (None, Some(b)) => { assert(members@[b] == old_m[b]); },
                (None, None) => {},
            }
        }
    }
}

/// Values with equal content read as the same integer.
pub proof fn lemma_as_u64_view(v1: JsonValue, v2: JsonValue)
    requires
        v1@ == v2@,
    ensures
        v1.spec_as_u64() == v2.spec_as_u64(),
{
    match (v1, v2) {
        (JsonValue::Number(n1), JsonValue::Number(n2)) => {
            assert(n1@ == n2@);
        },
        _ => {},
    }
}

/// Text equality of two string slices.
pub fn str_eq(a: &str, b: &str) -> (r: bool)
    ensures
        r == (a@ == b@),
{
    let n = a.unicode_len();
    if n != b.unicode_len() {
        return false;
    }
    let mut i: usize = 0;
    while i < n
        invariant
            n == a@.len(),
            n == b@.len(),
            0 <= i <= n,
            forall|j: int| 0 <= j < i ==> a@[j] == b@[j],
        decreases n - i,
    {
        if a.get_char(i) != b.get_char(i) {
            return false;
        }
        i = i + 1;
    }
    assert(a@ =~= b@);
    true
}

} // verus!

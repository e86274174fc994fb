//! A JSON-like document tree. It is the shape of every configuration value the
//! library reads (parsed subscription documents, API replies) and writes
//! (sing-box outbounds and the full core configuration).
use vstd::prelude::*;

verus! {

/// An executable document value. Objects keep their members in order; the
/// builders of this module never produce two members with the same key.
#[derive(Debug)]
pub enum Json {
    Null,
    Bool(bool),
    /// A non-negative integer.
    UInt(u64),
    /// A negative integer.
    NegInt(i64),
    /// A number that is not an integer, kept in its textual form.
    Float(String),
    Str(String),
    Arr(Vec<Json>),
    Obj(Vec<(String, Json)>),
}

/// The mathematical model of a [`Json`] value.
pub enum JVal {
    Null,
    Bool(bool),
    UInt(u64),
    NegInt(i64),
    Float(Seq<char>),
    Str(Seq<char>),
    Arr(Seq<JVal>),
    Obj(Seq<(Seq<char>, JVal)>),
}

/// The model of a JSON value.
pub open spec fn jview(j: Json) -> JVal
    decreases j, 0nat,
{
    match j {
        Json::Null => JVal::Null,
        Json::Bool(b) => JVal::Bool(b),
        Json::UInt(n) => JVal::UInt(n),
        Json::NegInt(n) => JVal::NegInt(n),
        Json::Float(s) => JVal::Float(s@),
        Json::Str(s) => JVal::Str(s@),
        Json::Arr(v) => JVal::Arr(jview_seq(v@)),
        Json::Obj(m) => JVal::Obj(jview_members(m@)),
    }
}

/// The models of a list of JSON values.
pub open spec fn jview_seq(s: Seq<Json>) -> Seq<JVal>
    decreases s, s.len(),
{
    if s.len() == 0 {
        Seq::empty()
    } else {
        seq![jview(s[0])] + jview_seq(s.drop_first())
    }
}

/// The models of the members of a JSON object.
pub open spec fn jview_members(s: Seq<(String, Json)>) -> Seq<(Seq<char>, JVal)>
    decreases s, s.len(),
{
    if s.len() == 0 {
        Seq::empty()
    } else {
        seq![(s[0].0@, jview(s[0].1))] + jview_members(s.drop_first())
    }
}

impl View for Json {
    type V = JVal;

    open spec fn view(&self) -> JVal {
        jview(*self)
    }
}


/// First member of `ms` whose key is `key`.
pub open spec fn lookup(ms: Seq<(Seq<char>, JVal)>, key: Seq<char>) -> Option<JVal>
    decreases ms.len(),
{
    if ms.len() == 0 {
        None
    } else if ms[0].0 == key {
        Some(ms[0].1)
    } else {
        lookup(ms.drop_first(), key)
    }
}

/// Whether some member of `ms` has key `key`.
pub open spec fn has_key(ms: Seq<(Seq<char>, JVal)>, key: Seq<char>) -> bool {
    exists|i: int| 0 <= i < ms.len() && ms[i].0 == key
}

/// `ms` with the member `key` set to `val`: an existing member is replaced in
/// place, otherwise the member is appended.
pub open spec fn members_set(ms: Seq<(Seq<char>, JVal)>, key: Seq<char>, val: JVal) -> Seq<(Seq<char>, JVal)>
    decreases ms.len(),
{
    if ms.len() == 0 {
        seq![(key, val)]
    } else if ms[0].0 == key {
        seq![(key, val)] + ms.drop_first()
    } else {
        seq![ms[0]] + members_set(ms.drop_first(), key, val)
    }
}

/// `ms` without its members whose key is `key`.
pub open spec fn members_remove(ms: Seq<(Seq<char>, JVal)>, key: Seq<char>) -> Seq<(Seq<char>, JVal)>
    decreases ms.len(),
{
    if ms.len() == 0 {
        ms
    } else if ms[0].0 == key {
        members_remove(ms.drop_first(), key)
    } else {
        seq![ms[0]] + members_remove(ms.drop_first(), key)
    }
}

impl JVal {
    /// Indexing by key: the member's value, or `Null` when `self` is not an
    /// object or has no such member.
    pub open spec fn field(self, key: Seq<char>) -> JVal {
        match self {
            JVal::Obj(ms) => match lookup(ms, key) {
                Some(v) => v,
                None => JVal::Null,
            },
            _ => JVal::Null,
        }
    }

    /// Indexing by position: the element, or `Null` when `self` is not an
    /// array or is too short.
    pub open spec fn at(self, i: int) -> JVal {
        match self {
            JVal::Arr(s) => if 0 <= i < s.len() { s[i] } else { JVal::Null },
            _ => JVal::Null,
        }
    }

    /// The text of a JSON string.
    pub open spec fn as_str(self) -> Option<Seq<char>> {
        match self {
            JVal::Str(s) => Some(s),
            _ => None,
        }
    }

    /// The number of a non-negative JSON integer.
    pub open spec fn as_u64(self) -> Option<u64> {
        match self {
            JVal::UInt(n) => Some(n),
            _ => None,
        }
    }

    /// The value of a JSON boolean.
    pub open spec fn as_bool(self) -> Option<bool> {
        match self {
            JVal::Bool(b) => Some(b),
            _ => None,
        }
    }

    pub open spec fn as_arr(self) -> Option<Seq<JVal>> {
        match self {
            JVal::Arr(s) => Some(s),
            _ => None,
        }
    }

    /// Whether the value is a JSON object.
    pub open spec fn is_obj(self) -> bool {
        self is Obj
    }

    pub open spec fn is_null(self) -> bool {
        self is Null
    }

    /// Whether `self` is an object holding the member `key`.
    pub open spec fn has(self, key: Seq<char>) -> bool {
        match self {
            JVal::Obj(ms) => lookup(ms, key) is Some,
            _ => false,
        }
    }

    /// Assignment `self[key] = val` on an object (other values are left as they are).
    pub open spec fn with(self, key: Seq<char>, val: JVal) -> JVal {
        match self {
            JVal::Obj(ms) => JVal::Obj(members_set(ms, key, val)),
            _ => self,
        }
    }

    /// `self` without the member `key` (other values are left as they are).
    pub open spec fn without(self, key: Seq<char>) -> JVal {
        match self {
            JVal::Obj(ms) => JVal::Obj(members_remove(ms, key)),
            _ => self,
        }
    }
}

/// The model of a list has one model per value, each that value's.
pub proof fn lemma_jview_seq(s: Seq<Json>)
    ensures
        jview_seq(s).len() == s.len(),
        forall|i: int| 0 <= i < s.len() ==> #[trigger] jview_seq(s)[i] == jview(s[i]),
    decreases s.len(),
{
    if s.len() > 0 {
        lemma_jview_seq(s.drop_first());
        assert forall|i: int| 0 <= i < s.len() implies #[trigger] jview_seq(s)[i] == jview(s[i]) by {
            if i > 0 {
                assert(s.drop_first()[i - 1] == s[i]);
            }
        }
    }
}

/// The model of a member list has one entry per member, each that member's key text and value model.
pub proof fn lemma_jview_members(s: Seq<(String, Json)>)
    ensures
        jview_members(s).len() == s.len(),
        forall|i: int| 0 <= i < s.len() ==> #[trigger] jview_members(s)[i] == (s[i].0@, jview(s[i].1)),
    decreases s.len(),
{
    if s.len() > 0 {
        lemma_jview_members(s.drop_first());
        assert forall|i: int| 0 <= i < s.len() implies #[trigger] jview_members(s)[i] == (s[i].0@, jview(s[i].1)) by {
            if i > 0 {
                assert(s.drop_first()[i - 1] == s[i]);
            }
        }
    }
}

/// Appending a value appends its model.
pub proof fn lemma_jview_seq_push(s: Seq<Json>, x: Json)
    ensures
        jview_seq(s.push(x)) == jview_seq(s).push(jview(x)),
{
    lemma_jview_seq(s);
    lemma_jview_seq(s.push(x));
    assert(jview_seq(s.push(x)) =~= jview_seq(s).push(jview(x)));
}

/// Appending a member appends its model.
pub proof fn lemma_jview_members_push(s: Seq<(String, Json)>, k: String, x: Json)
    ensures
        jview_members(s.push((k, x))) == jview_members(s).push((k@, jview(x))),
{
    lemma_jview_members(s);
    lemma_jview_members(s.push((k, x)));
    assert(jview_members(s.push((k, x))) =~= jview_members(s).push((k@, jview(x))));
}

/// Lookup in a suffix that starts past every earlier match.
proof fn lemma_lookup_skip(ms: Seq<(Seq<char>, JVal)>, key: Seq<char>, i: int)
    requires
        0 <= i < ms.len(),
        ms[i].0 != key,
    ensures
        lookup(ms.subrange(i, ms.len() as int), key) == lookup(ms.subrange(i + 1, ms.len() as int), key),
{
    let t = ms.subrange(i, ms.len() as int);
    assert(t.drop_first() =~= ms.subrange(i + 1, ms.len() as int));
}

proof fn lemma_lookup_hit(ms: Seq<(Seq<char>, JVal)>, key: Seq<char>, i: int)
    requires
        0 <= i < ms.len(),
        ms[i].0 == key,
    ensures
        lookup(ms.subrange(i, ms.len() as int), key) == Some(ms[i].1),
{
}

/// A member with the key exists exactly when the lookup finds one.
pub proof fn lemma_lookup_has_key(ms: Seq<(Seq<char>, JVal)>, key: Seq<char>)
    ensures
        lookup(ms, key) is Some <==> has_key(ms, key),
    decreases ms.len(),
{
    if ms.len() > 0 {
        lemma_lookup_has_key(ms.drop_first(), key);
        if has_key(ms.drop_first(), key) {
            let j = choose|j: int| 0 <= j < ms.drop_first().len() && ms.drop_first()[j].0 == key;
            assert(ms[j + 1].0 == key);
        }
        if has_key(ms, key) && ms[0].0 != key {
            let j = choose|j: int| 0 <= j < ms.len() && ms[j].0 == key;
            assert(ms.drop_first()[j - 1].0 == key);
        }
    }
}

/// Looking a key up in two runs of members one after the other finds it in
/// the first run when it is there, else in the second.
pub proof fn lemma_lookup_concat(a: Seq<(Seq<char>, JVal)>, b: Seq<(Seq<char>, JVal)>, key: Seq<char>)
    ensures
        lookup(a + b, key) == (match lookup(a, key) {
            Some(v) => Some(v),
            None => lookup(b, key),
        }),
    decreases a.len(),
{
    if a.len() == 0 {
        assert(a + b =~= b);
    } else {
        assert((a + b)[0] == a[0]);
        assert((a + b).drop_first() =~= a.drop_first() + b);
        lemma_lookup_concat(a.drop_first(), b, key);
    }
}

/// Looking up a key that none of the first members carry.
pub proof fn lemma_lookup_past(a: Seq<(Seq<char>, JVal)>, b: Seq<(Seq<char>, JVal)>, key: Seq<char>)
    requires
        forall|i: int| 0 <= i < a.len() ==> (#[trigger] a[i]).0 != key,
    ensures
        lookup(a + b, key) == lookup(b, key),
{
    lemma_lookup_has_key(a, key);
    lemma_lookup_concat(a, b, key);
}

/// Key comparison for executable strings: character by character.
pub fn str_eq(a: &str, b: &str) -> (r: bool)
    ensures
        r == (a@ == b@),
{
    let x = crate::text::chars_of(a);
    let y = crate::text::chars_of(b);
    if x.len() != y.len() {
        return false;
    }
    let mut i: usize = 0;
    while i < x.len()
        invariant
            0 <= i <= x.len(),
            x.len() == y.len(),
            x@ == a@,
            y@ == b@,
            forall|k: int| 0 <= k < i ==> x@[k] == y@[k],
        decreases x.len() - i,
    {
        if x[i] != y[i] {
            return false;
        }
        i += 1;
    }
    proof {
        assert(x@ =~= y@);
    }
    true
}

impl Json {
    /// Member lookup (`Some` only for an object that holds the key).
    pub fn get<'a>(&'a self, key: &str) -> (r: Option<&'a Json>)
        ensures
            match r {
                Some(x) => self@.has(key@) && self@.field(key@) == x@,
                None => !self@.has(key@),
            },
    {
        match self {
            Json::Obj(ms) => {
                let ghost vm = jview_members(ms@);
                proof {
                    lemma_jview_members(ms@);
                    assert(vm.subrange(0, vm.len() as int) =~= vm);
                }
                let mut i: usize = 0;
                while i < ms.len()
                    invariant
                        0 <= i <= ms.len(),
                        vm == jview_members(ms@),
                        *self == Json::Obj(*ms),
                        vm.len() == ms@.len(),
                        forall|k: int| 0 <= k < ms@.len() ==> #[trigger] vm[k] == (ms@[k].0@, jview(ms@[k].1)),
                        lookup(vm, key@) == lookup(vm.subrange(i as int, vm.len() as int), key@),
                    decreases ms.len() - i,
                {
                    if str_eq(ms[i].0.as_str(), key) {
                        proof {
                            lemma_lookup_hit(vm, key@, i as int);
                            assert(*self == Json::Obj(*ms));
                            assert(jview(Json::Obj(*ms)) == JVal::Obj(jview_members(ms@)));
                            assert(self@ == JVal::Obj(vm));
                            assert(lookup(vm, key@) == Some(jview(ms@[i as int].1)));
                        }
                        return Some(&ms[i].1);
                    }
                    proof {
                        lemma_lookup_skip(vm, key@, i as int);
                    }
                    i += 1;
                }
                proof {
                    assert(vm.subrange(i as int, vm.len() as int).len() == 0);
                }
                None
            },
            _ => None,
        }
    }

    /// Positional access (`Some` only for an array long enough).
    pub fn at_index<'a>(&'a self, i: usize) -> (r: Option<&'a Json>)
        ensures
            match r {
                Some(x) => self@.at(i as int) == x@ && (self@ is Arr && i < self@->Arr_0.len()),
                None => !(self@ is Arr && i < self@->Arr_0.len()),
            },
    {
        match self {
            Json::Arr(v) => {
                proof {
                    lemma_jview_seq(v@);
                }
                if i < v.len() {
                    Some(&v[i])
                } else {
                    None
                }
            },
            _ => None,
        }
    }

    /// The text of a JSON string.
    pub fn as_str<'a>(&'a self) -> (r: Option<&'a str>)
        ensures
            match r {
                Some(s) => self@.as_str() == Some(s@),
                None => self@.as_str() is None,
            },
    {
        match self {
            Json::Str(s) => Some(s.as_str()),
            _ => None,
        }
    }

    /// The number of a non-negative JSON integer.
    pub fn as_u64(&self) -> (r: Option<u64>)
        ensures
            r == self@.as_u64(),
    {
        match self {
            Json::UInt(n) => Some(*n),
            _ => None,
        }
    }

    /// The value of a JSON boolean.
    pub fn as_bool(&self) -> (r: Option<bool>)
        ensures
            r == self@.as_bool(),
    {
        match self {
            Json::Bool(b) => Some(*b),
            _ => None,
        }
    }

    /// Whether the value is a JSON object.
    pub fn is_obj(&self) -> (r: bool)
        ensures
            r == self@.is_obj(),
    {
        match self {
            Json::Obj(_) => true,
            _ => false,
        }
    }

    /// A string value.
    pub fn string(s: &str) -> (r: Json)
        ensures
            r@ == JVal::Str(s@),
    {
        Json::Str(s.to_string())
    }

    /// A copy of `self`.
    pub fn deep_clone(&self) -> (r: Json)
        ensures
            r@ == self@,
        decreases self,
    {
        match self {
            Json::Null => Json::Null,
            Json::Bool(b) => Json::Bool(*b),
            Json::UInt(n) => Json::UInt(*n),
            Json::NegInt(n) => Json::NegInt(*n),
            Json::Float(s) => Json::Float(s.clone()),
            Json::Str(s) => Json::Str(s.clone()),
            Json::Arr(v) => {
                let mut out: Vec<Json> = Vec::new();
                let mut i: usize = 0;
                proof {
                    lemma_jview_seq(v@);
                }
                while i < v.len()
                    invariant
                        0 <= i <= v.len(),
                        jview_seq(out@) == jview_seq(v@).subrange(0, i as int),
                        *self == Json::Arr(*v),
                        jview_seq(v@).len() == v@.len(),
                        forall|k: int| 0 <= k < v@.len() ==> #[trigger] jview_seq(v@)[k] == jview(v@[k]),
                    decreases v.len() - i,
                {
                    proof {
                        vstd::std_specs::vec::axiom_vec_index_decreases(*v, i as int);
                        assert(decreases_to!(*self => (*self)->Arr_0));
                        assert(decreases_to!(*self => v[i as int]));
                    }
                    let c = v[i].deep_clone();
                    proof {
                        lemma_jview_seq_push(out@, c);
                        assert(jview_seq(v@).subrange(0, i + 1) =~= jview_seq(v@).subrange(0, i as int).push(jview(v@[i as int])));
                    }
                    out.push(c);
                    i += 1;
                }
                proof {
                    assert(jview_seq(v@).subrange(0, i as int) =~= jview_seq(v@));
                }
                Json::Arr(out)
            },
            Json::Obj(m) => {
                let mut out: Vec<(String, Json)> = Vec::new();
                let mut i: usize = 0;
                proof {
                    lemma_jview_members(m@);
                }
                while i < m.len()
                    invariant
                        0 <= i <= m.len(),
                        jview_members(out@) == jview_members(m@).subrange(0, i as int),
                        *self == Json::Obj(*m),
                        jview_members(m@).len() == m@.len(),
                        forall|k: int| 0 <= k < m@.len() ==> #[trigger] jview_members(m@)[k] == (m@[k].0@, jview(m@[k].1)),
                    decreases m.len() - i,
                {
                    proof {
                        vstd::std_specs::vec::axiom_vec_index_decreases(*m, i as int);
                        assert(decreases_to!(*self => (*self)->Obj_0));
                        assert(decreases_to!(m[i as int] => m[i as int].1));
                        assert(decreases_to!(*self => m[i as int].1));
                    }
                    let c = m[i].1.deep_clone();
                    let k = m[i].0.clone();
                    proof {
                        lemma_jview_members_push(out@, k, c);
                        assert(jview_members(m@).subrange(0, i + 1) =~= jview_members(m@).subrange(0, i as int).push((m@[i as int].0@, jview(m@[i as int].1))));
                    }
                    out.push((k, c));
                    i += 1;
                }
                proof {
                    assert(jview_members(m@).subrange(0, i as int) =~= jview_members(m@));
                }
                Json::Obj(out)
            },
        }
    }
}


/// The views of a sequence of strings.
pub open spec fn strs_view(v: Seq<String>) -> Seq<Seq<char>> {
    v.map_values(|x: String| x@)
}

/// An array of string values.
pub open spec fn str_arr(s: Seq<Seq<char>>) -> JVal {
    JVal::Arr(s.map_values(|x: Seq<char>| JVal::Str(x)))
}

/// An array of number values.
pub open spec fn num_arr(s: Seq<u16>) -> JVal {
    JVal::Arr(s.map_values(|x: u16| JVal::UInt(x as u64)))
}

/// An array of string values.
pub fn string_array(v: &Vec<String>) -> (r: Json)
    ensures
        r@ == str_arr(strs_view(v@)),
{
    let mut out: Vec<Json> = Vec::new();
    let mut i: usize = 0;
    while i < v.len()
        invariant
            0 <= i <= v.len(),
            jview_seq(out@) == strs_view(v@).subrange(0, i as int).map_values(|x: Seq<char>| JVal::Str(x)),
        decreases v.len() - i,
    {
        let e = Json::Str(v[i].clone());
        proof {
            lemma_jview_seq_push(out@, e);
            assert(strs_view(v@).subrange(0, i + 1).map_values(|x: Seq<char>| JVal::Str(x)) =~= strs_view(v@).subrange(0, i as int).map_values(|x: Seq<char>| JVal::Str(x)).push(JVal::Str(v@[i as int]@)));
        }
        out.push(e);
        i += 1;
    }
    proof {
        assert(strs_view(v@).subrange(0, i as int) =~= strs_view(v@));
    }
    Json::Arr(out)
}

/// An array of number values.
pub fn port_array(v: &Vec<u16>) -> (r: Json)
    ensures
        r@ == num_arr(v@),
{
    let mut out: Vec<Json> = Vec::new();
    let mut i: usize = 0;
    while i < v.len()
        invariant
            0 <= i <= v.len(),
            jview_seq(out@) == v@.subrange(0, i as int).map_values(|x: u16| JVal::UInt(x as u64)),
        decreases v.len() - i,
    {
        let e = Json::UInt(v[i] as u64);
        proof {
            lemma_jview_seq_push(out@, e);
            assert(v@.subrange(0, i + 1).map_values(|x: u16| JVal::UInt(x as u64)) =~= v@.subrange(0, i as int).map_values(|x: u16| JVal::UInt(x as u64)).push(JVal::UInt(v@[i as int] as u64)));
        }
        out.push(e);
        i += 1;
    }
    proof {
        assert(v@.subrange(0, i as int) =~= v@);
    }
    Json::Arr(out)
}

/// An object from its members.
pub open spec fn obj(ms: Seq<(Seq<char>, JVal)>) -> JVal {
    JVal::Obj(ms)
}

/// Incremental object construction: members are appended in order.
pub struct ObjBuilder {
    pub members: Vec<(String, Json)>,
}

impl ObjBuilder {
    /// The members so far.
    pub open spec fn view(&self) -> Seq<(Seq<char>, JVal)> {
        jview_members(self.members@)
    }

    /// An object with no members yet.
    pub fn new() -> (r: ObjBuilder)
        ensures
            r.view() == Seq::<(Seq<char>, JVal)>::empty(),
    {
        ObjBuilder { members: Vec::new() }
    }

    /// Appends a member.
    pub fn push(&mut self, key: &str, val: Json)
        ensures
            final(self).view() == old(self).view().push((key@, val@)),
    {
        let k = key.to_string();
        proof {
            lemma_jview_members_push(self.members@, k, val);
        }
        self.members.push((k, val));
    }

    /// The number of members so far.
    pub fn len(&self) -> (r: usize)
        ensures
            r == self.view().len(),
    {
        proof {
            lemma_jview_members(self.members@);
        }
        self.members.len()
    }

    /// The object of the members.
    pub fn build(self) -> (r: Json)
        ensures
            r@ == JVal::Obj(self.view()),
    {
        Json::Obj(self.members)
    }
}

/// Owned copies of string literals.
pub fn strings(items: Vec<&str>) -> (r: Vec<String>)
    ensures
        strs_view(r@) == items@.map_values(|s: &str| s@),
{
    let mut out: Vec<String> = Vec::new();
    let mut i: usize = 0;
    while i < items.len()
        invariant
            0 <= i <= items.len(),
            strs_view(out@) == items@.subrange(0, i as int).map_values(|s: &str| s@),
        decreases items.len() - i,
    {
        let x = items[i].to_string();
        proof {
            assert(strs_view(out@.push(x)) =~= strs_view(out@).push(x@));
            assert(items@.subrange(0, i + 1).map_values(|s: &str| s@) =~= items@.subrange(0, i as int).map_values(|s: &str| s@).push(items@[i as int]@));
        }
        out.push(x);
        i += 1;
    }
    proof {
        assert(items@.subrange(0, i as int) =~= items@);
    }
    out
}


impl Json {
    /// A copy of `self` without the member `key` (values other than objects are
    /// copied unchanged).
    pub fn without_key(&self, key: &str) -> (r: Json)
        ensures
            r@ == self@.without(key@),
    {
        match self {
            Json::Obj(ms) => {
                let ghost vm = jview_members(ms@);
                proof {
                    lemma_jview_members(ms@);
                }
                let mut out: Vec<(String, Json)> = Vec::new();
                let mut i: usize = 0;
                proof {
                    assert(vm.subrange(0, 0) =~= Seq::<(Seq<char>, JVal)>::empty());
                }
                while i < ms.len()
                    invariant
                        0 <= i <= ms.len(),
                        vm == jview_members(ms@),
                        *self == Json::Obj(*ms),
                        vm.len() == ms@.len(),
                        forall|k: int| 0 <= k < ms@.len() ==> #[trigger] vm[k] == (ms@[k].0@, jview(ms@[k].1)),
                        jview_members(out@) == members_remove_prefix(vm, key@, i as int),
                    decreases ms.len() - i,
                {
                    if !str_eq(ms[i].0.as_str(), key) {
                        let k = ms[i].0.clone();
                        let v = ms[i].1.deep_clone();
                        proof {
                            lemma_jview_members_push(out@, k, v);
                        }
                        out.push((k, v));
                    }
                    i += 1;
                }
                proof {
                    lemma_members_remove_prefix(vm, key@);
                    assert(self@ == JVal::Obj(vm));
                }
                Json::Obj(out)
            },
            _ => self.deep_clone(),
        }
    }
}

/// `members_remove` over the first `n` members.
pub open spec fn members_remove_prefix(ms: Seq<(Seq<char>, JVal)>, key: Seq<char>, n: int) -> Seq<(Seq<char>, JVal)>
    decreases n,
{
    if n <= 0 {
        Seq::empty()
    } else if ms[n - 1].0 == key {
        members_remove_prefix(ms, key, n - 1)
    } else {
        members_remove_prefix(ms, key, n - 1).push(ms[n - 1])
    }
}

proof fn lemma_members_remove_prefix(ms: Seq<(Seq<char>, JVal)>, key: Seq<char>)
    ensures
        members_remove_prefix(ms, key, ms.len() as int) == members_remove(ms, key),
    decreases ms.len(),
{
    if ms.len() > 0 {
        lemma_members_remove_prefix(ms.drop_first(), key);
        lemma_remove_prefix_shift(ms, key, ms.len() as int);
    }
}

/// Removing over a prefix of `ms` that starts at its first member.
proof fn lemma_remove_prefix_shift(ms: Seq<(Seq<char>, JVal)>, key: Seq<char>, n: int)
    requires
        1 <= n <= ms.len(),
    ensures
        members_remove_prefix(ms, key, n) == (if ms[0].0 == key { Seq::empty() } else { seq![ms[0]] })
            + members_remove_prefix(ms.drop_first(), key, n - 1),
    decreases n,
{
    if n > 1 {
        lemma_remove_prefix_shift(ms, key, n - 1);
        assert(ms.drop_first()[n - 2] == ms[n - 1]);
        let a = if ms[0].0 == key { Seq::<(Seq<char>, JVal)>::empty() } else { seq![ms[0]] };
        if ms[n - 1].0 != key {
            assert(a + members_remove_prefix(ms.drop_first(), key, n - 2).push(ms[n - 1]) =~= (a + members_remove_prefix(ms.drop_first(), key, n - 2)).push(ms[n - 1]));
        }
    } else {
        let a = if ms[0].0 == key { Seq::<(Seq<char>, JVal)>::empty() } else { seq![ms[0]] };
        assert(members_remove_prefix(ms, key, 0) =~= Seq::<(Seq<char>, JVal)>::empty());
        if ms[0].0 != key {
            assert(members_remove_prefix(ms, key, 1) =~= seq![ms[0]]);
        }
        assert(a + members_remove_prefix(ms.drop_first(), key, 0) =~= a);
    }
}

impl Json {
    /// `self[key].as_str()`, owned.
    pub fn str_at(&self, key: &str) -> (r: Option<String>)
        ensures
            crate::external::opt_view(r) == self@.field(key@).as_str(),
    {
        match self.get(key) {
            Some(v) => match v.as_str() {
                Some(s) => Some(s.to_string()),
                None => None,
            },
            None => None,
        }
    }

    /// `self[key].as_str()`, or `default`.
    pub fn str_at_or(&self, key: &str, default: &str) -> (r: String)
        ensures
            r@ == match self@.field(key@).as_str() {
                Some(s) => s,
                None => default@,
            },
    {
        match self.str_at(key) {
            Some(s) => s,
            None => default.to_string(),
        }
    }

    /// `self[key].as_u64()`.
    pub fn u64_at(&self, key: &str) -> (r: Option<u64>)
        ensures
            r == self@.field(key@).as_u64(),
    {
        match self.get(key) {
            Some(v) => v.as_u64(),
            None => None,
        }
    }

    /// `self[key].as_bool()`.
    pub fn bool_at(&self, key: &str) -> (r: Option<bool>)
        ensures
            r == self@.field(key@).as_bool(),
    {
        match self.get(key) {
            Some(v) => v.as_bool(),
            None => None,
        }
    }
}

/// The value of the member `key` of `entries` (the first such member).
pub fn lookup_entry<'a>(entries: &'a Vec<(String, Json)>, key: &str) -> (r: Option<&'a Json>)
    ensures
        match r {
            Some(x) => lookup(jview_members(entries@), key@) == Some(x@),
            None => lookup(jview_members(entries@), key@) is None,
        },
{
    let ghost vm = jview_members(entries@);
    proof {
        lemma_jview_members(entries@);
        assert(vm.subrange(0, vm.len() as int) =~= vm);
    }
    let mut i: usize = 0;
    while i < entries.len()
        invariant
            0 <= i <= entries.len(),
            vm == jview_members(entries@),
            vm.len() == entries@.len(),
            forall|k: int| 0 <= k < entries@.len() ==> #[trigger] vm[k] == (entries@[k].0@, jview(entries@[k].1)),
            lookup(vm, key@) == lookup(vm.subrange(i as int, vm.len() as int), key@),
        decreases entries.len() - i,
    {
        if str_eq(entries[i].0.as_str(), key) {
            proof {
                lemma_lookup_hit(vm, key@, i as int);
            }
            return Some(&entries[i].1);
        }
        proof {
            lemma_lookup_skip(vm, key@, i as int);
        }
        i += 1;
    }
    proof {
        assert(vm.subrange(i as int, vm.len() as int).len() == 0);
    }
    None
}

/// Structural equality of two values (objects compare member by member, in order).
pub fn json_eq(a: &Json, b: &Json) -> (r: bool)
    ensures
        r == (a@ == b@),
    decreases a,
{
    match (a, b) {
        (Json::Null, Json::Null) => true,
        (Json::Bool(x), Json::Bool(y)) => *x == *y,
        (Json::UInt(x), Json::UInt(y)) => *x == *y,
        (Json::NegInt(x), Json::NegInt(y)) => *x == *y,
        (Json::Float(x), Json::Float(y)) => str_eq(x.as_str(), y.as_str()),
        (Json::Str(x), Json::Str(y)) => str_eq(x.as_str(), y.as_str()),
        (Json::Arr(x), Json::Arr(y)) => {
            proof {
                lemma_jview_seq(x@);
                lemma_jview_seq(y@);
            }
            if x.len() != y.len() {
                return false;
            }
            let mut i: usize = 0;
            while i < x.len()
                invariant
                    0 <= i <= x.len(),
                    x.len() == y.len(),
                    *a == Json::Arr(*x),
                    *b == Json::Arr(*y),
                    jview_seq(x@).len() == x@.len(),
                    jview_seq(y@).len() == y@.len(),
                    forall|k: int| 0 <= k < x@.len() ==> #[trigger] jview_seq(x@)[k] == jview(x@[k]),
                    forall|k: int| 0 <= k < y@.len() ==> #[trigger] jview_seq(y@)[k] == jview(y@[k]),
                    forall|k: int| 0 <= k < i ==> jview_seq(x@)[k] == jview_seq(y@)[k],
                decreases x.len() - i,
            {
                proof {
                    vstd::std_specs::vec::axiom_vec_index_decreases(*x, i as int);
                    assert(decreases_to!(*a => (*a)->Arr_0));
                    assert(decreases_to!(*a => x[i as int]));
                }
                if !json_eq(&x[i], &y[i]) {
                    proof {
                        assert(jview_seq(x@)[i as int] != jview_seq(y@)[i as int]);
                    }
                    return false;
                }
                i += 1;
            }
            proof {
                assert(jview_seq(x@) =~= jview_seq(y@));
            }
            true
        },
        (Json::Obj(x), Json::Obj(y)) => {
            proof {
                lemma_jview_members(x@);
                lemma_jview_members(y@);
            }
            if x.len() != y.len() {
                return false;
            }
            let mut i: usize = 0;
            while i < x.len()
                invariant
                    0 <= i <= x.len(),
                    x.len() == y.len(),
                    *a == Json::Obj(*x),
                    *b == Json::Obj(*y),
                    jview_members(x@).len() == x@.len(),
                    jview_members(y@).len() == y@.len(),
                    forall|k: int| 0 <= k < x@.len() ==> #[trigger] jview_members(x@)[k] == (x@[k].0@, jview(x@[k].1)),
                    forall|k: int| 0 <= k < y@.len() ==> #[trigger] jview_members(y@)[k] == (y@[k].0@, jview(y@[k].1)),
                    forall|k: int| 0 <= k < i ==> jview_members(x@)[k] == jview_members(y@)[k],
                decreases x.len() - i,
            {
                proof {
                    vstd::std_specs::vec::axiom_vec_index_decreases(*x, i as int);
                    assert(decreases_to!(*a => (*a)->Obj_0));
                    assert(decreases_to!(x[i as int] => x[i as int].1));
                    assert(decreases_to!(*a => x[i as int].1));
                }
                if !str_eq(x[i].0.as_str(), y[i].0.as_str()) || !json_eq(&x[i].1, &y[i].1) {
                    proof {
                        assert(jview_members(x@)[i as int] != jview_members(y@)[i as int]);
                    }
                    return false;
                }
                i += 1;
            }
            proof {
                assert(jview_members(x@) =~= jview_members(y@));
            }
            true
        },
        _ => false,
    }
}

} // verus!

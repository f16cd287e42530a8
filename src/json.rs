use vstd::prelude::*;

verus! {

/// A JSON value as the engine reads and builds it. A number is kept as its
/// decimal text; an object keeps its members in the order they were written.
#[derive(Debug)]
pub enum Json {
    Null,
    Bool(bool),
    Number(String),
    Str(String),
    Array(Vec<Json>),
    Object(Vec<(String, Json)>),
}

/// The mathematical value of a [`Json`].
pub enum JsonModel {
    Null,
    Bool(bool),
    Number(Seq<char>),
    Str(Seq<char>),
    Array(Seq<JsonModel>),
    Object(Seq<(Seq<char>, JsonModel)>),
}

impl View for Json {
    type V = JsonModel;

    open spec fn view(&self) -> JsonModel {
        model_of(self)
    }
}

/// The model of a value, node by node.
pub open spec fn model_of(j: &Json) -> JsonModel
    decreases j,
{
    match j {
        Json::Null => JsonModel::Null,
        Json::Bool(b) => JsonModel::Bool(*b),
        Json::Number(t) => JsonModel::Number(t@),
        Json::Str(s) => JsonModel::Str(s@),
        Json::Array(items) => JsonModel::Array(
            Seq::new(
                items@.len(),
                |i: int|
                    if 0 <= i < items@.len() {
                        model_of(&items@[i])
                    } else {
                        JsonModel::Null
                    },
            ),
        ),
        Json::Object(members) => JsonModel::Object(
            Seq::new(
                members@.len(),
                |i: int|
                    if 0 <= i < members@.len() {
                        (members@[i].0@, model_of(&members@[i].1))
                    } else {
                        (Seq::empty(), JsonModel::Null)
                    },
            ),
        ),
    }
}

/// The members of an object as key/value models.
pub type MembersModel = Seq<(Seq<char>, JsonModel)>;

/// Number of nodes of a value; the measure that recursion over templates descends on.
pub open spec fn size(v: JsonModel) -> nat
    decreases v,
{
    match v {
        JsonModel::Array(items) => 1 + size_items(items),
        JsonModel::Object(members) => 1 + size_members(members),
        _ => 1,
    }
}

pub open spec fn size_items(items: Seq<JsonModel>) -> nat
    decreases items,
{
    if items.len() == 0 {
        0
    } else {
        1 + size(items[0]) + size_items(items.drop_first())
    }
}

pub open spec fn size_members(members: MembersModel) -> nat
    decreases members,
{
    if members.len() == 0 {
        0
    } else {
        1 + size(members[0].1) + size_members(members.drop_first())
    }
}

/// The first member of `members` whose key is `key`.
pub open spec fn member(members: MembersModel, key: Seq<char>) -> Option<JsonModel>
    decreases members.len(),
{
    if members.len() == 0 {
        None
    } else if members[0].0 == key {
        Some(members[0].1)
    } else {
        member(members.drop_first(), key)
    }
}

/// A number is zero when no digit of its mantissa (the part before any
/// exponent) is a nonzero digit.
pub open spec fn number_is_zero(t: Seq<char>) -> bool {
    forall|i: int|
        0 <= i < t.len() && (forall|j: int| 0 <= j <= i ==> t[j] != 'e' && t[j] != 'E')
            ==> !('1' <= #[trigger] t[i] <= '9')
}

/// Truth of a value when a pipeline branches on it: `null` and `false` are
/// false, a number is true when nonzero, a string, array or object when non-empty.
pub open spec fn truthy(v: JsonModel) -> bool {
    match v {
        JsonModel::Null => false,
        JsonModel::Bool(b) => b,
        JsonModel::Number(t) => !number_is_zero(t),
        JsonModel::Str(s) => s.len() > 0,
        JsonModel::Array(items) => items.len() > 0,
        JsonModel::Object(members) => members.len() > 0,
    }
}

/// Whether the decimal text of a number denotes a nonzero value.
fn number_is_nonzero(t: &String) -> (r: bool)
    ensures
        r == !number_is_zero(t@),
{
    let n = t.as_str().unicode_len();
    let mut i: usize = 0;
    while i < n
        invariant
            n == t@.len(),
            i <= n,
            forall|k: int| 0 <= k < i ==> t@[k] != 'e' && t@[k] != 'E' && !('1' <= t@[k] <= '9'),
        decreases n - i,
    {
        let c = t.as_str().get_char(i);
        if c == 'e' || c == 'E' {
            assert(number_is_zero(t@)) by {
                assert forall|k: int|
                    0 <= k < t@.len() && (forall|j: int| 0 <= j <= k ==> t@[j] != 'e' && t@[j] != 'E')
                    implies !('1' <= #[trigger] t@[k] <= '9') by {
                    if k >= i {
                        assert(t@[i as int] == c);
                    }
                }
            }
            return false;
        }
        if '1' <= c && c <= '9' {
            assert(!number_is_zero(t@)) by {
                assert(forall|j: int| 0 <= j <= i ==> t@[j] != 'e' && t@[j] != 'E');
                assert('1' <= t@[i as int] <= '9');
            }
            return true;
        }
        i = i + 1;
    }
    false
}

/// Whether two texts are the same sequence of characters.
pub fn same_text(a: &str, b: &str) -> (r: bool)
    ensures
        r == (a@ == b@),
{
    let n = a.unicode_len();
    if n != b.unicode_len() {
        return false;
    }
    let mut i: usize = 0;
    while i < n
        invariant
            n == a@.len(),
            n == b@.len(),
            i <= n,
            a@.subrange(0, i as int) == b@.subrange(0, i as int),
        decreases n - i,
    {
        if a.get_char(i) != b.get_char(i) {
            return false;
        }
        assert(a@.subrange(0, i + 1) =~= a@.subrange(0, i as int).push(a@[i as int]));
        assert(b@.subrange(0, i + 1) =~= b@.subrange(0, i as int).push(b@[i as int]));
        i = i + 1;
    }
    assert(a@ =~= a@.subrange(0, n as int));
    assert(b@ =~= b@.subrange(0, n as int));
    true
}

impl Json {
    /// Truth of this value when a pipeline branches on it.
    pub fn is_truthy(&self) -> (r: bool)
        ensures
            r == truthy(self@),
    {
        match self {
            Json::Null => false,
            Json::Bool(b) => *b,
            Json::Number(t) => number_is_nonzero(t),
            Json::Str(s) => s.as_str().unicode_len() > 0,
            Json::Array(items) => items.len() > 0,
            Json::Object(members) => members.len() > 0,
        }
    }

    /// The value of the first member named `key`, if this is an object that has one.
    pub fn get(&self, key: &str) -> (r: Option<&Json>)
        ensures
            match self@ {
                JsonModel::Object(ms) => match member(ms, key@) {
                    Some(v) => r is Some && r->0@ == v,
                    None => r is None,
                },
                _ => r is None,
            },
    {
        match self {
            Json::Object(members) => member_of(members, key),
            _ => None,
        }
    }
}

/// The models of a list of values.
pub open spec fn values_model(v: Vec<Json>) -> Seq<JsonModel> {
    Json::Array(v)@->Array_0
}

/// The models of a list of members.
pub open spec fn members_model(v: Vec<(String, Json)>) -> MembersModel {
    Json::Object(v)@->Object_0
}

/// The value of the first member named `key`.
pub fn member_of<'a>(members: &'a Vec<(String, Json)>, key: &str) -> (r: Option<&'a Json>)
    ensures
        match member(members_model(*members), key@) {
            Some(v) => r is Some && r->0@ == v,
            None => r is None,
        },
{
    let ghost ms = members_model(*members);
    let mut i: usize = 0;
    assert(ms.subrange(0, ms.len() as int) =~= ms);
    while i < members.len()
        invariant
            i <= members@.len(),
            ms == members_model(*members),
            ms.len() == members@.len(),
            forall|k: int| 0 <= k < members@.len() ==> #[trigger] ms[k] == (members@[k].0@, members@[k].1@),
            member(ms, key@) == member(ms.subrange(i as int, ms.len() as int), key@),
        decreases members.len() - i,
    {
        let ghost rest = ms.subrange(i as int, ms.len() as int);
        assert(rest.drop_first() =~= ms.subrange(i + 1, ms.len() as int));
        assert(rest[0] == ms[i as int]);
        if same_text(members[i].0.as_str(), key) {
            assert(ms[i as int] == (members@[i as int].0@, members@[i as int].1@));
            assert(member(rest, key@) == Some(ms[i as int].1));
            return Some(&members[i].1);
        }
        i = i + 1;
    }
    None
}

/// A deep copy of a list of values.
pub fn copy_values(vs: &Vec<Json>) -> (r: Vec<Json>)
    ensures
        values_model(r) == values_model(*vs),
{
    let mut out: Vec<Json> = Vec::new();
    let mut i: usize = 0;
    while i < vs.len()
        invariant
            i <= vs@.len(),
            out@.len() == i,
            forall|k: int| 0 <= k < i ==> #[trigger] out@[k]@ == vs@[k]@,
        decreases vs.len() - i,
    {
        out.push(vs[i].duplicate());
        i = i + 1;
    }
    assert forall|k: int| 0 <= k < out@.len() implies values_model(out)[k] == values_model(*vs)[k] by {
        assert(values_model(out)[k] == out@[k]@);
        assert(values_model(*vs)[k] == vs@[k]@);
    }
    assert(values_model(out) =~= values_model(*vs));
    out
}

/// Each element is smaller than the list it stands in.
pub proof fn lemma_item_size(items: Seq<JsonModel>, i: int)
    requires
        0 <= i < items.len(),
    ensures
        size(items[i]) < size_items(items),
    decreases i,
{
    if i > 0 {
        lemma_item_size(items.drop_first(), i - 1);
    }
}

/// Each member's value is smaller than the list it stands in.
pub proof fn lemma_member_size(ms: MembersModel, i: int)
    requires
        0 <= i < ms.len(),
    ensures
        size(ms[i].1) < size_members(ms),
    decreases i,
{
    if i > 0 {
        lemma_member_size(ms.drop_first(), i - 1);
    }
}

impl Clone for Json {
    fn clone(&self) -> (r: Json)
        ensures
            r@ == self@,
    {
        self.duplicate()
    }
}

impl Json {
    /// A deep copy of this value.
    pub fn duplicate(&self) -> (r: Json)
        ensures
            r@ == self@,
        decreases self,
    {
        match self {
            Json::Null => Json::Null,
            Json::Bool(b) => Json::Bool(*b),
            Json::Number(t) => Json::Number(t.clone()),
            Json::Str(t) => Json::Str(t.clone()),
            Json::Array(items) => {
                let mut out: Vec<Json> = Vec::new();
                let mut i: usize = 0;
                while i < items.len()
                    invariant
                        *self == Json::Array(*items),
                        decreases_to!(*self => *items),
                        i <= items@.len(),
                        out@.len() == i,
                        forall|k: int| 0 <= k < i ==> #[trigger] out@[k]@ == items@[k]@,
                    decreases items.len() - i,
                {
                    let c = items[i].duplicate();
                    out.push(c);
                    i = i + 1;
                }
                let r = Json::Array(out);
                assert forall|k: int| 0 <= k < out@.len() implies r@->Array_0[k] == self@->Array_0[k] by {
                    assert(r@->Array_0[k] == out@[k]@);
                    assert(self@->Array_0[k] == items@[k]@);
                }
                assert(r@->Array_0 =~= self@->Array_0);
                r
            },
            Json::Object(members) => {
                let mut out: Vec<(String, Json)> = Vec::new();
                let mut i: usize = 0;
                while i < members.len()
                    invariant
                        *self == Json::Object(*members),
                        decreases_to!(*self => *members),
                        i <= members@.len(),
                        out@.len() == i,
                        forall|k: int|
                            0 <= k < i ==> (#[trigger] out@[k]).0@ == members@[k].0@ && out@[k].1@
                                == members@[k].1@,
                    decreases members.len() - i,
                {
                    let key = members[i].0.clone();
                    let value = members[i].1.duplicate();
                    out.push((key, value));
                    i = i + 1;
                }
                let r = Json::Object(out);
                assert forall|k: int| 0 <= k < out@.len() implies r@->Object_0[k] == self@->Object_0[k] by {
                    assert(r@->Object_0[k] == (out@[k].0@, out@[k].1@));
                    assert(self@->Object_0[k] == (members@[k].0@, members@[k].1@));
                }
                assert(r@->Object_0 =~= self@->Object_0);
                r
            },
        }
    }

    /// Structural equality of two values.
    pub fn same_as(&self, other: &Json) -> (r: bool)
        ensures
            r == (self@ == other@),
        decreases self,
    {
        match (self, other) {
            (Json::Null, Json::Null) => true,
            (Json::Bool(a), Json::Bool(b)) => *a == *b,
            (Json::Number(a), Json::Number(b)) => same_text(a.as_str(), b.as_str()),
            (Json::Str(a), Json::Str(b)) => same_text(a.as_str(), b.as_str()),
            (Json::Array(a), Json::Array(b)) => {
                if a.len() != b.len() {
                    assert(self@->Array_0.len() != other@->Array_0.len());
                    return false;
                }
                let mut i: usize = 0;
                while i < a.len()
                    invariant
                        i <= a@.len(),
                        a@.len() == b@.len(),
                        *self == Json::Array(*a),
                        *other == Json::Array(*b),
                        forall|k: int| 0 <= k < i ==> #[trigger] a@[k]@ == b@[k]@,
                    decreases a.len() - i,
                {
                    if !a[i].same_as(&b[i]) {
                        assert(self@->Array_0[i as int] != other@->Array_0[i as int]);
                        return false;
                    }
                    i = i + 1;
                }
                assert forall|k: int| 0 <= k < a@.len() implies self@->Array_0[k] == other@->Array_0[k] by {
                    assert(self@->Array_0[k] == a@[k]@);
                    assert(other@->Array_0[k] == b@[k]@);
                }
                assert(self@->Array_0 =~= other@->Array_0);
                true
            },
            (Json::Object(a), Json::Object(b)) => {
                if a.len() != b.len() {
                    assert(self@->Object_0.len() != other@->Object_0.len());
                    return false;
                }
                let mut i: usize = 0;
                while i < a.len()
                    invariant
                        i <= a@.len(),
                        a@.len() == b@.len(),
                        *self == Json::Object(*a),
                        *other == Json::Object(*b),
                        forall|k: int|
                            0 <= k < i ==> (#[trigger] a@[k]).0@ == b@[k].0@ && a@[k].1@ == b@[k].1@,
                    decreases a.len() - i,
                {
                    if !same_text(a[i].0.as_str(), b[i].0.as_str()) {
                        assert(self@->Object_0[i as int] != other@->Object_0[i as int]);
                        return false;
                    }
                    if !a[i].1.same_as(&b[i].1) {
                        assert(self@->Object_0[i as int] != other@->Object_0[i as int]);
                        return false;
                    }
                    i = i + 1;
                }
                assert forall|k: int| 0 <= k < a@.len() implies self@->Object_0[k] == other@->Object_0[k] by {
                    assert(self@->Object_0[k] == (a@[k].0@, a@[k].1@));
                    assert(other@->Object_0[k] == (b@[k].0@, b@[k].1@));
                }
                assert(self@->Object_0 =~= other@->Object_0);
                true
            },
            _ => false,
        }
    }
}

impl PartialEq for Json {
    fn eq(&self, other: &Json) -> (r: bool)
        ensures
            r == (self@ == other@),
    {
        self.same_as(other)
    }
}

impl vstd::std_specs::cmp::PartialEqSpecImpl for Json {
    open spec fn obeys_eq_spec() -> bool {
        true
    }

    open spec fn eq_spec(&self, other: &Json) -> bool {
        self@ == other@
    }
}

} // verus!

use vstd::prelude::*;
use vstd::string::StringExecFns;

verus! {

/// Mathematical model of a structured value: the tree that a [`Value`] denotes.
pub enum Json {
    Null,
    Bool(bool),
    Number(Seq<char>),
    Text(Seq<char>),
    Array(Seq<Json>),
    Object(Seq<JsonMember>),
}

/// Mathematical model of one named member of an object.
pub struct JsonMember {
    pub key: Seq<char>,
    pub value: Json,
}

/// The members of an object as the model sees them.
pub open spec fn members_view(members: Seq<Member>) -> Seq<JsonMember> {
    Seq::new(members.len(), |i: int| members[i]@)
}

/// The index of the first member named `key`, if there is one.
pub open spec fn first_index(members: Seq<JsonMember>, key: Seq<char>) -> Option<int>
    decreases members.len(),
{
    if members.len() == 0 {
        None
    } else {
        match first_index(members.drop_last(), key) {
            Some(i) => Some(i),
            None => if members.last().key == key {
                Some(members.len() - 1)
            } else {
                None
            },
        }
    }
}

/// `members` with `member` stored under its key: in place of the first member of that
/// name, or at the end where no member has it.
pub open spec fn put(members: Seq<JsonMember>, member: JsonMember) -> Seq<JsonMember> {
    match first_index(members, member.key) {
        Some(i) => members.update(i, member),
        None => members.push(member),
    }
}

/// `base` after every member of `patch` has been stored into it, first to last.
pub open spec fn merge_members(base: Seq<JsonMember>, patch: Seq<JsonMember>) -> Seq<JsonMember>
    decreases patch.len(),
{
    if patch.len() == 0 {
        base
    } else {
        put(merge_members(base, patch.drop_last()), patch.last())
    }
}

impl Json {
    /// The value of the first member named `key`; `None` where `self` is no object or
    /// has no such member.
    pub open spec fn get(self, key: Seq<char>) -> Option<Json> {
        match self {
            Json::Object(members) => match first_index(members, key) {
                Some(i) => Some(members[i].value),
                None => None,
            },
            _ => None,
        }
    }

    /// The boolean that `self` is, if it is one.
    pub open spec fn as_bool(self) -> Option<bool> {
        match self {
            Json::Bool(b) => Some(b),
            _ => None,
        }
    }

    /// `self` overlaid with `other`: two objects merge member by member, the members of
    /// `other` winning; in every other case `other` replaces `self`.
    pub open spec fn merge(self, other: Json) -> Json {
        match (self, other) {
            (Json::Object(base), Json::Object(patch)) => Json::Object(merge_members(base, patch)),
            _ => other,
        }
    }
}

/// What `first_index` finds, said without recursion.
pub proof fn lemma_first_index(members: Seq<JsonMember>, key: Seq<char>)
    ensures
        match first_index(members, key) {
            Some(i) => 0 <= i < members.len() && members[i].key == key && forall|j: int|
                0 <= j < i ==> members[j].key != key,
            None => forall|j: int| 0 <= j < members.len() ==> members[j].key != key,
        },
    decreases members.len(),
{
    if members.len() > 0 {
        let front = members.drop_last();
        lemma_first_index(front, key);
        assert(forall|j: int| 0 <= j < front.len() ==> front[j] == members[j]);
    }
}

/// The view of an object is the view of its members.
pub proof fn lemma_object_view(members: Vec<Member>)
    ensures
        Value::Object(members)@ == Json::Object(members_view(members@)),
{
    assert(Value::Object(members)@->Object_0 =~= members_view(members@));
}

/// A structured value as it travels through the engine.
#[derive(Debug, PartialEq, Eq)]
pub enum Value {
    Null,
    Bool(bool),
    /// A number, kept as the literal that denotes it.
    Number(String),
    Text(String),
    Array(Vec<Value>),
    /// An object: its members in their order. Where several members share a name, the
    /// first one is the one that is found.
    Object(Vec<Member>),
}

/// One named member of an object.
#[derive(Debug, PartialEq, Eq)]
pub struct Member {
    pub key: String,
    pub value: Value,
}

impl View for Member {
    type V = JsonMember;

    open spec fn view(&self) -> JsonMember
        decreases self,
    {
        JsonMember { key: self.key@, value: self.value.view() }
    }
}

impl View for Value {
    type V = Json;

    open spec fn view(&self) -> Json
        decreases self,
    {
        match self {
            Value::Null => Json::Null,
            Value::Bool(b) => Json::Bool(*b),
            Value::Number(n) => Json::Number(n@),
            Value::Text(t) => Json::Text(t@),
            Value::Array(items) => Json::Array(
                Seq::new(
                    items@.len(),
                    |i: int|
                        if 0 <= i < items@.len() {
                            items@[i].view()
                        } else {
                            Json::Null
                        },
                ),
            ),
            Value::Object(members) => Json::Object(
                Seq::new(
                    members@.len(),
                    |i: int|
                        if 0 <= i < members@.len() {
                            members@[i].view()
                        } else {
                            JsonMember { key: Seq::empty(), value: Json::Null }
                        },
                ),
            ),
        }
    }
}

impl Clone for Value {
    fn clone(&self) -> (copy: Value)
        ensures
            copy@ == self@,
    {
        self.deep_copy()
    }
}

impl Clone for Member {
    fn clone(&self) -> (copy: Member)
        ensures
            copy@ == self@,
    {
        Member { key: self.key.clone(), value: self.value.deep_copy() }
    }
}

impl Value {
    /// Whether the value is an object.
    pub fn is_object(&self) -> (b: bool)
        ensures
            b == (self@ is Object),
    {
        match self {
            Value::Object(_) => true,
            _ => false,
        }
    }

    /// The boolean that the value is, if it is one.
    pub fn as_bool(&self) -> (b: Option<bool>)
        ensures
            b == self@.as_bool(),
    {
        match self {
            Value::Bool(b) => Some(*b),
            _ => None,
        }
    }

    /// The value of the first member named `key`.
    pub fn get(&self, key: &str) -> (found: Option<&Value>)
        ensures
            match found {
                Some(v) => self@.get(key@) == Some(v@),
                None => self@.get(key@) is None,
            },
    {
        match self {
            Value::Object(members) => {
                proof {
                    lemma_object_view(*members);
                }
                let name = String::from_str(key);
                match position(members, &name) {
                    Some(i) => Some(&members[i].value),
                    None => None,
                }
            },
            _ => None,
        }
    }

    /// `self` overlaid with `other`, in a value of its own.
    pub fn merge(&self, other: &Value) -> (merged: Value)
        ensures
            merged@ == self@.merge(other@),
    {
        match (self, other) {
            (Value::Object(base), Value::Object(patch)) => {
                proof {
                    lemma_object_view(*base);
                    lemma_object_view(*patch);
                }
                let mut out = copy_members(base);
                let mut i: usize = 0;
                while i < patch.len()
                    invariant
                        i <= patch.len(),
                        members_view(out@) == merge_members(
                            members_view(base@),
                            members_view(patch@).take(i as int),
                        ),
                    decreases patch.len() - i,
                {
                    let member = Member {
                        key: patch[i].key.clone(),
                        value: patch[i].value.deep_copy(),
                    };
                    proof {
                        let done = members_view(patch@).take(i as int);
                        let next = members_view(patch@).take(i + 1);
                        assert(next.drop_last() =~= done);
                        assert(next.last() == member@);
                        lemma_first_index(members_view(out@), member.key@);
                    }
                    let ghost before = members_view(out@);
                    match position(&out, &member.key) {
                        Some(at) => {
                            out.set(at, member);
                            assert(members_view(out@) =~= before.update(at as int, member@));
                        },
                        None => {
                            out.push(member);
                            assert(members_view(out@) =~= before.push(member@));
                        },
                    }
                    i += 1;
                }
                assert(members_view(patch@).take(patch.len() as int) =~= members_view(patch@));
                proof {
                    lemma_object_view(out);
                }
                Value::Object(out)
            },
            _ => other.deep_copy(),
        }
    }

    /// A value of its own that denotes what `self` denotes.
    pub fn deep_copy(&self) -> (copy: Value)
        ensures
            copy@ == self@,
        decreases self,
    {
        match self {
            Value::Null => Value::Null,
            Value::Bool(b) => Value::Bool(*b),
            Value::Number(n) => Value::Number(n.clone()),
            Value::Text(t) => Value::Text(t.clone()),
            Value::Array(items) => {
                let mut out: Vec<Value> = Vec::new();
                let mut i: usize = 0;
                while i < items.len()
                    invariant
                        decreases_to!(self => *items),
                        i <= items.len(),
                        out.len() == i,
                        forall|j: int| 0 <= j < i ==> (#[trigger] out@[j])@ == items@[j]@,
                    decreases items.len() - i,
                {
                    assert(decreases_to!(*items => items@[i as int]));
                    out.push(items[i].deep_copy());
                    i += 1;
                }
                let copy = Value::Array(out);
                assert(copy@->Array_0 =~= self@->Array_0);
                copy
            },
            Value::Object(members) => {
                let mut out: Vec<Member> = Vec::new();
                let mut i: usize = 0;
                while i < members.len()
                    invariant
                        decreases_to!(self => *members),
                        i <= members.len(),
                        out.len() == i,
                        forall|j: int| 0 <= j < i ==> (#[trigger] out@[j])@ == members@[j]@,
                    decreases members.len() - i,
                {
                    assert(decreases_to!(*members => members@[i as int]));
                    let member = &members[i];
                    out.push(Member { key: member.key.clone(), value: member.value.deep_copy() });
                    i += 1;
                }
                let copy = Value::Object(out);
                assert(copy@->Object_0 =~= self@->Object_0);
                copy
            },
        }
    }
}

/// The index of the first member of `members` named `key`.
fn position(members: &Vec<Member>, key: &String) -> (found: Option<usize>)
    ensures
        match found {
            Some(i) => i < members.len() && first_index(members_view(members@), key@) == Some(
                i as int,
            ),
            None => first_index(members_view(members@), key@) is None,
        },
{
    proof {
        lemma_first_index(members_view(members@), key@);
    }
    let mut i: usize = 0;
    while i < members.len()
        invariant
            i <= members.len(),
            forall|j: int| 0 <= j < i ==> (#[trigger] members_view(members@)[j]).key != key@,
        decreases members.len() - i,
    {
        if members[i].key == *key {
            proof {
                assert(members_view(members@)[i as int].key == key@);
                lemma_first_index(members_view(members@), key@);
            }
            return Some(i);
        }
        i += 1;
    }
    None
}

/// The members of `members`, each in a copy of its own.
fn copy_members(members: &Vec<Member>) -> (copy: Vec<Member>)
    ensures
        members_view(copy@) == members_view(members@),
{
    let mut out: Vec<Member> = Vec::new();
    let mut i: usize = 0;
    while i < members.len()
        invariant
            i <= members.len(),
            out.len() == i,
            forall|j: int| 0 <= j < i ==> (#[trigger] out@[j])@ == members@[j]@,
        decreases members.len() - i,
    {
        out.push(Member { key: members[i].key.clone(), value: members[i].value.deep_copy() });
        i += 1;
    }
    assert(members_view(out@) =~= members_view(members@));
    out
}

} // verus!

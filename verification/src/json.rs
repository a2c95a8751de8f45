//! A plain JSON value, as exchanged with tools and models.

use vstd::prelude::*;

verus! {

/// A JSON value. Object members keep the order they were given in.
#[derive(Debug)]
pub enum Json {
    Null,
    Bool(bool),
    /// A number, held as its JSON text.
    Number(String),
    Str(String),
    Array(Vec<Json>),
    Object(Vec<(String, Json)>),
}

/// The mathematical value of a JSON document.
pub enum JsonV {
    Null,
    Bool(bool),
    Number(Seq<char>),
    Str(Seq<char>),
    Array(Seq<JsonV>),
    Object(Seq<(Seq<char>, JsonV)>),
}

/// The value a [`Json`] denotes.
pub open spec fn json_view(j: Json) -> JsonV
    decreases j, 0int,
{
    match j {
        Json::Null => JsonV::Null,
        Json::Bool(b) => JsonV::Bool(b),
        Json::Number(n) => JsonV::Number(n@),
        Json::Str(s) => JsonV::Str(s@),
        Json::Array(items) => JsonV::Array(items_view(items@)),
        Json::Object(members) => JsonV::Object(members_view(members@)),
    }
}

/// The values of a sequence of JSON items.
pub open spec fn items_view(items: Seq<Json>) -> Seq<JsonV>
    decreases items, 1int,
{
    if items.len() == 0 {
        Seq::empty()
    } else {
        items_view(items.drop_last()).push(json_view(items.last()))
    }
}

/// The values of a sequence of object members.
pub open spec fn members_view(members: Seq<(String, Json)>) -> Seq<(Seq<char>, JsonV)>
    decreases members, 1int,
{
    if members.len() == 0 {
        Seq::empty()
    } else {
        members_view(members.drop_last()).push(
            (members.last().0@, json_view(members.last().1)),
        )
    }
}

impl View for Json {
    type V = JsonV;

    open spec fn view(&self) -> JsonV {
        json_view(*self)
    }
}

impl JsonV {
    /// The member `key` of an object, if present (the first one when repeated).
    pub open spec fn get(self, key: Seq<char>) -> Option<JsonV> {
        match self {
            JsonV::Object(members) => {
                if exists|i: int| 0 <= i < members.len() && members[i].0 == key {
                    let i = choose|i: int|
                        0 <= i < members.len() && members[i].0 == key && forall|j: int|
                            0 <= j < i ==> members[j].0 != key;
                    Some(members[i].1)
                } else {
                    None
                }
            },
            _ => None,
        }
    }
}

/// Exact copy of a JSON value.
pub fn clone_json(v: &Json) -> (r: Json)
    ensures
        r@ == v@,
    decreases v,
{
    match v {
        Json::Null => Json::Null,
        Json::Bool(b) => Json::Bool(*b),
        Json::Number(n) => Json::Number(n.clone()),
        Json::Str(s) => Json::Str(s.clone()),
        Json::Array(items) => {
            let mut out: Vec<Json> = Vec::new();
            let mut i: usize = 0;
            while i < items.len()
                invariant
                    *v == Json::Array(*items),
                    i <= items@.len(),
                    items_view(out@) == items_view(items@.take(i as int)),
                decreases items@.len() - i,
            {
                proof {
                    assert(decreases_to!(*items => items[i as int])) by {
                        broadcast use vstd::std_specs::vec::axiom_vec_index_decreases;
                    }
                    assert((*v)->Array_0 == *items);
                    assert(decreases_to!(*v => (*v)->Array_0));
                    assert(decreases_to!(*v => items[i as int]));
                }
                let c = clone_json(&items[i]);
                let ghost before = out@;
                out.push(c);
                assert(out@.drop_last() =~= before);
                assert(items@.take(i + 1).drop_last() =~= items@.take(i as int));
                i += 1;
            }
            assert(items@.take(items@.len() as int) =~= items@);
            Json::Array(out)
        },
        Json::Object(members) => {
            let mut out: Vec<(String, Json)> = Vec::new();
            let mut i: usize = 0;
            while i < members.len()
                invariant
                    *v == Json::Object(*members),
                    i <= members@.len(),
                    members_view(out@) == members_view(members@.take(i as int)),
                decreases members@.len() - i,
            {
                let (k, val) = &members[i];
                proof {
                    assert(decreases_to!(*members => members[i as int])) by {
                        broadcast use vstd::std_specs::vec::axiom_vec_index_decreases;
                    }
                    assert((*v)->Object_0 == *members);
                    assert(decreases_to!(*v => (*v)->Object_0));
                    assert(decreases_to!(members[i as int] => members[i as int].1));
                    assert(decreases_to!(*v => members[i as int].1));
                }
                let c = clone_json(val);
                let ghost before = out@;
                out.push((k.clone(), c));
                assert(out@.drop_last() =~= before);
                assert(members@.take(i + 1).drop_last() =~= members@.take(i as int));
                i += 1;
            }
            assert(members@.take(members@.len() as int) =~= members@);
            Json::Object(out)
        },
    }
}

/// Each member of a view is the view of the corresponding member.
pub proof fn lemma_members_view_index(members: Seq<(String, Json)>, i: int)
    requires
        0 <= i < members.len(),
    ensures
        members_view(members).len() == members.len(),
        members_view(members)[i] == (members[i].0@, json_view(members[i].1)),
    decreases members.len(),
{
    lemma_members_view_len(members);
    if i < members.len() - 1 {
        lemma_members_view_index(members.drop_last(), i);
    }
}

/// All members of a view are views of the members.
pub proof fn lemma_members_view_index_all(members: Seq<(String, Json)>)
    ensures
        members_view(members).len() == members.len(),
        forall|i: int|
            0 <= i < members.len() ==> #[trigger] members_view(members)[i] == (
                members[i].0@,
                json_view(members[i].1),
            ),
{
    lemma_members_view_len(members);
    assert forall|i: int| 0 <= i < members.len() implies #[trigger] members_view(members)[i] == (
        members[i].0@,
        json_view(members[i].1),
    ) by {
        lemma_members_view_index(members, i);
    }
}

/// A members view has one entry per member.
pub proof fn lemma_members_view_len(members: Seq<(String, Json)>)
    ensures
        members_view(members).len() == members.len(),
    decreases members.len(),
{
    if members.len() > 0 {
        lemma_members_view_len(members.drop_last());
    }
}

impl Json {
    /// The member `key` of an object (the first one when repeated), or `None`
    /// for a missing key or a non-object.
    pub fn get(&self, key: &str) -> (r: Option<&Json>)
        ensures
            match r {
                Some(v) => self@.get(key@) == Some(v@),
                None => self@.get(key@) is None,
            },
    {
        match self {
            Json::Object(members) => {
                let k = crate::text::chars_of(key);
                let mut i: usize = 0;
                while i < members.len()
                    invariant
                        *self == Json::Object(*members),
                        k@ == key@,
                        i <= members@.len(),
                        forall|j: int| 0 <= j < i ==> members@[j].0@ != key@,
                    decreases members@.len() - i,
                {
                    if crate::text::chars_eq(&crate::text::chars_of(members[i].0.as_str()), &k) {
                        proof {
                            lemma_members_view_index_all(members@);
                            let mv = members_view(members@);
                            assert(mv[i as int].0 == key@);
                            let c = choose|c: int|
                                0 <= c < mv.len() && mv[c].0 == key@ && forall|j: int|
                                    0 <= j < c ==> mv[j].0 != key@;
                            assert(c == i) by {
                                if c < i {
                                    assert(mv[c].0 == members@[c].0@);
                                }
                                if c > i {
                                    assert(mv[i as int].0 != key@);
                                }
                            }
                        }
                        return Some(&members[i].1);
                    }
                    i += 1;
                }
                proof {
                    lemma_members_view_index_all(members@);
                    let mv = members_view(members@);
                    assert forall|j: int| 0 <= j < mv.len() implies mv[j].0 != key@ by {
                        assert(mv[j].0 == members@[j].0@);
                    }
                }
                None
            },
            _ => None,
        }
    }

    /// The string content, when this is a string.
    pub fn as_str(&self) -> (r: Option<&String>)
        ensures
            match r {
                Some(s) => self@ == JsonV::Str(s@),
                None => !(self@ is Str),
            },
    {
        match self {
            Json::Str(s) => Some(s),
            _ => None,
        }
    }
}

/// Each item of a view is the view of the corresponding item.
pub proof fn lemma_items_view_index_all(items: Seq<Json>)
    ensures
        items_view(items).len() == items.len(),
        forall|i: int|
            0 <= i < items.len() ==> #[trigger] items_view(items)[i] == json_view(items[i]),
    decreases items.len(),
{
    if items.len() > 0 {
        lemma_items_view_index_all(items.drop_last());
    }
}

} // verus!

//! A JSON value stands for itself, and its members are found by their names.
use vstd::prelude::*;

use crate::json::{Json, JsonView, json_view, list_view, members_view};

verus! {

/// The member of an object is what stands under its name; an object has no member
/// of another name, and no other value has any.
pub proof fn law_members(m: Map<Seq<char>, JsonView>, v: JsonView, key: Seq<char>, x: JsonView)
    ensures
        m.dom().contains(key) ==> JsonView::Object(m).get(key) == Some(m[key]),
        !m.dom().contains(key) ==> JsonView::Object(m).get(key) is None,
        v !is Object ==> v.get(key) is None,
        v.get(key) matches Some(y) ==> v.at(key) == y,
        v.get(key) is None ==> v.at(key) == JsonView::Null,
        JsonView::object() == JsonView::Object(Map::empty()),
        JsonView::Object(m).with(key, x) == JsonView::Object(m.insert(key, x)),
        v !is Object ==> v.with(key, x) == v,
{
}

/// Setting a member sets that one and leaves the others.
pub proof fn law_set_member(
    m: Map<Seq<char>, JsonView>,
    key: Seq<char>,
    x: JsonView,
    other: Seq<char>,
)
    ensures
        JsonView::Object(m).with(key, x).get(key) == Some(x),
        other != key ==> JsonView::Object(m).with(key, x).get(other) == JsonView::Object(m).get(
            other,
        ),
{
}

/// A text is the text that it is, a number the number, and nothing else is either.
pub proof fn law_texts_and_numbers(v: JsonView)
    ensures
        v matches JsonView::Text(t) ==> v.as_text() == Some(t),
        v !is Text ==> v.as_text() is None,
        v matches JsonView::Number(n) ==> v.as_number() == Some(n),
        v !is Number ==> v.as_number() is None,
{
}

/// A row stands for what its items stand for, in order.
proof fn lemma_items(s: Seq<Json>)
    ensures
        list_view(s).len() == s.len(),
        forall|i: int| 0 <= i < s.len() ==> list_view(s)[i] == (#[trigger] s[i])@,
    decreases s.len(),
{
    if s.len() > 0 {
        let front = s.drop_last();
        lemma_items(front);
        assert forall|i: int| 0 <= i < s.len() implies list_view(s)[i] == (#[trigger] s[i])@ by {
            if i < front.len() {
                assert(front[i] == s[i]);
            }
        }
    }
}

/// A value stands for itself: null, truth, number and text for the same, and an
/// array for its items in order.
pub proof fn law_value_stands_for_itself(j: Json)
    ensures
        match j {
            Json::Null => j@ == JsonView::Null,
            Json::Bool(b) => j@ == JsonView::Bool(b),
            Json::Number(n) => j@ == JsonView::Number(n),
            Json::Text(s) => j@ == JsonView::Text(s@),
            Json::Array(v) => j@ matches JsonView::Array(items) && items.len() == v@.len()
                && forall|i: int| 0 <= i < v@.len() ==> items[i] == (#[trigger] v@[i])@,
            Json::Object(v) => j@ is Object,
        },
{
    match j {
        Json::Array(v) => {
            lemma_items(v@);
        },
        _ => {},
    }
}

/// A row of members holds the names in it and no others, and under each the last
/// value that the row gives it.
proof fn lemma_last_counts(s: Seq<(String, Json)>, i: int)
    requires
        0 <= i < s.len(),
        forall|j: int| i < j < s.len() ==> (#[trigger] s[j]).0@ != s[i].0@,
    ensures
        members_view(s).dom().contains(s[i].0@),
        members_view(s)[s[i].0@] == s[i].1@,
    decreases s.len(),
{
    if i < s.len() - 1 {
        let front = s.drop_last();
        assert forall|j: int| i < j < front.len() implies (#[trigger] front[j]).0@
            != front[i].0@ by {
            assert(front[j] == s[j]);
        }
        lemma_last_counts(front, i);
        assert(s[s.len() - 1].0@ != s[i].0@);
    }
}

/// A name that does not stand in a row of members is none of it.
proof fn lemma_no_member(s: Seq<(String, Json)>, key: Seq<char>)
    requires
        forall|j: int| 0 <= j < s.len() ==> (#[trigger] s[j]).0@ != key,
    ensures
        !members_view(s).dom().contains(key),
    decreases s.len(),
{
    if s.len() > 0 {
        let front = s.drop_last();
        assert forall|j: int| 0 <= j < front.len() implies (#[trigger] front[j]).0@ != key by {
            assert(front[j] == s[j]);
        }
        lemma_no_member(front, key);
        assert(s[s.len() - 1].0@ != key);
    }
}

/// A member of an object is the last that it holds under the name, and there is
/// none under a name that it does not hold.
pub proof fn law_last_member_counts(v: Vec<(String, Json)>, key: Seq<char>, i: int)
    ensures
        0 <= i < v@.len() && v@[i].0@ == key && (forall|j: int|
            i < j < v@.len() ==> (#[trigger] v@[j]).0@ != key) ==> Json::Object(v)@.get(key)
            == Some(v@[i].1@),
        (forall|j: int| 0 <= j < v@.len() ==> (#[trigger] v@[j]).0@ != key) ==> Json::Object(
            v,
        )@.get(key) is None,
{
    assert(json_view(Json::Object(v)) == JsonView::Object(members_view(v@)));
    if 0 <= i < v@.len() && v@[i].0@ == key && (forall|j: int|
        i < j < v@.len() ==> (#[trigger] v@[j]).0@ != key) {
        lemma_last_counts(v@, i);
    }
    if forall|j: int| 0 <= j < v@.len() ==> (#[trigger] v@[j]).0@ != key {
        lemma_no_member(v@, key);
    }
}

} // verus!

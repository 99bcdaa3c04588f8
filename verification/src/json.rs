//! JSON values: a plain type for them, and the way to and from text.
use vstd::prelude::*;

use crate::text::same_text;

verus! {

// ---- model --------------------------------------------------------------------

/// What a JSON value is. The members of an object have no order, and a name
/// stands for one member at most.
pub enum JsonView {
    Null,
    Bool(bool),
    Number(serde_json::Number),
    Text(Seq<char>),
    Array(Seq<JsonView>),
    Object(Map<Seq<char>, JsonView>),
}

impl JsonView {
    /// The member of an object with the given name; other values have none.
    pub open spec fn get(self, key: Seq<char>) -> Option<JsonView> {
        match self {
            JsonView::Object(m) => if m.dom().contains(key) {
                Some(m[key])
            } else {
                None
            },
            _ => None,
        }
    }

    /// The member with the given name, or null where there is none.
    pub open spec fn at(self, key: Seq<char>) -> JsonView {
        match self.get(key) {
            Some(v) => v,
            None => JsonView::Null,
        }
    }

    /// The text that the value is, if it is one.
    pub open spec fn as_text(self) -> Option<Seq<char>> {
        match self {
            JsonView::Text(s) => Some(s),
            _ => None,
        }
    }

    /// The number that the value is, if it is one.
    pub open spec fn as_number(self) -> Option<serde_json::Number> {
        match self {
            JsonView::Number(n) => Some(n),
            _ => None,
        }
    }

    /// The object without members.
    pub open spec fn object() -> JsonView {
        JsonView::Object(Map::empty())
    }

    /// The object with one member set.
    pub open spec fn with(self, key: Seq<char>, value: JsonView) -> JsonView {
        match self {
            JsonView::Object(m) => JsonView::Object(m.insert(key, value)),
            _ => self,
        }
    }
}

/// A JSON value. Where a name stands twice among the members of an object, the
/// later one counts.
pub enum Json {
    Null,
    Bool(bool),
    Number(serde_json::Number),
    Text(String),
    Array(Vec<Json>),
    Object(Vec<(String, Json)>),
}

/// What a JSON value stands for.
pub open spec fn json_view(j: Json) -> JsonView
    decreases j,
{
    match j {
        Json::Null => JsonView::Null,
        Json::Bool(b) => JsonView::Bool(b),
        Json::Number(n) => JsonView::Number(n),
        Json::Text(s) => JsonView::Text(s@),
        Json::Array(v) => JsonView::Array(list_view(v@)),
        Json::Object(v) => JsonView::Object(members_view(v@)),
    }
}

/// What a row of JSON values stands for.
pub open spec fn list_view(s: Seq<Json>) -> Seq<JsonView>
    decreases s,
{
    if s.len() == 0 {
        Seq::empty()
    } else {
        list_view(s.drop_last()).push(json_view(s.last()))
    }
}

/// What a row of members stands for.
pub open spec fn members_view(s: Seq<(String, Json)>) -> Map<Seq<char>, JsonView>
    decreases s,
{
    if s.len() == 0 {
        Map::empty()
    } else {
        members_view(s.drop_last()).insert(s.last().0@, json_view(s.last().1))
    }
}

impl View for Json {
    type V = JsonView;

    open spec fn view(&self) -> JsonView {
        json_view(*self)
    }
}

// ---- outside values -----------------------------------------------------------

/// `serde_json::Value`, a JSON value of that crate.
#[verifier::external_type_specification]
#[verifier::external_body]
pub struct ExValue(serde_json::Value);

/// `serde_json::Number`, a JSON number of that crate.
#[verifier::external_type_specification]
#[verifier::external_body]
pub struct ExNumber(serde_json::Number);

/// `serde_json::Map`, the members of a JSON object of that crate.
#[verifier::external_type_specification]
#[verifier::external_body]
#[verifier::reject_recursive_types(K)]
#[verifier::reject_recursive_types(V)]
pub struct ExMembers<K, V>(serde_json::Map<K, V>);

/// What a `serde_json::Value` holds.
pub uninterp spec fn value_json(v: serde_json::Value) -> JsonView;

/// What a `serde_json::Map` holds.
pub uninterp spec fn members_json(m: serde_json::Map<String, serde_json::Value>) -> Map<
    Seq<char>,
    JsonView,
>;

/// The value that `serde_json::from_str` reads from a text, if it reads one.
pub uninterp spec fn text_json(text: Seq<char>) -> Option<JsonView>;

/// The text in which `serde_json` writes a value.
pub uninterp spec fn json_text(value: JsonView) -> Seq<char>;

/// The number that `serde_json::Number::from` makes of an integer.
pub uninterp spec fn integer_number(i: i64) -> serde_json::Number;

/// One level of a `serde_json::Value`: its variants, with what they hold.
pub enum ValueParts {
    Null,
    Bool(bool),
    Number(serde_json::Number),
    Text(String),
    Array(Vec<serde_json::Value>),
    Object(serde_json::Map<String, serde_json::Value>),
}

/// What a row of outside values holds.
pub open spec fn values_json(s: Seq<serde_json::Value>) -> Seq<JsonView> {
    s.map_values(|v: serde_json::Value| value_json(v))
}

/// What a row of members with outside values holds, the later of two of the
/// same name.
pub open spec fn pairs_json(s: Seq<(String, serde_json::Value)>) -> Map<Seq<char>, JsonView>
    decreases s.len(),
{
    if s.len() == 0 {
        Map::empty()
    } else {
        pairs_json(s.drop_last()).insert(s.last().0@, value_json(s.last().1))
    }
}

/// What one level of an outside value holds.
pub open spec fn parts_json(p: ValueParts) -> JsonView {
    match p {
        ValueParts::Null => JsonView::Null,
        ValueParts::Bool(b) => JsonView::Bool(b),
        ValueParts::Number(n) => JsonView::Number(n),
        ValueParts::Text(s) => JsonView::Text(s@),
        ValueParts::Array(v) => JsonView::Array(values_json(v@)),
        ValueParts::Object(m) => JsonView::Object(members_json(m)),
    }
}

/// `serde_json::from_str`, into a `Value`: whether it reads a value, and which,
/// depends on the text alone.
#[verifier::external_body]
fn read_value(text: &str) -> (r: Option<serde_json::Value>)
    ensures
        match r {
            Some(v) => text_json(text@) == Some(value_json(v)),
            None => text_json(text@) is None,
        },
{
    serde_json::from_str::<serde_json::Value>(text).ok()
}

/// The `Display` of `serde_json::Value`: the text depends on what the value
/// holds alone, and no line feed stands in it.
#[verifier::external_body]
fn value_text(v: &serde_json::Value) -> (r: String)
    ensures
        r@ == json_text(value_json(*v)),
        !r@.contains('\n'),
{
    v.to_string()
}

/// Opens a `serde_json::Value`: each variant with what it holds.
#[verifier::external_body]
fn open_value(v: serde_json::Value) -> (r: ValueParts)
    ensures
        parts_json(r) == value_json(v),
{
    match v {
        serde_json::Value::Null => ValueParts::Null,
        serde_json::Value::Bool(b) => ValueParts::Bool(b),
        serde_json::Value::Number(n) => ValueParts::Number(n),
        serde_json::Value::String(s) => ValueParts::Text(s),
        serde_json::Value::Array(a) => ValueParts::Array(a),
        serde_json::Value::Object(m) => ValueParts::Object(m),
    }
}

/// Makes a `serde_json::Value` of a variant and what it holds.
#[verifier::external_body]
fn close_value(p: ValueParts) -> (r: serde_json::Value)
    ensures
        value_json(r) == parts_json(p),
{
    match p {
        ValueParts::Null => serde_json::Value::Null,
        ValueParts::Bool(b) => serde_json::Value::Bool(b),
        ValueParts::Number(n) => serde_json::Value::Number(n),
        ValueParts::Text(s) => serde_json::Value::String(s),
        ValueParts::Array(a) => serde_json::Value::Array(a),
        ValueParts::Object(m) => serde_json::Value::Object(m),
    }
}

/// `serde_json::Map::new` holds nothing.
#[verifier::external_body]
fn no_members() -> (r: serde_json::Map<String, serde_json::Value>)
    ensures
        members_json(r) == (Map::<Seq<char>, JsonView>::empty()),
{
    serde_json::Map::new()
}

/// `serde_json::Map::insert` sets the member of the given name and leaves the
/// others as they were.
#[verifier::external_body]
fn insert_member(
    m: &mut serde_json::Map<String, serde_json::Value>,
    key: String,
    value: serde_json::Value,
)
    ensures
        members_json(*final(m)) == members_json(*old(m)).insert(key@, value_json(value)),
{
    m.insert(key, value);
}

/// `serde_json::Map::into_iter` hands out every member once.
#[verifier::external_body]
fn member_pairs(m: serde_json::Map<String, serde_json::Value>) -> (r: Vec<
    (String, serde_json::Value),
>)
    ensures
        pairs_json(r@) == members_json(m),
        forall|i: int, j: int| 0 <= i < j < r@.len() ==> r@[i].0@ != r@[j].0@,
{
    m.into_iter().collect()
}

/// `serde_json::Number::from`, of an `i64`.
#[verifier::external_body]
fn number_of(i: i64) -> (r: serde_json::Number)
    ensures
        r == integer_number(i),
{
    serde_json::Number::from(i)
}

/// `clone` of `serde_json::Number` gives the same number.
#[verifier::external_body]
fn number_copy(n: &serde_json::Number) -> (r: serde_json::Number)
    ensures
        r == *n,
{
    n.clone()
}

// ---- conversion ---------------------------------------------------------------

/// A row of values that grows by one.
proof fn lemma_list_push(s: Seq<Json>, j: Json)
    ensures
        list_view(s.push(j)) == list_view(s).push(j@),
{
    assert(s.push(j).drop_last() =~= s);
}

/// A row of members that grows by one.
proof fn lemma_members_push(s: Seq<(String, Json)>, key: String, j: Json)
    ensures
        members_view(s.push((key, j))) == members_view(s).insert(key@, j@),
{
    assert(s.push((key, j)).drop_last() =~= s);
}

/// A row of values stands for as many values.
proof fn lemma_list_len(s: Seq<Json>)
    ensures
        list_view(s).len() == s.len(),
        forall|i: int| 0 <= i < s.len() ==> list_view(s)[i] == (#[trigger] s[i])@,
    decreases s.len(),
{
    if s.len() > 0 {
        lemma_list_len(s.drop_last());
        assert forall|i: int| 0 <= i < s.len() implies list_view(s)[i] == (#[trigger] s[i])@ by {
            if i < s.len() - 1 {
                assert(s.drop_last()[i] == s[i]);
            }
        }
    }
}

/// Of a row of members without doubled names, each stands for itself.
proof fn lemma_pair_member(s: Seq<(String, serde_json::Value)>, i: int)
    requires
        0 <= i < s.len(),
        forall|a: int, b: int| 0 <= a < b < s.len() ==> s[a].0@ != s[b].0@,
    ensures
        pairs_json(s).dom().contains(s[i].0@),
        pairs_json(s)[s[i].0@] == value_json(s[i].1),
    decreases s.len(),
{
    let front = s.drop_last();
    if i < s.len() - 1 {
        assert(front[i] == s[i]);
        assert forall|a: int, b: int| 0 <= a < b < front.len() implies front[a].0@
            != front[b].0@ by {
            assert(front[a] == s[a] && front[b] == s[b]);
        }
        lemma_pair_member(front, i);
        assert(s[i].0@ != s.last().0@);
    }
}

/// A row of members names finitely many.
proof fn lemma_pairs_finite(s: Seq<(String, serde_json::Value)>)
    ensures
        pairs_json(s).dom().finite(),
    decreases s.len(),
{
    if s.len() > 0 {
        lemma_pairs_finite(s.drop_last());
    }
}

/// The plain value of an outside value.
fn plain(v: serde_json::Value) -> (r: Json)
    ensures
        r@ == value_json(v),
    decreases value_json(v),
{
    let ghost whole = value_json(v);
    match open_value(v) {
        ValueParts::Null => Json::Null,
        ValueParts::Bool(b) => Json::Bool(b),
        ValueParts::Number(n) => Json::Number(n),
        ValueParts::Text(s) => Json::Text(s),
        ValueParts::Array(a) => {
            let ghost all = values_json(a@);
            let mut list: Vec<Json> = Vec::new();
            for item in it: a
                invariant
                    it.seq() == a@,
                    all == values_json(a@),
                    whole == JsonView::Array(all),
                    whole == value_json(v),
                    list_view(list@) == all.take(it.index() as int),
            {
                let ghost k = it.index() as int;
                let ghost done = list@;
                assert(all[k] == value_json(item));
                assert(decreases_to!(whole => whole->Array_0));
                assert(decreases_to!(all => all[k]));
                let j = plain(item);
                list.push(j);
                proof {
                    lemma_list_push(done, j);
                    assert(all.take(k + 1) =~= all.take(k).push(all[k]));
                }
            }
            assert(all.take(all.len() as int) =~= all);
            Json::Array(list)
        },
        ValueParts::Object(m) => {
            let ghost all = members_json(m);
            let pairs = member_pairs(m);
            let mut members: Vec<(String, Json)> = Vec::new();
            for pair in it: pairs
                invariant
                    it.seq() == pairs@,
                    all == pairs_json(pairs@),
                    forall|a: int, b: int|
                        0 <= a < b < pairs@.len() ==> pairs@[a].0@ != pairs@[b].0@,
                    whole == JsonView::Object(all),
                    whole == value_json(v),
                    members_view(members@) == pairs_json(pairs@.take(it.index() as int)),
            {
                let ghost k = it.index() as int;
                let ghost done = members@;
                let (key, item) = pair;
                proof {
                    lemma_pair_member(pairs@, k);
                    lemma_pairs_finite(pairs@);
                    assert(decreases_to!(whole => whole->Object_0));
                    assert(decreases_to!(all => all[key@]));
                }
                let j = plain(item);
                proof {
                    lemma_members_push(done, key, j);
                    assert(pairs@.take(k + 1).drop_last() =~= pairs@.take(k));
                }
                members.push((key, j));
            }
            assert(pairs@.take(pairs@.len() as int) =~= pairs@);
            Json::Object(members)
        },
    }
}

/// The outside value of a plain value.
fn outside(j: &Json) -> (r: serde_json::Value)
    ensures
        value_json(r) == j@,
    decreases j,
{
    match j {
        Json::Null => close_value(ValueParts::Null),
        Json::Bool(b) => close_value(ValueParts::Bool(*b)),
        Json::Number(n) => close_value(ValueParts::Number(number_copy(n))),
        Json::Text(s) => close_value(ValueParts::Text(s.clone())),
        Json::Array(list) => {
            let mut a: Vec<serde_json::Value> = Vec::new();
            let mut i: usize = 0;
            while i < list.len()
                invariant
                    i <= list.len(),
                    *j == Json::Array(*list),
                    values_json(a@) == list_view(list@.take(i as int)),
                decreases list.len() - i,
            {
                let ghost done = a@;
                assert(decreases_to!(list@ => list@[i as int]));
                assert(decreases_to!(j => j->Array_0));
                assert(decreases_to!(list => list@));
                let v = outside(&list[i]);
                a.push(v);
                proof {
                    assert(list@.take(i + 1) =~= list@.take(i as int).push(list@[i as int]));
                    lemma_list_push(list@.take(i as int), list@[i as int]);
                    assert(values_json(done.push(v)) =~= values_json(done).push(value_json(v)));
                }
                i += 1;
            }
            assert(list@.take(i as int) =~= list@);
            close_value(ValueParts::Array(a))
        },
        Json::Object(members) => {
            let mut m = no_members();
            let mut i: usize = 0;
            while i < members.len()
                invariant
                    i <= members.len(),
                    *j == Json::Object(*members),
                    members_json(m) == members_view(members@.take(i as int)),
                decreases members.len() - i,
            {
                assert(decreases_to!(members@ => members@[i as int]));
                assert(decreases_to!(j => j->Object_0));
                assert(decreases_to!(members => members@));
                assert(decreases_to!(members@[i as int] => members@[i as int].1));
                let v = outside(&members[i].1);
                insert_member(&mut m, members[i].0.clone(), v);
                proof {
                    let pair = members@[i as int];
                    assert(members@.take(i + 1) =~= members@.take(i as int).push(pair));
                    lemma_members_push(members@.take(i as int), pair.0, pair.1);
                }
                i += 1;
            }
            assert(members@.take(i as int) =~= members@);
            close_value(ValueParts::Object(m))
        },
    }
}

/// Reads a JSON value from a text; `None` where the text is not one.
pub fn parse_json(text: &str) -> (r: Option<Json>)
    ensures
        match r {
            Some(j) => text_json(text@) == Some(j@),
            None => text_json(text@) is None,
        },
{
    match read_value(text) {
        Some(v) => Some(plain(v)),
        None => None,
    }
}

// ---- reading and building -----------------------------------------------------

impl Json {
    /// The member of an object with the given name; other values have none.
    pub fn get(&self, key: &str) -> (r: Option<&Json>)
        ensures
            match r {
                Some(j) => self@.get(key@) == Some(j@),
                None => self@.get(key@) is None,
            },
    {
        match self {
            Json::Object(members) => {
                let ghost all = members_view(members@);
                let mut i: usize = members.len();
                assert(members@.take(i as int) =~= members@);
                while i > 0
                    invariant
                        i <= members.len(),
                        all == members_view(members@),
                        *self == Json::Object(*members),
                        all.dom().contains(key@) == members_view(
                            members@.take(i as int),
                        ).dom().contains(key@),
                        all.dom().contains(key@) ==> all[key@] == members_view(
                            members@.take(i as int),
                        )[key@],
                    decreases i,
                {
                    assert(members@.take(i as int).drop_last() =~= members@.take(i - 1));
                    if same_text(members[i - 1].0.as_str(), key) {
                        return Some(&members[i - 1].1);
                    }
                    i -= 1;
                }
                None
            },
            _ => None,
        }
    }

    /// The text that the value is, if it is one.
    pub fn as_str(&self) -> (r: Option<&str>)
        ensures
            match r {
                Some(s) => self@.as_text() == Some(s@),
                None => self@.as_text() is None,
            },
    {
        match self {
            Json::Text(s) => Some(s.as_str()),
            _ => None,
        }
    }

    /// The number that the value is, if it is one.
    pub fn to_number(&self) -> (r: Option<serde_json::Number>)
        ensures
            r == self@.as_number(),
    {
        match self {
            Json::Number(n) => Some(number_copy(n)),
            _ => None,
        }
    }

    /// A copy of the value.
    pub fn copy(&self) -> (r: Json)
        ensures
            r@ == self@,
        decreases self,
    {
        match self {
            Json::Null => Json::Null,
            Json::Bool(b) => Json::Bool(*b),
            Json::Number(n) => Json::Number(number_copy(n)),
            Json::Text(s) => Json::Text(s.clone()),
            Json::Array(list) => {
                let mut a: Vec<Json> = Vec::new();
                let mut i: usize = 0;
                while i < list.len()
                    invariant
                        i <= list.len(),
                        *self == Json::Array(*list),
                        list_view(a@) == list_view(list@.take(i as int)),
                    decreases list.len() - i,
                {
                    assert(decreases_to!(self => self->Array_0));
                    assert(decreases_to!(list => list@));
                    assert(decreases_to!(list@ => list@[i as int]));
                    let j = list[i].copy();
                    proof {
                        lemma_list_push(a@, j);
                        lemma_list_push(list@.take(i as int), list@[i as int]);
                        assert(list@.take(i + 1) =~= list@.take(i as int).push(list@[i as int]));
                    }
                    a.push(j);
                    i += 1;
                }
                assert(list@.take(i as int) =~= list@);
                Json::Array(a)
            },
            Json::Object(members) => {
                let mut m: Vec<(String, Json)> = Vec::new();
                let mut i: usize = 0;
                while i < members.len()
                    invariant
                        i <= members.len(),
                        *self == Json::Object(*members),
                        members_view(m@) == members_view(members@.take(i as int)),
                    decreases members.len() - i,
                {
                    assert(decreases_to!(self => self->Object_0));
                    assert(decreases_to!(members => members@));
                    assert(decreases_to!(members@ => members@[i as int]));
                    assert(decreases_to!(members@[i as int] => members@[i as int].1));
                    let j = members[i].1.copy();
                    let key = members[i].0.clone();
                    proof {
                        let pair = members@[i as int];
                        lemma_members_push(m@, key, j);
                        lemma_members_push(members@.take(i as int), pair.0, pair.1);
                        assert(members@.take(i + 1) =~= members@.take(i as int).push(pair));
                    }
                    m.push((key, j));
                    i += 1;
                }
                assert(members@.take(i as int) =~= members@);
                Json::Object(m)
            },
        }
    }

    /// The text in which the value is written, on a single line.
    pub fn render(&self) -> (r: String)
        ensures
            r@ == json_text(self@),
            !r@.contains('\n'),
    {
        value_text(&outside(self))
    }

    /// A text.
    pub fn text(s: &str) -> (r: Json)
        ensures
            r@ == JsonView::Text(s@),
    {
        Json::Text(s.to_owned())
    }

    /// An integer.
    pub fn integer(i: i64) -> (r: Json)
        ensures
            r@ == JsonView::Number(integer_number(i)),
    {
        Json::Number(number_of(i))
    }

    /// An array.
    pub fn array(items: Vec<Json>) -> (r: Json)
        ensures
            r@ == JsonView::Array(items@.map_values(|j: Json| j@)),
    {
        proof {
            lemma_list_len(items@);
            assert(list_view(items@) =~= items@.map_values(|j: Json| j@));
        }
        Json::Array(items)
    }

    /// The object without members.
    pub fn object() -> (r: Json)
        ensures
            r@ == JsonView::object(),
    {
        Json::Object(Vec::new())
    }

    /// The value with one member set, where it is an object; other values as
    /// they are.
    pub fn with(self, key: &str, value: Json) -> (r: Json)
        ensures
            r@ == self@.with(key@, value@),
    {
        match self {
            Json::Object(members) => {
                let mut m = members;
                let name = key.to_owned();
                proof {
                    lemma_members_push(m@, name, value);
                }
                m.push((name, value));
                Json::Object(m)
            },
            other => other,
        }
    }
}

} // verus!

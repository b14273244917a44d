//! JSON values as plain data.
//!
//! A fact carries its payload as a [`Json`]. Reading and printing JSON text are
//! serde_json's work; the value itself, its equality and the way its members are
//! kept and found stand here.

use vstd::prelude::*;

use crate::text::{lemma_text_before_irreflexive, lemma_text_before_total,
    lemma_text_before_transitive, same_text, text_before, text_less};

verus! {

/// serde_json's own value tree, as its parser returns it and its printer takes it.
#[verifier::external_type_specification]
#[verifier::external_body]
pub struct ExValue(serde_json::Value);

/// A JSON number as serde_json keeps it.
#[verifier::external_type_specification]
#[verifier::external_body]
pub struct ExNumber(serde_json::Number);

/// The text that a number prints as.
pub uninterp spec fn number_text(number: serde_json::Number) -> Seq<char>;

/// What a value of serde_json holds.
pub uninterp spec fn value_model(value: serde_json::Value) -> JsonModel;

/// A JSON value.
#[derive(Debug)]
pub enum Json {
    Null,
    Bool(bool),
    Number(serde_json::Number),
    Text(String),
    Array(Vec<Json>),
    Object(JsonObject),
}

/// The members of an object: each name once, in ascending order of the names.
#[derive(Debug)]
pub struct JsonObject {
    members: Vec<Member>,
}

/// One member of an object.
#[derive(Debug)]
pub struct Member {
    pub name: String,
    pub value: Json,
}

/// What a [`Json`] holds. A number is known by the text that it prints as.
pub enum JsonModel {
    Null,
    Bool(bool),
    Number(Seq<char>),
    Text(Seq<char>),
    Array(Seq<JsonModel>),
    Object(Seq<MemberModel>),
}

/// What a [`Member`] holds.
pub struct MemberModel {
    pub name: Seq<char>,
    pub value: JsonModel,
}

impl View for Json {
    type V = JsonModel;

    open spec fn view(&self) -> JsonModel
        decreases self,
    {
        match self {
            Json::Null => JsonModel::Null,
            Json::Bool(flag) => JsonModel::Bool(*flag),
            Json::Number(number) => JsonModel::Number(number_text(*number)),
            Json::Text(text) => JsonModel::Text(text@),
            Json::Array(items) => JsonModel::Array(
                Seq::new(
                    items@.len(),
                    |i: int|
                        if 0 <= i < items@.len() {
                            items@[i].view()
                        } else {
                            JsonModel::Null
                        },
                ),
            ),
            Json::Object(object) => JsonModel::Object(
                Seq::new(
                    object.listed().len(),
                    |i: int|
                        if 0 <= i < object.listed().len() {
                            MemberModel {
                                name: object.listed()[i].name@,
                                value: object.listed()[i].value.view(),
                            }
                        } else {
                            MemberModel { name: Seq::empty(), value: JsonModel::Null }
                        },
                ),
            ),
        }
    }
}

impl View for Member {
    type V = MemberModel;

    open spec fn view(&self) -> MemberModel {
        MemberModel { name: self.name@, value: self.value@ }
    }
}

impl View for JsonObject {
    type V = Seq<MemberModel>;

    open spec fn view(&self) -> Seq<MemberModel> {
        member_models(self.listed())
    }
}

impl JsonObject {
    /// The members as they are kept.
    pub closed spec fn listed(&self) -> Seq<Member> {
        self.members@
    }

    #[verifier::type_invariant]
    spec fn ordered(self) -> bool {
        ascending(member_models(self.members@))
    }
}

/// What the elements of an array hold.
pub open spec fn models(items: Seq<Json>) -> Seq<JsonModel> {
    items.map_values(|item: Json| item@)
}

/// What the members of an object hold.
pub open spec fn member_models(members: Seq<Member>) -> Seq<MemberModel> {
    members.map_values(|member: Member| member@)
}

/// The view of an array is the views of its elements.
pub proof fn lemma_view_array(items: Vec<Json>)
    ensures
        Json::Array(items)@ == JsonModel::Array(models(items@)),
{
    assert(Json::Array(items)@->Array_0 =~= models(items@));
}

/// The view of an object is the views of its members.
pub proof fn lemma_view_object(object: JsonObject)
    ensures
        Json::Object(object)@ == JsonModel::Object(object@),
{
    assert(Json::Object(object)@->Object_0 =~= object@);
}

/// The names ascend, so each stands once.
pub open spec fn ascending(members: Seq<MemberModel>) -> bool {
    forall|i: int, j: int|
        0 <= i < j < members.len() ==> text_before(
            (#[trigger] members[i]).name,
            (#[trigger] members[j]).name,
        )
}

/// Whether an object has a member of that name.
pub open spec fn has_member(members: Seq<MemberModel>, name: Seq<char>) -> bool {
    exists|i: int| 0 <= i < members.len() && (#[trigger] members[i]).name == name
}

/// Whether every member has one of the given names.
pub open spec fn names_known(members: Seq<MemberModel>, names: Seq<Seq<char>>) -> bool {
    forall|i: int| 0 <= i < members.len() ==> names.contains((#[trigger] members[i]).name)
}

/// The value that an object gives to a name.
pub open spec fn member_of(members: Seq<MemberModel>, name: Seq<char>) -> Option<JsonModel> {
    if has_member(members, name) {
        Some(
            members[choose|i: int|
                0 <= i < members.len() && (#[trigger] members[i]).name == name].value,
        )
    } else {
        None
    }
}

/// Where each name stands once, a member is found by its name.
pub proof fn lemma_member_at(members: Seq<MemberModel>, i: int)
    requires
        ascending(members),
        0 <= i < members.len(),
    ensures
        member_of(members, members[i].name) == Some(members[i].value),
{
    let name = members[i].name;
    let k = choose|k: int| 0 <= k < members.len() && (#[trigger] members[k]).name == name;
    lemma_text_before_irreflexive(name);
    assert(k == i);
}

/// The text of a floating-point zero, of either sign.
pub open spec fn is_float_zero(text: Seq<char>) -> bool {
    text == "0.0"@ || text == "-0.0"@
}

/// Two numbers are equal where they print alike, and the two floating-point
/// zeros are equal to one another.
pub open spec fn number_same(a: Seq<char>, b: Seq<char>) -> bool {
    a == b || (is_float_zero(a) && is_float_zero(b))
}

/// Equality of JSON values.
pub open spec fn json_same(a: JsonModel, b: JsonModel) -> bool
    decreases a,
{
    match (a, b) {
        (JsonModel::Null, JsonModel::Null) => true,
        (JsonModel::Bool(x), JsonModel::Bool(y)) => x == y,
        (JsonModel::Number(x), JsonModel::Number(y)) => number_same(x, y),
        (JsonModel::Text(x), JsonModel::Text(y)) => x == y,
        (JsonModel::Array(x), JsonModel::Array(y)) => {
            &&& x.len() == y.len()
            &&& forall|i: int| 0 <= i < x.len() ==> json_same(#[trigger] x[i], y[i])
        },
        (JsonModel::Object(x), JsonModel::Object(y)) => {
            &&& x.len() == y.len()
            &&& forall|i: int|
                0 <= i < x.len() ==> (#[trigger] x[i]).name == y[i].name && json_same(
                    x[i].value,
                    y[i].value,
                )
        },
        _ => false,
    }
}

/// Every value is equal to itself.
pub proof fn lemma_json_same_reflexive(a: JsonModel)
    ensures
        json_same(a, a),
    decreases a,
{
    match a {
        JsonModel::Array(items) => {
            assert forall|i: int| 0 <= i < items.len() implies json_same(
                #[trigger] items[i],
                items[i],
            ) by {
                lemma_json_same_reflexive(items[i]);
            }
        },
        JsonModel::Object(members) => {
            assert forall|i: int| 0 <= i < members.len() implies json_same(
                (#[trigger] members[i]).value,
                members[i].value,
            ) by {
                lemma_json_same_reflexive(members[i].value);
            }
        },
        _ => {},
    }
}

/// `serde_json::Number::eq`: two numbers are equal where they print alike, or
/// where both are a floating-point zero.
#[verifier::external_body]
fn same_number(a: &serde_json::Number, b: &serde_json::Number) -> (same: bool)
    ensures
        same == number_same(number_text(*a), number_text(*b)),
{
    a == b
}

/// `serde_json::Number::from` makes a number of an unsigned integer, which prints
/// in decimal.
#[verifier::external_body]
pub(crate) fn number_from(n: u64) -> (number: serde_json::Number)
    ensures
        number_text(number) == crate::text::decimal(n as nat),
{
    serde_json::Number::from(n)
}

/// `Display` of `serde_json::Number` prints the number.
#[verifier::external_body]
pub(crate) fn number_shown(number: &serde_json::Number) -> (text: String)
    ensures
        text@ == number_text(*number),
{
    number.to_string()
}

/// `serde_json::Number::clone` copies the number.
#[verifier::external_body]
fn copy_number(number: &serde_json::Number) -> (copy: serde_json::Number)
    ensures
        number_text(copy) == number_text(*number),
{
    number.clone()
}

/// Compares two JSON values.
pub fn same_json(a: &Json, b: &Json) -> (same: bool)
    ensures
        same == json_same(a@, b@),
    decreases a,
{
    match (a, b) {
        (Json::Null, Json::Null) => true,
        (Json::Bool(x), Json::Bool(y)) => *x == *y,
        (Json::Number(x), Json::Number(y)) => same_number(x, y),
        (Json::Text(x), Json::Text(y)) => same_text(x.as_str(), y.as_str()),
        (Json::Array(x), Json::Array(y)) => {
            if x.len() != y.len() {
                return false;
            }
            let mut i: usize = 0;
            while i < x.len()
                invariant
                    a == Json::Array(*x),
                    b == Json::Array(*y),
                    i <= x@.len(),
                    x@.len() == y@.len(),
                    forall|k: int| 0 <= k < i ==> json_same((#[trigger] x@[k])@, y@[k]@),
                decreases x.len() - i,
            {
                assert(decreases_to!(a => a->Array_0[i as int]));
                if !same_json(&x[i], &y[i]) {
                    assert(!json_same(a@->Array_0[i as int], b@->Array_0[i as int]));
                    return false;
                }
                i += 1;
            }
            true
        },
        (Json::Object(x), Json::Object(y)) => {
            if x.members.len() != y.members.len() {
                return false;
            }
            let mut i: usize = 0;
            while i < x.members.len()
                invariant
                    a == Json::Object(*x),
                    b == Json::Object(*y),
                    i <= x.members@.len(),
                    x.members@.len() == y.members@.len(),
                    forall|k: int|
                        0 <= k < i ==> (#[trigger] x.members@[k]).name@ == y.members@[k].name@
                            && json_same(x.members@[k].value@, y.members@[k].value@),
                decreases x.members.len() - i,
            {
                assert(decreases_to!(a => a->Object_0.members[i as int].value));
                if !same_text(x.members[i].name.as_str(), y.members[i].name.as_str())
                    || !same_json(&x.members[i].value, &y.members[i].value) {
                    assert(a@->Object_0[i as int].name != b@->Object_0[i as int].name
                        || !json_same(
                        a@->Object_0[i as int].value,
                        b@->Object_0[i as int].value,
                    ));
                    return false;
                }
                i += 1;
            }
            true
        },
        _ => false,
    }
}

impl PartialEq for Json {
    fn eq(&self, other: &Json) -> (same: bool) {
        same_json(self, other)
    }
}

impl vstd::std_specs::cmp::PartialEqSpecImpl for Json {
    open spec fn obeys_eq_spec() -> bool {
        true
    }

    open spec fn eq_spec(&self, other: &Json) -> bool {
        json_same(self@, other@)
    }
}

/// Copies a JSON value.
fn copy_json(json: &Json) -> (copy: Json)
    ensures
        copy@ == json@,
    decreases json,
{
    match json {
        Json::Null => Json::Null,
        Json::Bool(flag) => Json::Bool(*flag),
        Json::Number(number) => Json::Number(copy_number(number)),
        Json::Text(text) => Json::Text(text.clone()),
        Json::Array(items) => {
            let mut copy: Vec<Json> = Vec::new();
            let mut i: usize = 0;
            while i < items.len()
                invariant
                    json == Json::Array(*items),
                    i <= items@.len(),
                    copy@.len() == i,
                    forall|k: int| 0 <= k < i ==> (#[trigger] copy@[k])@ == items@[k]@,
                decreases items.len() - i,
            {
                assert(decreases_to!(json => json->Array_0[i as int]));
                let item = copy_json(&items[i]);
                copy.push(item);
                i += 1;
            }
            proof {
                lemma_view_array(copy);
                lemma_view_array(*items);
                assert(models(copy@) =~= models(items@));
            }
            Json::Array(copy)
        },
        Json::Object(object) => {
            let mut copy: Vec<Member> = Vec::new();
            let mut i: usize = 0;
            while i < object.members.len()
                invariant
                    json == Json::Object(*object),
                    i <= object.members@.len(),
                    copy@.len() == i,
                    forall|k: int| 0 <= k < i ==> (#[trigger] copy@[k])@ == object.members@[k]@,
                decreases object.members.len() - i,
            {
                assert(decreases_to!(json => json->Object_0.members[i as int].value));
                let value = copy_json(&object.members[i].value);
                copy.push(Member { name: object.members[i].name.clone(), value });
                i += 1;
            }
            proof {
                use_type_invariant(object);
                assert(member_models(copy@) =~= member_models(object.members@));
            }
            let copied = JsonObject { members: copy };
            proof {
                lemma_view_object(copied);
                lemma_view_object(*object);
            }
            Json::Object(copied)
        },
    }
}

impl Clone for Json {
    fn clone(&self) -> (copy: Json)
        ensures
            copy@ == self@,
    {
        copy_json(self)
    }
}

impl JsonObject {
    /// An object without members.
    pub fn new() -> (object: JsonObject)
        ensures
            object@ == Seq::<MemberModel>::empty(),
    {
        let object = JsonObject { members: Vec::new() };
        assert(object@ =~= Seq::empty());
        object
    }

    /// The number of members.
    pub fn len(&self) -> (count: usize)
        ensures
            count == self@.len(),
    {
        self.members.len()
    }

    /// Finds the value of a name.
    pub fn get(&self, name: &str) -> (found: Option<&Json>)
        ensures
            ascending(self@),
            found matches Some(value) ==> member_of(self@, name@) == Some(value@),
            found is None ==> member_of(self@, name@) is None,
    {
        proof {
            use_type_invariant(self);
        }
        let mut i: usize = 0;
        while i < self.members.len()
            invariant
                i <= self.members@.len(),
                ascending(self@),
                forall|k: int| 0 <= k < i ==> (#[trigger] self@[k]).name != name@,
            decreases self.members.len() - i,
        {
            assert(self@[i as int] == self.members@[i as int]@);
            if same_text(self.members[i].name.as_str(), name) {
                proof {
                    lemma_member_at(self@, i as int);
                }
                return Some(&self.members[i].value);
            }
            i += 1;
        }
        None
    }

    /// Whether every member has one of the given names.
    pub fn names_within(&self, known: &Vec<&str>) -> (within: bool)
        ensures
            within == names_known(self@, known@.map_values(|name: &str| name@)),
    {
        let ghost names = known@.map_values(|name: &str| name@);
        let mut i: usize = 0;
        while i < self.members.len()
            invariant
                i <= self.members@.len(),
                names == known@.map_values(|name: &str| name@),
                forall|k: int| 0 <= k < i ==> names.contains((#[trigger] self@[k]).name),
            decreases self.members.len() - i,
        {
            let mut found = false;
            let mut j: usize = 0;
            assert(self@[i as int].name == self.members@[i as int].name@);
            while j < known.len()
                invariant
                    i < self.members@.len(),
                    j <= known@.len(),
                    names == known@.map_values(|name: &str| name@),
                    found ==> names.contains(self@[i as int].name),
                    !found ==> (forall|k: int|
                        0 <= k < j ==> #[trigger] names[k] != self@[i as int].name),
                    self@[i as int].name == self.members@[i as int].name@,
                decreases known.len() - j,
            {
                if same_text(self.members[i].name.as_str(), known[j]) {
                    assert(names[j as int] == self@[i as int].name);
                    found = true;
                }
                j += 1;
            }
            if !found {
                assert(!names.contains(self@[i as int].name));
                return false;
            }
            i += 1;
        }
        true
    }

    /// Gives a name a value, in place of the one it had.
    pub fn insert(&mut self, name: String, value: Json)
        ensures
            ascending(final(self)@),
            member_of(final(self)@, name@) == Some(value@),
            forall|other: Seq<char>|
                other != name@ ==> #[trigger] member_of(final(self)@, other) == member_of(
                    old(self)@,
                    other,
                ),
            final(self)@.len() == old(self)@.len() + if has_member(old(self)@, name@) {
                0int
            } else {
                1
            },
    {
        proof {
            use_type_invariant(&*self);
        }
        let ghost before = self@;
        let mut members: Vec<Member> = Vec::new();
        std::mem::swap(&mut members, &mut self.members);
        let ghost kept = members@;
        assert(member_models(kept) == before);
        let mut i: usize = 0;
        while i < members.len() && text_less(members[i].name.as_str(), name.as_str())
            invariant
                members@ == kept,
                member_models(kept) == before,
                i <= members@.len(),
                forall|k: int| 0 <= k < i ==> text_before((#[trigger] before[k]).name, name@),
            decreases members.len() - i,
        {
            assert(before[i as int] == members@[i as int]@);
            i += 1;
        }
        if i < members.len() && same_text(members[i].name.as_str(), name.as_str()) {
            members.set(i, Member { name, value });
        } else {
            members.insert(i, Member { name, value });
        }
        proof {
            let after = member_models(members@);
            let given = MemberModel { name: name@, value: value@ };
            if i < kept.len() && kept[i as int].name@ == name@ {
                assert(after =~= before.update(i as int, given));
                lemma_replaced(before, i as int, given);
            } else {
                assert(after =~= before.insert(i as int, given));
                if i < kept.len() {
                    lemma_text_before_total(name@, kept[i as int].name@);
                    assert(before[i as int] == kept[i as int]@);
                }
                lemma_inserted(before, i as int, given);
            }
        }
        self.members = members;
    }
}

/// Replacing the value of a member keeps the order and the other members.
proof fn lemma_replaced(before: Seq<MemberModel>, at: int, given: MemberModel)
    requires
        ascending(before),
        0 <= at < before.len(),
        before[at].name == given.name,
    ensures
        ascending(before.update(at, given)),
        has_member(before, given.name),
        member_of(before.update(at, given), given.name) == Some(given.value),
        forall|other: Seq<char>|
            other != given.name ==> #[trigger] member_of(before.update(at, given), other)
                == member_of(before, other),
{
    let after = before.update(at, given);
    assert forall|i: int, j: int| 0 <= i < j < after.len() implies text_before(
        (#[trigger] after[i]).name,
        (#[trigger] after[j]).name,
    ) by {
        assert(after[i].name == before[i].name && after[j].name == before[j].name);
    }
    lemma_member_at(after, at);
    assert forall|other: Seq<char>| other != given.name implies #[trigger] member_of(after, other)
        == member_of(before, other) by {
        if has_member(before, other) {
            let k = choose|k: int| 0 <= k < before.len() && (#[trigger] before[k]).name == other;
            assert(after[k] == before[k]);
            lemma_member_at(before, k);
            lemma_member_at(after, k);
        } else if has_member(after, other) {
            let k = choose|k: int| 0 <= k < after.len() && (#[trigger] after[k]).name == other;
            assert(after[k] == before[k]);
        }
    }
}

/// Inserting a member at its place keeps the order and the other members.
proof fn lemma_inserted(before: Seq<MemberModel>, at: int, given: MemberModel)
    requires
        ascending(before),
        0 <= at <= before.len(),
        forall|k: int| 0 <= k < at ==> text_before((#[trigger] before[k]).name, given.name),
        at < before.len() ==> text_before(given.name, before[at].name),
    ensures
        ascending(before.insert(at, given)),
        !has_member(before, given.name),
        member_of(before.insert(at, given), given.name) == Some(given.value),
        forall|other: Seq<char>|
            other != given.name ==> #[trigger] member_of(before.insert(at, given), other)
                == member_of(before, other),
{
    let after = before.insert(at, given);
    assert forall|k: int| at <= k < before.len() implies text_before(
        given.name,
        (#[trigger] before[k]).name,
    ) by {
        if k > at {
            lemma_text_before_transitive(given.name, before[at].name, before[k].name);
        }
    }
    assert forall|i: int, j: int| 0 <= i < j < after.len() implies text_before(
        (#[trigger] after[i]).name,
        (#[trigger] after[j]).name,
    ) by {
        let oi = if i < at { i } else { i - 1 };
        let oj = if j < at { j } else { j - 1 };
        if i != at {
            assert(after[i] == before[oi]);
        }
        if j != at {
            assert(after[j] == before[oj]);
        }
    }
    assert(after[at] == given);
    lemma_member_at(after, at);
    lemma_text_before_irreflexive(given.name);
    assert forall|other: Seq<char>| other != given.name implies #[trigger] member_of(after, other)
        == member_of(before, other) by {
        if has_member(before, other) {
            let k = choose|k: int| 0 <= k < before.len() && (#[trigger] before[k]).name == other;
            let n = if k < at { k } else { k + 1 };
            assert(after[n] == before[k]);
            lemma_member_at(before, k);
            lemma_member_at(after, n);
        } else if has_member(after, other) {
            let n = choose|n: int| 0 <= n < after.len() && (#[trigger] after[n]).name == other;
            let k = if n < at { n } else { n - 1 };
            assert(after[n] == before[k]);
        }
    }
}

/// One level of a value of serde_json, its parts still in serde_json's form.
enum Node {
    Null,
    Bool(bool),
    Number(serde_json::Number),
    Text(String),
    Array(Vec<serde_json::Value>),
    Object(Vec<(String, serde_json::Value)>),
}

/// What the parts of an array hold.
spec fn part_models(parts: Seq<serde_json::Value>) -> Seq<JsonModel> {
    parts.map_values(|part: serde_json::Value| value_model(part))
}

/// What the named parts of an object hold.
spec fn named_models(parts: Seq<(String, serde_json::Value)>) -> Seq<MemberModel> {
    parts.map_values(
        |part: (String, serde_json::Value)|
            MemberModel { name: part.0@, value: value_model(part.1) },
    )
}

/// What a level and its parts hold together.
spec fn node_model(node: Node) -> JsonModel {
    match node {
        Node::Null => JsonModel::Null,
        Node::Bool(flag) => JsonModel::Bool(flag),
        Node::Number(number) => JsonModel::Number(number_text(number)),
        Node::Text(text) => JsonModel::Text(text@),
        Node::Array(parts) => JsonModel::Array(part_models(parts@)),
        Node::Object(parts) => JsonModel::Object(named_models(parts@)),
    }
}

/// The variants of `serde_json::Value`: takes one level apart. An object comes
/// as the list of its members in the order of serde_json's map, which ascends.
#[verifier::external_body]
fn open_value(value: serde_json::Value) -> (node: Node)
    ensures
        node_model(node) == value_model(value),
        node matches Node::Object(parts) ==> ascending(named_models(parts@)),
{
    match value {
        serde_json::Value::Null => Node::Null,
        serde_json::Value::Bool(flag) => Node::Bool(flag),
        serde_json::Value::Number(number) => Node::Number(number),
        serde_json::Value::String(text) => Node::Text(text),
        serde_json::Value::Array(parts) => Node::Array(parts),
        serde_json::Value::Object(parts) => Node::Object(parts.into_iter().collect()),
    }
}

/// The variants of `serde_json::Value`: puts one level together. The members of
/// an object have to ascend, as serde_json's map would order them.
#[verifier::external_body]
fn close_value(node: Node) -> (value: serde_json::Value)
    requires
        node matches Node::Object(parts) ==> ascending(named_models(parts@)),
    ensures
        value_model(value) == node_model(node),
{
    match node {
        Node::Null => serde_json::Value::Null,
        Node::Bool(flag) => serde_json::Value::Bool(flag),
        Node::Number(number) => serde_json::Value::Number(number),
        Node::Text(text) => serde_json::Value::String(text),
        Node::Array(parts) => serde_json::Value::Array(parts),
        Node::Object(parts) => serde_json::Value::Object(parts.into_iter().collect()),
    }
}

/// The value in serde_json's form.
pub fn to_value(json: &Json) -> (value: serde_json::Value)
    ensures
        value_model(value) == json@,
    decreases json,
{
    match json {
        Json::Null => close_value(Node::Null),
        Json::Bool(flag) => close_value(Node::Bool(*flag)),
        Json::Number(number) => close_value(Node::Number(copy_number(number))),
        Json::Text(text) => close_value(Node::Text(text.clone())),
        Json::Array(items) => {
            let mut parts: Vec<serde_json::Value> = Vec::new();
            let mut i: usize = 0;
            while i < items.len()
                invariant
                    json == Json::Array(*items),
                    i <= items@.len(),
                    parts@.len() == i,
                    forall|k: int| 0 <= k < i ==> value_model(#[trigger] parts@[k]) == items@[k]@,
                decreases items.len() - i,
            {
                assert(decreases_to!(json => json->Array_0[i as int]));
                let part = to_value(&items[i]);
                parts.push(part);
                i += 1;
            }
            proof {
                lemma_view_array(*items);
                assert(part_models(parts@) =~= models(items@));
            }
            close_value(Node::Array(parts))
        },
        Json::Object(object) => {
            let mut parts: Vec<(String, serde_json::Value)> = Vec::new();
            let mut i: usize = 0;
            while i < object.members.len()
                invariant
                    json == Json::Object(*object),
                    i <= object.members@.len(),
                    parts@.len() == i,
                    forall|k: int|
                        0 <= k < i ==> (#[trigger] parts@[k]).0@ == object.members@[k].name@
                            && value_model(parts@[k].1) == object.members@[k].value@,
                decreases object.members.len() - i,
            {
                assert(decreases_to!(json => json->Object_0.members[i as int].value));
                let part = to_value(&object.members[i].value);
                parts.push((object.members[i].name.clone(), part));
                i += 1;
            }
            proof {
                use_type_invariant(object);
                lemma_view_object(*object);
                assert(named_models(parts@) =~= member_models(object.members@));
            }
            close_value(Node::Object(parts))
        },
    }
}

/// The value that serde_json's form stands for.
pub fn from_value(value: serde_json::Value) -> (json: Json)
    ensures
        json@ == value_model(value),
    decreases value_model(value),
{
    match open_value(value) {
        Node::Null => Json::Null,
        Node::Bool(flag) => Json::Bool(flag),
        Node::Number(number) => Json::Number(number),
        Node::Text(text) => Json::Text(text),
        Node::Array(parts) => {
            let ghost all = parts@;
            let mut items: Vec<Json> = Vec::new();
            for part in iter: parts.into_iter()
                invariant
                    value_model(value) == JsonModel::Array(part_models(all)),
                    iter.seq() == all,
                    items@.len() == iter.index(),
                    forall|k: int|
                        0 <= k < items@.len() ==> (#[trigger] items@[k])@ == value_model(all[k]),
            {
                proof {
                    let n = items@.len() as int;
                    assert(part == all[n]);
                    assert(part_models(all)[n] == value_model(part));
                    assert(decreases_to!(value_model(value) => value_model(value)->Array_0[n]));
                }
                let item = from_value(part);
                items.push(item);
            }
            proof {
                lemma_view_array(items);
                assert(models(items@) =~= part_models(all));
            }
            Json::Array(items)
        },
        Node::Object(parts) => {
            let ghost all = parts@;
            let mut members: Vec<Member> = Vec::new();
            for named in iter: parts.into_iter()
                invariant
                    value_model(value) == JsonModel::Object(named_models(all)),
                    iter.seq() == all,
                    members@.len() == iter.index(),
                    forall|k: int|
                        0 <= k < members@.len() ==> (#[trigger] members@[k])@ == (MemberModel {
                            name: all[k].0@,
                            value: value_model(all[k].1),
                        }),
            {
                let (name, part) = named;
                proof {
                    let n = members@.len() as int;
                    assert((name, part) == all[n]);
                    assert(named_models(all)[n].value == value_model(part));
                    assert(decreases_to!(value_model(value) => value_model(value)->Object_0[n].value));
                }
                let value = from_value(part);
                members.push(Member { name, value });
            }
            proof {
                assert(member_models(members@) =~= named_models(all));
            }
            let object = JsonObject { members };
            proof {
                lemma_view_object(object);
            }
            Json::Object(object)
        },
    }
}

} // verus!

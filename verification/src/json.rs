//! JSON values: the tree that reports come in and metrics go out as, and the
//! reading of one from text, which is the work of `serde_json`.

use vstd::prelude::*;

use crate::text::same;

verus! {

/// A JSON number: an integer that is not negative, an integer below zero, or
/// a double, by its IEEE 754 bit pattern.
#[derive(Clone, Copy, Debug, PartialEq, Eq, Structural)]
pub enum JsonNumber {
    PosInt(u64),
    NegInt(i64),
    Double(u64),
}

/// What a JSON value says, however it is stored.
#[verifier::ext_equal]
pub enum Json {
    Null,
    Bool(bool),
    Number(JsonNumber),
    Text(Seq<char>),
    Array(Seq<Json>),
    Object(Map<Seq<char>, Json>),
}

/// A JSON value.
#[derive(Debug, PartialEq)]
pub enum JsonValue {
    Null,
    Bool(bool),
    Number(JsonNumber),
    Text(String),
    Array(Vec<JsonValue>),
    Object(JsonObject),
}

/// The members of a JSON object. Of two members with one name the later one
/// counts, as in JSON text.
#[derive(Debug, PartialEq)]
pub struct JsonObject {
    pub members: Vec<(String, JsonValue)>,
}

/// What `v` says.
pub open spec fn json_of(v: JsonValue) -> Json
    decreases v,
{
    match v {
        JsonValue::Null => Json::Null,
        JsonValue::Bool(b) => Json::Bool(b),
        JsonValue::Number(n) => Json::Number(n),
        JsonValue::Text(s) => Json::Text(s@),
        JsonValue::Array(items) => Json::Array(items_of(items@)),
        JsonValue::Object(o) => Json::Object(members_of(o.members@)),
    }
}

/// What the items of an array say.
pub open spec fn items_of(items: Seq<JsonValue>) -> Seq<Json>
    decreases items,
{
    if items.len() == 0 {
        Seq::empty()
    } else {
        items_of(items.drop_last()).push(json_of(items.last()))
    }
}

/// What the members of an object say, under their names.
pub open spec fn members_of(members: Seq<(String, JsonValue)>) -> Map<Seq<char>, Json>
    decreases members,
{
    if members.len() == 0 {
        Map::empty()
    } else {
        members_of(members.drop_last()).insert(members.last().0@, json_of(members.last().1))
    }
}

impl View for JsonValue {
    type V = Json;

    open spec fn view(&self) -> Json {
        json_of(*self)
    }
}

impl View for JsonObject {
    type V = Map<Seq<char>, Json>;

    open spec fn view(&self) -> Map<Seq<char>, Json> {
        members_of(self.members@)
    }
}

/// The bit pattern `bits` is that of a double that is finite and not below
/// zero: a clear sign bit and an exponent that is not all ones, or minus zero,
/// which compares equal to zero.
pub open spec fn finite_and_not_negative(bits: u64) -> bool {
    bits < 0x7ff0_0000_0000_0000 || bits == 0x8000_0000_0000_0000
}

impl JsonNumber {
    /// The number as an `i64`: an integer that fits, and no double.
    pub open spec fn int_value(self) -> Option<i64> {
        match self {
            JsonNumber::PosInt(n) => if n <= i64::MAX {
                Some(n as i64)
            } else {
                None
            },
            JsonNumber::NegInt(n) => Some(n),
            JsonNumber::Double(_) => None,
        }
    }

    /// The bit pattern of the number as a double.
    pub open spec fn double_bits(self) -> u64 {
        match self {
            JsonNumber::PosInt(n) => nearest_double(n as int),
            JsonNumber::NegInt(n) => nearest_double(n as int),
            JsonNumber::Double(bits) => bits,
        }
    }

    /// The number that stands for the integer `n`.
    pub open spec fn of_int(n: int) -> JsonNumber {
        if n >= 0 {
            JsonNumber::PosInt(n as u64)
        } else {
            JsonNumber::NegInt(n as i64)
        }
    }

    /// The number as an `i64`, if it is an integer that fits.
    pub fn as_i64(&self) -> (r: Option<i64>)
        ensures
            r == self.int_value(),
    {
        match self {
            JsonNumber::PosInt(n) => if *n <= 0x7fff_ffff_ffff_ffff {
                Some(*n as i64)
            } else {
                None
            },
            JsonNumber::NegInt(n) => Some(*n),
            JsonNumber::Double(_) => None,
        }
    }

    /// The bit pattern of the number as a double.
    pub fn as_double(&self) -> (r: u64)
        ensures
            r == self.double_bits(),
            self matches JsonNumber::PosInt(_) ==> finite_and_not_negative(r),
            self matches JsonNumber::NegInt(n) && n < 0 ==> !finite_and_not_negative(r),
    {
        match self {
            JsonNumber::PosInt(n) => number_double(&number_from_integer(*n as i128)),
            JsonNumber::NegInt(n) => number_double(&number_from_integer(*n as i128)),
            JsonNumber::Double(bits) => *bits,
        }
    }

    /// The number that stands for the integer `n`.
    pub fn from_i64(n: i64) -> (r: JsonNumber)
        ensures
            r == JsonNumber::of_int(n as int),
    {
        if n >= 0 {
            JsonNumber::PosInt(n as u64)
        } else {
            JsonNumber::NegInt(n)
        }
    }
}

impl Json {
    /// The member `key`, of an object that has it.
    pub open spec fn member(self, key: Seq<char>) -> Option<Json> {
        match self {
            Json::Object(m) => if m.dom().contains(key) {
                Some(m[key])
            } else {
                None
            },
            _ => None,
        }
    }

    /// The value as an `i64`, if it is an integer that fits.
    pub open spec fn int_value(self) -> Option<i64> {
        match self {
            Json::Number(n) => n.int_value(),
            _ => None,
        }
    }

    /// The value as a truth value, if it is one.
    pub open spec fn bool_value(self) -> Option<bool> {
        match self {
            Json::Bool(b) => Some(b),
            _ => None,
        }
    }

    /// The value as a text, if it is one.
    pub open spec fn text_value(self) -> Option<Seq<char>> {
        match self {
            Json::Text(s) => Some(s),
            _ => None,
        }
    }
}

/// What a place that may hold no value says.
pub open spec fn optional(v: Option<&JsonValue>) -> Option<Json> {
    match v {
        Some(v) => Some(v@),
        None => None,
    }
}

/// Beneath a last member with another name the lookup of `key` goes on.
proof fn lemma_last_member(members: Seq<(String, JsonValue)>, key: Seq<char>)
    requires
        members.len() > 0,
        members.last().0@ != key,
    ensures
        members_of(members).dom().contains(key) == members_of(members.drop_last()).dom().contains(
            key,
        ),
        members_of(members)[key] == members_of(members.drop_last())[key],
{
}

/// A new value for the last member of a name is the value of that name.
proof fn lemma_member_replaced(
    members: Seq<(String, JsonValue)>,
    at: int,
    member: (String, JsonValue),
)
    requires
        0 <= at < members.len(),
        members[at].0@ == member.0@,
        forall|j: int| at < j < members.len() ==> (#[trigger] members[j]).0@ != member.0@,
    ensures
        members_of(members.update(at, member)) == members_of(members).insert(
            member.0@,
            json_of(member.1),
        ),
    decreases members.len(),
{
    let updated = members.update(at, member);
    if at == members.len() - 1 {
        assert(updated.drop_last() =~= members.drop_last());
    } else {
        assert(members[members.len() - 1].0@ != member.0@);
        assert(updated.drop_last() =~= members.drop_last().update(at, member));
        lemma_member_replaced(members.drop_last(), at, member);
    }
    assert(members_of(updated) =~= members_of(members).insert(member.0@, json_of(member.1)));
}

impl JsonObject {
    /// An object without members.
    pub fn new() -> (r: JsonObject)
        ensures
            r@ == Map::<Seq<char>, Json>::empty(),
    {
        JsonObject { members: Vec::new() }
    }

    /// Where the member `key` stands: the last of that name.
    fn find(&self, key: &str) -> (r: Option<usize>)
        ensures
            match r {
                Some(i) => {
                    &&& i < self.members@.len()
                    &&& self.members@[i as int].0@ == key@
                    &&& forall|j: int|
                        i < j < self.members@.len() ==> (#[trigger] self.members@[j]).0@ != key@
                    &&& self@.dom().contains(key@)
                    &&& self@[key@] == self.members@[i as int].1@
                },
                None => !self@.dom().contains(key@),
            },
    {
        let mut i: usize = self.members.len();
        assert(self.members@.take(i as int) =~= self.members@);
        while i > 0
            invariant
                i <= self.members@.len(),
                forall|j: int|
                    i <= j < self.members@.len() ==> (#[trigger] self.members@[j]).0@ != key@,
                self@.dom().contains(key@) == members_of(
                    self.members@.take(i as int),
                ).dom().contains(key@),
                self@[key@] == members_of(self.members@.take(i as int))[key@],
            decreases i,
        {
            i -= 1;
            let ghost upper = self.members@.take(i + 1);
            assert(upper.drop_last() =~= self.members@.take(i as int));
            assert(upper.last() == self.members@[i as int]);
            if same(self.members[i].0.as_str(), key) {
                return Some(i);
            }
            proof {
                lemma_last_member(upper, key@);
            }
        }
        None
    }

    /// The member `key`, if there is one.
    pub fn get(&self, key: &str) -> (r: Option<&JsonValue>)
        ensures
            optional(r) == Json::Object(self@).member(key@),
    {
        match self.find(key) {
            Some(i) => Some(&self.members[i].1),
            None => None,
        }
    }

    /// Gives the member `key` the value `v`.
    pub fn insert(&mut self, key: &str, v: JsonValue)
        ensures
            final(self)@ == old(self)@.insert(key@, v@),
    {
        let ghost before = self.members@;
        match self.find(key) {
            Some(i) => {
                let entry: (String, JsonValue) = (key.to_owned(), v);
                proof {
                    lemma_member_replaced(before, i as int, entry);
                }
                self.members.set(i, entry);
            },
            None => {
                self.members.push((key.to_owned(), v));
                assert(self.members@.drop_last() =~= before);
            },
        }
    }
}

impl JsonValue {
    /// The member `key`, of an object that has it.
    pub fn get(&self, key: &str) -> (r: Option<&JsonValue>)
        ensures
            optional(r) == self@.member(key@),
    {
        match self {
            JsonValue::Object(o) => o.get(key),
            _ => None,
        }
    }

    /// The value as an `i64`, if it is an integer that fits.
    pub fn as_i64(&self) -> (r: Option<i64>)
        ensures
            r == self@.int_value(),
    {
        match self {
            JsonValue::Number(n) => n.as_i64(),
            _ => None,
        }
    }

    /// The value as a truth value, if it is one.
    pub fn as_bool(&self) -> (r: Option<bool>)
        ensures
            r == self@.bool_value(),
    {
        match self {
            JsonValue::Bool(b) => Some(*b),
            _ => None,
        }
    }

    /// The value as a text, if it is one.
    pub fn as_str(&self) -> (r: Option<&str>)
        ensures
            match r {
                Some(s) => self@.text_value() == Some(s@),
                None => self@.text_value() == None::<Seq<char>>,
            },
    {
        match self {
            JsonValue::Text(s) => Some(s.as_str()),
            _ => None,
        }
    }

    /// The text `s` as a value.
    pub fn text(s: &str) -> (r: JsonValue)
        ensures
            r@ == Json::Text(s@),
    {
        JsonValue::Text(s.to_owned())
    }

    /// The value that `text` spells, if it is JSON.
    pub fn parse(text: &str) -> (r: Option<JsonValue>)
        ensures
            match r {
                Some(v) => parsed_json(text@) == Some(v@),
                None => parsed_json(text@) == None::<Json>,
            },
    {
        match value_from_text(text) {
            Some(v) => Some(tree(&v)),
            None => None,
        }
    }
}

/// `serde_json::Value`, as it comes from that crate's parser.
#[verifier::external_type_specification]
#[verifier::external_body]
pub struct ExParsedValue(serde_json::Value);

/// `serde_json::Number`.
#[verifier::external_type_specification]
#[verifier::external_body]
pub struct ExParsedNumber(serde_json::Number);

/// `serde_json::Map`, the members of a parsed object.
#[verifier::external_type_specification]
#[verifier::external_body]
#[verifier::reject_recursive_types(K)]
#[verifier::reject_recursive_types(V)]
pub struct ExParsedMembers<K, V>(serde_json::Map<K, V>);

/// What a `serde_json::Value` holds.
pub uninterp spec fn value_tree(v: serde_json::Value) -> Json;

/// What a `serde_json::Number` holds.
pub uninterp spec fn number_held(n: serde_json::Number) -> JsonNumber;

/// What a `serde_json::Map` holds: the values under their names.
pub uninterp spec fn members_held(
    m: serde_json::Map<String, serde_json::Value>,
) -> Map<Seq<char>, Json>;

/// What `serde_json::from_str` makes of a text: nothing, if it is not JSON.
pub uninterp spec fn parsed_json(text: Seq<char>) -> Option<Json>;

/// The bit pattern of the double that `serde_json` reads the integer `n` as:
/// the one next to it.
pub uninterp spec fn nearest_double(n: int) -> u64;

/// `serde_json::from_str` into a `serde_json::Value`: what comes out is a
/// function of the text alone.
#[verifier::external_body]
fn value_from_text(text: &str) -> (r: Option<serde_json::Value>)
    ensures
        match r {
            Some(v) => parsed_json(text@) == Some(value_tree(v)),
            None => parsed_json(text@) == None::<Json>,
        },
{
    serde_json::from_str::<serde_json::Value>(text).ok()
}

/// One level of a parsed value: the variants of `serde_json::Value`.
enum Level<'a> {
    Null,
    Bool(bool),
    Number(&'a serde_json::Number),
    Text(&'a String),
    Array(&'a Vec<serde_json::Value>),
    Object(&'a serde_json::Map<String, serde_json::Value>),
}

/// What the items of a parsed array hold.
spec fn parsed_items(items: Seq<serde_json::Value>) -> Seq<Json> {
    items.map_values(|v: serde_json::Value| value_tree(v))
}

/// The variant of a `serde_json::Value` with what it carries; a value holds
/// what its variant says.
#[verifier::external_body]
fn level(v: &serde_json::Value) -> (r: Level<'_>)
    ensures
        value_tree(*v) == match r {
            Level::Null => Json::Null,
            Level::Bool(b) => Json::Bool(b),
            Level::Number(n) => Json::Number(number_held(*n)),
            Level::Text(s) => Json::Text(s@),
            Level::Array(items) => Json::Array(parsed_items(items@)),
            Level::Object(members) => Json::Object(members_held(*members)),
        },
{
    match v {
        serde_json::Value::Null => Level::Null,
        serde_json::Value::Bool(b) => Level::Bool(*b),
        serde_json::Value::Number(n) => Level::Number(n),
        serde_json::Value::String(s) => Level::Text(s),
        serde_json::Value::Array(items) => Level::Array(items),
        serde_json::Value::Object(members) => Level::Object(members),
    }
}

/// `serde_json::Map::iter`: hands out every member once, with its name.
#[verifier::external_body]
fn map_members(m: &serde_json::Map<String, serde_json::Value>) -> (r: Vec<
    (&String, &serde_json::Value),
>)
    ensures
        forall|key: Seq<char>| #[trigger]
            members_held(*m).dom().contains(key) ==> exists|i: int|
                0 <= i < r@.len() && (#[trigger] r@[i]).0@ == key,
        forall|i: int|
            0 <= i < r@.len() ==> {
                &&& members_held(*m).dom().contains((#[trigger] r@[i]).0@)
                &&& members_held(*m)[r@[i].0@] == value_tree(*r@[i].1)
            },
        forall|i: int, j: int|
            0 <= i < j < r@.len() ==> (#[trigger] r@[i]).0@ != (#[trigger] r@[j]).0@,
{
    m.iter().collect()
}

/// `serde_json::Number::as_u64`: an integer that is not negative, and nothing
/// else.
#[verifier::external_body]
fn number_unsigned(n: &serde_json::Number) -> (r: Option<u64>)
    ensures
        match r {
            Some(u) => number_held(*n) == JsonNumber::PosInt(u),
            None => !(number_held(*n) is PosInt),
        },
{
    n.as_u64()
}

/// `serde_json::Number::as_i64`: an integer that fits, and nothing else.
#[verifier::external_body]
fn number_signed(n: &serde_json::Number) -> (r: Option<i64>)
    ensures
        r == number_held(*n).int_value(),
{
    n.as_i64()
}

/// `serde_json::Number::as_f64`, by its bit pattern: a double as it is, an
/// integer as the double next to it. That double is finite and has the sign of
/// the integer.
#[verifier::external_body]
fn number_double(n: &serde_json::Number) -> (r: u64)
    ensures
        match number_held(*n) {
            JsonNumber::PosInt(u) => r == nearest_double(u as int) && finite_and_not_negative(r),
            JsonNumber::NegInt(i) => {
                &&& r == nearest_double(i as int)
                &&& i < 0 ==> !finite_and_not_negative(r)
            },
            JsonNumber::Double(bits) => r == bits,
        },
{
    n.as_f64().unwrap().to_bits()
}

/// `serde_json::Number::from_i128`: the number of an integer, which it keeps
/// as unsigned where that is possible. Out of range it has none.
#[verifier::external_body]
fn number_from_integer(n: i128) -> (r: serde_json::Number)
    requires
        i64::MIN <= n <= u64::MAX,
    ensures
        number_held(r) == JsonNumber::of_int(n as int),
{
    serde_json::Number::from_i128(n).unwrap()
}

/// A parsed number.
fn number(n: &serde_json::Number) -> (r: JsonNumber)
    ensures
        r == number_held(*n),
{
    match number_unsigned(n) {
        Some(u) => JsonNumber::PosInt(u),
        None => match number_signed(n) {
            Some(i) => JsonNumber::NegInt(i),
            None => JsonNumber::Double(number_double(n)),
        },
    }
}

/// A parsed value as a tree.
pub fn tree(v: &serde_json::Value) -> (r: JsonValue)
    ensures
        r@ == value_tree(*v),
    decreases value_tree(*v),
{
    match level(v) {
        Level::Null => JsonValue::Null,
        Level::Bool(b) => JsonValue::Bool(b),
        Level::Number(n) => JsonValue::Number(number(n)),
        Level::Text(s) => JsonValue::Text(s.clone()),
        Level::Array(items) => {
            let ghost whole = value_tree(*v)->Array_0;
            let mut out: Vec<JsonValue> = Vec::new();
            let mut i: usize = 0;
            while i < items.len()
                invariant
                    i <= items@.len(),
                    value_tree(*v) == Json::Array(whole),
                    whole == parsed_items(items@),
                    items_of(out@) == whole.take(i as int),
                decreases items@.len() - i,
            {
                assert(decreases_to!(value_tree(*v) => value_tree(*v)->Array_0));
                assert(decreases_to!(whole => whole[i as int]));
                let ghost before = out@;
                out.push(tree(&items[i]));
                i += 1;
                assert(out@.drop_last() =~= before);
                assert(whole.take(i as int) =~= whole.take(i - 1).push(whole[i - 1]));
            }
            assert(items_of(out@) =~= whole);
            JsonValue::Array(out)
        },
        Level::Object(held) => {
            let ghost whole = value_tree(*v)->Object_0;
            let members = map_members(held);
            proof {
                let names = members@.map_values(|m: (&String, &serde_json::Value)| m.0@);
                assert(whole.dom().subset_of(names.to_set())) by {
                    assert forall|key: Seq<char>| whole.dom().contains(key) implies names.contains(
                        key,
                    ) by {
                        let i = choose|i: int|
                            0 <= i < members@.len() && (#[trigger] members@[i]).0@ == key;
                        assert(names[i] == key);
                    }
                }
                vstd::seq_lib::seq_to_set_is_finite(names);
            }
            let mut out: Vec<(String, JsonValue)> = Vec::new();
            let mut i: usize = 0;
            while i < members.len()
                invariant
                    i <= members@.len(),
                    value_tree(*v) == Json::Object(whole),
                    whole.dom().finite(),
                    forall|j: int|
                        0 <= j < members@.len() ==> {
                            &&& whole.dom().contains((#[trigger] members@[j]).0@)
                            &&& whole[members@[j].0@] == value_tree(*members@[j].1)
                        },
                    forall|key: Seq<char>| #[trigger]
                        members_of(out@).dom().contains(key) ==> whole.dom().contains(key)
                            && members_of(out@)[key] == whole[key],
                    forall|j: int|
                        0 <= j < i ==> members_of(out@).dom().contains((#[trigger] members@[j]).0@),
                decreases members@.len() - i,
            {
                let (name, member) = members[i];
                proof {
                    assert(members@[i as int].0@ == name@);
                    assert(decreases_to!(value_tree(*v) => value_tree(*v)->Object_0));
                    assert(decreases_to!(whole => whole[name@]));
                }
                let ghost before = out@;
                out.push((name.clone(), tree(member)));
                i += 1;
                assert(out@.drop_last() =~= before);
                assert(members_of(out@) == members_of(before).insert(name@, whole[name@]));
            }
            assert(members_of(out@) =~= whole);
            JsonValue::Object(JsonObject { members: out })
        },
    }
}

/// A value that needs no floating point to be handed over: it holds no doubles,
/// and each integer below zero is marked as one.
pub open spec fn transferable(v: Json) -> bool
    decreases v,
{
    match v {
        Json::Number(JsonNumber::NegInt(n)) => n < 0,
        Json::Number(JsonNumber::Double(_)) => false,
        Json::Array(items) => forall|i: int|
            0 <= i < items.len() ==> transferable(#[trigger] items[i]),
        Json::Object(m) => m.dom().finite() && forall|key: Seq<char>| #[trigger]
            m.dom().contains(key) ==> transferable(m[key]),
        _ => true,
    }
}

/// An object can be handed over if its members can.
pub proof fn lemma_object_transferable(m: Map<Seq<char>, Json>)
    requires
        m.dom().finite(),
        forall|key: Seq<char>| #[trigger] m.dom().contains(key) ==> transferable(m[key]),
    ensures
        transferable(Json::Object(m)),
{
    let v = Json::Object(m);
    assert forall|key: Seq<char>| #[trigger]
        v->Object_0.dom().contains(key) implies transferable(v->Object_0[key]) by {}
}

/// One level of a value to be made: the variants of `serde_json::Value`.
enum Makings {
    Null,
    Bool(bool),
    Number(serde_json::Number),
    Text(String),
    Array(Vec<serde_json::Value>),
    Object(serde_json::Map<String, serde_json::Value>),
}

/// A variant of `serde_json::Value`, made of what it carries; a value holds what
/// its variant says.
#[verifier::external_body]
fn value_made(v: Makings) -> (r: serde_json::Value)
    ensures
        value_tree(r) == match v {
            Makings::Null => Json::Null,
            Makings::Bool(b) => Json::Bool(b),
            Makings::Number(n) => Json::Number(number_held(n)),
            Makings::Text(s) => Json::Text(s@),
            Makings::Array(items) => Json::Array(parsed_items(items@)),
            Makings::Object(members) => Json::Object(members_held(members)),
        },
{
    match v {
        Makings::Null => serde_json::Value::Null,
        Makings::Bool(b) => serde_json::Value::Bool(b),
        Makings::Number(n) => serde_json::Value::Number(n),
        Makings::Text(s) => serde_json::Value::String(s),
        Makings::Array(items) => serde_json::Value::Array(items),
        Makings::Object(members) => serde_json::Value::Object(members),
    }
}

/// `serde_json::Map::new`: no members.
#[verifier::external_body]
fn no_members() -> (r: serde_json::Map<String, serde_json::Value>)
    ensures
        members_held(r).dom().is_empty(),
{
    serde_json::Map::new()
}

/// `serde_json::Map::insert`: the value goes under its name, in place of one that
/// is there.
#[verifier::external_body]
fn set_member(
    m: &mut serde_json::Map<String, serde_json::Value>,
    name: String,
    v: serde_json::Value,
)
    ensures
        members_held(*final(m)) == members_held(*old(m)).insert(name@, value_tree(v)),
{
    m.insert(name, v);
}

/// Each item of an array says what it says by itself.
pub proof fn lemma_items(items: Seq<JsonValue>)
    ensures
        items_of(items).len() == items.len(),
        forall|i: int| 0 <= i < items.len() ==> #[trigger] items_of(items)[i] == json_of(items[i]),
    decreases items.len(),
{
    if items.len() > 0 {
        let shorter = items.drop_last();
        lemma_items(shorter);
        assert forall|i: int| 0 <= i < items.len() implies #[trigger] items_of(items)[i]
            == json_of(items[i]) by {
            if i < shorter.len() {
                assert(items_of(shorter)[i] == json_of(shorter[i]));
            }
        }
    }
}

/// The member `i` is the last of its name.
spec fn counts(members: Seq<(String, JsonValue)>, i: int) -> bool {
    &&& 0 <= i < members.len()
    &&& forall|j: int| i < j < members.len() ==> (#[trigger] members[j]).0@ != members[i].0@
}

/// An object says what the last members of their names say, and nothing else.
proof fn lemma_members(members: Seq<(String, JsonValue)>)
    ensures
        members_of(members).dom().finite(),
        forall|i: int| #[trigger]
            counts(members, i) ==> {
                &&& members_of(members).dom().contains(members[i].0@)
                &&& members_of(members)[members[i].0@] == json_of(members[i].1)
            },
        forall|key: Seq<char>| #[trigger]
            members_of(members).dom().contains(key) ==> exists|i: int|
                counts(members, i) && members[i].0@ == key,
    decreases members.len(),
{
    if members.len() > 0 {
        let shorter = members.drop_last();
        let n = members.len() - 1;
        lemma_members(shorter);
        assert forall|i: int| #[trigger] counts(members, i) implies {
            &&& members_of(members).dom().contains(members[i].0@)
            &&& members_of(members)[members[i].0@] == json_of(members[i].1)
        } by {
            if i < n {
                assert(members[n].0@ != members[i].0@);
                assert forall|j: int| i < j < shorter.len() implies (#[trigger] shorter[j]).0@
                    != shorter[i].0@ by {
                    assert(shorter[j] == members[j]);
                }
                assert(counts(shorter, i));
            }
        }
        assert forall|key: Seq<char>| #[trigger]
            members_of(members).dom().contains(key) implies exists|i: int|
            counts(members, i) && members[i].0@ == key by {
            if members[n].0@ == key {
                assert(counts(members, n));
            } else {
                assert(members_of(shorter).dom().contains(key));
                let i = choose|i: int| counts(shorter, i) && shorter[i].0@ == key;
                assert forall|j: int| i < j < members.len() implies (#[trigger] members[j]).0@
                    != members[i].0@ by {
                    if j < n {
                        assert(shorter[j] == members[j]);
                    }
                }
                assert(counts(members, i));
            }
        }
    }
}

/// An item that cannot be handed over hinders its array.
proof fn lemma_item_hinders(items: Seq<Json>, i: int)
    requires
        0 <= i < items.len(),
        !transferable(items[i]),
    ensures
        !transferable(Json::Array(items)),
{
    let v = Json::Array(items);
    assert(v->Array_0[i] == items[i]);
    assert(transferable(v) ==> transferable(v->Array_0[i]));
}

/// The value as one of `serde_json`, if it is made of texts, truth values and
/// integers.
pub fn value_of(v: &JsonValue) -> (r: Option<serde_json::Value>)
    ensures
        match r {
            Some(made) => transferable(v@) && value_tree(made) == v@,
            None => !transferable(v@),
        },
    decreases v,
{
    match v {
        JsonValue::Null => Some(value_made(Makings::Null)),
        JsonValue::Bool(b) => Some(value_made(Makings::Bool(*b))),
        JsonValue::Number(JsonNumber::PosInt(n)) => Some(
            value_made(Makings::Number(number_from_integer(*n as i128))),
        ),
        JsonValue::Number(JsonNumber::NegInt(n)) => if *n < 0 {
            Some(value_made(Makings::Number(number_from_integer(*n as i128))))
        } else {
            None
        },
        JsonValue::Number(JsonNumber::Double(_)) => None,
        JsonValue::Text(s) => Some(value_made(Makings::Text(s.clone()))),
        JsonValue::Array(items) => {
            let ghost whole = items_of(items@);
            proof {
                lemma_items(items@);
            }
            let mut out: Vec<serde_json::Value> = Vec::new();
            let mut i: usize = 0;
            while i < items.len()
                invariant
                    i <= items@.len(),
                    *v == JsonValue::Array(*items),
                    whole == items_of(items@),
                    v@ == Json::Array(whole),
                    whole.len() == items@.len(),
                    forall|j: int|
                        0 <= j < items@.len() ==> #[trigger] whole[j] == json_of(items@[j]),
                    forall|j: int| 0 <= j < i ==> transferable(#[trigger] whole[j]),
                    parsed_items(out@) == whole.take(i as int),
                decreases items@.len() - i,
            {
                assert(whole[i as int] == json_of(items@[i as int]));
                let ghost before = out@;
                match value_of(&items[i]) {
                    Some(made) => {
                        out.push(made);
                    },
                    None => {
                        assert(!transferable(whole[i as int]));
                        proof {
                            lemma_item_hinders(whole, i as int);
                        }
                        return None;
                    },
                }
                i += 1;
                assert(parsed_items(out@) =~= parsed_items(before).push(whole[i - 1]));
                assert(whole.take(i as int) =~= whole.take(i - 1).push(whole[i - 1]));
            }
            assert(parsed_items(out@) =~= whole);
            Some(value_made(Makings::Array(out)))
        },
        JsonValue::Object(o) => {
            let ghost members = o.members@;
            let ghost whole = members_of(members);
            proof {
                lemma_members(members);
            }
            let mut out = no_members();
            let mut i: usize = 0;
            while i < o.members.len()
                invariant
                    i <= members.len(),
                    *v == JsonValue::Object(*o),
                    members == o.members@,
                    whole == members_of(members),
                    v@ == Json::Object(whole),
                    forall|j: int| #[trigger]
                        counts(members, j) ==> {
                            &&& whole.dom().contains(members[j].0@)
                            &&& whole[members[j].0@] == json_of(members[j].1)
                        },
                    forall|key: Seq<char>| #[trigger]
                        members_held(out).dom().contains(key) ==> whole.dom().contains(key)
                            && members_held(out)[key] == whole[key],
                    forall|j: int|
                        0 <= j < i && #[trigger] counts(members, j) ==> {
                            &&& members_held(out).dom().contains(members[j].0@)
                            &&& transferable(json_of(members[j].1))
                        },
                decreases members.len() - i,
            {
                let name = o.members[i].0.as_str();
                let last = o.find(name);
                let live: bool = match last {
                    Some(at) => at == i,
                    None => false,
                };
                assert(live == counts(members, i as int)) by {
                    assert(members[i as int].0@ == name@);
                    if let Some(at) = last {
                        if at < i {
                            assert(members[i as int].0@ != name@);
                        } else if i < at {
                            assert(members[at as int].0@ == members[i as int].0@);
                        }
                    } else {
                        lemma_members(members);
                        lemma_name_is_held(members, i as int);
                    }
                }
                if live {
                    match value_of(&o.members[i].1) {
                        Some(made) => {
                            set_member(&mut out, o.members[i].0.clone(), made);
                        },
                        None => {
                            assert(counts(members, i as int));
                            assert(whole.dom().contains(members[i as int].0@));
                            return None;
                        },
                    }
                }
                i += 1;
            }
            proof {
                lemma_members(members);
                assert forall|key: Seq<char>| #[trigger] whole.dom().contains(key) implies {
                    &&& members_held(out).dom().contains(key)
                    &&& transferable(whole[key])
                } by {
                    let j = choose|j: int| counts(members, j) && members[j].0@ == key;
                    assert(counts(members, j));
                }
                assert(members_held(out) =~= whole);
            }
            Some(value_made(Makings::Object(out)))
        },
    }
}

/// An object has a member under the name of each of its entries.
proof fn lemma_name_is_held(members: Seq<(String, JsonValue)>, i: int)
    requires
        0 <= i < members.len(),
    ensures
        members_of(members).dom().contains(members[i].0@),
    decreases members.len(),
{
    if i < members.len() - 1 {
        lemma_name_is_held(members.drop_last(), i);
        assert(members.drop_last()[i] == members[i]);
    }
}

} // verus!

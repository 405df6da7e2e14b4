//! Laws of the JSON values.

use vstd::prelude::*;

use crate::json::{
    finite_and_not_negative, items_of, json_of, lemma_items, members_of, nearest_double,
    optional, transferable, Json, JsonNumber, JsonValue,
};

verus! {

/// A member is found in the object that has it, and nowhere else.
pub proof fn law_a_member_is_found_in_its_object(m: Map<Seq<char>, Json>, key: Seq<char>, v: Json)
    ensures
        Json::Object(m.insert(key, v)).member(key) == Some(v),
        !m.dom().contains(key) ==> Json::Object(m).member(key) is None,
        forall|other: Seq<char>|
            other != key ==> #[trigger] Json::Object(m.insert(key, v)).member(other)
                == Json::Object(m).member(other),
        !(v is Object) ==> v.member(key) is None,
{
    assert forall|other: Seq<char>| other != key implies #[trigger] Json::Object(
        m.insert(key, v),
    ).member(other) == Json::Object(m).member(other) by {}
}

/// Every number of 64 bits with a sign is read back from the JSON number that
/// stands for it, and no other number is read as one.
pub proof fn law_integers_are_read_back(n: i64, u: u64, bits: u64)
    ensures
        JsonNumber::of_int(n as int).int_value() == Some(n),
        n >= 0 ==> JsonNumber::of_int(n as int) == JsonNumber::PosInt(n as u64),
        n < 0 ==> JsonNumber::of_int(n as int) == JsonNumber::NegInt(n),
        JsonNumber::NegInt(n).int_value() == Some(n),
        u <= 0x7fff_ffff_ffff_ffff ==> JsonNumber::PosInt(u).int_value() == Some(u as i64),
        u > 0x7fff_ffff_ffff_ffff ==> JsonNumber::PosInt(u).int_value() is None,
        JsonNumber::Double(bits).int_value() is None,
{
}

/// A value is read as what it is, and as nothing else.
pub proof fn law_values_are_read_as_what_they_are(v: Json, b: bool, s: Seq<char>, n: JsonNumber)
    ensures
        v.bool_value() == Some(b) <==> v == Json::Bool(b),
        v.text_value() == Some(s) <==> v == Json::Text(s),
        Json::Number(n).int_value() == n.int_value(),
        !(v is Number) ==> v.int_value() is None,
{
}

/// A double is a reading if its exponent is not all ones and its sign is plus,
/// or if it is zero of either sign.
pub proof fn law_readings_by_their_bits(bits: u64)
    ensures
        finite_and_not_negative(bits) <==> (bits >> 52) & 0x7ff != 0x7ff && (bits >> 63 == 0
            || bits & 0x7fff_ffff_ffff_ffff == 0),
{
    assert((bits < 0x7ff0_0000_0000_0000 || bits == 0x8000_0000_0000_0000) <==> ((bits >> 52)
        & 0x7ff != 0x7ff && (bits >> 63 == 0 || bits & 0x7fff_ffff_ffff_ffff == 0)))
        by (bit_vector);
}

/// A double stands for itself, and an integer for the double next to it.
pub proof fn law_numbers_as_doubles(bits: u64, u: u64, n: i64)
    ensures
        JsonNumber::Double(bits).double_bits() == bits,
        JsonNumber::PosInt(u).double_bits() == nearest_double(u as int),
        JsonNumber::NegInt(n).double_bits() == nearest_double(n as int),
{
}

/// An array says what its items say, in order.
pub proof fn law_an_array_says_what_its_items_say(items: Seq<JsonValue>)
    ensures
        items_of(items).len() == items.len(),
        forall|i: int| 0 <= i < items.len() ==> #[trigger] items_of(items)[i] == json_of(items[i]),
{
    lemma_items(items);
}

/// Of the members of one name the last counts, and there are no members but
/// those that are listed.
pub proof fn law_the_last_member_counts(
    before: Seq<(String, JsonValue)>,
    member: (String, JsonValue),
    after: Seq<(String, JsonValue)>,
    key: Seq<char>,
)
    requires
        forall|i: int| 0 <= i < after.len() ==> (#[trigger] after[i]).0@ != key,
    ensures
        member.0@ == key ==> members_of(before.push(member) + after).dom().contains(key)
            && members_of(before.push(member) + after)[key] == json_of(member.1),
        !members_of(after).dom().contains(key),
    decreases after.len(),
{
    let all = before.push(member) + after;
    if after.len() == 0 {
        assert(all =~= before.push(member));
        assert(all.drop_last() =~= before);
    } else {
        let shorter = after.drop_last();
        assert(after[after.len() - 1].0@ != key);
        assert forall|i: int| 0 <= i < shorter.len() implies (#[trigger] shorter[i]).0@ != key by {
            assert(after[i].0@ != key);
        }
        law_the_last_member_counts(before, member, shorter, key);
        assert(all.drop_last() =~= before.push(member) + shorter);
        assert(all.last() == after.last());
    }
}

/// A value says what it is made of.
pub proof fn law_a_value_says_what_it_is_made_of(v: JsonValue)
    ensures
        match v {
            JsonValue::Null => v@ == Json::Null,
            JsonValue::Bool(b) => v@ == Json::Bool(b),
            JsonValue::Number(n) => v@ == Json::Number(n),
            JsonValue::Text(s) => v@ == Json::Text(s@),
            JsonValue::Array(items) => v@ == Json::Array(items_of(items@)),
            JsonValue::Object(o) => v@ == Json::Object(members_of(o.members@)),
        },
{
}

/// Texts, truth values and integers can be handed over; doubles cannot; arrays
/// and objects can if what is in them can.
pub proof fn law_what_can_be_handed_over(
    b: bool,
    s: Seq<char>,
    u: u64,
    n: i64,
    bits: u64,
    items: Seq<Json>,
    m: Map<Seq<char>, Json>,
)
    ensures
        transferable(Json::Null),
        transferable(Json::Bool(b)),
        transferable(Json::Text(s)),
        transferable(Json::Number(JsonNumber::PosInt(u))),
        n < 0 ==> transferable(Json::Number(JsonNumber::NegInt(n))),
        !transferable(Json::Number(JsonNumber::Double(bits))),
        transferable(Json::Array(items)) <==> forall|i: int|
            0 <= i < items.len() ==> transferable(#[trigger] items[i]),
        m.dom().finite() ==> (transferable(Json::Object(m)) <==> forall|key: Seq<char>| #[trigger]
            m.dom().contains(key) ==> transferable(m[key])),
{
    let a = Json::Array(items);
    assert forall|i: int| 0 <= i < items.len() implies a->Array_0[i] == #[trigger] items[i] by {}
    let o = Json::Object(m);
    assert(o->Object_0 == m);
    if transferable(a) {
        assert forall|i: int| 0 <= i < items.len() implies transferable(#[trigger] items[i]) by {
            assert(transferable(a->Array_0[i]));
        }
    }
    if m.dom().finite() && transferable(o) {
        assert forall|key: Seq<char>| #[trigger] m.dom().contains(key) implies transferable(
            m[key],
        ) by {
            assert(o->Object_0.dom().contains(key));
        }
    }
}

/// A place that may hold no value says what it holds.
pub proof fn law_a_place_says_what_it_holds(v: &JsonValue)
    ensures
        optional(Some(v)) == Some(v@),
        optional(None) is None,
{
}

} // verus!

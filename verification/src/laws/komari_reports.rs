//! Laws of the komari converters and tokens.

use vstd::prelude::*;

use crate::json::{nearest_double, Json, JsonNumber};
use crate::komari_compat::{
    at_path, charset, double_at, facts_of, integer_at, komari_token, law_facts_are_complete,
    lemma_filter_all, lemma_metric_values, metric, metrics_of, sanitized, token_spelled, CHARSET_SIZE,
    TOKEN_LENGTH,
};
use crate::text::{alphanumeric, control};

verus! {

/// The value `v` stands under `outer` and, in that object, under `inner`.
pub open spec fn stands_under(report: Json, outer: Seq<char>, inner: Seq<char>, v: Json) -> bool {
    &&& report matches Json::Object(top)
    &&& top.dom().contains(outer)
    &&& top[outer] matches Json::Object(sub)
    &&& sub.dom().contains(inner)
    &&& sub[inner] == v
}

/// The value `v` stands under `key`.
pub open spec fn stands_at(info: Json, key: Seq<char>, v: Json) -> bool {
    &&& info matches Json::Object(top)
    &&& top.dom().contains(key)
    &&& top[key] == v
}

/// A path of two names leads to what stands under the one and then the other.
proof fn lemma_two_names(report: Json, outer: Seq<char>, inner: Seq<char>)
    ensures
        forall|v: Json| #[trigger]
            stands_under(report, outer, inner, v) <==> at_path(report, seq![outer, inner]) == Some(
                v,
            ),
{
    reveal_with_fuel(at_path, 3);
    assert(seq![outer, inner].skip(1) =~= seq![inner]);
    assert(seq![inner].skip(1) =~= Seq::<Seq<char>>::empty());
}

/// A path of one name leads to what stands there.
proof fn lemma_one_name(report: Json, key: Seq<char>)
    ensures
        forall|v: Json| #[trigger]
            stands_at(report, key, v) <==> at_path(report, seq![key]) == Some(v),
{
    reveal_with_fuel(at_path, 2);
    assert(seq![key].skip(1) =~= Seq::<Seq<char>>::empty());
}

/// A metric that counts something is read from its place.
proof fn lemma_count_place(report: Json, name: Seq<char>, outer: Seq<char>, inner: Seq<char>)
    requires
        (name == "mem_total"@ && outer == "ram"@ && inner == "total"@)
        || (name == "mem_used"@ && outer == "ram"@ && inner == "used"@)
        || (name == "swap_total"@ && outer == "swap"@ && inner == "total"@)
        || (name == "swap_used"@ && outer == "swap"@ && inner == "used"@)
        || (name == "disk_total"@ && outer == "disk"@ && inner == "total"@)
        || (name == "disk_used"@ && outer == "disk"@ && inner == "used"@)
        || (name == "net_rx"@ && outer == "network"@ && inner == "up"@)
        || (name == "net_tx"@ && outer == "network"@ && inner == "down"@)
        || (name == "net_rx_total"@ && outer == "network"@ && inner == "totalUp"@)
        || (name == "net_tx_total"@ && outer == "network"@ && inner == "totalDown"@)
        || (name == "tcp"@ && outer == "connections"@ && inner == "tcp"@)
        || (name == "udp"@ && outer == "connections"@ && inner == "udp"@),
    ensures
        metrics_of(report).member(name) == integer_at(report, outer, inner),
{
    lemma_metric_values(report);
    assert(metrics_of(report).member(name) == metric(report, name));
}

/// The integer that is read is the one that stands there.
proof fn lemma_count(report: Json, outer: Seq<char>, inner: Seq<char>, n: u64)
    requires
        n <= 0x7fff_ffff_ffff_ffff,
    ensures
        integer_at(report, outer, inner) == Some(Json::Number(JsonNumber::PosInt(n))) <==> {
            ||| stands_under(report, outer, inner, Json::Number(JsonNumber::PosInt(n)))
            ||| stands_under(report, outer, inner, Json::Number(JsonNumber::NegInt(n as i64)))
        },
        integer_at(report, outer, inner) matches Some(v) ==> {
            &&& v matches Json::Number(JsonNumber::PosInt(u))
            &&& u <= 0x7fff_ffff_ffff_ffff
        },
{
    lemma_two_names(report, outer, inner);
    let found = at_path(report, seq![outer, inner]);
    assert(stands_under(report, outer, inner, Json::Number(JsonNumber::PosInt(n))) <==> found
        == Some(Json::Number(JsonNumber::PosInt(n))));
    assert(stands_under(report, outer, inner, Json::Number(JsonNumber::NegInt(n as i64)))
        <==> found == Some(Json::Number(JsonNumber::NegInt(n as i64))));
}

/// A metric that counts something is the integer that stands at its place of the
/// report, whatever that is from zero on, and there is none where no such
/// integer stands.
pub proof fn law_a_count_is_the_integer_at_its_place(
    report: Json,
    name: Seq<char>,
    outer: Seq<char>,
    inner: Seq<char>,
    n: u64,
)
    requires
        (name == "mem_total"@ && outer == "ram"@ && inner == "total"@)
        || (name == "mem_used"@ && outer == "ram"@ && inner == "used"@)
        || (name == "swap_total"@ && outer == "swap"@ && inner == "total"@)
        || (name == "swap_used"@ && outer == "swap"@ && inner == "used"@)
        || (name == "disk_total"@ && outer == "disk"@ && inner == "total"@)
        || (name == "disk_used"@ && outer == "disk"@ && inner == "used"@)
        || (name == "net_rx"@ && outer == "network"@ && inner == "up"@)
        || (name == "net_tx"@ && outer == "network"@ && inner == "down"@)
        || (name == "net_rx_total"@ && outer == "network"@ && inner == "totalUp"@)
        || (name == "net_tx_total"@ && outer == "network"@ && inner == "totalDown"@)
        || (name == "tcp"@ && outer == "connections"@ && inner == "tcp"@)
        || (name == "udp"@ && outer == "connections"@ && inner == "udp"@),
        n <= 0x7fff_ffff_ffff_ffff,
    ensures
        metrics_of(report).member(name) == Some(Json::Number(JsonNumber::PosInt(n))) <==> {
            ||| stands_under(report, outer, inner, Json::Number(JsonNumber::PosInt(n)))
            ||| stands_under(report, outer, inner, Json::Number(JsonNumber::NegInt(n as i64)))
        },
        metrics_of(report).member(name) matches Some(v) ==> {
            &&& v matches Json::Number(JsonNumber::PosInt(u))
            &&& u <= 0x7fff_ffff_ffff_ffff
        },
{
    lemma_count_place(report, name, outer, inner);
    lemma_count(report, outer, inner, n);
}

/// The number of processes and the uptime are the integers that stand in the
/// report itself, whatever they are from zero on.
pub proof fn law_processes_and_uptime_stand_at_the_top(
    report: Json,
    name: Seq<char>,
    key: Seq<char>,
    n: u64,
)
    requires
        (name == "procs"@ && key == "process"@) || (name == "uptime"@ && key == "uptime"@),
        n <= 0x7fff_ffff_ffff_ffff,
    ensures
        metrics_of(report).member(name) == Some(Json::Number(JsonNumber::PosInt(n))) <==> {
            ||| stands_at(report, key, Json::Number(JsonNumber::PosInt(n)))
            ||| stands_at(report, key, Json::Number(JsonNumber::NegInt(n as i64)))
        },
        metrics_of(report).member(name) matches Some(v) ==> {
            &&& v matches Json::Number(JsonNumber::PosInt(u))
            &&& u <= 0x7fff_ffff_ffff_ffff
        },
{
    lemma_metric_values(report);
    lemma_one_name(report, key);
    assert(metrics_of(report).member(name) == metric(report, name));
    let found = at_path(report, seq![key]);
    if let Some(v) = found {
        assert(stands_at(report, key, v));
    }
    assert(stands_at(report, key, Json::Number(JsonNumber::PosInt(n))) <==> found == Some(
        Json::Number(JsonNumber::PosInt(n)),
    ));
    assert(stands_at(report, key, Json::Number(JsonNumber::NegInt(n as i64))) <==> found == Some(
        Json::Number(JsonNumber::NegInt(n as i64)),
    ));
}

/// A reading with the bit pattern `bits` stands under `outer` and `inner`: that
/// double or an integer next to it, finite and not below zero.
pub open spec fn reading_under(
    report: Json,
    outer: Seq<char>,
    inner: Seq<char>,
    bits: u64,
) -> bool {
    &&& bits < 0x7ff0_0000_0000_0000 || bits == 0x8000_0000_0000_0000
    &&& {
        ||| stands_under(report, outer, inner, Json::Number(JsonNumber::Double(bits)))
        ||| exists|u: u64|
            nearest_double(u as int) == bits && #[trigger] stands_under(
                report,
                outer,
                inner,
                Json::Number(JsonNumber::PosInt(u)),
            )
        ||| exists|n: i64|
            nearest_double(n as int) == bits && #[trigger] stands_under(
                report,
                outer,
                inner,
                Json::Number(JsonNumber::NegInt(n)),
            )
    }
}

/// A reading stands where a double is read.
proof fn lemma_reading(report: Json, outer: Seq<char>, inner: Seq<char>)
    ensures
        forall|bits: u64| #[trigger]
            reading_under(report, outer, inner, bits) <==> double_at(
                report,
                outer,
                inner,
            ) == Some(bits),
{
    lemma_two_names(report, outer, inner);
    let found = at_path(report, seq![outer, inner]);
    assert forall|v: Json| #[trigger] stands_under(report, outer, inner, v) <==> found == Some(
        v,
    ) by {}
    if let Some(v) = found {
        assert(stands_under(report, outer, inner, v));
        if let Json::Number(n) = v {
            match n {
                JsonNumber::PosInt(u) => {
                    assert(stands_under(
                        report,
                        outer,
                        inner,
                        Json::Number(JsonNumber::PosInt(u)),
                    ));
                },
                JsonNumber::NegInt(i) => {
                    assert(stands_under(
                        report,
                        outer,
                        inner,
                        Json::Number(JsonNumber::NegInt(i)),
                    ));
                },
                JsonNumber::Double(_) => {},
            }
        }
    }
}

/// The use of the processor is the reading that stands at its place.
pub proof fn law_the_cpu_is_the_reading_at_its_place(report: Json, bits: u64)
    ensures
        metrics_of(report).member("cpu"@) == Some(Json::Number(JsonNumber::Double(bits)))
            <==> reading_under(report, "cpu"@, "usage"@, bits),
        metrics_of(report).member("cpu"@) matches Some(v) ==> v matches Json::Number(
            JsonNumber::Double(_),
        ),
{
    lemma_metric_values(report);
    lemma_reading(report, "cpu"@, "usage"@);
    assert(metrics_of(report).member("cpu"@) == metric(report, "cpu"@));
    assert(reading_under(report, "cpu"@, "usage"@, bits) <==> double_at(report, "cpu"@, "usage"@)
        == Some(bits));
}

/// The load is the three readings that stand at its places, in their order, and
/// there is none where one of them is missing.
pub proof fn law_the_load_is_three_readings(report: Json, l1: u64, l5: u64, l15: u64)
    ensures
        metrics_of(report).member("load"@) == Some(
            Json::Array(
                seq![
                    Json::Number(JsonNumber::Double(l1)),
                    Json::Number(JsonNumber::Double(l5)),
                    Json::Number(JsonNumber::Double(l15)),
                ],
            ),
        ) <==> {
            &&& reading_under(report, "load"@, "load1"@, l1)
            &&& reading_under(report, "load"@, "load5"@, l5)
            &&& reading_under(report, "load"@, "load15"@, l15)
        },
        metrics_of(report).member("load"@) is Some ==> exists|a: u64, b: u64, c: u64| {
            &&& #[trigger] reading_under(report, "load"@, "load1"@, a)
            &&& #[trigger] reading_under(report, "load"@, "load5"@, b)
            &&& #[trigger] reading_under(report, "load"@, "load15"@, c)
        },
{
    lemma_metric_values(report);
    lemma_reading(report, "load"@, "load1"@);
    lemma_reading(report, "load"@, "load5"@);
    lemma_reading(report, "load"@, "load15"@);
    assert(metrics_of(report).member("load"@) == metric(report, "load"@));
    if let Some(v) = metrics_of(report).member("load"@) {
        let a = double_at(report, "load"@, "load1"@)->0;
        let b = double_at(report, "load"@, "load5"@)->0;
        let c = double_at(report, "load"@, "load15"@)->0;
        assert(reading_under(report, "load"@, "load1"@, a));
        assert(reading_under(report, "load"@, "load5"@, b));
        assert(reading_under(report, "load"@, "load15"@, c));
        let items = v->Array_0;
        assert(items[0] == Json::Number(JsonNumber::Double(a)));
        assert(items[1] == Json::Number(JsonNumber::Double(b)));
        assert(items[2] == Json::Number(JsonNumber::Double(c)));
        let wanted = seq![
            Json::Number(JsonNumber::Double(l1)),
            Json::Number(JsonNumber::Double(l5)),
            Json::Number(JsonNumber::Double(l15)),
        ];
        if items == wanted {
            assert(wanted[0] == items[0] && wanted[1] == items[1] && wanted[2] == items[2]);
        }
    }
}

/// Besides the readings there is the boot identity, always the same, and nothing
/// else.
pub proof fn law_there_are_no_other_metrics(report: Json, name: Seq<char>)
    ensures
        metrics_of(report) is Object,
        metrics_of(report).member("boot_id"@) == Some(Json::Text("komari"@)),
        metrics_of(report).member(name) is Some ==> {
            ||| name == "cpu"@
            ||| name == "load"@
            ||| name == "mem_total"@
            ||| name == "mem_used"@
            ||| name == "swap_total"@
            ||| name == "swap_used"@
            ||| name == "disk_total"@
            ||| name == "disk_used"@
            ||| name == "net_rx"@
            ||| name == "net_tx"@
            ||| name == "net_rx_total"@
            ||| name == "net_tx_total"@
            ||| name == "tcp"@
            ||| name == "udp"@
            ||| name == "procs"@
            ||| name == "uptime"@
            ||| name == "boot_id"@
        },
{
    lemma_metric_values(report);
    assert(metrics_of(report).member("boot_id"@) == metric(report, "boot_id"@));
    assert(metrics_of(report).member(name) == metric(report, name));
}

/// `c` is no control character.
pub open spec fn printable(c: char) -> bool {
    c >= ' ' && !('\u{7f}' <= c <= '\u{9f}')
}

/// A control character makes no difference to what is kept of a text, wherever
/// it stands.
pub proof fn law_control_characters_make_no_difference(a: Seq<char>, c: char, b: Seq<char>)
    requires
        c < ' ' || '\u{7f}' <= c <= '\u{9f}',
    ensures
        sanitized(a.push(c) + b) == sanitized(a + b),
{
    let keep = |c: char| !control(c);
    lemma_filter_in_parts(a.push(c), b, keep);
    lemma_filter_in_parts(a, b, keep);
    a.lemma_filter_push(c, keep);
    assert(!keep(c));
}

/// A filter works on the parts of a text.
proof fn lemma_filter_in_parts(a: Seq<char>, b: Seq<char>, keep: spec_fn(char) -> bool)
    ensures
        (a + b).filter(keep) == a.filter(keep) + b.filter(keep),
    decreases b.len(),
{
    reveal(Seq::filter);
    if b.len() == 0 {
        assert(a + b =~= a);
        assert(b.filter(keep) =~= Seq::<char>::empty());
        assert(a.filter(keep) + b.filter(keep) =~= a.filter(keep));
    } else {
        lemma_filter_in_parts(a, b.drop_last(), keep);
        assert((a + b).drop_last() =~= a + b.drop_last());
        assert((a + b).last() == b.last());
        assert((a + b).filter(keep) =~= a.filter(keep) + b.filter(keep));
    }
}

/// Of a text without control characters all is kept that comes before the limit.
pub proof fn law_what_can_be_shown_is_kept(s: Seq<char>)
    requires
        forall|i: int| 0 <= i < s.len() ==> printable(#[trigger] s[i]),
    ensures
        s.len() <= 128 ==> sanitized(s) == s,
        s.len() > 128 ==> sanitized(s) == s.take(128),
{
    let keep = |c: char| !control(c);
    assert forall|i: int| 0 <= i < s.len() implies keep(#[trigger] s[i]) by {
        assert(printable(s[i]));
    }
    lemma_filter_all(s, keep);
}

/// A fact that is a text is what is kept of the text in its field, and empty
/// where there is no text.
pub proof fn law_a_text_fact_is_the_text_in_its_field(
    info: Json,
    name: Seq<char>,
    key: Seq<char>,
    s: Seq<char>,
)
    requires
        (name == "os"@ && key == "os"@)
        || (name == "kernel"@ && key == "kernel_version"@)
        || (name == "arch"@ && key == "arch"@)
        || (name == "virt"@ && key == "virtualization"@)
        || (name == "cpu_name"@ && key == "cpu_name"@)
        || (name == "agent_version"@ && key == "version"@)
        || (name == "ipv4"@ && key == "ipv4"@)
        || (name == "ipv6"@ && key == "ipv6"@),
    ensures
        stands_at(info, key, Json::Text(s)) ==> facts_of(info).member(name) == Some(
            Json::Text(sanitized(s)),
        ),
        (forall|t: Seq<char>| !#[trigger] stands_at(info, key, Json::Text(t))) ==> facts_of(
            info,
        ).member(name) == Some(Json::Text(Seq::empty())),
{
    law_facts_are_complete(info);
    let none = Seq::<char>::empty();
    law_what_can_be_shown_is_kept(none);
    if let Some(Json::Text(t)) = info.member(key) {
        assert(stands_at(info, key, Json::Text(t)));
    }
}

/// A fact that is a number is the integer in its field, of either sign, and zero
/// where there is none.
pub proof fn law_a_number_fact_is_the_integer_in_its_field(
    info: Json,
    name: Seq<char>,
    key: Seq<char>,
    n: i64,
)
    requires
        (name == "cpu_cores"@ && key == "cpu_cores"@)
        || (name == "mem_total"@ && key == "mem_total"@)
        || (name == "swap_total"@ && key == "swap_total"@)
        || (name == "disk_total"@ && key == "disk_total"@),
    ensures
        n >= 0 && stands_at(info, key, Json::Number(JsonNumber::PosInt(n as u64))) ==> facts_of(
            info,
        ).member(name) == Some(Json::Number(JsonNumber::PosInt(n as u64))),
        n < 0 && stands_at(info, key, Json::Number(JsonNumber::NegInt(n))) ==> facts_of(
            info,
        ).member(name) == Some(Json::Number(JsonNumber::NegInt(n))),
        (forall|u: u64|
            u <= 0x7fff_ffff_ffff_ffff ==> !#[trigger] stands_at(
                info,
                key,
                Json::Number(JsonNumber::PosInt(u)),
            )) && (forall|i: i64|
            !#[trigger] stands_at(info, key, Json::Number(JsonNumber::NegInt(i)))) ==> facts_of(
            info,
        ).member(name) == Some(Json::Number(JsonNumber::PosInt(0))),
{
    law_facts_are_complete(info);
    if let Some(Json::Number(number)) = info.member(key) {
        match number {
            JsonNumber::PosInt(u) => {
                assert(stands_at(info, key, Json::Number(JsonNumber::PosInt(u))));
            },
            JsonNumber::NegInt(i) => {
                assert(stands_at(info, key, Json::Number(JsonNumber::NegInt(i))));
            },
            JsonNumber::Double(_) => {},
        }
    }
}

/// There are twelve facts and no more.
pub proof fn law_there_are_no_other_facts(info: Json, name: Seq<char>)
    ensures
        facts_of(info) is Object,
        facts_of(info).member(name) is Some <==> {
            ||| name == "os"@
            ||| name == "kernel"@
            ||| name == "arch"@
            ||| name == "virt"@
            ||| name == "cpu_name"@
            ||| name == "cpu_cores"@
            ||| name == "mem_total"@
            ||| name == "swap_total"@
            ||| name == "disk_total"@
            ||| name == "agent_version"@
            ||| name == "ipv4"@
            ||| name == "ipv6"@
        },
{
    law_facts_are_complete(info);
}

/// A token is a credential by its length and by each of its characters.
pub proof fn law_a_token_is_letters_and_digits(token: Seq<char>)
    ensures
        komari_token(token) <==> {
            &&& 8 <= token.len() <= 128
            &&& forall|i: int|
                0 <= i < token.len() ==> {
                    let c = #[trigger] token[i];
                    '0' <= c <= '9' || 'A' <= c <= 'Z' || 'a' <= c <= 'z'
                }
        },
{
}

/// The characters of generated tokens are the sixty-two letters and digits, in
/// the order of their codes, and a generated token has twenty-two.
pub proof fn law_the_charset_is_in_order(i: int, j: int)
    requires
        0 <= i < 62,
    ensures
        CHARSET_SIZE == 62,
        TOKEN_LENGTH == 22,
        '0' <= charset(i) <= '9' || 'A' <= charset(i) <= 'Z' || 'a' <= charset(i) <= 'z',
        i < j < 62 ==> charset(i) < charset(j),
{
}

/// Every choice of eight to a hundred and twenty-eight characters is a
/// credential, which has the chosen characters in their order.
pub proof fn law_what_is_picked_is_a_token(picks: Seq<usize>)
    requires
        forall|i: int| 0 <= i < picks.len() ==> (#[trigger] picks[i]) < 62,
    ensures
        token_spelled(picks).len() == picks.len(),
        forall|i: int|
            0 <= i < picks.len() ==> #[trigger] token_spelled(picks)[i] == charset(
                picks[i] as int,
            ),
        8 <= picks.len() <= 128 ==> komari_token(token_spelled(picks)),
{
    assert forall|i: int| 0 <= i < picks.len() implies alphanumeric(
        #[trigger] token_spelled(picks)[i],
    ) by {
        law_the_charset_is_in_order(picks[i] as int, 0);
    }
}

} // verus!

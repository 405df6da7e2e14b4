//! Komari-agent compatibility: the wire format of a komari-agent, converted
//! into this hub's own model. Everything komari-shaped lives here: the methods
//! it speaks, the token it presents, and the two converters that turn its
//! reports into the fields this hub stores.

use vstd::prelude::*;

use crate::json::{
    finite_and_not_negative, items_of, json_of, lemma_object_transferable, optional, transferable,
    Json, JsonNumber, JsonObject, JsonValue,
};
use crate::text::{alphanumeric, chars_of, control, first, is_alphanumeric, is_control, string_of};

verus! {

/// Methods a komari-agent sends. Only the first two are acted on; the rest are
/// logged and ignored.
pub const METHOD_REPORT: &'static str = "agent.report";

pub const METHOD_BASIC_INFO: &'static str = "agent.basicInfo";

pub const METHOD_PING_RESULT: &'static str = "agent.pingResult";

pub const METHOD_TASK_RESULT: &'static str = "agent.taskResult";

pub const METHOD_EVENT: &'static str = "agent.event";

/// The boot identity every komari report carries. A komari report has no boot
/// id of its own, and the hub's traffic accumulator needs one stable baseline
/// per node: a node that switches between the native agent and a komari agent
/// re-baselines its traffic once at the switch.
pub const KOMARI_BOOT_ID: &'static str = "komari";

/// How many characters a generated token has.
pub const TOKEN_LENGTH: usize = 22;

/// How many characters a generated token's characters are chosen from.
pub const CHARSET_SIZE: usize = 62;

/// The longest text of a basic info that is kept.
pub const TEXT_LIMIT: usize = 128;

/// `token` could come from a komari hub: 8 to 128 letters and digits.
pub open spec fn komari_token(token: Seq<char>) -> bool {
    &&& 8 <= token.len() <= 128
    &&& forall|i: int| 0 <= i < token.len() ==> alphanumeric(#[trigger] token[i])
}

/// Whether `token` is a komari credential. Komari itself generates 22 letters
/// and digits; a somewhat wider range is accepted so that an operator can carry
/// over an older or hand-made token.
pub fn valid_komari_token(token: &str) -> (r: bool)
    ensures
        r == komari_token(token@),
{
    let chars = chars_of(token);
    if chars.len() < 8 || chars.len() > 128 {
        return false;
    }
    let mut i: usize = 0;
    while i < chars.len()
        invariant
            chars@ == token@,
            i <= chars@.len(),
            forall|j: int| 0 <= j < i ==> alphanumeric(#[trigger] chars@[j]),
        decreases chars@.len() - i,
    {
        if !is_alphanumeric(chars[i]) {
            return false;
        }
        i += 1;
    }
    true
}

/// The characters of a generated token, in komari's order: the digits, the
/// capital letters, the small letters.
pub open spec fn charset(i: int) -> char {
    if i < 10 {
        ('0' as int + i) as char
    } else if i < 36 {
        ('A' as int + (i - 10)) as char
    } else {
        ('a' as int + (i - 36)) as char
    }
}

/// The token that a choice of characters spells.
pub open spec fn token_spelled(picks: Seq<usize>) -> Seq<char> {
    picks.map_values(|pick: usize| charset(pick as int))
}

/// The token that a choice of characters spells.
pub fn token_from_picks(picks: &Vec<usize>) -> (r: String)
    requires
        forall|i: int| 0 <= i < picks@.len() ==> (#[trigger] picks@[i]) < CHARSET_SIZE,
    ensures
        r@ == token_spelled(picks@),
        forall|i: int| 0 <= i < r@.len() ==> alphanumeric(#[trigger] r@[i]),
{
    let mut token: String = String::new();
    let mut i: usize = 0;
    while i < picks.len()
        invariant
            i <= picks@.len(),
            forall|j: int| 0 <= j < picks@.len() ==> (#[trigger] picks@[j]) < CHARSET_SIZE,
            token@ == token_spelled(picks@.take(i as int)),
            forall|j: int| 0 <= j < token@.len() ==> alphanumeric(#[trigger] token@[j]),
        decreases picks@.len() - i,
    {
        let pick: u8 = picks[i] as u8;
        let code: u8 = if pick < 10 {
            48 + pick
        } else if pick < 36 {
            65 + (pick - 10)
        } else {
            97 + (pick - 36)
        };
        token.push(code as char);
        i += 1;
        assert(picks@.take(i as int) =~= picks@.take(i - 1).push(picks@[i - 1]));
        assert(token@ =~= token_spelled(picks@.take(i as int)));
    }
    assert(picks@.take(i as int) =~= picks@);
    token
}

/// `rand::Rng::random_range` over the numbers below `bound`, from the thread's
/// generator: any of them may come.
#[verifier::external_body]
fn random_below(bound: usize) -> (r: usize)
    requires
        bound > 0,
    ensures
        r < bound,
{
    rand::Rng::random_range(&mut rand::rng(), 0..bound)
}

/// A fresh komari token in komari's own charset and length, so that an operator
/// can move a token between hubs without tripping a format check.
pub fn generate_komari_token() -> (r: String)
    ensures
        r@.len() == TOKEN_LENGTH,
        exists|picks: Seq<usize>|
            r@ == token_spelled(picks) && forall|i: int|
                0 <= i < picks.len() ==> (#[trigger] picks[i]) < CHARSET_SIZE,
        komari_token(r@),
{
    let mut picks: Vec<usize> = Vec::new();
    while picks.len() < TOKEN_LENGTH
        invariant
            picks@.len() <= TOKEN_LENGTH,
            forall|i: int| 0 <= i < picks@.len() ==> (#[trigger] picks@[i]) < CHARSET_SIZE,
        decreases TOKEN_LENGTH - picks@.len(),
    {
        picks.push(random_below(CHARSET_SIZE));
    }
    token_from_picks(&picks)
}

/// The value at a path of member names.
pub open spec fn at_path(root: Json, path: Seq<Seq<char>>) -> Option<Json>
    decreases path.len(),
{
    if path.len() == 0 {
        Some(root)
    } else {
        match root.member(path[0]) {
            Some(v) => at_path(v, path.skip(1)),
            None => None,
        }
    }
}

/// Reads a value at a path of member names.
pub fn pick<'a>(root: &'a JsonValue, path: &[&str]) -> (r: Option<&'a JsonValue>)
    ensures
        optional(r) == at_path(root@, path@.map_values(|key: &str| key@)),
{
    let ghost keys = path@.map_values(|key: &str| key@);
    let mut cur = root;
    let mut i: usize = 0;
    assert(keys.skip(0) =~= keys);
    while i < path.len()
        invariant
            i <= path@.len(),
            keys == path@.map_values(|key: &str| key@),
            at_path(root@, keys) == at_path(cur@, keys.skip(i as int)),
        decreases path@.len() - i,
    {
        assert(keys.skip(i as int).skip(1) =~= keys.skip(i + 1));
        match cur.get(path[i]) {
            Some(v) => {
                cur = v;
            },
            None => {
                return None;
            },
        }
        i += 1;
    }
    Some(cur)
}

/// A path reads member by member: the empty path is the value itself, and a path
/// of one name is the member of that name.
pub proof fn law_path_of_one(root: Json, key: Seq<char>)
    ensures
        at_path(root, Seq::empty()) == Some(root),
        at_path(root, seq![key]) == root.member(key),
{
    reveal_with_fuel(at_path, 2);
    assert(seq![key].skip(1) =~= Seq::<Seq<char>>::empty());
}

/// A path read in two parts reads as the whole path does.
pub proof fn law_path_in_parts(root: Json, p: Seq<Seq<char>>, q: Seq<Seq<char>>)
    ensures
        at_path(root, p + q) == match at_path(root, p) {
            Some(v) => at_path(v, q),
            None => None,
        },
    decreases p.len(),
{
    if p.len() == 0 {
        assert(p + q =~= q);
    } else {
        assert((p + q).skip(1) =~= p.skip(1) + q);
        if let Some(v) = root.member(p[0]) {
            law_path_in_parts(v, p.skip(1), q);
        }
    }
}

/// A non-negative finite number as a double, by its bit pattern. Anything else
/// is no reading.
pub open spec fn double_reading(v: Option<Json>) -> Option<u64> {
    match v {
        Some(Json::Number(n)) => if finite_and_not_negative(n.double_bits()) {
            Some(n.double_bits())
        } else {
            None
        },
        _ => None,
    }
}

/// A non-negative integer. Anything else is no reading.
pub open spec fn integer_reading(v: Option<Json>) -> Option<i64> {
    match v {
        Some(v) => match v.int_value() {
            Some(n) => if n >= 0 {
                Some(n)
            } else {
                None
            },
            None => None,
        },
        None => None,
    }
}

fn num(v: &JsonValue) -> (r: Option<u64>)
    ensures
        r == double_reading(Some(v@)),
{
    match v {
        JsonValue::Number(n) => {
            let bits: u64 = n.as_double();
            if bits < 0x7ff0_0000_0000_0000 || bits == 0x8000_0000_0000_0000 {
                Some(bits)
            } else {
                None
            }
        },
        _ => None,
    }
}

fn integer(v: &JsonValue) -> (r: Option<i64>)
    ensures
        r == integer_reading(Some(v@)),
{
    match v.as_i64() {
        Some(n) => if n >= 0 {
            Some(n)
        } else {
            None
        },
        None => None,
    }
}

/// The members `m`, with `key` set to `v` if there is such a value.
pub open spec fn with_member(m: Map<Seq<char>, Json>, key: Seq<char>, v: Option<Json>) -> Map<
    Seq<char>,
    Json,
> {
    match v {
        Some(v) => m.insert(key, v),
        None => m,
    }
}

/// A double as a JSON value.
pub open spec fn double_json(v: Option<u64>) -> Option<Json> {
    match v {
        Some(bits) => Some(Json::Number(JsonNumber::Double(bits))),
        None => None,
    }
}

/// An integer as a JSON value.
pub open spec fn integer_json(v: Option<i64>) -> Option<Json> {
    match v {
        Some(n) => Some(Json::Number(JsonNumber::of_int(n as int))),
        None => None,
    }
}

fn insert_num(m: &mut JsonObject, key: &str, v: Option<u64>)
    ensures
        final(m)@ == with_member(old(m)@, key@, double_json(v)),
{
    if let Some(bits) = v {
        m.insert(key, JsonValue::Number(JsonNumber::Double(bits)));
    }
}

fn insert_int(m: &mut JsonObject, key: &str, v: Option<i64>)
    ensures
        final(m)@ == with_member(old(m)@, key@, integer_json(v)),
{
    if let Some(n) = v {
        m.insert(key, JsonValue::Number(JsonNumber::from_i64(n)));
    }
}

/// The double at `outer.inner` of a report.
pub open spec fn double_at(report: Json, outer: Seq<char>, inner: Seq<char>) -> Option<u64> {
    double_reading(at_path(report, seq![outer, inner]))
}

/// The integer at `outer.inner` of a report.
pub open spec fn integer_at(report: Json, outer: Seq<char>, inner: Seq<char>) -> Option<Json> {
    integer_json(integer_reading(at_path(report, seq![outer, inner])))
}

/// The integer at `key` of a report.
pub open spec fn integer_of(report: Json, key: Seq<char>) -> Option<Json> {
    integer_json(integer_reading(at_path(report, seq![key])))
}

fn read_num(report: &JsonValue, outer: &str, inner: &str) -> (r: Option<u64>)
    ensures
        r == double_at(report@, outer@, inner@),
{
    assert(seq![outer, inner].map_values(|key: &str| key@) =~= seq![outer@, inner@]);
    match pick(report, &[outer, inner]) {
        Some(v) => num(v),
        None => None,
    }
}

fn read_int(report: &JsonValue, outer: &str, inner: &str) -> (r: Option<i64>)
    ensures
        integer_json(r) == integer_at(report@, outer@, inner@),
{
    assert(seq![outer, inner].map_values(|key: &str| key@) =~= seq![outer@, inner@]);
    match pick(report, &[outer, inner]) {
        Some(v) => integer(v),
        None => None,
    }
}

fn read_top_int(report: &JsonValue, key: &str) -> (r: Option<i64>)
    ensures
        integer_json(r) == integer_of(report@, key@),
{
    assert([key]@.map_values(|key: &str| key@) =~= seq![key@]);
    match pick(report, &[key]) {
        Some(v) => integer(v),
        None => None,
    }
}

/// The load averages of a report: three doubles, or none at all.
pub open spec fn load_of(report: Json) -> Option<Json> {
    match (
        double_at(report, "load"@, "load1"@),
        double_at(report, "load"@, "load5"@),
        double_at(report, "load"@, "load15"@),
    ) {
        (Some(l1), Some(l5), Some(l15)) => Some(
            Json::Array(
                seq![
                    Json::Number(JsonNumber::Double(l1)),
                    Json::Number(JsonNumber::Double(l5)),
                    Json::Number(JsonNumber::Double(l15)),
                ],
            ),
        ),
        _ => None,
    }
}

/// Three load averages as a JSON array.
fn load_value(l1: u64, l5: u64, l15: u64) -> (r: JsonValue)
    ensures
        r@ == Json::Array(
            seq![
                Json::Number(JsonNumber::Double(l1)),
                Json::Number(JsonNumber::Double(l5)),
                Json::Number(JsonNumber::Double(l15)),
            ],
        ),
{
    let mut load: Vec<JsonValue> = Vec::new();
    load.push(JsonValue::Number(JsonNumber::Double(l1)));
    load.push(JsonValue::Number(JsonNumber::Double(l5)));
    load.push(JsonValue::Number(JsonNumber::Double(l15)));
    proof {
        reveal_with_fuel(items_of, 4);
        reveal_with_fuel(json_of, 4);
        assert(items_of(load@) =~= seq![
            Json::Number(JsonNumber::Double(l1)),
            Json::Number(JsonNumber::Double(l5)),
            Json::Number(JsonNumber::Double(l15)),
        ]);
    }
    JsonValue::Array(load)
}

/// The path of the integer metric `name` in a komari report. Field names and
/// units follow the komari protocol: capacities in bytes, rates in bytes per
/// second, uptime in seconds.
pub open spec fn integer_place(name: Seq<char>) -> Option<Seq<Seq<char>>> {
    if name == "mem_total"@ {
        Some(seq!["ram"@, "total"@])
    } else if name == "mem_used"@ {
        Some(seq!["ram"@, "used"@])
    } else if name == "swap_total"@ {
        Some(seq!["swap"@, "total"@])
    } else if name == "swap_used"@ {
        Some(seq!["swap"@, "used"@])
    } else if name == "disk_total"@ {
        Some(seq!["disk"@, "total"@])
    } else if name == "disk_used"@ {
        Some(seq!["disk"@, "used"@])
    } else if name == "net_rx"@ {
        Some(seq!["network"@, "up"@])
    } else if name == "net_tx"@ {
        Some(seq!["network"@, "down"@])
    } else if name == "net_rx_total"@ {
        Some(seq!["network"@, "totalUp"@])
    } else if name == "net_tx_total"@ {
        Some(seq!["network"@, "totalDown"@])
    } else if name == "tcp"@ {
        Some(seq!["connections"@, "tcp"@])
    } else if name == "udp"@ {
        Some(seq!["connections"@, "udp"@])
    } else if name == "procs"@ {
        Some(seq!["process"@])
    } else if name == "uptime"@ {
        Some(seq!["uptime"@])
    } else {
        None
    }
}

/// The metric `name` that this hub reads from a komari report, if the report
/// has it.
pub open spec fn metric(report: Json, name: Seq<char>) -> Option<Json> {
    if name == "cpu"@ {
        double_json(double_at(report, "cpu"@, "usage"@))
    } else if name == "load"@ {
        load_of(report)
    } else if name == "boot_id"@ {
        Some(Json::Text(KOMARI_BOOT_ID@))
    } else {
        match integer_place(name) {
            Some(path) => integer_json(integer_reading(at_path(report, path))),
            None => None,
        }
    }
}

/// The metrics object of a komari report: every metric that the report has,
/// under its name, and nothing else.
pub open spec fn metrics_of(report: Json) -> Json {
    Json::Object(
        Map::new(
            |name: Seq<char>| metric(report, name) is Some,
            |name: Seq<char>| metric(report, name)->0,
        ),
    )
}

/// The place of a metric in the order in which the converter sets them.
spec fn rank(name: Seq<char>) -> int {
    if name == "cpu"@ {
        0
    } else if name == "load"@ {
        1
    } else if name == "mem_total"@ {
        2
    } else if name == "mem_used"@ {
        3
    } else if name == "swap_total"@ {
        4
    } else if name == "swap_used"@ {
        5
    } else if name == "disk_total"@ {
        6
    } else if name == "disk_used"@ {
        7
    } else if name == "net_rx"@ {
        8
    } else if name == "net_tx"@ {
        9
    } else if name == "net_rx_total"@ {
        10
    } else if name == "net_tx_total"@ {
        11
    } else if name == "tcp"@ {
        12
    } else if name == "udp"@ {
        13
    } else if name == "procs"@ {
        14
    } else if name == "uptime"@ {
        15
    } else if name == "boot_id"@ {
        16
    } else {
        17
    }
}

/// The names of the metrics are pairwise different, so each has a place of its
/// own.
proof fn lemma_ranks()
    ensures
        rank("cpu"@) == 0,
        rank("load"@) == 1,
        rank("mem_total"@) == 2,
        rank("mem_used"@) == 3,
        rank("swap_total"@) == 4,
        rank("swap_used"@) == 5,
        rank("disk_total"@) == 6,
        rank("disk_used"@) == 7,
        rank("net_rx"@) == 8,
        rank("net_tx"@) == 9,
        rank("net_rx_total"@) == 10,
        rank("net_tx_total"@) == 11,
        rank("tcp"@) == 12,
        rank("udp"@) == 13,
        rank("procs"@) == 14,
        rank("uptime"@) == 15,
        rank("boot_id"@) == 16,
{
    reveal_strlit("cpu");
    reveal_strlit("load");
    reveal_strlit("mem_total");
    reveal_strlit("mem_used");
    reveal_strlit("swap_total");
    reveal_strlit("swap_used");
    reveal_strlit("disk_total");
    reveal_strlit("disk_used");
    reveal_strlit("net_rx");
    reveal_strlit("net_tx");
    reveal_strlit("net_rx_total");
    reveal_strlit("net_tx_total");
    reveal_strlit("tcp");
    reveal_strlit("udp");
    reveal_strlit("procs");
    reveal_strlit("uptime");
    reveal_strlit("boot_id");
    assert("cpu"@.len() == 3);
    assert("load"@.len() == 4);
    assert("mem_total"@.len() == 9);
    assert("mem_used"@.len() == 8);
    assert("swap_total"@.len() == 10);
    assert("swap_used"@.len() == 9);
    assert("disk_total"@.len() == 10);
    assert("disk_used"@.len() == 9);
    assert("net_rx"@.len() == 6);
    assert("net_tx"@.len() == 6);
    assert("net_rx_total"@.len() == 12);
    assert("net_tx_total"@.len() == 12);
    assert("tcp"@.len() == 3);
    assert("udp"@.len() == 3);
    assert("procs"@.len() == 5);
    assert("uptime"@.len() == 6);
    assert("boot_id"@.len() == 7);
    assert("cpu"@[0] == 'c' && "tcp"@[0] == 't' && "udp"@[0] == 'u');
    assert("net_rx"@[4] == 'r' && "net_tx"@[4] == 't' && "uptime"@[4] == 'm');
    assert("mem_total"@[0] == 'm' && "swap_used"@[0] == 's' && "disk_used"@[0] == 'd');
    assert("swap_total"@[0] == 's' && "disk_total"@[0] == 'd');
    assert("net_rx_total"@[4] == 'r' && "net_tx_total"@[4] == 't');
}

/// Each metric is read from its own place of a report.
pub proof fn lemma_metric_values(report: Json)
    ensures
        metric(report, "cpu"@) == double_json(double_at(report, "cpu"@, "usage"@)),
        metric(report, "load"@) == load_of(report),
        metric(report, "mem_total"@) == integer_at(report, "ram"@, "total"@),
        metric(report, "mem_used"@) == integer_at(report, "ram"@, "used"@),
        metric(report, "swap_total"@) == integer_at(report, "swap"@, "total"@),
        metric(report, "swap_used"@) == integer_at(report, "swap"@, "used"@),
        metric(report, "disk_total"@) == integer_at(report, "disk"@, "total"@),
        metric(report, "disk_used"@) == integer_at(report, "disk"@, "used"@),
        metric(report, "net_rx"@) == integer_at(report, "network"@, "up"@),
        metric(report, "net_tx"@) == integer_at(report, "network"@, "down"@),
        metric(report, "net_rx_total"@) == integer_at(report, "network"@, "totalUp"@),
        metric(report, "net_tx_total"@) == integer_at(report, "network"@, "totalDown"@),
        metric(report, "tcp"@) == integer_at(report, "connections"@, "tcp"@),
        metric(report, "udp"@) == integer_at(report, "connections"@, "udp"@),
        metric(report, "procs"@) == integer_of(report, "process"@),
        metric(report, "uptime"@) == integer_of(report, "uptime"@),
        metric(report, "boot_id"@) == Some(Json::Text(KOMARI_BOOT_ID@)),
{
    lemma_ranks();
}

/// The metrics of a report whose place is before `n`.
spec fn metrics_before(report: Json, n: int) -> Map<Seq<char>, Json> {
    Map::new(
        |name: Seq<char>| rank(name) < n && metric(report, name) is Some,
        |name: Seq<char>| metric(report, name)->0,
    )
}

/// The metric `name` is the one that goes from the metrics before its place to
/// those before the next.
proof fn lemma_metric_set(report: Json, name: Seq<char>)
    requires
        rank(name) < 17,
    ensures
        metrics_before(report, rank(name) + 1) == with_member(
            metrics_before(report, rank(name)),
            name,
            metric(report, name),
        ),
{
    assert forall|other: Seq<char>| rank(other) == rank(name) implies other == name by {}
    assert(metrics_before(report, rank(name) + 1) =~= with_member(
        metrics_before(report, rank(name)),
        name,
        metric(report, name),
    ));
}

/// The metrics of a report, set one after the other.
spec fn metrics_in_order(report: Json) -> Map<Seq<char>, Json> {
    let m = Map::<Seq<char>, Json>::empty();
    let m = with_member(m, "cpu"@, metric(report, "cpu"@));
    let m = with_member(m, "load"@, metric(report, "load"@));
    let m = with_member(m, "mem_total"@, metric(report, "mem_total"@));
    let m = with_member(m, "mem_used"@, metric(report, "mem_used"@));
    let m = with_member(m, "swap_total"@, metric(report, "swap_total"@));
    let m = with_member(m, "swap_used"@, metric(report, "swap_used"@));
    let m = with_member(m, "disk_total"@, metric(report, "disk_total"@));
    let m = with_member(m, "disk_used"@, metric(report, "disk_used"@));
    let m = with_member(m, "net_rx"@, metric(report, "net_rx"@));
    let m = with_member(m, "net_tx"@, metric(report, "net_tx"@));
    let m = with_member(m, "net_rx_total"@, metric(report, "net_rx_total"@));
    let m = with_member(m, "net_tx_total"@, metric(report, "net_tx_total"@));
    let m = with_member(m, "tcp"@, metric(report, "tcp"@));
    let m = with_member(m, "udp"@, metric(report, "udp"@));
    let m = with_member(m, "procs"@, metric(report, "procs"@));
    let m = with_member(m, "uptime"@, metric(report, "uptime"@));
    let m = with_member(m, "boot_id"@, metric(report, "boot_id"@));
    m
}

/// Set one after the other, the metrics make the metrics object.
proof fn lemma_metrics_in_order(report: Json)
    ensures
        Json::Object(metrics_in_order(report)) == metrics_of(report),
{
    lemma_ranks();
    assert forall|name: Seq<char>| rank(name) >= 17 implies metric(report, name) is None by {}
    assert(metrics_before(report, 0) =~= Map::empty());
    lemma_metric_set(report, "cpu"@);
    lemma_metric_set(report, "load"@);
    lemma_metric_set(report, "mem_total"@);
    lemma_metric_set(report, "mem_used"@);
    lemma_metric_set(report, "swap_total"@);
    lemma_metric_set(report, "swap_used"@);
    lemma_metric_set(report, "disk_total"@);
    lemma_metric_set(report, "disk_used"@);
    lemma_metric_set(report, "net_rx"@);
    lemma_metric_set(report, "net_tx"@);
    lemma_metric_set(report, "net_rx_total"@);
    lemma_metric_set(report, "net_tx_total"@);
    lemma_metric_set(report, "tcp"@);
    lemma_metric_set(report, "udp"@);
    lemma_metric_set(report, "procs"@);
    lemma_metric_set(report, "uptime"@);
    lemma_metric_set(report, "boot_id"@);
    assert(metrics_in_order(report) == metrics_before(report, 17));
    assert(metrics_before(report, 17) =~= metrics_of(report)->Object_0);
}

/// Converts a komari `agent.report` payload (the object under `params.report`)
/// into this hub's internal metrics object. `totalUp` and `totalDown` become
/// the cumulative counters that the hub's traffic accumulator feeds on.
pub fn convert_komari_report(report: &JsonValue) -> (r: JsonValue)
    ensures
        r@ == metrics_of(report@),
{
    let mut m = JsonObject::new();
    insert_num(&mut m, "cpu", read_num(report, "cpu", "usage"));
    if let (Some(l1), Some(l5), Some(l15)) = (
        read_num(report, "load", "load1"),
        read_num(report, "load", "load5"),
        read_num(report, "load", "load15"),
    ) {
        m.insert("load", load_value(l1, l5, l15));
    }
    // Capacities. The UI reads these from the live report while connected, so a
    // machine that grows a disk mid-run shows it without waiting for a reconnect.
    insert_int(&mut m, "mem_total", read_int(report, "ram", "total"));
    insert_int(&mut m, "mem_used", read_int(report, "ram", "used"));
    insert_int(&mut m, "swap_total", read_int(report, "swap", "total"));
    insert_int(&mut m, "swap_used", read_int(report, "swap", "used"));
    insert_int(&mut m, "disk_total", read_int(report, "disk", "total"));
    insert_int(&mut m, "disk_used", read_int(report, "disk", "used"));
    // Instant rates, in bytes per second.
    insert_int(&mut m, "net_rx", read_int(report, "network", "up"));
    insert_int(&mut m, "net_tx", read_int(report, "network", "down"));
    // Cumulative counters, in bytes. The accumulator derives rates and totals
    // from these.
    insert_int(&mut m, "net_rx_total", read_int(report, "network", "totalUp"));
    insert_int(&mut m, "net_tx_total", read_int(report, "network", "totalDown"));
    insert_int(&mut m, "tcp", read_int(report, "connections", "tcp"));
    insert_int(&mut m, "udp", read_int(report, "connections", "udp"));
    insert_int(&mut m, "procs", read_top_int(report, "process"));
    insert_int(&mut m, "uptime", read_top_int(report, "uptime"));
    m.insert("boot_id", JsonValue::text(KOMARI_BOOT_ID));
    proof {
        lemma_metric_values(report@);
        lemma_metrics_in_order(report@);
    }
    JsonValue::Object(m)
}

/// What is kept of a text that an unvouched machine sends: no control
/// characters, and no more than `TEXT_LIMIT` characters.
pub open spec fn sanitized(s: Seq<char>) -> Seq<char> {
    first(s.filter(|c: char| !control(c)), TEXT_LIMIT as int)
}

/// What is kept of a text: control characters break the panel's rows, and the
/// length must be bounded.
fn sanitize(s: &str) -> (r: String)
    ensures
        r@ == sanitized(s@),
{
    let ghost keep = |c: char| !control(c);
    let chars = chars_of(s);
    let mut out: Vec<char> = Vec::new();
    let mut i: usize = 0;
    proof {
        reveal(Seq::filter);
        assert(chars@.take(0).filter(keep) =~= Seq::<char>::empty());
    }
    while i < chars.len()
        invariant
            chars@ == s@,
            keep == (|c: char| !control(c)),
            i <= chars@.len(),
            out@ == first(chars@.take(i as int).filter(keep), TEXT_LIMIT as int),
        decreases chars@.len() - i,
    {
        let c: char = chars[i];
        let ghost seen = chars@.take(i as int);
        proof {
            assert(chars@.take(i + 1) =~= seen.push(c));
            seen.lemma_filter_push(c, keep);
        }
        if !is_control(c) && out.len() < TEXT_LIMIT {
            out.push(c);
        }
        i += 1;
        assert(out@ =~= first(chars@.take(i as int).filter(keep), TEXT_LIMIT as int));
    }
    assert(chars@.take(i as int) =~= chars@);
    string_of(out.as_slice())
}

/// The text `key` of a basic info, sanitized; empty if there is none.
pub open spec fn text_fact(info: Json, key: Seq<char>) -> Json {
    Json::Text(
        sanitized(
            match info.member(key) {
                Some(v) => match v.text_value() {
                    Some(s) => s,
                    None => Seq::empty(),
                },
                None => Seq::empty(),
            },
        ),
    )
}

/// The integer `key` of a basic info; zero if there is none.
pub open spec fn integer_fact(info: Json, key: Seq<char>) -> Json {
    Json::Number(
        JsonNumber::of_int(
            match info.member(key) {
                Some(v) => match v.int_value() {
                    Some(n) => n as int,
                    None => 0,
                },
                None => 0,
            },
        ),
    )
}

fn read_text_fact(info: &JsonValue, key: &str) -> (r: JsonValue)
    ensures
        r@ == text_fact(info@, key@),
{
    let s: &str = match info.get(key) {
        Some(v) => match v.as_str() {
            Some(s) => s,
            None => "",
        },
        None => "",
    };
    proof {
        reveal_strlit("");
        assert(""@ =~= Seq::<char>::empty());
    }
    JsonValue::Text(sanitize(s))
}

fn read_integer_fact(info: &JsonValue, key: &str) -> (r: JsonValue)
    ensures
        r@ == integer_fact(info@, key@),
{
    let n: i64 = match info.get(key) {
        Some(v) => match v.as_i64() {
            Some(n) => n,
            None => 0,
        },
        None => 0,
    };
    JsonValue::Number(JsonNumber::from_i64(n))
}

/// The facts object of a komari basic info: the fields this hub stores on the
/// `node` row, each from the komari field that it corresponds to.
pub open spec fn facts_of(info: Json) -> Json {
    Json::Object(
        map![
            "os"@ => text_fact(info, "os"@),
            "kernel"@ => text_fact(info, "kernel_version"@),
            "arch"@ => text_fact(info, "arch"@),
            "virt"@ => text_fact(info, "virtualization"@),
            "cpu_name"@ => text_fact(info, "cpu_name"@),
            "cpu_cores"@ => integer_fact(info, "cpu_cores"@),
            "mem_total"@ => integer_fact(info, "mem_total"@),
            "swap_total"@ => integer_fact(info, "swap_total"@),
            "disk_total"@ => integer_fact(info, "disk_total"@),
            "agent_version"@ => text_fact(info, "version"@),
            "ipv4"@ => text_fact(info, "ipv4"@),
            "ipv6"@ => text_fact(info, "ipv6"@),
        ],
    )
}

/// Converts the object under `params.info` of a komari `agent.basicInfo` into
/// the fields this hub stores on the `node` row. Extra komari fields are simply
/// not picked up; missing fields become empty strings and zeros.
pub fn convert_komari_basic_info(info: &JsonValue) -> (r: JsonValue)
    ensures
        r@ == facts_of(info@),
        transferable(r@),
{
    let mut m = JsonObject::new();
    m.insert("os", read_text_fact(info, "os"));
    m.insert("kernel", read_text_fact(info, "kernel_version"));
    m.insert("arch", read_text_fact(info, "arch"));
    m.insert("virt", read_text_fact(info, "virtualization"));
    m.insert("cpu_name", read_text_fact(info, "cpu_name"));
    m.insert("cpu_cores", read_integer_fact(info, "cpu_cores"));
    m.insert("mem_total", read_integer_fact(info, "mem_total"));
    m.insert("swap_total", read_integer_fact(info, "swap_total"));
    m.insert("disk_total", read_integer_fact(info, "disk_total"));
    m.insert("agent_version", read_text_fact(info, "version"));
    m.insert("ipv4", read_text_fact(info, "ipv4"));
    m.insert("ipv6", read_text_fact(info, "ipv6"));
    proof {
        lemma_object_transferable(m@);
    }
    JsonValue::Object(m)
}

/// The places of a report that a metric is read from, each a path of member
/// names. The boot identity is read from none.
pub open spec fn places(name: Seq<char>) -> Seq<Seq<Seq<char>>> {
    if name == "cpu"@ {
        seq![seq!["cpu"@, "usage"@]]
    } else if name == "load"@ {
        seq![
            seq!["load"@, "load1"@],
            seq!["load"@, "load5"@],
            seq!["load"@, "load15"@],
        ]
    } else if name == "boot_id"@ {
        Seq::empty()
    } else {
        match integer_place(name) {
            Some(path) => seq![path],
            None => Seq::empty(),
        }
    }
}

/// A member of the metrics object is a metric of the report.
proof fn lemma_metrics_member(report: Json, name: Seq<char>)
    ensures
        metrics_of(report).member(name) == metric(report, name),
{
}

/// The path of an integer metric is not empty.
proof fn lemma_integer_place(name: Seq<char>)
    ensures
        integer_place(name) matches Some(path) ==> path.len() > 0,
{
}

/// Each metric depends on its own places of a report alone: whatever else a
/// report has, lacks or garbles, the metric stays what it is.
pub proof fn law_metric_reads_its_places(one: Json, other: Json, name: Seq<char>)
    requires
        forall|i: int|
            0 <= i < places(name).len() ==> at_path(one, #[trigger] places(name)[i]) == at_path(
                other,
                places(name)[i],
            ),
    ensures
        metrics_of(one).member(name) == metrics_of(other).member(name),
{
    lemma_metrics_member(one, name);
    lemma_metrics_member(other, name);
    let at = places(name);
    if at.len() > 0 {
        assert(at_path(one, at[0]) == at_path(other, at[0]));
    }
    if name == "load"@ && name != "cpu"@ {
        assert(at_path(one, at[1]) == at_path(other, at[1]));
        assert(at_path(one, at[2]) == at_path(other, at[2]));
    }
}

/// A member of a report that no metric is read from makes no difference.
pub proof fn law_unread_member_is_ignored(
    members: Map<Seq<char>, Json>,
    key: Seq<char>,
    value: Json,
)
    requires
        forall|name: Seq<char>, i: int|
            0 <= i < places(name).len() ==> (#[trigger] places(name)[i])[0] != key,
    ensures
        metrics_of(Json::Object(members.insert(key, value))) == metrics_of(Json::Object(members)),
{
    let one = Json::Object(members.insert(key, value));
    let other = Json::Object(members);
    assert forall|name: Seq<char>| #[trigger] metric(one, name) == metric(other, name) by {
        lemma_integer_place(name);
        assert forall|i: int| 0 <= i < places(name).len() implies at_path(
            one,
            #[trigger] places(name)[i],
        ) == at_path(other, places(name)[i]) by {
            let path = places(name)[i];
            assert(path.len() > 0);
            assert(one.member(path[0]) == other.member(path[0]));
        }
        law_metric_reads_its_places(one, other, name);
        lemma_metrics_member(one, name);
        lemma_metrics_member(other, name);
    }
    assert(metrics_of(one)->Object_0 =~= metrics_of(other)->Object_0);
}

/// A value that a metric may have: an integer that is not negative, or one or
/// more doubles that are finite and not negative.
pub open spec fn is_reading(v: Json) -> bool {
    match v {
        Json::Number(JsonNumber::PosInt(n)) => n <= i64::MAX,
        Json::Number(JsonNumber::Double(bits)) => finite_and_not_negative(bits),
        Json::Array(items) => forall|i: int|
            0 <= i < items.len() ==> {
                &&& #[trigger] items[i] matches Json::Number(JsonNumber::Double(bits))
                &&& finite_and_not_negative(bits)
            },
        _ => false,
    }
}

/// No report, however malformed, makes a metric that is not a reading: a
/// negative, infinite or textual field is absent from the metrics.
pub proof fn law_metrics_are_readings(report: Json, name: Seq<char>)
    requires
        name != "boot_id"@,
    ensures
        metrics_of(report).member(name) matches Some(v) ==> is_reading(v),
{
}

/// The metrics always carry the boot identity of a komari agent.
pub proof fn law_boot_identity_is_fixed(report: Json)
    ensures
        metrics_of(report).member("boot_id"@) == Some(Json::Text(KOMARI_BOOT_ID@)),
{
    lemma_metric_values(report);
}

/// Sanitizing is done once: a text that has been sanitized is kept as it is.
pub proof fn law_sanitizing_is_idempotent(s: Seq<char>)
    ensures
        sanitized(sanitized(s)) == sanitized(s),
{
    let keep = |c: char| !control(c);
    let t = sanitized(s);
    law_sanitized_text_is_bounded(s);
    lemma_filter_all(t, keep);
}

/// A filter that takes every character takes the text.
pub proof fn lemma_filter_all(s: Seq<char>, keep: spec_fn(char) -> bool)
    requires
        forall|i: int| 0 <= i < s.len() ==> keep(#[trigger] s[i]),
    ensures
        s.filter(keep) == s,
    decreases s.len(),
{
    reveal(Seq::filter);
    if s.len() > 0 {
        lemma_filter_all(s.drop_last(), keep);
        assert(s.drop_last().push(s.last()) =~= s);
    } else {
        assert(s.filter(keep) =~= s);
    }
}

/// A sanitized text has no control characters and is bounded.
pub proof fn law_sanitized_text_is_bounded(s: Seq<char>)
    ensures
        sanitized(s).len() <= TEXT_LIMIT,
        forall|i: int| 0 <= i < sanitized(s).len() ==> !control(#[trigger] sanitized(s)[i]),
{
    let keep = |c: char| !control(c);
    let kept = s.filter(keep);
    assert forall|i: int| 0 <= i < sanitized(s).len() implies !control(#[trigger] sanitized(s)[i]) by {
        s.lemma_filter_pred(keep, i);
        assert(keep(kept[i]));
    }
}

/// Every basic info gives all the facts, each read from its own field.
pub proof fn law_facts_are_complete(info: Json)
    ensures
        facts_of(info).member("os"@) == Some(text_fact(info, "os"@)),
        facts_of(info).member("kernel"@) == Some(text_fact(info, "kernel_version"@)),
        facts_of(info).member("arch"@) == Some(text_fact(info, "arch"@)),
        facts_of(info).member("virt"@) == Some(text_fact(info, "virtualization"@)),
        facts_of(info).member("cpu_name"@) == Some(text_fact(info, "cpu_name"@)),
        facts_of(info).member("cpu_cores"@) == Some(integer_fact(info, "cpu_cores"@)),
        facts_of(info).member("mem_total"@) == Some(integer_fact(info, "mem_total"@)),
        facts_of(info).member("swap_total"@) == Some(integer_fact(info, "swap_total"@)),
        facts_of(info).member("disk_total"@) == Some(integer_fact(info, "disk_total"@)),
        facts_of(info).member("agent_version"@) == Some(text_fact(info, "version"@)),
        facts_of(info).member("ipv4"@) == Some(text_fact(info, "ipv4"@)),
        facts_of(info).member("ipv6"@) == Some(text_fact(info, "ipv6"@)),
{
    reveal_strlit("os");
    reveal_strlit("kernel");
    reveal_strlit("arch");
    reveal_strlit("virt");
    reveal_strlit("cpu_name");
    reveal_strlit("cpu_cores");
    reveal_strlit("mem_total");
    reveal_strlit("swap_total");
    reveal_strlit("disk_total");
    reveal_strlit("agent_version");
    reveal_strlit("ipv4");
    reveal_strlit("ipv6");
    assert("os"@.len() == 2);
    assert("kernel"@.len() == 6);
    assert("arch"@.len() == 4);
    assert("virt"@.len() == 4);
    assert("cpu_name"@.len() == 8);
    assert("cpu_cores"@.len() == 9);
    assert("mem_total"@.len() == 9);
    assert("swap_total"@.len() == 10);
    assert("disk_total"@.len() == 10);
    assert("agent_version"@.len() == 13);
    assert("ipv4"@.len() == 4);
    assert("ipv6"@.len() == 4);
    assert("arch"@[0] == 'a' && "virt"@[0] == 'v' && "ipv4"@[0] == 'i' && "ipv6"@[0] == 'i');
    assert("ipv4"@[3] == '4' && "ipv6"@[3] == '6');
    assert("cpu_cores"@[0] == 'c' && "mem_total"@[0] == 'm');
    assert("swap_total"@[0] == 's' && "disk_total"@[0] == 'd');
}

/// No fact is a text of more than `TEXT_LIMIT` characters or with a control
/// character in it.
pub proof fn law_facts_are_bounded(info: Json, name: Seq<char>, s: Seq<char>)
    requires
        facts_of(info).member(name) == Some(Json::Text(s)),
    ensures
        s.len() <= TEXT_LIMIT,
        forall|i: int| 0 <= i < s.len() ==> !control(#[trigger] s[i]),
{
    assert forall|t: Seq<char>|
        (#[trigger] sanitized(t)).len() <= TEXT_LIMIT && forall|i: int|
            0 <= i < sanitized(t).len() ==> !control(#[trigger] sanitized(t)[i]) by {
        law_sanitized_text_is_bounded(t);
    }
}

/// A field that is missing reads as empty, or as zero.
pub proof fn law_missing_field_reads_as_empty(info: Json, key: Seq<char>)
    requires
        info.member(key) is None,
    ensures
        text_fact(info, key) == Json::Text(Seq::empty()),
        integer_fact(info, key) == Json::Number(JsonNumber::PosInt(0)),
{
    reveal(Seq::filter);
    assert(Seq::<char>::empty().filter(|c: char| !control(c)) =~= Seq::<char>::empty());
}

/// A field of a basic info that no fact is read from makes no difference.
pub proof fn law_extra_field_is_ignored(
    members: Map<Seq<char>, Json>,
    key: Seq<char>,
    value: Json,
)
    requires
        key != "os"@,
        key != "kernel_version"@,
        key != "arch"@,
        key != "virtualization"@,
        key != "cpu_name"@,
        key != "cpu_cores"@,
        key != "mem_total"@,
        key != "swap_total"@,
        key != "disk_total"@,
        key != "version"@,
        key != "ipv4"@,
        key != "ipv6"@,
    ensures
        facts_of(Json::Object(members.insert(key, value))) == facts_of(Json::Object(members)),
{
    let one = Json::Object(members.insert(key, value));
    let other = Json::Object(members);
    assert forall|name: Seq<char>| name != key implies one.member(name) == #[trigger] other.member(
        name,
    ) by {}
}

} // verus!

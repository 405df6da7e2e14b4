use monitor_hub::json::{JsonNumber, JsonObject, JsonValue};
use monitor_hub::komari_compat::{
    convert_komari_basic_info, convert_komari_report, generate_komari_token, pick,
    token_from_picks, valid_komari_token, KOMARI_BOOT_ID, METHOD_BASIC_INFO, METHOD_EVENT, METHOD_PING_RESULT,
    METHOD_REPORT, METHOD_TASK_RESULT,
};

fn parse(text: &str) -> JsonValue {
    JsonValue::parse(text).unwrap()
}

fn report() -> JsonValue {
    parse(
        r#"{
          "cpu": {"usage": 12.5},
          "ram": {"total": 1024, "used": 512},
          "swap": {"total": 2048, "used": 128},
          "load": {"load1": 0.1, "load5": 0.2, "load15": 0.3},
          "disk": {"total": 10000, "used": 2000},
          "network": {"up": 100, "down": 200, "totalUp": 1000000, "totalDown": 2000000},
          "connections": {"tcp": 12, "udp": 1},
          "uptime": 10000,
          "process": 10,
          "message": "ok"
        }"#,
    )
}

fn replace(v: &mut JsonValue, key: &str, text: &str) {
    match v {
        JsonValue::Object(o) => o.insert(key, parse(text)),
        _ => panic!("not an object"),
    }
}

fn double(n: f64) -> JsonValue {
    JsonValue::Number(JsonNumber::Double(n.to_bits()))
}

fn integer(n: i64) -> JsonValue {
    JsonValue::Number(JsonNumber::from_i64(n))
}

fn names(v: &JsonValue) -> Vec<&str> {
    match v {
        JsonValue::Object(o) => o.members.iter().map(|m| m.0.as_str()).collect(),
        _ => panic!("not an object"),
    }
}

#[test]
fn a_komari_report_becomes_the_native_metrics_shape() {
    let m = convert_komari_report(&report());
    assert_eq!(m.get("cpu"), Some(&double(12.5)));
    assert_eq!(
        m.get("load"),
        Some(&JsonValue::Array(vec![double(0.1), double(0.2), double(0.3)]))
    );
    assert_eq!(m.get("mem_total"), Some(&integer(1024)));
    assert_eq!(m.get("mem_used"), Some(&integer(512)));
    assert_eq!(m.get("swap_total"), Some(&integer(2048)));
    assert_eq!(m.get("swap_used"), Some(&integer(128)));
    assert_eq!(m.get("disk_total"), Some(&integer(10000)));
    assert_eq!(m.get("disk_used"), Some(&integer(2000)));
    // Rates and cumulative counters map onto the accumulator's inputs.
    assert_eq!(m.get("net_rx"), Some(&integer(100)));
    assert_eq!(m.get("net_tx"), Some(&integer(200)));
    assert_eq!(m.get("net_rx_total"), Some(&integer(1_000_000)));
    assert_eq!(m.get("net_tx_total"), Some(&integer(2_000_000)));
    assert_eq!(m.get("tcp"), Some(&integer(12)));
    assert_eq!(m.get("udp"), Some(&integer(1)));
    assert_eq!(m.get("procs"), Some(&integer(10)));
    assert_eq!(m.get("uptime"), Some(&integer(10000)));
    assert_eq!(m.get("boot_id"), Some(&JsonValue::text(KOMARI_BOOT_ID)));
}

#[test]
fn malformed_komari_fields_vanish_instead_of_becoming_readings() {
    let mut bad = report();
    replace(&mut bad, "cpu", r#"{"usage": -1.0}"#);
    replace(&mut bad, "ram", r#"{"total": "big", "used": 512}"#);
    replace(&mut bad, "network", r#"{"up": 1, "down": 1, "totalUp": -5, "totalDown": "nope"}"#);
    let m = convert_komari_report(&bad);
    assert!(m.get("cpu").is_none(), "a negative reading is not a reading");
    assert!(m.get("mem_total").is_none(), "a string capacity is not a reading");
    assert!(m.get("net_rx_total").is_none(), "a negative counter must not become a baseline");
    assert!(m.get("net_tx_total").is_none());
    // Fields that survived stay.
    assert_eq!(m.get("mem_used"), Some(&integer(512)));
    assert_eq!(m.get("net_rx"), Some(&integer(1)));
}

#[test]
fn a_partial_report_keeps_what_it_has() {
    let mut partial = report();
    replace(&mut partial, "connections", r#"{"tcp": 5}"#);
    let m = convert_komari_report(&partial);
    assert_eq!(m.get("tcp"), Some(&integer(5)));
    assert!(m.get("udp").is_none());
}

#[test]
fn basic_info_maps_komari_names_onto_native_columns() {
    let info = parse(
        r#"{
          "arch": "amd64", "cpu_cores": 12, "cpu_physical_cores": 6,
          "cpu_name": "AMD Ryzen 9", "os": "Debian 12", "kernel_version": "6.1.0",
          "mem_total": 137438953472, "swap_total": 51539607552, "disk_total": 1099511627776,
          "ipv4": "1.2.3.4", "ipv6": "::1", "gpu_name": "", "virtualization": "kvm",
          "version": "0.0.1-rust"
        }"#,
    );
    let f = convert_komari_basic_info(&info);
    assert_eq!(f.get("arch"), Some(&JsonValue::text("amd64")));
    assert_eq!(f.get("os"), Some(&JsonValue::text("Debian 12")));
    assert_eq!(f.get("kernel"), Some(&JsonValue::text("6.1.0")));
    assert_eq!(f.get("virt"), Some(&JsonValue::text("kvm")));
    assert_eq!(f.get("cpu_name"), Some(&JsonValue::text("AMD Ryzen 9")));
    assert_eq!(f.get("cpu_cores"), Some(&integer(12)));
    assert_eq!(f.get("mem_total"), Some(&integer(137438953472i64)));
    assert_eq!(f.get("disk_total"), Some(&integer(1099511627776i64)));
    assert_eq!(f.get("agent_version"), Some(&JsonValue::text("0.0.1-rust")));
    assert_eq!(f.get("ipv4"), Some(&JsonValue::text("1.2.3.4")));
    assert_eq!(f.get("ipv6"), Some(&JsonValue::text("::1")));
}

#[test]
fn a_missing_basic_info_field_reads_as_empty() {
    let f = convert_komari_basic_info(&parse(r#"{"arch": "x86_64"}"#));
    assert_eq!(f.get("arch"), Some(&JsonValue::text("x86_64")));
    assert_eq!(f.get("os"), Some(&JsonValue::text("")));
    assert_eq!(f.get("cpu_cores"), Some(&integer(0)));
}

#[test]
fn generated_tokens_match_komari_style_and_validation() {
    for _ in 0..50 {
        let t = generate_komari_token();
        assert_eq!(t.len(), 22);
        assert!(valid_komari_token(&t), "{t}");
        assert!(t.bytes().all(|b| b.is_ascii_alphanumeric()), "{t}");
    }
    assert!(valid_komari_token("vomtLDXyggveYfjFxdoo7Z"));
    assert!(!valid_komari_token("short"));
    assert!(!valid_komari_token("has spaces"));
    assert!(!valid_komari_token("has_underscore"));
    assert!(!valid_komari_token(&"x".repeat(200)));
}

#[test]
fn a_token_has_eight_to_a_hundred_and_twenty_eight_characters() {
    assert!(!valid_komari_token("1234567"));
    assert!(valid_komari_token("12345678"));
    assert!(valid_komari_token(&"x".repeat(128)));
    assert!(!valid_komari_token(&"x".repeat(129)));
    assert!(!valid_komari_token("abcdefgé"));
    assert!(!valid_komari_token(""));
}

#[test]
fn generated_tokens_differ() {
    let tokens: Vec<String> = (0..20).map(|_| generate_komari_token()).collect();
    assert!(tokens.iter().any(|t| *t != tokens[0]));
}

#[test]
fn picks_spell_a_token_in_the_order_of_the_charset() {
    let all: Vec<usize> = (0..62).collect();
    assert_eq!(
        token_from_picks(&all),
        "0123456789ABCDEFGHIJKLMNOPQRSTUVWXYZabcdefghijklmnopqrstuvwxyz"
    );
    assert_eq!(token_from_picks(&vec![61, 0, 35, 36, 10, 9]), "z0ZaA9");
    assert_eq!(token_from_picks(&vec![]), "");
}

#[test]
fn the_methods_are_those_of_the_protocol() {
    assert_eq!(METHOD_REPORT, "agent.report");
    assert_eq!(METHOD_BASIC_INFO, "agent.basicInfo");
    assert_eq!(METHOD_PING_RESULT, "agent.pingResult");
    assert_eq!(METHOD_TASK_RESULT, "agent.taskResult");
    assert_eq!(METHOD_EVENT, "agent.event");
}

#[test]
fn an_integer_usage_reads_as_a_double() {
    let m = convert_komari_report(&parse(r#"{"cpu": {"usage": 12}}"#));
    assert_eq!(m.get("cpu"), Some(&double(12.0)));
    let m = convert_komari_report(&parse(r#"{"cpu": {"usage": 18446744073709551615}}"#));
    assert_eq!(m.get("cpu"), Some(&double(18446744073709551615.0)));
    let m = convert_komari_report(&parse(r#"{"cpu": {"usage": 0}}"#));
    assert_eq!(m.get("cpu"), Some(&double(0.0)));
    let m = convert_komari_report(&parse(r#"{"cpu": {"usage": -0.0}}"#));
    assert_eq!(m.get("cpu"), Some(&double(-0.0)));
    let m = convert_komari_report(&parse(r#"{"cpu": {"usage": -3}}"#));
    assert_eq!(m.get("cpu"), None);
}

#[test]
fn a_double_is_no_integer_reading() {
    let m = convert_komari_report(&parse(r#"{"process": 10.0, "uptime": 9223372036854775808}"#));
    assert_eq!(m.get("procs"), None);
    assert_eq!(m.get("uptime"), None);
    let m = convert_komari_report(&parse(r#"{"uptime": 9223372036854775807}"#));
    assert_eq!(m.get("uptime"), Some(&integer(i64::MAX)));
}

#[test]
fn doubles_that_are_not_finite_are_no_readings() {
    for bits in [f64::INFINITY.to_bits(), f64::NAN.to_bits(), f64::NEG_INFINITY.to_bits()] {
        let mut cpu = JsonObject::new();
        cpu.insert("usage", JsonValue::Number(JsonNumber::Double(bits)));
        let mut o = JsonObject::new();
        o.insert("cpu", JsonValue::Object(cpu));
        let m = convert_komari_report(&JsonValue::Object(o));
        assert_eq!(m.get("cpu"), None);
    }
    let mut cpu = JsonObject::new();
    cpu.insert("usage", double(f64::MAX));
    let mut o = JsonObject::new();
    o.insert("cpu", JsonValue::Object(cpu));
    assert_eq!(convert_komari_report(&JsonValue::Object(o)).get("cpu"), Some(&double(f64::MAX)));
}

#[test]
fn the_load_is_three_averages_or_none() {
    let m = convert_komari_report(&parse(r#"{"load": {"load1": 1, "load5": 2}}"#));
    assert_eq!(m.get("load"), None);
    let m = convert_komari_report(&parse(r#"{"load": {"load1": 1, "load5": 2, "load15": -3}}"#));
    assert_eq!(m.get("load"), None);
    let m = convert_komari_report(&parse(r#"{"load": {"load1": 1, "load5": 2, "load15": 3}}"#));
    assert_eq!(
        m.get("load"),
        Some(&JsonValue::Array(vec![double(1.0), double(2.0), double(3.0)]))
    );
}

#[test]
fn a_report_that_is_no_object_has_the_boot_identity_alone() {
    for text in ["null", "[]", "3", "\"x\"", "true", "{}"] {
        let m = convert_komari_report(&parse(text));
        assert_eq!(names(&m), vec!["boot_id"]);
        assert_eq!(m.get("boot_id"), Some(&JsonValue::text("komari")));
    }
}

#[test]
fn an_unread_member_makes_no_difference() {
    let mut longer = report();
    replace(&mut longer, "gpu", r#"{"usage": 99}"#);
    replace(&mut longer, "message", "null");
    replace(&mut longer, "boot_id", r#""mine""#);
    assert_eq!(convert_komari_report(&longer), convert_komari_report(&report()));
}

#[test]
fn a_text_is_sanitized() {
    let long = "é".repeat(200);
    let info = parse(&format!(
        r#"{{"os": "a\u0000b\u001fc\u007fd\u009fe", "arch": "{long}", "cpu_name": 7}}"#
    ));
    let f = convert_komari_basic_info(&info);
    assert_eq!(f.get("os"), Some(&JsonValue::text("abcde")));
    assert_eq!(f.get("arch"), Some(&JsonValue::text(&"é".repeat(128))));
    assert_eq!(f.get("cpu_name"), Some(&JsonValue::text("")));
}

#[test]
fn control_characters_do_not_count_towards_the_limit() {
    let info = parse(&format!(r#"{{"os": "{}{}"}}"#, "\\u0007".repeat(100), "x".repeat(130)));
    let f = convert_komari_basic_info(&info);
    assert_eq!(f.get("os"), Some(&JsonValue::text(&"x".repeat(128))));
}

#[test]
fn a_text_that_was_sanitized_stays() {
    let info = parse(r#"{"os": "a\u0001b"}"#);
    let once = convert_komari_basic_info(&info);
    let twice = convert_komari_basic_info(&once);
    assert_eq!(once.get("os"), twice.get("os"));
}

#[test]
fn a_negative_integer_fact_is_kept() {
    let f = convert_komari_basic_info(&parse(r#"{"cpu_cores": -4, "mem_total": 1.5}"#));
    assert_eq!(f.get("cpu_cores"), Some(&JsonValue::Number(JsonNumber::NegInt(-4))));
    assert_eq!(f.get("mem_total"), Some(&integer(0)));
}

#[test]
fn every_basic_info_gives_all_the_facts() {
    let all = vec![
        "os",
        "kernel",
        "arch",
        "virt",
        "cpu_name",
        "cpu_cores",
        "mem_total",
        "swap_total",
        "disk_total",
        "agent_version",
        "ipv4",
        "ipv6",
    ];
    assert_eq!(names(&convert_komari_basic_info(&JsonValue::Null)), all);
    let extra = parse(r#"{"gpu_name": "x", "cpu_physical_cores": 6}"#);
    assert_eq!(convert_komari_basic_info(&extra), convert_komari_basic_info(&JsonValue::Null));
}

#[test]
fn a_path_reads_member_by_member() {
    let root = parse(r#"{"a": {"b": {"c": 1}}, "x": [1]}"#);
    assert_eq!(pick(&root, &[]), Some(&root));
    assert_eq!(pick(&root, &["a"]), root.get("a"));
    assert_eq!(pick(&root, &["a", "b", "c"]), Some(&integer(1)));
    assert_eq!(
        pick(&root, &["a", "b", "c"]),
        pick(&root, &["a"]).and_then(|v| pick(v, &["b", "c"]))
    );
    assert_eq!(pick(&root, &["a", "q", "c"]), None);
    assert_eq!(pick(&root, &["x", "0"]), None);
    assert_eq!(pick(&integer(1), &["a"]), None);
}

use monitor_hub::delivery::{is_ready, Channel, Delivery, Outcome, Step};
use monitor_hub::headers::{parse_headers, Header, HeaderError};
use monitor_hub::json::JsonValue;
use monitor_hub::pushplus::{
    pushplus_body, pushplus_reply, pushplus_verdict_on, PushplusVerdict, PUSHPLUS_URL,
};
use monitor_hub::settings::Settings;
use monitor_hub::smtp::{parse_port, smtp_plan, smtp_plan_between, Security, SmtpError};
use monitor_hub::status::{is_redirection, is_success};
use monitor_hub::telegram::{telegram_reply, telegram_request, telegram_verdict_on};
use monitor_hub::webhook::{
    webhook_body, webhook_complaint_about, webhook_headers, webhook_reply, webhook_request,
    webhook_request_with, WebhookError,
};

fn settings(entries: &[(&str, &str)]) -> Settings {
    let mut settings = Settings::new();
    for (key, value) in entries {
        settings.set(key, value);
    }
    settings
}

const PUSHPLUS: [(&str, &str); 2] = [("pushplus_enabled", "on"), ("pushplus_token", "t")];
const SMTP: [(&str, &str); 4] = [
    ("smtp_enabled", "on"),
    ("smtp_host", "mail.example.com"),
    ("smtp_from", "Hub <hub@example.com>"),
    ("smtp_to", "me@example.com"),
];
const TELEGRAM: [(&str, &str); 3] =
    [("telegram_enabled", "on"), ("telegram_token", "1:a"), ("telegram_chat", "42")];
const WEBHOOK: [(&str, &str); 2] =
    [("webhook_enabled", "on"), ("webhook_url", "https://example.com/hook")];

fn everything() -> Settings {
    let mut all: Vec<(&str, &str)> = vec![("notify_enabled", "on")];
    all.extend(PUSHPLUS);
    all.extend(SMTP);
    all.extend(TELEGRAM);
    all.extend(WEBHOOK);
    settings(&all)
}

fn run(settings: &Settings, works: &[Channel]) -> Option<(Vec<Channel>, Outcome)> {
    let mut delivery = Delivery::start(settings)?;
    let mut invoked = Vec::new();
    loop {
        match delivery.next(settings) {
            Step::Attempt(channel) => {
                invoked.push(channel);
                delivery.record(works.contains(&channel));
            }
            Step::Finished(outcome) => return Some((invoked, outcome)),
        }
    }
}

#[test]
fn settings_hold_what_was_stored_last() {
    let mut s = settings(&[("a", "1"), ("b", ""), ("a", "on")]);
    assert_eq!(s.get("a"), Some("on"));
    assert_eq!(s.get("b"), Some(""));
    assert_eq!(s.get("c"), None);
    assert!(s.is_on("a") && !s.is_on("b") && !s.is_on("c"));
    assert!(s.has("a") && !s.has("b") && !s.has("c"));
    assert_eq!(s.get_or_empty("a"), "on");
    assert_eq!(s.get_or_empty("c"), "");
    s.set("a", "ON");
    assert!(!s.is_on("a"));
}

#[test]
fn nothing_is_sent_under_a_master_switch_that_is_off() {
    let mut s = everything();
    s.set("notify_enabled", "off");
    assert_eq!(run(&s, &[]), None);
    assert_eq!(run(&settings(&[]), &[]), None);
}

#[test]
fn every_ready_channel_is_invoked_in_order() {
    let all = vec![Channel::Pushplus, Channel::Smtp, Channel::Telegram, Channel::Webhook];
    let s = everything();
    assert_eq!(run(&s, &all), Some((all.clone(), Outcome::Delivered)));
    assert_eq!(run(&s, &[]), Some((all.clone(), Outcome::Undelivered)));
    assert_eq!(run(&s, &[Channel::Pushplus]), Some((all.clone(), Outcome::Delivered)));
    assert_eq!(run(&s, &[Channel::Webhook]), Some((all.clone(), Outcome::Delivered)));
    let mut s = everything();
    s.set("smtp_enabled", "off");
    s.set("webhook_url", "");
    assert_eq!(
        run(&s, &[Channel::Telegram]),
        Some((vec![Channel::Pushplus, Channel::Telegram], Outcome::Delivered))
    );
}

#[test]
fn a_notification_without_a_channel_is_skipped() {
    let s = settings(&[("notify_enabled", "on")]);
    assert_eq!(run(&s, &[]), Some((vec![], Outcome::Skipped)));
}

#[test]
fn a_channel_needs_its_switch_and_its_fields() {
    let check = |channel: Channel, entries: &[(&str, &str)]| {
        assert!(is_ready(&settings(entries), channel));
        for i in 0..entries.len() {
            let mut fewer: Vec<(&str, &str)> = entries.to_vec();
            fewer.remove(i);
            assert!(!is_ready(&settings(&fewer), channel));
            let mut emptied: Vec<(&str, &str)> = entries.to_vec();
            emptied[i].1 = "";
            assert!(!is_ready(&settings(&emptied), channel));
        }
    };
    check(Channel::Pushplus, &PUSHPLUS);
    check(Channel::Smtp, &SMTP);
    check(Channel::Telegram, &TELEGRAM);
    check(Channel::Webhook, &WEBHOOK);
}

#[test]
fn settings_may_change_while_a_notification_is_sent() {
    let s = everything();
    let mut delivery = Delivery::start(&s).unwrap();
    assert_eq!(delivery.next(&s), Step::Attempt(Channel::Pushplus));
    delivery.record(false);
    let mut later = everything();
    later.set("smtp_enabled", "off");
    later.set("webhook_enabled", "off");
    assert_eq!(delivery.next(&later), Step::Attempt(Channel::Telegram));
    delivery.record(false);
    assert_eq!(delivery.next(&later), Step::Finished(Outcome::Undelivered));
}

#[test]
fn a_pushplus_body_carries_the_message() {
    assert_eq!(PUSHPLUS_URL, "https://www.pushplus.plus/send");
    let body = pushplus_body(&settings(&PUSHPLUS), "T", "<b>C</b>");
    assert_eq!(body.get("token"), Some(&JsonValue::text("t")));
    assert_eq!(body.get("title"), Some(&JsonValue::text("T")));
    assert_eq!(body.get("content"), Some(&JsonValue::text("<b>C</b>")));
    assert_eq!(body.get("template"), Some(&JsonValue::text("html")));
    let body = pushplus_body(&settings(&[]), "T", "C");
    assert_eq!(body.get("token"), Some(&JsonValue::text("")));
}

#[test]
fn pushplus_accepts_with_a_code_alone() {
    assert_eq!(pushplus_reply(200, r#"{"code": 200}"#), PushplusVerdict::Accepted);
    assert_eq!(pushplus_reply(299, r#"{"code": 200, "msg": "x"}"#), PushplusVerdict::Accepted);
    assert_eq!(pushplus_reply(200, r#"{"code": 903}"#), PushplusVerdict::Refused(Some(903)));
    assert_eq!(pushplus_reply(200, r#"{"code": "200"}"#), PushplusVerdict::Refused(None));
    assert_eq!(pushplus_reply(200, r#"{"code": 200.0}"#), PushplusVerdict::Refused(None));
    assert_eq!(pushplus_reply(200, "200"), PushplusVerdict::Refused(None));
    assert_eq!(pushplus_reply(200, ""), PushplusVerdict::Refused(None));
    assert_eq!(pushplus_reply(500, r#"{"code": 200}"#), PushplusVerdict::Failed);
    assert_eq!(pushplus_reply(302, ""), PushplusVerdict::Failed);
    let answer = JsonValue::parse(r#"{"code": 200}"#).unwrap();
    assert_eq!(pushplus_verdict_on(200, Some(&answer)), PushplusVerdict::Accepted);
    assert_eq!(pushplus_verdict_on(200, None), PushplusVerdict::Refused(None));
}

#[test]
fn a_telegram_request_is_plain_text() {
    let request = telegram_request(&settings(&TELEGRAM), "T", "<b>a</b><br/>b");
    assert_eq!(request.url, "https://api.telegram.org/bot1:a/sendMessage");
    assert_eq!(request.body.get("chat_id"), Some(&JsonValue::text("42")));
    assert_eq!(request.body.get("text"), Some(&JsonValue::text("T\na\nb")));
    assert_eq!(request.body.get("parse_mode"), None);
    let request = telegram_request(&settings(&[]), "T", "C");
    assert_eq!(request.url, "https://api.telegram.org/bot/sendMessage");
    assert_eq!(request.body.get("chat_id"), Some(&JsonValue::text("")));
}

#[test]
fn telegram_takes_what_it_does_not_decline() {
    assert!(telegram_reply(200, r#"{"ok": true}"#));
    assert!(!telegram_reply(200, r#"{"ok": false, "description": "chat not found"}"#));
    assert!(telegram_reply(200, r#"{"ok": "false"}"#));
    assert!(telegram_reply(200, "{}"));
    assert!(telegram_reply(200, "not json"));
    assert!(!telegram_reply(400, r#"{"ok": true}"#));
    assert!(!telegram_reply(302, ""));
    let declined = JsonValue::parse(r#"{"ok": false}"#).unwrap();
    assert!(!telegram_verdict_on(200, Some(&declined)));
    assert!(telegram_verdict_on(200, None));
}

#[test]
fn a_status_is_one_of_its_hundred() {
    for status in 100..=999u16 {
        let code = reqwest::StatusCode::from_u16(status).unwrap();
        assert_eq!(is_success(status), code.is_success());
        assert_eq!(is_redirection(status), code.is_redirection());
    }
}

#[test]
fn webhook_headers_are_read_line_by_line() {
    let header = |name: &str, value: &str| Header { name: name.to_string(), value: value.to_string() };
    assert_eq!(parse_headers(""), Ok(vec![]));
    assert_eq!(parse_headers(" \r\n\n\t"), Ok(vec![]));
    assert_eq!(
        parse_headers("X-Gotify-Key: abc\r\n\n  Authorization :Bearer a:b  \n"),
        Ok(vec![header("x-gotify-key", "abc"), header("authorization", "Bearer a:b")])
    );
    assert_eq!(parse_headers("x:"), Ok(vec![header("x", "")]));
    assert_eq!(parse_headers("x: é\ty"), Ok(vec![header("x", "é\ty")]));
}

#[test]
fn joined_texts_are_read_in_turn() {
    for (one, other) in [("A: 1\nB: 2", "C: 3"), ("", "A: 1"), ("A: 1", "none"), ("none", "x y: 1")] {
        let expected = parse_headers(one).and_then(|mut list| {
            list.extend(parse_headers(other)?);
            Ok(list)
        });
        assert_eq!(parse_headers(&format!("{one}\n{other}")), expected);
    }
}

#[test]
fn a_header_at_fault_is_named() {
    assert_eq!(parse_headers("no colon"), Err(HeaderError::NoColon));
    assert_eq!(parse_headers("bad name: v"), Err(HeaderError::InvalidName("bad name".to_string())));
    assert_eq!(parse_headers(": v"), Err(HeaderError::InvalidName("".to_string())));
    assert_eq!(parse_headers("X-A: a\u{1}b"), Err(HeaderError::InvalidValue("x-a".to_string())));
    assert_eq!(parse_headers("X-A: a\u{7f}b"), Err(HeaderError::InvalidValue("x-a".to_string())));
    // The first line at fault is the one that is named.
    assert_eq!(
        parse_headers("ok: v\nB: \u{1}\nnone"),
        Err(HeaderError::InvalidValue("b".to_string()))
    );
}

#[test]
fn a_fault_is_put_in_words() {
    assert_eq!(
        HeaderError::NoColon.message(),
        "every webhook header line must read Name: value"
    );
    assert_eq!(
        HeaderError::InvalidName("a \"b\"".to_string()).message(),
        "invalid header name \"a \\\"b\\\"\""
    );
    assert_eq!(
        HeaderError::InvalidValue("x-a".to_string()).message(),
        "invalid value for header x-a"
    );
}

#[test]
fn a_value_is_never_echoed() {
    for value in ["secret\u{1}", "s\u{2}ecret", "hunter2\u{7f}"] {
        let error = parse_headers(&format!("X-Key: {value}")).unwrap_err();
        assert_eq!(error.message(), "invalid value for header x-key");
    }
    // Nor does what stands in other lines matter.
    let one = parse_headers("A: 1\nX-Key: secret\u{1}\nno colon").unwrap_err();
    let other = parse_headers("\n\nX-Key:\u{2}").unwrap_err();
    assert_eq!(one, other);
    let error = parse_headers("X Key: secret").unwrap_err();
    assert_eq!(error.message(), "invalid header name \"X Key\"");
}

#[test]
fn header_names_agree_with_those_of_a_request() {
    for code in 0..=0x2ffu32 {
        let c = char::from_u32(code).unwrap();
        if c == ':' || c.is_whitespace() {
            continue;
        }
        let taken = reqwest::header::HeaderName::try_from(format!("a{c}b")).is_ok();
        assert_eq!(parse_headers(&format!("a{c}b: v")).is_ok(), taken, "{code:x}");
    }
    let longest = "a".repeat(65535);
    assert!(parse_headers(&format!("{longest}: v")).is_ok());
    assert!(parse_headers(&format!("{longest}a: v")).is_err());
}

#[test]
fn a_configured_header_replaces_the_default_one() {
    let headers = webhook_headers("").unwrap();
    assert_eq!(headers.len(), 1);
    assert_eq!(headers.get("content-type").unwrap(), "application/json");
    let headers = webhook_headers("Content-Type: text/plain\nX-A: 1\nx-a: 2").unwrap();
    assert_eq!(headers.len(), 2);
    assert_eq!(headers.get_all("content-type").iter().count(), 1);
    assert_eq!(headers.get("content-type").unwrap(), "text/plain");
    assert_eq!(headers.get_all("x-a").iter().count(), 1);
    assert_eq!(headers.get("x-a").unwrap(), "2");
    let headers = webhook_headers("X-A: é").unwrap();
    assert_eq!(headers.get("x-a").unwrap().as_bytes(), "é".as_bytes());
}

#[test]
fn a_request_carries_so_many_headers_and_no_more() {
    let lines = |n: usize| (0..n).map(|i| format!("h{i}: v\n")).collect::<String>();
    assert_eq!(webhook_headers(&lines(6553)).unwrap().len(), 6554);
    assert_eq!(webhook_headers(&lines(24576)).err(), Some(WebhookError::TooManyHeaders));
    assert_eq!(webhook_headers(&lines(30000)).err(), Some(WebhookError::TooManyHeaders));
}

#[test]
fn a_webhook_request_carries_the_message_and_the_time() {
    let mut s = settings(&WEBHOOK);
    s.set("webhook_headers", "X-A: 1");
    let request = webhook_request(&s, "T", "C", 60).unwrap();
    assert_eq!(request.url, "https://example.com/hook");
    assert_eq!(request.headers.len(), 2);
    assert_eq!(request.headers.get("x-a").unwrap(), "1");
    assert_eq!(request.body.get("title"), Some(&JsonValue::text("T")));
    assert_eq!(request.body.get("content"), Some(&JsonValue::text("C")));
    assert_eq!(request.body.get("time"), Some(&JsonValue::text("1970-01-01 00:01:00")));
    assert_eq!(webhook_body("T", "C", "W").get("time"), Some(&JsonValue::text("W")));
    let headers = webhook_headers("X-B: 2").unwrap();
    let request = webhook_request_with(&s, "T", "C", "W", headers);
    assert_eq!(request.url, "https://example.com/hook");
    assert_eq!(request.headers.get("x-b").unwrap(), "2");
    assert_eq!(request.headers.get("x-a"), None);
    assert_eq!(request.body.get("time"), Some(&JsonValue::text("W")));
    s.set("webhook_headers", "bad");
    assert_eq!(
        webhook_request(&s, "T", "C", 60).err(),
        Some(WebhookError::Header(HeaderError::NoColon))
    );
}

#[test]
fn only_a_success_is_a_delivery() {
    assert_eq!(webhook_reply(200, "x"), None);
    assert_eq!(webhook_reply(204, ""), None);
    assert_eq!(
        webhook_reply(302, "moved"),
        Some("HTTP 302 Found: the URL redirects; enter the address it redirects to".to_string())
    );
    assert_eq!(webhook_reply(404, "gone"), Some("HTTP 404 Not Found: gone".to_string()));
    assert_eq!(
        webhook_reply(599, &"x".repeat(400)),
        Some(format!("HTTP 599 <unknown status code>: {}", "x".repeat(300)))
    );
    assert_eq!(webhook_complaint_about(500, "S", "b"), Some("HTTP S: b".to_string()));
    assert_eq!(webhook_complaint_about(299, "S", "b"), None);
}

#[test]
fn a_port_is_a_number_that_fits() {
    for text in ["587", "+587", "0", "65535", "00025", "65536", "", "+", "-1", " 25", "25 ", "++1", "1e3", "4294967321", "٣"] {
        assert_eq!(parse_port(text), text.parse::<u16>().ok(), "{text:?}");
    }
    assert_eq!(parse_port("587"), Some(587));
    assert_eq!(parse_port("65536"), None);
}

#[test]
fn a_message_is_sent_as_the_settings_say() {
    let plan = smtp_plan(&settings(&SMTP), "T", "C").ok().unwrap();
    assert_eq!(plan.host, "mail.example.com");
    assert_eq!(plan.port, 587);
    assert_eq!(plan.security, Security::StartTls);
    assert!(plan.account.is_none());
    assert_eq!(plan.from.name.as_deref(), Some("Hub"));
    assert_eq!(plan.from.email.to_string(), "hub@example.com");
    assert_eq!(plan.to.name, None);
    assert_eq!(plan.to.email.to_string(), "me@example.com");
    assert_eq!(plan.subject, "T");
    assert_eq!(
        lettre::message::header::ContentType::parse(&plan.content_type).unwrap(),
        lettre::message::header::ContentType::TEXT_HTML
    );
    assert_eq!(plan.html, "C");
}

#[test]
fn the_port_follows_the_security() {
    let plan = |security: &str, port: &str| {
        let mut s = settings(&SMTP);
        s.set("smtp_security", security);
        s.set("smtp_port", port);
        let plan = smtp_plan(&s, "T", "C").ok().unwrap();
        (plan.security, plan.port)
    };
    assert_eq!(plan("tls", ""), (Security::Tls, 465));
    assert_eq!(plan("tls", "x"), (Security::Tls, 465));
    assert_eq!(plan("tls", "2525"), (Security::Tls, 2525));
    assert_eq!(plan("none", ""), (Security::Plain, 587));
    assert_eq!(plan("none", "25"), (Security::Plain, 25));
    assert_eq!(plan("starttls", "70000"), (Security::StartTls, 587));
    assert_eq!(plan("TLS", ""), (Security::StartTls, 587));
}

#[test]
fn an_account_needs_a_name_and_a_stored_password() {
    let account = |entries: &[(&str, &str)]| {
        let mut s = settings(&SMTP);
        for (key, value) in entries {
            s.set(key, value);
        }
        let from = "a@example.com".parse::<lettre::message::Mailbox>().unwrap();
        let to = "b@example.com".parse::<lettre::message::Mailbox>().unwrap();
        let plan = smtp_plan_between(&s, "T", "C", from, to);
        assert_eq!(plan.from.email.to_string(), "a@example.com");
        assert_eq!(plan.to.email.to_string(), "b@example.com");
        plan.account.map(|a| (a.user, a.password))
    };
    assert_eq!(
        account(&[("smtp_username", "u"), ("smtp_password", "p")]),
        Some(("u".to_string(), "p".to_string()))
    );
    assert_eq!(
        account(&[("smtp_username", "u"), ("smtp_password", "")]),
        Some(("u".to_string(), "".to_string()))
    );
    assert_eq!(account(&[("smtp_username", ""), ("smtp_password", "p")]), None);
    assert_eq!(account(&[("smtp_username", "u")]), None);
    assert_eq!(account(&[("smtp_password", "p")]), None);
}

#[test]
fn a_mailbox_at_fault_is_named() {
    let mut s = settings(&SMTP);
    s.set("smtp_from", "nobody");
    s.set("smtp_to", "no one");
    assert!(matches!(smtp_plan(&s, "T", "C"), Err(SmtpError::Sender(_))));
    s.set("smtp_from", "a@example.com");
    assert!(matches!(smtp_plan(&s, "T", "C"), Err(SmtpError::Recipient(_))));
    s.set("smtp_to", "b@example.com");
    assert!(smtp_plan(&s, "T", "C").is_ok());
}

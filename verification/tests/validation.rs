use monitor_hub::validation::{setting_error, webhook_url_error};

const TOKEN: &str = "Telegram Bot Token 形如 123456:ABC-DEF";
const CHAT: &str = "Telegram 会话需为数字 id 或 @用户名";
const URL: &str = "Webhook 地址需以 http:// 或 https:// 开头";

fn error(key: &str, value: &str) -> Option<String> {
    setting_error(key, value)
}

#[test]
fn an_empty_value_clears_a_field() {
    for key in ["telegram_token", "telegram_chat", "webhook_url", "webhook_headers", "other"] {
        assert_eq!(error(key, ""), None);
    }
}

#[test]
fn a_bot_token_has_the_shape_that_is_issued() {
    for value in ["123456:ABC-DEF", "1:a", "0:_-"] {
        assert_eq!(error("telegram_token", value), None);
    }
    for value in ["123456", ":abc", "12a:abc", "123:", "1:a/b", "1:a:b", "1:é", " 1:a", "-1:a", "1:a?"] {
        assert_eq!(error("telegram_token", value).as_deref(), Some(TOKEN), "{value}");
    }
}

#[test]
fn a_chat_is_a_number_or_a_name() {
    for value in ["42", "-100123", "@channel_1", "@_", "0"] {
        assert_eq!(error("telegram_chat", value), None);
    }
    for value in ["@", "-", "--1", "4 2", "channel", "@a-b", "+1", "@@a", "٣"] {
        assert_eq!(error("telegram_chat", value).as_deref(), Some(CHAT), "{value}");
    }
}

#[test]
fn a_webhook_url_is_of_the_web() {
    for value in ["http://localhost:8080", "https://example.com/hook?x=1", "HTTPS://example.com"] {
        assert_eq!(error("webhook_url", value), None);
    }
    for value in ["example.com", "ftp://example.com", "http://", "javascript:1", "https//x", " "] {
        assert_eq!(error("webhook_url", value).as_deref(), Some(URL), "{value}");
    }
}

#[test]
fn a_scheme_decides_over_a_url() {
    assert_eq!(webhook_url_error(Some("http".to_string())), None);
    assert_eq!(webhook_url_error(Some("https".to_string())), None);
    assert_eq!(webhook_url_error(Some("HTTP".to_string())).as_deref(), Some(URL));
    assert_eq!(webhook_url_error(Some("file".to_string())).as_deref(), Some(URL));
    assert_eq!(webhook_url_error(None).as_deref(), Some(URL));
}

#[test]
fn webhook_headers_are_read_before_they_are_stored() {
    assert_eq!(error("webhook_headers", "X-Key: v\nB: w"), None);
    assert_eq!(error("webhook_headers", "\n \n"), None);
    assert_eq!(
        error("webhook_headers", "X-Key v").as_deref(),
        Some("every webhook header line must read Name: value")
    );
    assert_eq!(
        error("webhook_headers", "X Key: v").as_deref(),
        Some("invalid header name \"X Key\"")
    );
    assert_eq!(
        error("webhook_headers", "X-Key: \u{1}v").as_deref(),
        Some("invalid value for header x-key")
    );
}

#[test]
fn other_keys_are_not_judged() {
    for key in ["pushplus_token", "smtp_host", "notify_enabled", "telegram_token ", ""] {
        assert_eq!(error(key, "anything at all"), None);
    }
}

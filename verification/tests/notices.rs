use monitor_hub::notice::{
    device_from_user_agent, head, login_notice, login_notice_at, node_notice, node_notice_at, plain,
    timestamp, Transition, EARLIEST, LATEST, TIME_FORMAT,
};
use monitor_hub::settings::Settings;
use monitor_hub::watcher::{is_online, Node, NodeWatcher};

#[test]
fn a_user_agent_becomes_an_os_and_browser() {
    assert_eq!(device_from_user_agent(Some("Mozilla/5.0 (Windows NT 10.0; Win64; x64) AppleWebKit/537.36 Chrome/120.0 Safari/537.36 Edg/120.0")), "Windows · Edge");
    assert_eq!(device_from_user_agent(Some("Mozilla/5.0 (iPhone; CPU iPhone OS 17_0 like Mac OS X) AppleWebKit/605.1.15 Version/17.0 Mobile/15E148 Safari/604.1")), "iOS · Safari");
    assert_eq!(
        device_from_user_agent(Some(
            "Mozilla/5.0 (Linux; Android 14) AppleWebKit/537.36 Chrome/125.0 Mobile Safari/537.36"
        )),
        "Android · Chrome"
    );
    assert_eq!(
        device_from_user_agent(Some(
            "Mozilla/5.0 (Macintosh; Intel Mac OS X 10_15_7) Gecko/20100101 Firefox/128.0"
        )),
        "macOS · Firefox"
    );
    assert_eq!(device_from_user_agent(Some("curl/8.0")), "未知系统 · 未知浏览器");
    assert_eq!(device_from_user_agent(None), "未知系统 · 未知浏览器");
}

#[test]
fn each_system_has_its_signs() {
    let os = |ua: &str| device_from_user_agent(Some(ua));
    assert_eq!(os("iPad"), "iOS · 未知浏览器");
    assert_eq!(os("iPod"), "iOS · 未知浏览器");
    assert_eq!(os("Macintosh"), "macOS · 未知浏览器");
    assert_eq!(os("Linux x86_64"), "Linux · 未知浏览器");
    assert_eq!(os("Windows Linux"), "Windows · 未知浏览器");
    assert_eq!(os("<script>"), "未知系统 · 未知浏览器");
    assert_eq!(os(""), "未知系统 · 未知浏览器");
}

#[test]
fn a_moment_is_written_in_utc() {
    assert_eq!(TIME_FORMAT, "%Y-%m-%d %H:%M:%S");
    assert_eq!(timestamp(0), "1970-01-01 00:00:00");
    assert_eq!(timestamp(951782399), "2000-02-28 23:59:59");
    assert_eq!(timestamp(951782400), "2000-02-29 00:00:00");
    assert_eq!(timestamp(-1), "1969-12-31 23:59:59");
}

#[test]
fn the_calendar_ends_where_it_is_said_to() {
    assert!(chrono::DateTime::from_timestamp(EARLIEST, 0).is_some());
    assert!(chrono::DateTime::from_timestamp(EARLIEST - 1, 0).is_none());
    assert!(chrono::DateTime::from_timestamp(LATEST, 0).is_some());
    assert!(chrono::DateTime::from_timestamp(LATEST + 1, 0).is_none());
    assert_eq!(timestamp(EARLIEST), "-262143-01-01 00:00:00");
    assert_eq!(timestamp(LATEST), "+262142-12-31 23:59:59");
}

#[test]
fn a_quote_ends_after_three_hundred_characters() {
    assert_eq!(head(""), "");
    assert_eq!(head("short"), "short");
    assert_eq!(head(&"é".repeat(300)), "é".repeat(300));
    assert_eq!(head(&"é".repeat(301)), "é".repeat(300));
}

#[test]
fn a_message_reads_as_plain_text() {
    assert_eq!(plain("<b>a</b><br/>b<br>c"), "a\nb\nc");
    assert_eq!(plain("no marks"), "no marks");
    assert_eq!(plain("<i>x</i>"), "<i>x</i>");
    assert_eq!(plain("<br/><b>a<</b><b>b></b>c<b>d"), "\na<b>cd");
    // The marks are taken in turn, so a later one may come out of an earlier one.
    assert_eq!(plain("<<b>b>"), "<b>");
    assert_eq!(plain("</<b>b>x"), "x");
}

#[test]
fn a_login_notice_names_the_method() {
    let content = |method: &str| login_notice_at("T", method, "u", "1.2.3.4", "d").content;
    assert_eq!(
        content("password"),
        "<b>T</b><br/>登录方式：应急密码<br/>账号：u<br/>IP：1.2.3.4<br/>设备：d"
    );
    assert_eq!(
        content("account"),
        "<b>T</b><br/>登录方式：账号密码<br/>账号：u<br/>IP：1.2.3.4<br/>设备：d"
    );
    assert_eq!(
        content("github"),
        "<b>T</b><br/>登录方式：GitHub 单点登录<br/>账号：u<br/>IP：1.2.3.4<br/>设备：d"
    );
    assert_eq!(
        content("passkey"),
        "<b>T</b><br/>登录方式：passkey<br/>账号：u<br/>IP：1.2.3.4<br/>设备：d"
    );
}

#[test]
fn a_login_notice_reads_as_lines() {
    let notice = login_notice_at("T", "account", "u", "1.2.3.4", "d");
    assert_eq!(
        plain(&format!("{}\n{}", notice.title, notice.content)),
        "Monitor 后台登录提醒\nT\n登录方式：账号密码\n账号：u\nIP：1.2.3.4\n设备：d"
    );
}

#[test]
fn login_notices_have_a_switch() {
    let mut settings = Settings::new();
    assert!(login_notice(&settings, "password", "u", "i", "d", 0).is_none());
    settings.set("notify_login", "off");
    assert!(login_notice(&settings, "password", "u", "i", "d", 0).is_none());
    settings.set("notify_login", "on");
    let notice = login_notice(&settings, "password", "u", "i", "d", 0).unwrap();
    assert_eq!(notice.title, "Monitor 后台登录提醒");
    assert_eq!(
        notice.content,
        "<b>1970-01-01 00:00:00</b><br/>登录方式：应急密码<br/>账号：u<br/>IP：i<br/>设备：d"
    );
}

#[test]
fn a_node_notice_says_what_the_node_did() {
    let up = node_notice(Transition::Up, "web", 60);
    assert_eq!(up.title, "节点上线");
    assert_eq!(up.content, "<b>1970-01-01 00:01:00</b><br/>节点「web」已上线");
    let down = node_notice_at(Transition::Down, "web", "T");
    assert_eq!(down.title, "节点掉线");
    assert_eq!(down.content, "<b>T</b><br/>节点「web」已掉线");
    assert_eq!(
        plain(&format!("{}\n{}", down.title, down.content)),
        "节点掉线\nT\n节点「web」已掉线"
    );
}

#[test]
fn a_name_may_look_like_the_start_of_a_mark() {
    let up = node_notice_at(Transition::Up, "a<b <br", "T<");
    assert_eq!(
        plain(&format!("{}\n{}", up.title, up.content)),
        "节点上线\nT<\n节点「a<b <br」已上线"
    );
}

fn node(id: i64, last_seen: i64) -> Node {
    Node { id, name: "n".to_string(), last_seen }
}

#[test]
fn a_node_is_online_within_the_window() {
    assert!(is_online(&node(1, 1000), 1000));
    assert!(is_online(&node(1, 1000), 1120));
    assert!(!is_online(&node(1, 1000), 1121));
    assert!(is_online(&node(1, 1000), 900));
    assert!(!is_online(&node(1, 0), 0));
    assert!(!is_online(&node(1, -5), 0));
    assert!(is_online(&node(1, i64::MAX), i64::MIN));
}

#[test]
fn the_first_sight_of_a_node_is_silent() {
    let mut watcher = NodeWatcher::new();
    assert_eq!(watcher.observe(&node(1, 1000), 1000), None);
    assert_eq!(watcher.observe(&node(2, 0), 1000), None);
}

#[test]
fn a_blip_within_the_window_is_silent() {
    let mut watcher = NodeWatcher::new();
    assert_eq!(watcher.observe(&node(1, 1000), 1000), None);
    assert_eq!(watcher.observe(&node(1, 1000), 1119), None);
    assert_eq!(watcher.observe(&node(1, 1118), 1130), None);
}

#[test]
fn changes_alternate() {
    let mut watcher = NodeWatcher::new();
    assert_eq!(watcher.observe(&node(1, 1000), 1000), None);
    assert_eq!(watcher.observe(&node(1, 1000), 1121), Some(Transition::Down));
    assert_eq!(watcher.observe(&node(1, 1000), 1151), None);
    assert_eq!(watcher.observe(&node(2, 1000), 1151), None);
    assert_eq!(watcher.observe(&node(1, 1160), 1181), Some(Transition::Up));
    assert_eq!(watcher.observe(&node(1, 1160), 1300), Some(Transition::Down));
    assert_eq!(watcher.observe(&node(2, 1290), 1300), Some(Transition::Up));
}

#[test]
fn the_first_change_leaves_the_first_state() {
    let mut watcher = NodeWatcher::new();
    assert_eq!(watcher.observe(&node(1, 0), 1000), None);
    assert_eq!(watcher.observe(&node(1, 0), 1030), None);
    assert_eq!(watcher.observe(&node(1, 1050), 1060), Some(Transition::Up));
    assert_eq!(watcher.observe(&node(2, 1050), 1060), None);
    assert_eq!(watcher.observe(&node(2, 1050), 1200), Some(Transition::Down));
}

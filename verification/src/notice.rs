//! What the notifications say: the login audit notice, the node up and down
//! notices, and the plain text of either.

use vstd::prelude::*;

use crate::settings::{switched_on, Settings};
use crate::text::{chars_of, contains, first, has, part, replace, replaced, same, string_of};

verus! {

/// How much of a failing response a warning quotes: enough for the reason
/// without an error page.
pub const HEAD: usize = 300;

/// How a moment is written in a notification.
pub const TIME_FORMAT: &'static str = "%Y-%m-%d %H:%M:%S";

/// The first and the last second that the calendar can write, from the start
/// of the year -262143 to the end of the year 262142.
pub const EARLIEST: i64 = -8334601228800;

pub const LATEST: i64 = 8210266876799;

/// A notification: its title, and its content with `<b>` and `<br/>` in it.
#[derive(Debug)]
pub struct Notice {
    pub title: String,
    pub content: String,
}

/// The moment `seconds` after the start of 1970, in UTC, as `chrono` writes it
/// in the form `format`.
pub uninterp spec fn time_written(seconds: i64, format: Seq<char>) -> Seq<char>;

/// `chrono::DateTime::format` of the moment `seconds` after the start of 1970,
/// in UTC, as text.
#[verifier::external_body]
fn write_time(seconds: i64, format: &str) -> (r: String)
    requires
        EARLIEST <= seconds <= LATEST,
        format@ == TIME_FORMAT@,
    ensures
        r@ == time_written(seconds, format@),
{
    chrono::DateTime::from_timestamp(seconds, 0).unwrap().format(format).to_string()
}

/// The moment `now`, in seconds after the start of 1970, as a notification
/// writes it.
pub fn timestamp(now: i64) -> (r: String)
    requires
        EARLIEST <= now <= LATEST,
    ensures
        r@ == time_written(now, TIME_FORMAT@),
{
    write_time(now, TIME_FORMAT)
}

/// The first `HEAD` characters of a response body.
pub fn head(body: &str) -> (r: String)
    ensures
        r@ == first(body@, HEAD as int),
{
    let chars = chars_of(body);
    if chars.len() <= HEAD {
        string_of(chars.as_slice())
    } else {
        let r = string_of(part(chars.as_slice(), 0, HEAD).as_slice());
        assert(chars@.subrange(0, HEAD as int) =~= chars@.take(HEAD as int));
        r
    }
}

/// A message as plain text: line breaks for `<br/>` and `<br>`, and no `<b>`
/// and `</b>`.
pub open spec fn plain_text(content: Seq<char>) -> Seq<char> {
    let s = replaced(content, "<br/>"@, "\n"@);
    let s = replaced(s, "<br>"@, "\n"@);
    let s = replaced(s, "<b>"@, ""@);
    replaced(s, "</b>"@, ""@)
}

/// The message as plain text: the panel builds its notifications with `<b>` and
/// `<br/>`, which Telegram would show verbatim without a parse mode.
pub fn plain(content: &str) -> (r: String)
    ensures
        r@ == plain_text(content@),
{
    let s = replace(content, "<br/>", "\n");
    let s = replace(s.as_str(), "<br>", "\n");
    let s = replace(s.as_str(), "<b>", "");
    replace(s.as_str(), "</b>", "")
}

/// The operating system that a User-Agent names.
pub open spec fn os_named(ua: Seq<char>) -> Seq<char> {
    if contains(ua, "iPhone"@) || contains(ua, "iPad"@) || contains(ua, "iPod"@) {
        "iOS"@
    } else if contains(ua, "Android"@) {
        "Android"@
    } else if contains(ua, "Windows"@) {
        "Windows"@
    } else if contains(ua, "Mac OS X"@) || contains(ua, "Macintosh"@) {
        "macOS"@
    } else if contains(ua, "Linux"@) {
        "Linux"@
    } else {
        "未知系统"@
    }
}

/// The browser that a User-Agent names.
pub open spec fn browser_named(ua: Seq<char>) -> Seq<char> {
    if contains(ua, "Edg/"@) {
        "Edge"@
    } else if contains(ua, "Chrome/"@) {
        "Chrome"@
    } else if contains(ua, "Firefox/"@) {
        "Firefox"@
    } else if contains(ua, "Safari/"@) {
        "Safari"@
    } else {
        "未知浏览器"@
    }
}

/// The device that a User-Agent names; a missing one names nothing.
pub open spec fn device_named(ua: Option<Seq<char>>) -> Seq<char> {
    let ua = match ua {
        Some(ua) => ua,
        None => Seq::empty(),
    };
    os_named(ua) + " · "@ + browser_named(ua)
}

/// Human-readable device from a User-Agent: OS and browser, nothing more. What
/// a missing or unparsable header leaves open reads as unknown rather than as
/// the raw string, which could carry junk.
pub fn device_from_user_agent(ua: Option<&str>) -> (r: String)
    ensures
        r@ == device_named(
            match ua {
                Some(s) => Some(s@),
                None => None,
            },
        ),
{
    let ua = match ua {
        Some(s) => chars_of(s),
        None => Vec::new(),
    };
    let ua = ua.as_slice();
    let os: &str = if has(ua, "iPhone") || has(ua, "iPad") || has(ua, "iPod") {
        "iOS"
    } else if has(ua, "Android") {
        "Android"
    } else if has(ua, "Windows") {
        "Windows"
    } else if has(ua, "Mac OS X") || has(ua, "Macintosh") {
        "macOS"
    } else if has(ua, "Linux") {
        "Linux"
    } else {
        "未知系统"
    };
    let browser: &str = if has(ua, "Edg/") {
        "Edge"
    } else if has(ua, "Chrome/") {
        "Chrome"
    } else if has(ua, "Firefox/") {
        "Firefox"
    } else if has(ua, "Safari/") {
        "Safari"
    } else {
        "未知浏览器"
    };
    let mut device: String = os.to_owned();
    device.append(" · ");
    device.append(browser);
    device
}

/// How a sign-in method is named in a notice; one without a name of its own is
/// given as it is.
pub open spec fn method_label(method: Seq<char>) -> Seq<char> {
    if method == "password"@ {
        "应急密码"@
    } else if method == "account"@ {
        "账号密码"@
    } else if method == "github"@ {
        "GitHub 单点登录"@
    } else {
        method
    }
}

/// The content of the login audit notice: time, method, account, address and
/// device.
pub open spec fn login_content(
    when: Seq<char>,
    method: Seq<char>,
    username: Seq<char>,
    ip: Seq<char>,
    device: Seq<char>,
) -> Seq<char> {
    "<b>"@ + when + "</b><br/>登录方式："@ + method_label(method) + "<br/>账号："@ + username
        + "<br/>IP："@ + ip + "<br/>设备："@ + device
}

/// The login audit notice for a sign-in at the moment that `when` writes.
pub fn login_notice_at(
    when: &str,
    method: &str,
    username: &str,
    ip: &str,
    device: &str,
) -> (r: Notice)
    ensures
        r.title@ == "Monitor 后台登录提醒"@,
        r.content@ == login_content(when@, method@, username@, ip@, device@),
{
    let label: &str = if same(method, "password") {
        "应急密码"
    } else if same(method, "account") {
        "账号密码"
    } else if same(method, "github") {
        "GitHub 单点登录"
    } else {
        method
    };
    let mut content: String = "<b>".to_owned();
    content.append(when);
    content.append("</b><br/>登录方式：");
    content.append(label);
    content.append("<br/>账号：");
    content.append(username);
    content.append("<br/>IP：");
    content.append(ip);
    content.append("<br/>设备：");
    content.append(device);
    Notice { title: "Monitor 后台登录提醒".to_owned(), content }
}

/// The login audit notice for a successful sign-in at the moment `now`, unless
/// such notices are switched off.
pub fn login_notice(
    settings: &Settings,
    method: &str,
    username: &str,
    ip: &str,
    device: &str,
    now: i64,
) -> (r: Option<Notice>)
    requires
        EARLIEST <= now <= LATEST,
    ensures
        r is Some <==> switched_on(settings@, "notify_login"@),
        r matches Some(notice) ==> {
            &&& notice.title@ == "Monitor 后台登录提醒"@
            &&& notice.content@ == login_content(
                time_written(now, TIME_FORMAT@),
                method@,
                username@,
                ip@,
                device@,
            )
        },
{
    if !settings.is_on("notify_login") {
        return None;
    }
    let when = timestamp(now);
    Some(login_notice_at(when.as_str(), method, username, ip, device))
}

/// A change of a node's online state.
#[derive(Clone, Copy, Debug, PartialEq, Eq, Structural)]
pub enum Transition {
    Up,
    Down,
}

/// The title of a node notice.
pub open spec fn node_title(transition: Transition) -> Seq<char> {
    match transition {
        Transition::Up => "节点上线"@,
        Transition::Down => "节点掉线"@,
    }
}

/// The content of a node notice: time, node and what it did.
pub open spec fn node_content(
    transition: Transition,
    name: Seq<char>,
    when: Seq<char>,
) -> Seq<char> {
    "<b>"@ + when + "</b><br/>节点「"@ + name + match transition {
        Transition::Up => "」已上线"@,
        Transition::Down => "」已掉线"@,
    }
}

/// The notice that the node `name` changed its state at the moment that `when`
/// writes.
pub fn node_notice_at(transition: Transition, name: &str, when: &str) -> (r: Notice)
    ensures
        r.title@ == node_title(transition),
        r.content@ == node_content(transition, name@, when@),
{
    let (title, ending): (&str, &str) = match transition {
        Transition::Up => ("节点上线", "」已上线"),
        Transition::Down => ("节点掉线", "」已掉线"),
    };
    let mut content: String = "<b>".to_owned();
    content.append(when);
    content.append("</b><br/>节点「");
    content.append(name);
    content.append(ending);
    Notice { title: title.to_owned(), content }
}

/// The notice that the node `name` changed its state at the moment `now`.
pub fn node_notice(transition: Transition, name: &str, now: i64) -> (r: Notice)
    requires
        EARLIEST <= now <= LATEST,
    ensures
        r.title@ == node_title(transition),
        r.content@ == node_content(transition, name@, time_written(now, TIME_FORMAT@)),
{
    let when = timestamp(now);
    node_notice_at(transition, name, when.as_str())
}

/// The operating systems that a device may be said to run.
pub open spec fn systems() -> Seq<Seq<char>> {
    seq!["iOS"@, "Android"@, "Windows"@, "macOS"@, "Linux"@, "未知系统"@]
}

/// The browsers that a device may be said to run.
pub open spec fn browsers() -> Seq<Seq<char>> {
    seq!["Edge"@, "Chrome"@, "Firefox"@, "Safari"@, "未知浏览器"@]
}

/// A device never carries the raw User-Agent: it is one of six systems and one
/// of five browsers.
pub proof fn law_device_is_from_the_list(ua: Option<Seq<char>>)
    ensures
        exists|os: Seq<char>, browser: Seq<char>|
            {
                &&& #[trigger] systems().contains(os)
                &&& #[trigger] browsers().contains(browser)
                &&& device_named(ua) == os + " · "@ + browser
            },
{
    let text = match ua {
        Some(ua) => ua,
        None => Seq::empty(),
    };
    let all = systems();
    assert(all[0] == "iOS"@ && all[1] == "Android"@ && all[2] == "Windows"@ && all[3] == "macOS"@
        && all[4] == "Linux"@ && all[5] == "未知系统"@);
    assert(systems().contains(os_named(text)));
    let all = browsers();
    assert(all[0] == "Edge"@ && all[1] == "Chrome"@ && all[2] == "Firefox"@ && all[3] == "Safari"@
        && all[4] == "未知浏览器"@);
    assert(browsers().contains(browser_named(text)));
}

} // verus!

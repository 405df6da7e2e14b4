//! Laws of what the notices say, and of when nodes change.

use vstd::prelude::*;

use crate::laws::text_operations::law_a_pattern_has_two_sides;
use crate::notice::{
    browser_named, device_named, login_content, method_label, node_content, node_title, os_named,
    Transition,
};
use crate::watcher::{change, changes, online, seen, NodeWatcher, ONLINE_WINDOW, WATCH_TICK};

verus! {

/// The text `ua` has `word` somewhere in it.
pub open spec fn mentions(ua: Seq<char>, word: Seq<char>) -> bool {
    exists|a: Seq<char>, b: Seq<char>| ua == #[trigger] (a + word + b)
}

/// A device is told by the words in its User-Agent: the first kind of system that
/// is mentioned, and the first kind of browser.
pub proof fn law_a_device_is_told_by_its_words(
    ua: Seq<char>,
    os: Seq<char>,
    browser: Seq<char>,
)
    requires
        (os == "iOS"@ && (mentions(ua, "iPhone"@) || mentions(ua, "iPad"@) || mentions(ua, "iPod"@)))
        || (os == "Android"@ && mentions(ua, "Android"@) && !mentions(ua, "iPhone"@) && !mentions(ua, "iPad"@) && !mentions(ua, "iPod"@))
        || (os == "Windows"@ && mentions(ua, "Windows"@) && !mentions(ua, "iPhone"@) && !mentions(ua, "iPad"@) && !mentions(ua, "iPod"@) && !mentions(ua, "Android"@))
        || (os == "macOS"@ && (mentions(ua, "Mac OS X"@) || mentions(ua, "Macintosh"@)) && !mentions(ua, "iPhone"@) && !mentions(ua, "iPad"@) && !mentions(ua, "iPod"@) && !mentions(ua, "Android"@) && !mentions(ua, "Windows"@))
        || (os == "Linux"@ && mentions(ua, "Linux"@) && !mentions(ua, "iPhone"@) && !mentions(ua, "iPad"@) && !mentions(ua, "iPod"@) && !mentions(ua, "Android"@) && !mentions(ua, "Windows"@) && !mentions(ua, "Mac OS X"@) && !mentions(ua, "Macintosh"@))
        || (os == "未知系统"@ && !mentions(ua, "iPhone"@) && !mentions(ua, "iPad"@) && !mentions(ua, "iPod"@) && !mentions(ua, "Android"@) && !mentions(ua, "Windows"@) && !mentions(ua, "Mac OS X"@) && !mentions(ua, "Macintosh"@) && !mentions(ua, "Linux"@)),
        (browser == "Edge"@ && mentions(ua, "Edg/"@))
        || (browser == "Chrome"@ && mentions(ua, "Chrome/"@) && !mentions(ua, "Edg/"@))
        || (browser == "Firefox"@ && mentions(ua, "Firefox/"@) && !mentions(ua, "Edg/"@) && !mentions(ua, "Chrome/"@))
        || (browser == "Safari"@ && mentions(ua, "Safari/"@) && !mentions(ua, "Edg/"@) && !mentions(ua, "Chrome/"@) && !mentions(ua, "Firefox/"@))
        || (browser == "未知浏览器"@ && !mentions(ua, "Edg/"@) && !mentions(ua, "Chrome/"@) && !mentions(ua, "Firefox/"@) && !mentions(ua, "Safari/"@)),
    ensures
        device_named(Some(ua)) == os + " · "@ + browser,
{
    law_a_pattern_has_two_sides(ua, "iPhone"@);
    law_a_pattern_has_two_sides(ua, "iPad"@);
    law_a_pattern_has_two_sides(ua, "iPod"@);
    law_a_pattern_has_two_sides(ua, "Android"@);
    law_a_pattern_has_two_sides(ua, "Windows"@);
    law_a_pattern_has_two_sides(ua, "Mac OS X"@);
    law_a_pattern_has_two_sides(ua, "Macintosh"@);
    law_a_pattern_has_two_sides(ua, "Linux"@);
    law_a_pattern_has_two_sides(ua, "Edg/"@);
    law_a_pattern_has_two_sides(ua, "Chrome/"@);
    law_a_pattern_has_two_sides(ua, "Firefox/"@);
    law_a_pattern_has_two_sides(ua, "Safari/"@);
    assert(os_named(ua) == os);
    assert(browser_named(ua) == browser);
}

/// Every User-Agent that mentions one of Apple's handhelds is one of them,
/// whatever stands around it.
pub proof fn law_a_handheld_of_apple_is_one(a: Seq<char>, word: Seq<char>, b: Seq<char>)
    requires
        word == "iPhone"@ || word == "iPad"@ || word == "iPod"@,
    ensures
        "iOS · "@.is_prefix_of(device_named(Some(a + word + b))),
{
    let ua = a + word + b;
    assert(mentions(ua, word));
    law_a_pattern_has_two_sides(ua, word);
    reveal_strlit("iOS · ");
    reveal_strlit("iOS");
    reveal_strlit(" · ");
    assert("iOS · "@ =~= "iOS"@ + " · "@);
    assert(os_named(ua) == "iOS"@);
    let device = device_named(Some(ua));
    assert(device.take("iOS · "@.len() as int) =~= "iOS · "@);
}

/// Without a User-Agent nothing is known.
pub proof fn law_no_header_no_device()
    ensures
        device_named(None) == "未知系统 · 未知浏览器"@,
{
    let none = Seq::<char>::empty();
    reveal_strlit("iPhone");
    assert("iPhone"@.len() > 0);
    reveal_strlit("iPad");
    assert("iPad"@.len() > 0);
    reveal_strlit("iPod");
    assert("iPod"@.len() > 0);
    reveal_strlit("Android");
    assert("Android"@.len() > 0);
    reveal_strlit("Windows");
    assert("Windows"@.len() > 0);
    reveal_strlit("Mac OS X");
    assert("Mac OS X"@.len() > 0);
    reveal_strlit("Macintosh");
    assert("Macintosh"@.len() > 0);
    reveal_strlit("Linux");
    assert("Linux"@.len() > 0);
    reveal_strlit("Edg/");
    assert("Edg/"@.len() > 0);
    reveal_strlit("Chrome/");
    assert("Chrome/"@.len() > 0);
    reveal_strlit("Firefox/");
    assert("Firefox/"@.len() > 0);
    reveal_strlit("Safari/");
    assert("Safari/"@.len() > 0);
    reveal_strlit("未知系统 · 未知浏览器");
    reveal_strlit("未知系统");
    reveal_strlit(" · ");
    reveal_strlit("未知浏览器");
    assert(os_named(none) == "未知系统"@);
    assert(browser_named(none) == "未知浏览器"@);
    assert("未知系统 · 未知浏览器"@ =~= "未知系统"@ + " · "@ + "未知浏览器"@);
}

/// Three methods have names of their own, and any other is given as it is.
pub proof fn law_methods_have_their_names(method: Seq<char>)
    ensures
        method_label("password"@) == "应急密码"@,
        method_label("account"@) == "账号密码"@,
        method_label("github"@) == "GitHub 单点登录"@,
        method != "password"@ && method != "account"@ && method != "github"@ ==> method_label(
            method,
        ) == method,
{
    reveal_strlit("password");
    reveal_strlit("account");
    reveal_strlit("github");
    assert("password"@.len() == 8);
    assert("account"@.len() == 7);
    assert("github"@.len() == 6);
}

/// The login audit notice has the time in bold, and then, each on a line of its
/// own behind its label, the method, the account, the address and the device,
/// all as they are.
pub proof fn law_a_login_notice_is_made_of_lines(
    when: Seq<char>,
    method: Seq<char>,
    username: Seq<char>,
    ip: Seq<char>,
    device: Seq<char>,
)
    requires
        method != "password"@ && method != "account"@ && method != "github"@,
    ensures
        login_content(when, method, username, ip, device) == ("<b>"@ + when + "</b>"@) + (
        "<br/>登录方式："@ + method) + ("<br/>账号："@ + username) + ("<br/>IP："@ + ip) + (
        "<br/>设备："@ + device),
        login_content(when, "password"@, username, ip, device) == login_content(
            when,
            "应急密码"@,
            username,
            ip,
            device,
        ),
        login_content(when, "account"@, username, ip, device) == login_content(
            when,
            "账号密码"@,
            username,
            ip,
            device,
        ),
        login_content(when, "github"@, username, ip, device) == login_content(
            when,
            "GitHub 单点登录"@,
            username,
            ip,
            device,
        ),
{
    law_methods_have_their_names(method);
    reveal_strlit("</b>");
    reveal_strlit("<br/>登录方式：");
    reveal_strlit("</b><br/>登录方式：");
    assert("</b><br/>登录方式："@ =~= "</b>"@ + "<br/>登录方式："@);
    assert(login_content(when, method, username, ip, device) =~= ("<b>"@ + when + "</b>"@) + (
    "<br/>登录方式："@ + method) + ("<br/>账号："@ + username) + ("<br/>IP："@ + ip) + ("<br/>设备："@
        + device));
    reveal_strlit("password");
    reveal_strlit("account");
    reveal_strlit("github");
    reveal_strlit("应急密码");
    reveal_strlit("账号密码");
    reveal_strlit("GitHub 单点登录");
    assert("password"@[0] == 'p' && "account"@[0] == 'a' && "github"@[0] == 'g');
    assert("应急密码"@[0] == '应' && "账号密码"@[0] == '账' && "GitHub 单点登录"@[0] == 'G');
}

/// A node notice has the time in bold and then the node's name as it is, in
/// quotes, with what it did.
pub proof fn law_a_node_notice_names_the_node(name: Seq<char>, when: Seq<char>)
    ensures
        node_title(Transition::Up) == "节点上线"@,
        node_title(Transition::Down) == "节点掉线"@,
        node_content(Transition::Up, name, when) == ("<b>"@ + when + "</b>"@) + ("<br/>节点「"@
            + name + "」已上线"@),
        node_content(Transition::Down, name, when) == ("<b>"@ + when + "</b>"@) + (
        "<br/>节点「"@ + name + "」已掉线"@),
{
    reveal_strlit("</b>");
    reveal_strlit("<br/>节点「");
    reveal_strlit("</b><br/>节点「");
    assert("</b><br/>节点「"@ =~= "</b>"@ + "<br/>节点「"@);
    assert(node_content(Transition::Up, name, when) =~= ("<b>"@ + when + "</b>"@) + (
    "<br/>节点「"@ + name + "」已上线"@));
    assert(node_content(Transition::Down, name, when) =~= ("<b>"@ + when + "</b>"@) + (
    "<br/>节点「"@ + name + "」已掉线"@));
}

/// A node is online from its report on for two minutes and not a second longer,
/// and one that never reported is not.
pub proof fn law_a_report_lasts_two_minutes(last_seen: i64, now: i64, earlier: i64)
    ensures
        last_seen > 0 && now <= last_seen ==> online(last_seen, now),
        last_seen > 0 && now == last_seen + 120 ==> online(last_seen, now),
        now == last_seen + 121 ==> !online(last_seen, now),
        online(last_seen, now) && earlier <= now ==> online(last_seen, earlier),
        last_seen <= 0 ==> !online(last_seen, now),
{
}

/// A change is told exactly where a node was seen in the other state, and told in
/// its direction.
pub proof fn law_a_change_is_told_in_its_direction(
    last: Map<i64, bool>,
    id: i64,
    was: bool,
    up: bool,
)
    ensures
        was == up ==> change(last.insert(id, was), id, up) is None,
        was && !up ==> change(last.insert(id, was), id, up) == Some(Transition::Down),
        !was && up ==> change(last.insert(id, was), id, up) == Some(Transition::Up),
        change(last.remove(id), id, up) is None,
{
}

/// A history is looked at one observation after the other: each is the state
/// seen last of its node, and tells a change of that node alone.
pub proof fn law_a_history_goes_on(history: Seq<(i64, bool)>, id: i64, up: bool, other: i64)
    ensures
        seen(Seq::empty()) == Map::<i64, bool>::empty(),
        seen(history.push((id, up))) == seen(history).insert(id, up),
        changes(Seq::empty(), id).len() == 0,
        other != id ==> changes(history.push((id, up)), other) == changes(history, other),
        !seen(history).dom().contains(id) || seen(history)[id] == up ==> changes(
            history.push((id, up)),
            id,
        ) == changes(history, id),
        seen(history).dom().contains(id) && seen(history)[id] && !up ==> changes(
            history.push((id, up)),
            id,
        ) == changes(history, id).push(Transition::Down),
        seen(history).dom().contains(id) && !seen(history)[id] && up ==> changes(
            history.push((id, up)),
            id,
        ) == changes(history, id).push(Transition::Up),
{
    assert(history.push((id, up)).drop_last() =~= history);
}

/// A watcher says what it has seen last.
pub proof fn law_a_watcher_says_what_it_has_seen(watcher: NodeWatcher, id: i64)
    ensures
        watcher@.dom().contains(id) <==> watcher.last@.dom().contains(id),
        watcher@.dom().contains(id) ==> watcher@[id] == watcher.last@[id],
        WATCH_TICK == 30,
        WATCH_TICK < ONLINE_WINDOW,
{
}

} // verus!

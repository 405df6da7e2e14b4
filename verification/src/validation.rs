//! Which channel-specific settings can be stored.

use vstd::prelude::*;

use crate::headers::{headers_in, headers_spelled, parse_headers};
use crate::text::{
    all_digits, alphanumeric, chars_of, digit, is_all_digits, is_alphanumeric, lines, option_view,
    part, position, same, trimmed,
};

verus! {

/// `s` is a run of letters, digits and characters of `extra`.
pub open spec fn all_of(s: Seq<char>, extra: Seq<char>) -> bool {
    s.len() > 0 && forall|i: int|
        0 <= i < s.len() ==> alphanumeric(#[trigger] s[i]) || extra.contains(s[i])
}

/// The shape of the tokens that BotFather issues: `123456:ABC-DEF`.
pub open spec fn bot_token(value: Seq<char>) -> bool {
    match value.index_of_first(':') {
        Some(i) => all_digits(value.take(i)) && all_of(value.skip(i + 1), "_-"@),
        None => false,
    }
}

/// A chat: `@` and a user name, or a number that may be negative.
pub open spec fn chat(value: Seq<char>) -> bool {
    if value.len() > 0 && value[0] == '@' {
        all_of(value.skip(1), "_"@)
    } else if value.len() > 0 && value[0] == '-' {
        all_digits(value.skip(1))
    } else {
        all_digits(value)
    }
}

/// The scheme of the URL that a text spells, as `reqwest::Url` reads it; none,
/// if it spells no URL.
pub uninterp spec fn scheme_spelled(text: Seq<char>) -> Option<Seq<char>>;

/// `reqwest::Url::parse`, and of its result the scheme: a function of the text
/// alone.
#[verifier::external_body]
fn url_scheme(text: &str) -> (r: Option<String>)
    ensures
        option_view(r) == scheme_spelled(text@),
{
    reqwest::Url::parse(text).ok().map(|url| url.scheme().to_owned())
}

/// A URL of this scheme can be posted to.
pub open spec fn web_scheme(scheme: Option<Seq<char>>) -> bool {
    scheme == Some("http"@) || scheme == Some("https"@)
}

/// Why a setting cannot be stored, if it cannot.
pub open spec fn setting_fault(key: Seq<char>, value: Seq<char>) -> Option<Seq<char>> {
    if value.len() == 0 {
        None
    } else if key == "telegram_token"@ {
        if bot_token(value) {
            None
        } else {
            Some("Telegram Bot Token 形如 123456:ABC-DEF"@)
        }
    } else if key == "telegram_chat"@ {
        if chat(value) {
            None
        } else {
            Some("Telegram 会话需为数字 id 或 @用户名"@)
        }
    } else if key == "webhook_url"@ {
        webhook_url_fault(scheme_spelled(value))
    } else if key == "webhook_headers"@ {
        match headers_spelled(value) {
            Ok(_) => None,
            Err(fault) => Some(fault.message()),
        }
    } else {
        None
    }
}

/// Why a URL of this scheme cannot be stored, if it cannot.
pub open spec fn webhook_url_fault(scheme: Option<Seq<char>>) -> Option<Seq<char>> {
    if web_scheme(scheme) {
        None
    } else {
        Some("Webhook 地址需以 http:// 或 https:// 开头"@)
    }
}

/// Whether `s` is a run of letters, digits and characters of `extra`.
fn is_all_of(s: &[char], extra: &str) -> (r: bool)
    ensures
        r == all_of(s@, extra@),
{
    if s.len() == 0 {
        return false;
    }
    let extras = chars_of(extra);
    let mut i: usize = 0;
    while i < s.len()
        invariant
            i <= s@.len(),
            extras@ == extra@,
            forall|j: int|
                0 <= j < i ==> alphanumeric(#[trigger] s@[j]) || extra@.contains(s@[j]),
        decreases s@.len() - i,
    {
        let c: char = s[i];
        proof {
            extras@.index_of_first_ensures(c);
        }
        if !is_alphanumeric(c) && position(extras.as_slice(), c).is_none() {
            assert(!extra@.contains(s@[i as int]));
            return false;
        }
        i += 1;
    }
    true
}

/// Whether `value` has the shape of a bot token.
fn is_bot_token(value: &str) -> (r: bool)
    ensures
        r == bot_token(value@),
{
    let chars = chars_of(value);
    let s = chars.as_slice();
    proof {
        s@.index_of_first_ensures(':');
    }
    match position(s, ':') {
        Some(i) => {
            let n: usize = s.len();
            let id = part(s, 0, i);
            let secret = part(s, i + 1, n);
            assert(id@ =~= value@.take(i as int));
            assert(secret@ =~= value@.skip(i + 1));
            is_all_digits(id.as_slice()) && is_all_of(secret.as_slice(), "_-")
        },
        None => false,
    }
}

/// Whether `value` is a chat.
fn is_chat(value: &str) -> (r: bool)
    ensures
        r == chat(value@),
{
    let chars = chars_of(value);
    let s = chars.as_slice();
    let n: usize = s.len();
    if n > 0 && s[0] == '@' {
        let name = part(s, 1, n);
        assert(name@ =~= value@.skip(1));
        is_all_of(name.as_slice(), "_")
    } else if n > 0 && s[0] == '-' {
        let id = part(s, 1, n);
        assert(id@ =~= value@.skip(1));
        is_all_digits(id.as_slice())
    } else {
        is_all_digits(s)
    }
}

/// Why a URL of this scheme cannot be stored, or `None` when it can. Plain http
/// is accepted: a relay on the hub's own host or network is a common target.
pub fn webhook_url_error(scheme: Option<String>) -> (r: Option<String>)
    ensures
        option_view(r) == webhook_url_fault(option_view(scheme)),
{
    let accepted: bool = match scheme {
        Some(scheme) => same(scheme.as_str(), "http") || same(scheme.as_str(), "https"),
        None => false,
    };
    if accepted {
        None
    } else {
        Some("Webhook 地址需以 http:// 或 https:// 开头".to_owned())
    }
}

/// Why a channel-specific setting cannot be stored, or `None` when it can. An
/// empty value clears a channel's field.
pub fn setting_error(key: &str, value: &str) -> (r: Option<String>)
    ensures
        option_view(r) == setting_fault(key@, value@),
{
    if value.is_empty() {
        return None;
    }
    if same(key, "telegram_token") {
        // Interpolated into the request path, so only the shape BotFather issues
        // is accepted.
        if is_bot_token(value) {
            None
        } else {
            Some("Telegram Bot Token 形如 123456:ABC-DEF".to_owned())
        }
    } else if same(key, "telegram_chat") {
        if is_chat(value) {
            None
        } else {
            Some("Telegram 会话需为数字 id 或 @用户名".to_owned())
        }
    } else if same(key, "webhook_url") {
        webhook_url_error(url_scheme(value))
    } else if same(key, "webhook_headers") {
        match parse_headers(value) {
            Ok(_) => None,
            Err(error) => Some(error.message()),
        }
    } else {
        None
    }
}

/// An empty value can always be stored: it clears the field.
pub proof fn law_empty_clears(key: Seq<char>)
    ensures
        setting_fault(key, Seq::empty()) is None,
{
}

/// Only the four keys of the Telegram and webhook fields are judged here.
pub proof fn law_other_keys_are_not_judged(key: Seq<char>, value: Seq<char>)
    requires
        key != "telegram_token"@,
        key != "telegram_chat"@,
        key != "webhook_url"@,
        key != "webhook_headers"@,
    ensures
        setting_fault(key, value) is None,
{
}

/// `c` leaves a request path as it is when it is spliced into it.
pub open spec fn path_safe(c: char) -> bool {
    alphanumeric(c) || c == '_' || c == '-' || c == ':'
}

/// A bot token that can be stored can be spliced into the request path: it
/// holds nothing that ends a path segment or is read as anything but itself.
pub proof fn law_stored_token_is_path_safe(value: Seq<char>)
    requires
        setting_fault("telegram_token"@, value) is None,
    ensures
        forall|i: int| 0 <= i < value.len() ==> path_safe(#[trigger] value[i]),
{
    if value.len() > 0 {
        reveal_strlit("_-");
        assert("_-"@.len() == 2);
        value.index_of_first_ensures(':');
        let at = value.index_of_first(':')->0;
        assert forall|i: int| 0 <= i < value.len() implies path_safe(#[trigger] value[i]) by {
            if i < at {
                assert(digit(value.take(at)[i]));
            } else if i > at {
                let c = value.skip(at + 1)[i - at - 1];
                assert(c == value[i]);
                if !alphanumeric(c) {
                    let k = choose|k: int| 0 <= k < "_-"@.len() && "_-"@[k] == c;
                    assert("_-"@[0] == '_' && "_-"@[1] == '-');
                }
            }
        }
    }
}

/// Webhook headers that can be stored can be used: they spell a list of
/// headers.
pub proof fn law_stored_headers_are_usable(value: Seq<char>)
    ensures
        setting_fault("webhook_headers"@, value) is None ==> headers_spelled(value) is Ok,
{
    reveal_strlit("webhook_headers");
    reveal_strlit("webhook_url");
    reveal_strlit("telegram_token");
    reveal_strlit("telegram_chat");
    assert("webhook_headers"@.len() == 15);
    assert("webhook_url"@.len() == 11);
    assert("telegram_token"@.len() == 14);
    assert("telegram_chat"@.len() == 13);
    if value.len() == 0 {
        value.index_of_first_ensures('\n');
        let ls = lines(value);
        assert(ls =~= seq![value]);
        assert(trimmed(ls[0]) == value);
        assert(ls.skip(1) =~= Seq::empty());
        assert(headers_in(ls.skip(1)) is Ok);
    }
}

} // verus!

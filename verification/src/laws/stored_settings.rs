//! Laws of the settings: what they hold, which of them can be stored, and what
//! they make of the channels.

use vstd::prelude::*;

use crate::delivery::{next_ready, ready, Channel, Delivery, Outcome, Step};
use crate::headers::headers_spelled;
use crate::settings::{filled, stored, stored_or_empty, switched_on, values_of};
use crate::text::{all_digits, alphanumeric, digit};
use crate::validation::{all_of, scheme_spelled, setting_fault};

verus! {

/// Of the entries for one key the last counts, and no other key has a value.
pub proof fn law_the_last_entry_counts(
    before: Seq<(String, String)>,
    entry: (String, String),
    after: Seq<(String, String)>,
    key: Seq<char>,
)
    requires
        forall|i: int| 0 <= i < after.len() ==> (#[trigger] after[i]).0@ != key,
    ensures
        entry.0@ == key ==> stored(values_of(before.push(entry) + after), key) == Some(entry.1@),
        stored(values_of(after), key) is None,
    decreases after.len(),
{
    let all = before.push(entry) + after;
    if after.len() == 0 {
        assert(all =~= before.push(entry));
        assert(all.drop_last() =~= before);
    } else {
        let shorter = after.drop_last();
        assert(after[after.len() - 1].0@ != key);
        assert forall|i: int| 0 <= i < shorter.len() implies (#[trigger] shorter[i]).0@ != key by {
            assert(after[i].0@ != key);
        }
        law_the_last_entry_counts(before, entry, shorter, key);
        assert(all.drop_last() =~= before.push(entry) + shorter);
        assert(all.last() == after.last());
    }
}

/// What is stored under a key is read back, whatever it is, and nothing is read
/// where nothing is stored.
pub proof fn law_what_is_stored_is_read_back(
    settings: Map<Seq<char>, Seq<char>>,
    key: Seq<char>,
    value: Seq<char>,
)
    ensures
        stored(settings.insert(key, value), key) == Some(value),
        stored_or_empty(settings.insert(key, value), key) == value,
        stored(settings.remove(key), key) is None,
        stored_or_empty(settings.remove(key), key) == Seq::<char>::empty(),
        forall|other: Seq<char>|
            other != key ==> #[trigger] stored(settings.insert(key, value), other) == stored(
                settings,
                other,
            ),
{
}

/// A switch is on with the word `on` and with no other, and a field is filled
/// with anything.
pub proof fn law_switches_and_fields(
    settings: Map<Seq<char>, Seq<char>>,
    key: Seq<char>,
    value: Seq<char>,
)
    ensures
        switched_on(settings.insert(key, value), key) <==> value == seq!['o', 'n'],
        filled(settings.insert(key, value), key) <==> value.len() > 0,
        !switched_on(settings.remove(key), key),
        !filled(settings.remove(key), key),
{
    reveal_strlit("on");
    assert("on"@ =~= seq!['o', 'n']);
}

/// The setting `key` is stored as `on`.
pub open spec fn on(settings: Map<Seq<char>, Seq<char>>, key: Seq<char>) -> bool {
    settings.dom().contains(key) && settings[key] == "on"@
}

/// The setting `key` is stored and not empty.
pub open spec fn given(settings: Map<Seq<char>, Seq<char>>, key: Seq<char>) -> bool {
    settings.dom().contains(key) && settings[key].len() > 0
}

/// Each channel is ready by its own switch and its own fields, and by nothing
/// else.
pub proof fn law_a_channel_is_ready_by_its_own_settings(settings: Map<Seq<char>, Seq<char>>)
    ensures
        ready(settings, Channel::Pushplus) <==> on(settings, "pushplus_enabled"@) && given(
            settings,
            "pushplus_token"@,
        ),
        ready(settings, Channel::Smtp) <==> on(settings, "smtp_enabled"@) && given(
            settings,
            "smtp_host"@,
        ) && given(settings, "smtp_from"@) && given(settings, "smtp_to"@),
        ready(settings, Channel::Telegram) <==> on(settings, "telegram_enabled"@) && given(
            settings,
            "telegram_token"@,
        ) && given(settings, "telegram_chat"@),
        ready(settings, Channel::Webhook) <==> on(settings, "webhook_enabled"@) && given(
            settings,
            "webhook_url"@,
        ),
{
}

/// The place of a channel in the order in which they are tried.
pub open spec fn place(channel: Channel) -> int {
    match channel {
        Channel::Pushplus => 0,
        Channel::Smtp => 1,
        Channel::Telegram => 2,
        Channel::Webhook => 3,
    }
}

/// The next channel is the first ready one that has not been considered, however
/// the others fared; where there is none, what became of the notification is
/// told by whether anything was attempted and delivered.
pub proof fn law_the_next_channel_is_the_first_ready_one(
    d: Delivery,
    settings: Map<Seq<char>, Seq<char>>,
    channel: Channel,
)
    requires
        d.considered <= 4,
    ensures
        d.step(settings) == Step::Attempt(channel) <==> {
            &&& place(channel) >= d.considered
            &&& ready(settings, channel)
            &&& forall|other: Channel|
                d.considered <= #[trigger] place(other) < place(channel) ==> !ready(settings, other)
        },
        d.step(settings) is Finished <==> forall|other: Channel|
            d.considered <= #[trigger] place(other) ==> !ready(settings, other),
        d.step(settings) matches Step::Finished(outcome) ==> {
            &&& outcome == Outcome::Skipped <==> !d.attempted
            &&& outcome == Outcome::Delivered <==> d.attempted && d.delivered
            &&& outcome == Outcome::Undelivered <==> d.attempted && !d.delivered
        },
{
    reveal_with_fuel(next_ready, 6);
    assert(place(Channel::Pushplus) == 0 && place(Channel::Smtp) == 1 && place(Channel::Telegram)
        == 2 && place(Channel::Webhook) == 3);
}

/// Each step goes behind the channel that it asks for, and remembers that it was
/// attempted; what is recorded of the attempt adds up and changes nothing else.
pub proof fn law_a_step_is_remembered(
    d: Delivery,
    settings: Map<Seq<char>, Seq<char>>,
    channel: Channel,
    worked: bool,
)
    requires
        d.considered <= 4,
    ensures
        d.step(settings) == Step::Attempt(channel) ==> {
            &&& d.stepped(settings).considered == place(channel) + 1
            &&& d.stepped(settings).attempted
            &&& d.stepped(settings).delivered == d.delivered
        },
        d.step(settings) is Finished ==> {
            &&& d.stepped(settings).considered == 4
            &&& d.stepped(settings).attempted == d.attempted
            &&& d.stepped(settings).delivered == d.delivered
        },
        d.recorded(worked).delivered == (d.delivered || worked),
        d.recorded(worked).attempted == d.attempted,
        d.recorded(worked).considered == d.considered,
        Delivery::fresh().considered == 0 && !Delivery::fresh().attempted
            && !Delivery::fresh().delivered,
        d.wf() <==> (d.delivered ==> d.attempted),
{
    reveal_with_fuel(next_ready, 6);
}

/// `s` is one or more characters of `0` to `9`.
pub open spec fn numeral(s: Seq<char>) -> bool {
    s.len() > 0 && forall|i: int| 0 <= i < s.len() ==> '0' <= #[trigger] s[i] <= '9'
}

/// `s` is one or more letters, digits, underscores and, if `dash` says so,
/// dashes.
pub open spec fn word(s: Seq<char>, dash: bool) -> bool {
    s.len() > 0 && forall|i: int|
        0 <= i < s.len() ==> {
            let c = #[trigger] s[i];
            '0' <= c <= '9' || 'A' <= c <= 'Z' || 'a' <= c <= 'z' || c == '_' || (dash && c == '-')
        }
}

/// What is told apart here is what the library tells apart.
proof fn lemma_words(s: Seq<char>)
    ensures
        all_digits(s) <==> numeral(s),
        all_of(s, "_"@) <==> word(s, false),
        all_of(s, "_-"@) <==> word(s, true),
{
    reveal_strlit("_");
    reveal_strlit("_-");
    assert("_"@ =~= seq!['_']);
    assert("_-"@ =~= seq!['_', '-']);
    assert forall|c: char| #[trigger] "_"@.contains(c) <==> c == '_' by {
        assert("_"@[0] == '_');
    }
    assert forall|c: char| #[trigger] "_-"@.contains(c) <==> c == '_' || c == '-' by {
        assert("_-"@[0] == '_' && "_-"@[1] == '-');
    }
    if numeral(s) {
        assert forall|i: int| 0 <= i < s.len() implies digit(#[trigger] s[i]) by {
            assert('0' <= s[i] <= '9');
        }
    }
    if all_digits(s) {
        assert forall|i: int| 0 <= i < s.len() implies '0' <= #[trigger] s[i] <= '9' by {
            assert(digit(s[i]));
        }
    }
    if word(s, false) {
        assert forall|i: int| 0 <= i < s.len() implies alphanumeric(#[trigger] s[i])
            || "_"@.contains(s[i]) by {}
    }
    if word(s, true) {
        assert forall|i: int| 0 <= i < s.len() implies alphanumeric(#[trigger] s[i])
            || "_-"@.contains(s[i]) by {}
    }
    if all_of(s, "_"@) {
        assert forall|i: int| 0 <= i < s.len() implies {
            let c = #[trigger] s[i];
            '0' <= c <= '9' || 'A' <= c <= 'Z' || 'a' <= c <= 'z' || c == '_'
        } by {
            assert(alphanumeric(s[i]) || "_"@.contains(s[i]));
        }
    }
    if all_of(s, "_-"@) {
        assert forall|i: int| 0 <= i < s.len() implies {
            let c = #[trigger] s[i];
            '0' <= c <= '9' || 'A' <= c <= 'Z' || 'a' <= c <= 'z' || c == '_' || c == '-'
        } by {
            assert(alphanumeric(s[i]) || "_-"@.contains(s[i]));
        }
    }
}

/// The keys that are judged are different.
proof fn lemma_keys()
    ensures
        "telegram_token"@ != "telegram_chat"@,
        "telegram_token"@ != "webhook_url"@,
        "telegram_token"@ != "webhook_headers"@,
        "telegram_chat"@ != "webhook_url"@,
        "telegram_chat"@ != "webhook_headers"@,
        "webhook_url"@ != "webhook_headers"@,
{
    reveal_strlit("telegram_token");
    reveal_strlit("telegram_chat");
    reveal_strlit("webhook_url");
    reveal_strlit("webhook_headers");
    assert("telegram_token"@.len() == 14);
    assert("telegram_chat"@.len() == 13);
    assert("webhook_url"@.len() == 11);
    assert("webhook_headers"@.len() == 15);
}

/// A chat can be stored if it is a number, of any length and with or without a
/// minus sign, or a name behind an `@`.
pub proof fn law_chats_can_be_stored(id: Seq<char>, name: Seq<char>)
    ensures
        numeral(id) ==> setting_fault("telegram_chat"@, id) is None,
        numeral(id) ==> setting_fault("telegram_chat"@, seq!['-'] + id) is None,
        word(name, false) ==> setting_fault("telegram_chat"@, seq!['@'] + name) is None,
{
    lemma_keys();
    lemma_words(id);
    lemma_words(name);
    assert((seq!['-'] + id).skip(1) =~= id);
    assert((seq!['@'] + name).skip(1) =~= name);
    if numeral(id) {
        assert('0' <= id[0] <= '9');
    }
}

/// A chat that is stored is a number or a name, and any other is refused in these
/// words.
pub proof fn law_only_chats_are_stored(value: Seq<char>)
    requires
        value.len() > 0,
    ensures
        setting_fault("telegram_chat"@, value) is None ==> {
            ||| numeral(value)
            ||| value[0] == '-' && numeral(value.skip(1))
            ||| value[0] == '@' && word(value.skip(1), false)
        },
        setting_fault("telegram_chat"@, value) matches Some(message) ==> message
            == "Telegram 会话需为数字 id 或 @用户名"@,
{
    lemma_keys();
    lemma_words(value);
    lemma_words(value.skip(1));
}

/// A bot token can be stored if it is a number, a colon and a word.
pub proof fn law_bot_tokens_can_be_stored(id: Seq<char>, secret: Seq<char>)
    requires
        numeral(id),
        word(secret, true),
    ensures
        setting_fault("telegram_token"@, id + seq![':'] + secret) is None,
{
    lemma_keys();
    lemma_words(id);
    lemma_words(secret);
    let value = id + seq![':'] + secret;
    let at = id.len() as int;
    value.index_of_first_ensures(':');
    assert(value[at] == ':');
    assert(value.contains(':'));
    let found = value.index_of_first(':')->0;
    assert(found == at) by {
        if found < at {
            assert(value[found] == id[found]);
            assert('0' <= id[found] <= '9');
        }
    }
    assert(value.take(at) =~= id);
    assert(value.skip(at + 1) =~= secret);
}

/// A bot token that is stored is a number, a colon and a word, and any other is
/// refused in these words.
pub proof fn law_only_bot_tokens_are_stored(value: Seq<char>)
    requires
        value.len() > 0,
    ensures
        setting_fault("telegram_token"@, value) is None ==> exists|at: int| {
            &&& 0 <= at < value.len()
            &&& #[trigger] value[at] == ':'
            &&& numeral(value.take(at))
            &&& word(value.skip(at + 1), true)
        },
        setting_fault("telegram_token"@, value) matches Some(message) ==> message
            == "Telegram Bot Token 形如 123456:ABC-DEF"@,
{
    value.index_of_first_ensures(':');
    if setting_fault("telegram_token"@, value) is None {
        let at = value.index_of_first(':')->0;
        lemma_words(value.take(at));
        lemma_words(value.skip(at + 1));
        assert(value[at] == ':');
    }
}

/// A webhook address can be stored if its scheme is that of the web, plain or
/// secured, and any other is refused in these words.
pub proof fn law_web_addresses_can_be_stored(value: Seq<char>)
    requires
        value.len() > 0,
    ensures
        setting_fault("webhook_url"@, value) is None <==> scheme_spelled(value) == Some(
            "http"@,
        ) || scheme_spelled(value) == Some("https"@),
        setting_fault("webhook_url"@, value) matches Some(message) ==> message
            == "Webhook 地址需以 http:// 或 https:// 开头"@,
{
    lemma_keys();
}

/// Webhook headers can be stored if they can be read, and otherwise are refused
/// with what is wrong with them.
pub proof fn law_headers_that_can_be_read_can_be_stored(value: Seq<char>)
    requires
        value.len() > 0,
    ensures
        setting_fault("webhook_headers"@, value) is None <==> headers_spelled(value) is Ok,
        headers_spelled(value) matches Err(fault) ==> setting_fault("webhook_headers"@, value)
            == Some(fault.message()),
{
    lemma_keys();
}

} // verus!

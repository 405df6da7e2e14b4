//! Laws of what the channels send, and of what their answers are worth.

use vstd::prelude::*;

use crate::json::{Json, JsonNumber};
use crate::laws::text_operations::law_a_beginning_is_as_long_as_it_may_be;
use crate::notice::{plain_text, HEAD};
use crate::pushplus::{pushplus_payload, pushplus_verdict, PushplusVerdict};
use crate::status::{redirection, success};
use crate::telegram::{telegram_payload, telegram_took, telegram_url};
use crate::text::{first, option_view};
use crate::webhook::{webhook_complaint, webhook_payload};

verus! {

/// The answer is an object with the member `key`, which is `v`.
pub open spec fn answers(answer: Option<Json>, key: Seq<char>, v: Json) -> bool {
    &&& answer matches Some(Json::Object(m))
    &&& m.dom().contains(key)
    &&& m[key] == v
}

/// A PushPlus request carries the token, the message as it is, and the word that
/// it is HTML, and nothing else.
pub proof fn law_a_pushplus_request_carries_the_message(
    token: Seq<char>,
    title: Seq<char>,
    content: Seq<char>,
    name: Seq<char>,
)
    ensures
        pushplus_payload(token, title, content) is Object,
        pushplus_payload(token, title, content).member("token"@) == Some(Json::Text(token)),
        pushplus_payload(token, title, content).member("title"@) == Some(Json::Text(title)),
        pushplus_payload(token, title, content).member("content"@) == Some(Json::Text(content)),
        pushplus_payload(token, title, content).member("template"@) == Some(Json::Text("html"@)),
        pushplus_payload(token, title, content).member(name) is Some ==> name == "token"@ || name
            == "title"@ || name == "content"@ || name == "template"@,
{
    reveal_strlit("token");
    reveal_strlit("title");
    reveal_strlit("content");
    reveal_strlit("template");
    assert("token"@.len() == 5);
    assert("title"@.len() == 5);
    assert("content"@.len() == 7);
    assert("template"@.len() == 8);
    assert("token"@[1] == 'o' && "title"@[1] == 'i');
}

/// A PushPlus answer is told by its status and by the code in it: the code of a
/// message received is 200, and any other code is passed on.
pub proof fn law_a_pushplus_answer_is_told_by_its_code(
    status: u16,
    answer: Option<Json>,
    code: u64,
    below: i64,
)
    requires
        code <= 0x7fff_ffff_ffff_ffff,
        below < 0,
    ensures
        status < 200 || status > 299 ==> pushplus_verdict(status, answer)
            == PushplusVerdict::Failed,
        200 <= status <= 299 && answers(
            answer,
            "code"@,
            Json::Number(JsonNumber::PosInt(code)),
        ) ==> pushplus_verdict(status, answer) == if code == 200 {
            PushplusVerdict::Accepted
        } else {
            PushplusVerdict::Refused(Some(code as i64))
        },
        200 <= status <= 299 && answers(
            answer,
            "code"@,
            Json::Number(JsonNumber::NegInt(below)),
        ) ==> pushplus_verdict(status, answer) == PushplusVerdict::Refused(Some(below)),
        200 <= status <= 299 && (forall|v: Json| #[trigger]
            answers(answer, "code"@, v) ==> !(v is Number)) ==> pushplus_verdict(status, answer)
            == PushplusVerdict::Refused(None),
        pushplus_verdict(status, answer) == PushplusVerdict::Accepted ==> 200 <= status <= 299 && (
        answers(answer, "code"@, Json::Number(JsonNumber::PosInt(200))) || answers(
            answer,
            "code"@,
            Json::Number(JsonNumber::NegInt(200)),
        )),
{
    if let Some(Json::Object(m)) = answer {
        if m.dom().contains("code"@) {
            assert(answers(answer, "code"@, m["code"@]));
        }
    }
}

/// A code that is no integer of 64 bits with a sign is no code.
pub proof fn law_a_pushplus_code_is_an_integer(status: u16, answer: Option<Json>, bits: u64, u: u64)
    requires
        200 <= status <= 299,
        answers(answer, "code"@, Json::Number(JsonNumber::Double(bits))) || (answers(
            answer,
            "code"@,
            Json::Number(JsonNumber::PosInt(u)),
        ) && u > 0x7fff_ffff_ffff_ffff),
    ensures
        pushplus_verdict(status, answer) == PushplusVerdict::Refused(None),
{
}

/// A Telegram request goes to the bot's own address and carries the chat and the
/// plain text of the message, and nothing else.
pub proof fn law_a_telegram_request_carries_the_message(
    token: Seq<char>,
    chat: Seq<char>,
    title: Seq<char>,
    content: Seq<char>,
    name: Seq<char>,
)
    ensures
        telegram_url(token) == "https://api.telegram.org/bot"@ + token + "/sendMessage"@,
        telegram_payload(chat, title, content) is Object,
        telegram_payload(chat, title, content).member("chat_id"@) == Some(Json::Text(chat)),
        telegram_payload(chat, title, content).member("text"@) == Some(
            Json::Text(plain_text(title + seq!['\n'] + content)),
        ),
        telegram_payload(chat, title, content).member(name) is Some ==> name == "chat_id"@ || name
            == "text"@,
{
    reveal_strlit("https://api.telegram.org/bot");
    reveal_strlit("https://api.telegram.org");
    reveal_strlit("/bot");
    reveal_strlit("\n");
    assert("\n"@ =~= seq!['\n']);
    assert("https://api.telegram.org/bot"@ =~= "https://api.telegram.org"@ + "/bot"@);
    reveal_strlit("chat_id");
    reveal_strlit("text");
    assert("chat_id"@.len() == 7);
    assert("text"@.len() == 4);
}

/// Telegram took a message exactly if the status is a success and the answer does
/// not say that it is not ok.
pub proof fn law_telegram_took_what_it_did_not_decline(status: u16, answer: Option<Json>)
    ensures
        telegram_took(status, answer) <==> 200 <= status <= 299 && !answers(
            answer,
            "ok"@,
            Json::Bool(false),
        ),
{
}

/// A webhook request carries the message as it is and the time, and nothing else.
pub proof fn law_a_webhook_request_carries_the_message(
    title: Seq<char>,
    content: Seq<char>,
    when: Seq<char>,
    name: Seq<char>,
)
    ensures
        webhook_payload(title, content, when) is Object,
        webhook_payload(title, content, when).member("title"@) == Some(Json::Text(title)),
        webhook_payload(title, content, when).member("content"@) == Some(Json::Text(content)),
        webhook_payload(title, content, when).member("time"@) == Some(Json::Text(when)),
        webhook_payload(title, content, when).member(name) is Some ==> name == "title"@ || name
            == "content"@ || name == "time"@,
{
    reveal_strlit("title");
    reveal_strlit("content");
    reveal_strlit("time");
    assert("title"@.len() == 5);
    assert("content"@.len() == 7);
    assert("time"@.len() == 4);
}

/// A webhook's answer is no complaint exactly if it is a success. A redirect is
/// one in words of its own, and any other answer is quoted from its start, up to
/// three hundred characters.
pub proof fn law_a_webhook_answer_is_quoted(
    status: u16,
    status_text: Seq<char>,
    body: Seq<char>,
    rest: Seq<char>,
)
    ensures
        200 <= status <= 299 <==> webhook_complaint(status, status_text, body) is None,
        300 <= status <= 399 ==> webhook_complaint(status, status_text, body) == Some(
            "HTTP "@ + status_text
                + ": the URL redirects; enter the address it redirects to"@,
        ),
        (status < 200 || status >= 400) && body.len() <= 300 ==> webhook_complaint(
            status,
            status_text,
            body,
        ) == Some("HTTP "@ + status_text + ": "@ + body),
        (status < 200 || status >= 400) && body.len() == 300 ==> webhook_complaint(
            status,
            status_text,
            body + rest,
        ) == Some("HTTP "@ + status_text + ": "@ + body),
{
    if body.len() == 300 {
        assert((body + rest).take(300) =~= body);
        if rest.len() == 0 {
            assert(body + rest =~= body);
        }
    }
}

/// A quote is the start of a text, up to three hundred characters.
pub proof fn law_a_quote_is_the_start(s: Seq<char>, rest: Seq<char>)
    ensures
        s.len() <= 300 ==> first(s, HEAD as int) == s,
        s.len() == 300 ==> first(s + rest, HEAD as int) == s,
{
    law_a_beginning_is_as_long_as_it_may_be(s, rest, 300);
}

/// A status is a success from 200 to 299 and a redirect from 300 to 399.
pub proof fn law_a_status_is_told_by_its_hundred(status: u16)
    ensures
        success(status) <==> status / 100 == 2,
        redirection(status) <==> status / 100 == 3,
{
}

/// A string that may be missing says what it holds if it is there.
pub proof fn law_a_string_that_may_be_missing(s: Option<String>)
    ensures
        s is None <==> option_view(s) is None,
        s matches Some(t) ==> option_view(s) == Some(t@),
{
}

} // verus!

//! The Telegram channel: one message through the Bot API. The message is plain
//! text and no parse mode is set: under one, a node name that happens to contain
//! markup makes Telegram reject the message outright.

use vstd::prelude::*;

use crate::json::{
    lemma_object_transferable, optional, parsed_json, transferable, Json, JsonObject, JsonValue,
};
use crate::notice::{plain, plain_text};
use crate::settings::{stored_or_empty, Settings};
use crate::status::{is_success, success};

verus! {

/// The Bot API, with the token spliced into the path.
pub const TELEGRAM_API: &'static str = "https://api.telegram.org";

/// A Telegram request.
pub struct TelegramRequest {
    pub url: String,
    pub body: JsonValue,
}

/// Where a bot's messages are sent.
pub open spec fn telegram_url(token: Seq<char>) -> Seq<char> {
    TELEGRAM_API@ + "/bot"@ + token + "/sendMessage"@
}

/// The body of a Telegram request.
pub open spec fn telegram_payload(chat: Seq<char>, title: Seq<char>, content: Seq<char>) -> Json {
    Json::Object(
        map![
            "chat_id"@ => Json::Text(chat),
            "text"@ => Json::Text(plain_text(title + "\n"@ + content)),
        ],
    )
}

/// The Telegram request for a message.
pub fn telegram_request(settings: &Settings, title: &str, content: &str) -> (r: TelegramRequest)
    ensures
        r.url@ == telegram_url(stored_or_empty(settings@, "telegram_token"@)),
        r.body@ == telegram_payload(
            stored_or_empty(settings@, "telegram_chat"@),
            title@,
            content@,
        ),
        transferable(r.body@),
{
    let token = settings.get_or_empty("telegram_token");
    let chat = settings.get_or_empty("telegram_chat");
    let mut message: String = title.to_owned();
    message.append("\n");
    message.append(content);
    let text = plain(message.as_str());
    let mut url: String = TELEGRAM_API.to_owned();
    url.append("/bot");
    url.append(token.as_str());
    url.append("/sendMessage");
    let mut body = JsonObject::new();
    body.insert("chat_id", JsonValue::Text(chat));
    body.insert("text", JsonValue::Text(text));
    proof {
        lemma_object_transferable(body@);
    }
    TelegramRequest { url, body: JsonValue::Object(body) }
}

/// The Bot API took the message: by its status, and unless the JSON in its
/// answer says that it is not `ok`.
pub open spec fn telegram_took(status: u16, answer: Option<Json>) -> bool {
    success(status) && match answer {
        Some(v) => match v.member("ok"@) {
            Some(ok) => ok.bool_value() != Some(false),
            None => true,
        },
        None => true,
    }
}

/// Whether the Bot API took the message. It answers 200 with `ok: false` for a
/// request that it declined, so the status alone would report a delivery that
/// never happened.
pub fn telegram_verdict_on(status: u16, answer: Option<&JsonValue>) -> (r: bool)
    ensures
        r == telegram_took(status, optional(answer)),
{
    is_success(status) && match answer {
        Some(v) => match v.get("ok") {
            Some(ok) => match ok.as_bool() {
                Some(taken) => taken,
                None => true,
            },
            None => true,
        },
        None => true,
    }
}

/// Whether the Bot API took the message, by the status and the body of its
/// answer.
pub fn telegram_reply(status: u16, body: &str) -> (r: bool)
    ensures
        r == telegram_took(status, parsed_json(body@)),
{
    match JsonValue::parse(body) {
        Some(v) => telegram_verdict_on(status, Some(&v)),
        None => telegram_verdict_on(status, None),
    }
}

/// A request that the Bot API declined is no delivery, whatever the status.
pub proof fn law_declined_is_no_delivery(status: u16, answer: Json)
    requires
        answer.member("ok"@) == Some(Json::Bool(false)),
    ensures
        !telegram_took(status, Some(answer)),
{
}

/// A failing status is no delivery, whatever the answer.
pub proof fn law_failure_is_no_delivery(status: u16, answer: Option<Json>)
    requires
        !success(status),
    ensures
        !telegram_took(status, answer),
{
}

/// A message is sent as it is: no parse mode is set.
pub proof fn law_no_parse_mode(chat: Seq<char>, title: Seq<char>, content: Seq<char>)
    ensures
        telegram_payload(chat, title, content).member("parse_mode"@) is None,
{
    reveal_strlit("chat_id");
    reveal_strlit("text");
    reveal_strlit("parse_mode");
    assert("chat_id"@.len() == 7);
    assert("text"@.len() == 4);
    assert("parse_mode"@.len() == 10);
}

} // verus!

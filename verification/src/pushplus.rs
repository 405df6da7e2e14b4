//! The PushPlus channel: one POST per message.

use vstd::prelude::*;

use crate::json::{
    lemma_object_transferable, optional, parsed_json, transferable, Json, JsonObject, JsonValue,
};
use crate::settings::{stored_or_empty, Settings};
use crate::status::{is_success, success};

verus! {

/// The PushPlus send endpoint.
pub const PUSHPLUS_URL: &'static str = "https://www.pushplus.plus/send";

/// The code with which the service says that it received a message. It only
/// means that; any other code is a configuration or quota error.
pub const RECEIVED: i64 = 200;

/// The body of a PushPlus request.
pub open spec fn pushplus_payload(token: Seq<char>, title: Seq<char>, content: Seq<char>) -> Json {
    Json::Object(
        map![
            "token"@ => Json::Text(token),
            "title"@ => Json::Text(title),
            "content"@ => Json::Text(content),
            "template"@ => Json::Text("html"@),
        ],
    )
}

/// The body of the PushPlus request for a message.
pub fn pushplus_body(settings: &Settings, title: &str, content: &str) -> (r: JsonValue)
    ensures
        r@ == pushplus_payload(stored_or_empty(settings@, "pushplus_token"@), title@, content@),
        transferable(r@),
{
    let token = settings.get_or_empty("pushplus_token");
    let mut body = JsonObject::new();
    body.insert("token", JsonValue::Text(token));
    body.insert("title", JsonValue::text(title));
    body.insert("content", JsonValue::text(content));
    body.insert("template", JsonValue::text("html"));
    proof {
        lemma_object_transferable(body@);
    }
    JsonValue::Object(body)
}

/// What the service's answer says.
#[derive(Clone, Copy, Debug, PartialEq, Eq, Structural)]
pub enum PushplusVerdict {
    /// The message was received.
    Accepted,
    /// The message was refused, with this code if there was one.
    Refused(Option<i64>),
    /// The request as such failed.
    Failed,
}

/// What an answer says by its status and by the JSON in it, if it is JSON.
pub open spec fn pushplus_verdict(status: u16, answer: Option<Json>) -> PushplusVerdict {
    let code = match answer {
        Some(v) => match v.member("code"@) {
            Some(code) => code.int_value(),
            None => None,
        },
        None => None,
    };
    if !success(status) {
        PushplusVerdict::Failed
    } else if code == Some(RECEIVED) {
        PushplusVerdict::Accepted
    } else {
        PushplusVerdict::Refused(code)
    }
}

/// What an answer says by its status and by the JSON in it, if it is JSON.
pub fn pushplus_verdict_on(status: u16, answer: Option<&JsonValue>) -> (r: PushplusVerdict)
    ensures
        r == pushplus_verdict(status, optional(answer)),
{
    if !is_success(status) {
        return PushplusVerdict::Failed;
    }
    let code: Option<i64> = match answer {
        Some(v) => match v.get("code") {
            Some(code) => code.as_i64(),
            None => None,
        },
        None => None,
    };
    match code {
        Some(n) => if n == RECEIVED {
            PushplusVerdict::Accepted
        } else {
            PushplusVerdict::Refused(code)
        },
        None => PushplusVerdict::Refused(None),
    }
}

/// What an answer says by its status and its body.
pub fn pushplus_reply(status: u16, body: &str) -> (r: PushplusVerdict)
    ensures
        r == pushplus_verdict(status, parsed_json(body@)),
{
    match JsonValue::parse(body) {
        Some(v) => pushplus_verdict_on(status, Some(&v)),
        None => pushplus_verdict_on(status, None),
    }
}

/// A message counts as delivered only where the service says that it received
/// it: a status alone, an answer that is not JSON, or any other code does not
/// do.
pub proof fn law_only_the_code_is_delivery(status: u16, answer: Option<Json>)
    ensures
        pushplus_verdict(status, answer) is Accepted <==> {
            &&& success(status)
            &&& answer matches Some(v)
            &&& v.member("code"@) matches Some(code)
            &&& code.int_value() == Some(RECEIVED)
        },
{
}

} // verus!

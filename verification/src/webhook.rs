//! The webhook channel: one POST of a JSON object, with the headers that the
//! operator configured. Neither the URL nor a header value reaches an error
//! message: both are commonly the credential itself.

use vstd::prelude::*;

use crate::headers::{
    header_name_char, header_name_kept, header_name_valid, header_value_valid, header_views, headers_in,
    headers_spelled, parse_headers, Header, HeaderError, HeaderFault,
};
use crate::json::{lemma_object_transferable, transferable, Json, JsonObject, JsonValue};
use crate::notice::{head, time_written, timestamp, EARLIEST, HEAD, LATEST, TIME_FORMAT};
use crate::settings::{stored_or_empty, Settings};
use crate::status::{is_redirection, is_success, redirection, status_written, success, write_status};
use crate::text::{first, lines, option_view, trimmed};

verus! {

/// `reqwest::header::HeaderMap`, the headers of a request.
#[verifier::external_type_specification]
#[verifier::external_body]
#[verifier::reject_recursive_types(T)]
pub struct ExHeaderMap<T>(reqwest::header::HeaderMap<T>);

/// `reqwest::header::HeaderValue`, of which a header map is made.
#[verifier::external_type_specification]
#[verifier::external_body]
pub struct ExHeaderValue(reqwest::header::HeaderValue);

/// What a header map holds: under each name in small letters, the bytes of its
/// values.
pub uninterp spec fn headers_held(
    m: reqwest::header::HeaderMap<reqwest::header::HeaderValue>,
) -> Map<Seq<char>, Seq<Seq<u8>>>;

/// `reqwest::header::HeaderMap::new`: no headers.
#[verifier::external_body]
fn no_headers() -> (r: reqwest::header::HeaderMap<reqwest::header::HeaderValue>)
    ensures
        headers_held(r).dom().is_empty(),
{
    reqwest::header::HeaderMap::new()
}

/// How many names a header map has room for, whatever they are. From there on a
/// map may turn a header away.
pub const HEADER_ROOM: usize = 6554;

/// How many names a header map can have at most.
pub const HEADER_LIMIT: usize = 24576;

/// `reqwest::header::HeaderMap::try_insert`: puts the value in place of all that
/// the name had. It fails only where the map is full, and then leaves the map
/// as it was. With fewer than `HEADER_ROOM` names a map is never full, and with
/// `HEADER_LIMIT` it always is. What it is in between is left open: that goes by
/// how far the hashes of the names fall together, and what a derived `Hash`
/// feeds to a hasher is not the same on every machine.
#[verifier::external_body]
fn set_header(
    m: &mut reqwest::header::HeaderMap<reqwest::header::HeaderValue>,
    name: &str,
    value: &str,
) -> (r: bool)
    requires
        header_name_valid(name@),
        header_value_valid(value@),
    ensures
        r ==> headers_held(*final(m)) == headers_held(*old(m)).insert(
            header_name_kept(name@),
            seq![vstd::utf8::encode_utf8(value@)],
        ),
        !r ==> headers_held(*final(m)) == headers_held(*old(m)),
        headers_held(*old(m)).dom().len() < HEADER_ROOM ==> r,
        headers_held(*old(m)).dom().len() >= HEADER_LIMIT ==> !r,
{
    m.try_insert(
        reqwest::header::HeaderName::try_from(name).unwrap(),
        reqwest::header::HeaderValue::try_from(value).unwrap(),
    ).is_ok()
}

/// The headers `held`, with those of the list put in one after the other, each
/// in place of what its name had.
pub open spec fn headers_with(
    held: Map<Seq<char>, Seq<Seq<u8>>>,
    list: Seq<(Seq<char>, Seq<char>)>,
) -> Map<Seq<char>, Seq<Seq<u8>>>
    decreases list.len(),
{
    if list.len() == 0 {
        held
    } else {
        headers_with(held, list.drop_last()).insert(
            list.last().0,
            seq![vstd::utf8::encode_utf8(list.last().1)],
        )
    }
}

/// The headers of every webhook request, before the configured ones.
pub open spec fn default_headers() -> Map<Seq<char>, Seq<Seq<u8>>> {
    map!["content-type"@ => seq![vstd::utf8::encode_utf8("application/json"@)]]
}

/// How many names a request has when the last of the configured headers comes
/// to be put in.
pub open spec fn names_before_last(list: Seq<(Seq<char>, Seq<char>)>) -> nat {
    if list.len() == 0 {
        0
    } else {
        headers_with(default_headers(), list.drop_last()).dom().len()
    }
}

/// Why a webhook request cannot be made.
#[derive(Debug, PartialEq, Eq)]
pub enum WebhookError {
    /// A configured header is at fault.
    Header(HeaderError),
    /// There are more headers than a request can carry.
    TooManyHeaders,
}

/// A name that is kept stays as it is when it is kept again.
proof fn lemma_name_kept(name: Seq<char>)
    requires
        header_name_valid(name),
    ensures
        header_name_valid(header_name_kept(name)),
        header_name_kept(header_name_kept(name)) == header_name_kept(name),
{
    assert(header_name_kept(header_name_kept(name)) =~= header_name_kept(name));
    assert forall|i: int| 0 <= i < name.len() implies header_name_char(
        #[trigger] header_name_kept(name)[i],
    ) by {
        assert(header_name_char(name[i]));
    }
}

/// The header can be carried by a request, under a name that is kept as it is.
pub open spec fn carriable(header: (Seq<char>, Seq<char>)) -> bool {
    &&& header_name_valid(header.0)
    &&& header_value_valid(header.1)
    &&& header_name_kept(header.0) == header.0
}

/// What lines spell are headers that a request can carry.
pub proof fn lemma_headers_valid(ls: Seq<Seq<char>>, list: Seq<(Seq<char>, Seq<char>)>)
    requires
        headers_in(ls) == Ok::<_, HeaderFault>(list),
    ensures
        forall|i: int| 0 <= i < list.len() ==> carriable(#[trigger] list[i]),
    decreases ls.len(),
{
    if ls.len() > 0 {
        let line = trimmed(ls[0]);
        if line.len() == 0 {
            lemma_headers_valid(ls.skip(1), list);
        } else {
            let rest = headers_in(ls.skip(1))->Ok_0;
            lemma_headers_valid(ls.skip(1), rest);
            lemma_name_kept(trimmed(line.take(line.index_of_first(':')->0)));
            assert(carriable(list[0]));
            assert forall|i: int| 0 <= i < list.len() implies carriable(#[trigger] list[i]) by {
                if i > 0 {
                    assert(list[i] == rest[i - 1]);
                }
            }
        }
    }
}

/// Putting in a header leaves room for no more than one name less.
proof fn lemma_headers_grow(
    held: Map<Seq<char>, Seq<Seq<u8>>>,
    list: Seq<(Seq<char>, Seq<char>)>,
    n: int,
)
    requires
        0 <= n <= list.len(),
        held.dom().finite(),
    ensures
        headers_with(held, list).dom().finite(),
        headers_with(held, list.take(n)).dom().len() <= headers_with(held, list).dom().len(),
    decreases list.len(),
{
    if n == list.len() {
        assert(list.take(n) =~= list);
        if list.len() > 0 {
            lemma_headers_grow(held, list.drop_last(), n - 1);
        }
    } else {
        lemma_headers_grow(held, list.drop_last(), n);
        assert(list.drop_last().take(n) =~= list.take(n));
    }
}

/// The headers of a webhook request: the default ones and the configured ones.
/// They go into one map by replacing, not by appending: otherwise a configured
/// Content-Type would be sent alongside the default instead of in its place. A
/// request is made of fewer than `HEADER_ROOM` names, and not of more than
/// `HEADER_LIMIT`; in between, the map decides.
pub fn webhook_headers(configured: &str) -> (r: Result<
    reqwest::header::HeaderMap<reqwest::header::HeaderValue>,
    WebhookError,
>)
    ensures
        match (headers_spelled(configured@), r) {
            (Ok(list), Ok(headers)) => {
                &&& headers_held(headers) == headers_with(default_headers(), list)
                &&& names_before_last(list) < HEADER_LIMIT
            },
            (Ok(list), Err(error)) => {
                &&& error is TooManyHeaders
                &&& names_before_last(list) >= HEADER_ROOM
            },
            (Err(fault), Err(WebhookError::Header(error))) => error@ == fault,
            (Err(_), _) => false,
        },
{
    let list: Vec<Header> = match parse_headers(configured) {
        Ok(list) => list,
        Err(error) => {
            return Err(WebhookError::Header(error));
        },
    };
    let ghost spelled = header_views(list@);
    let mut headers = no_headers();
    proof {
        lemma_headers_valid(lines(configured@), spelled);
        reveal_strlit("content-type");
        reveal_strlit("application/json");
        assert("content-type"@.len() == 12);
        assert(header_name_kept("content-type"@) =~= "content-type"@);
    }
    set_header(&mut headers, "content-type", "application/json");
    assert(headers_held(headers) =~= default_headers());
    assert(spelled.take(0) =~= Seq::empty());
    let mut i: usize = 0;
    while i < list.len()
        invariant
            i <= list@.len(),
            spelled == header_views(list@),
            headers_spelled(configured@) == Ok::<_, HeaderFault>(spelled),
            forall|j: int| 0 <= j < spelled.len() ==> carriable(#[trigger] spelled[j]),
            headers_held(headers) == headers_with(default_headers(), spelled.take(i as int)),
            names_before_last(spelled.take(i as int)) < HEADER_LIMIT,
        decreases list@.len() - i,
    {
        assert(spelled[i as int] == list@[i as int]@);
        if !set_header(&mut headers, list[i].name.as_str(), list[i].value.as_str()) {
            proof {
                let earlier = spelled.drop_last();
                lemma_headers_grow(default_headers(), earlier, i as int);
                assert(earlier.take(i as int) =~= spelled.take(i as int));
            }
            return Err(WebhookError::TooManyHeaders);
        }
        i += 1;
        assert(spelled.take(i as int).drop_last() =~= spelled.take(i - 1));
    }
    assert(spelled.take(i as int) =~= spelled);
    Ok(headers)
}

/// The body of a webhook request: the message and the time.
pub open spec fn webhook_payload(
    title: Seq<char>,
    content: Seq<char>,
    when: Seq<char>,
) -> Json {
    Json::Object(
        map![
            "title"@ => Json::Text(title),
            "content"@ => Json::Text(content),
            "time"@ => Json::Text(when),
        ],
    )
}

/// The body of a webhook request at the moment that `when` writes.
pub fn webhook_body(title: &str, content: &str, when: &str) -> (r: JsonValue)
    ensures
        r@ == webhook_payload(title@, content@, when@),
        transferable(r@),
{
    let mut body = JsonObject::new();
    body.insert("title", JsonValue::text(title));
    body.insert("content", JsonValue::text(content));
    body.insert("time", JsonValue::text(when));
    proof {
        lemma_object_transferable(body@);
    }
    JsonValue::Object(body)
}

/// A webhook request.
pub struct WebhookRequest {
    pub url: String,
    pub headers: reqwest::header::HeaderMap<reqwest::header::HeaderValue>,
    pub body: JsonValue,
}

/// The webhook request with these headers for a message at the moment that `when`
/// writes.
pub fn webhook_request_with(
    settings: &Settings,
    title: &str,
    content: &str,
    when: &str,
    headers: reqwest::header::HeaderMap<reqwest::header::HeaderValue>,
) -> (r: WebhookRequest)
    ensures
        r.url@ == stored_or_empty(settings@, "webhook_url"@),
        r.headers == headers,
        r.body@ == webhook_payload(title@, content@, when@),
        transferable(r.body@),
{
    let url = settings.get_or_empty("webhook_url");
    let body = webhook_body(title, content, when);
    WebhookRequest { url, headers, body }
}

/// The webhook request for a message at the moment `now`.
pub fn webhook_request(settings: &Settings, title: &str, content: &str, now: i64) -> (r: Result<
    WebhookRequest,
    WebhookError,
>)
    requires
        EARLIEST <= now <= LATEST,
    ensures
        match (headers_spelled(stored_or_empty(settings@, "webhook_headers"@)), r) {
            (Ok(list), Ok(request)) => {
                &&& request.url@ == stored_or_empty(settings@, "webhook_url"@)
                &&& headers_held(request.headers) == headers_with(default_headers(), list)
                &&& names_before_last(list) < HEADER_LIMIT
                &&& request.body@ == webhook_payload(
                    title@,
                    content@,
                    time_written(now, TIME_FORMAT@),
                )
                &&& transferable(request.body@)
            },
            (Ok(list), Err(error)) => {
                &&& error is TooManyHeaders
                &&& names_before_last(list) >= HEADER_ROOM
            },
            (Err(fault), Err(WebhookError::Header(error))) => error@ == fault,
            (Err(_), _) => false,
        },
{
    let configured = settings.get_or_empty("webhook_headers");
    match webhook_headers(configured.as_str()) {
        Ok(headers) => {
            let when = timestamp(now);
            Ok(webhook_request_with(settings, title, content, when.as_str(), headers))
        },
        Err(error) => Err(error),
    }
}

/// What a webhook's answer is worth: nothing is said of a success, and a
/// redirect is none. The answer's own text is quoted only where it is a failure.
pub open spec fn webhook_complaint(
    status: u16,
    status_text: Seq<char>,
    body: Seq<char>,
) -> Option<Seq<char>> {
    if success(status) {
        None
    } else if redirection(status) {
        Some(
            "HTTP "@ + status_text + ": the URL redirects; enter the address it redirects to"@,
        )
    } else {
        Some("HTTP "@ + status_text + ": "@ + first(body, HEAD as int))
    }
}

/// Why a webhook's answer, whose status reads `status_text`, is no delivery.
pub fn webhook_complaint_about(status: u16, status_text: &str, body: &str) -> (r: Option<String>)
    ensures
        option_view(r) == webhook_complaint(status, status_text@, body@),
{
    if is_success(status) {
        return None;
    }
    let mut message: String = "HTTP ".to_owned();
    message.append(status_text);
    if is_redirection(status) {
        message.append(": the URL redirects; enter the address it redirects to");
    } else {
        message.append(": ");
        message.append(head(body).as_str());
    }
    Some(message)
}

/// Why a webhook's answer is no delivery, if it is none.
pub fn webhook_reply(status: u16, body: &str) -> (r: Option<String>)
    requires
        100 <= status <= 999,
    ensures
        option_view(r) == webhook_complaint(status, status_written(status), body@),
{
    let status_text = write_status(status);
    webhook_complaint_about(status, status_text.as_str(), body)
}

/// No header is ever sent twice: every name has exactly one value, and there is
/// always a Content-Type.
pub proof fn law_one_value_per_name(list: Seq<(Seq<char>, Seq<char>)>)
    ensures
        headers_with(default_headers(), list).dom().contains("content-type"@),
        forall|name: Seq<char>| #[trigger]
            headers_with(default_headers(), list).dom().contains(name) ==> headers_with(
                default_headers(),
                list,
            )[name].len() == 1,
    decreases list.len(),
{
    if list.len() > 0 {
        law_one_value_per_name(list.drop_last());
    }
}

/// A configured header is sent with its own value, in place of a default one of
/// that name; of two configured ones with one name, the later.
pub proof fn law_configured_replaces(list: Seq<(Seq<char>, Seq<char>)>, at: int)
    requires
        0 <= at < list.len(),
        forall|j: int| at < j < list.len() ==> (#[trigger] list[j]).0 != list[at].0,
    ensures
        headers_with(default_headers(), list).dom().contains(list[at].0),
        headers_with(default_headers(), list)[list[at].0] == seq![
            vstd::utf8::encode_utf8(list[at].1),
        ],
    decreases list.len(),
{
    if at < list.len() - 1 {
        assert(list[list.len() - 1].0 != list[at].0);
        law_configured_replaces(list.drop_last(), at);
    }
}

/// A default header that is not configured is sent as it is.
pub proof fn law_default_stays(list: Seq<(Seq<char>, Seq<char>)>)
    requires
        forall|i: int| 0 <= i < list.len() ==> (#[trigger] list[i]).0 != "content-type"@,
    ensures
        headers_with(default_headers(), list)["content-type"@] == seq![
            vstd::utf8::encode_utf8("application/json"@),
        ],
    decreases list.len(),
{
    if list.len() > 0 {
        assert(list[list.len() - 1].0 != "content-type"@);
        law_default_stays(list.drop_last());
    }
}

/// Only an answer that says so is a delivery; a redirect in particular is not,
/// though the far end of it might take the request.
pub proof fn law_only_success_is_delivery(status: u16, status_text: Seq<char>, body: Seq<char>)
    ensures
        webhook_complaint(status, status_text, body) is None <==> success(status),
        redirection(status) ==> webhook_complaint(status, status_text, body) is Some,
{
}

} // verus!

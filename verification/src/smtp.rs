//! The SMTP channel: what a message is sent with.

use vstd::prelude::*;

use crate::settings::{stored, stored_or_empty, Settings};
use crate::text::{all_digits, chars_of, digit, is_all_digits, part, same};

verus! {

/// `lettre::message::Mailbox`, a sender or a recipient.
#[verifier::external_type_specification]
#[verifier::external_body]
pub struct ExMailbox(lettre::message::Mailbox);

/// `lettre::address::AddressError`, what is wrong with one.
#[verifier::external_type_specification]
#[verifier::external_body]
pub struct ExAddressError(lettre::address::AddressError);

/// The mailbox that `lettre` reads from a text, or what it finds wrong with it.
pub uninterp spec fn mailbox_spelled(text: Seq<char>) -> Result<
    lettre::message::Mailbox,
    lettre::address::AddressError,
>;

/// `str::parse` into a `lettre::message::Mailbox`: what comes out is a function
/// of the text alone.
#[verifier::external_body]
fn parse_mailbox(text: &str) -> (r: Result<
    lettre::message::Mailbox,
    lettre::address::AddressError,
>)
    ensures
        r == mailbox_spelled(text@),
{
    text.parse::<lettre::message::Mailbox>()
}

/// How a connection to the mail server is secured.
#[derive(Clone, Copy, Debug, PartialEq, Eq, Structural)]
pub enum Security {
    /// TLS from the first byte.
    Tls,
    /// TLS after a start in the clear.
    StartTls,
    /// None.
    Plain,
}

/// The security that a setting stands for: anything but the two other words is
/// the upgrade of a connection.
pub open spec fn security_named(setting: Seq<char>) -> Security {
    if setting == "tls"@ {
        Security::Tls
    } else if setting == "none"@ {
        Security::Plain
    } else {
        Security::StartTls
    }
}

/// The number that decimal digits spell.
pub open spec fn number_spelled(digits: Seq<char>) -> int
    decreases digits.len(),
{
    if digits.len() == 0 {
        0
    } else {
        10 * number_spelled(digits.drop_last()) + (digits.last() as int - '0' as int)
    }
}

/// What follows the plus sign that may stand in front of a number.
pub open spec fn unsigned_part(text: Seq<char>) -> Seq<char> {
    if text.len() > 0 && text[0] == '+' {
        text.skip(1)
    } else {
        text
    }
}

/// The port that a text spells: decimal digits, a plus sign in front of them
/// if there is one, and a number that is a port.
pub open spec fn port_spelled(text: Seq<char>) -> Option<u16> {
    let digits = unsigned_part(text);
    if all_digits(digits) && number_spelled(digits) <= 0xffff {
        Some(number_spelled(digits) as u16)
    } else {
        None
    }
}

/// More digits make no smaller number.
proof fn lemma_number_grows(digits: Seq<char>, n: int)
    requires
        0 <= n <= digits.len(),
        forall|i: int| 0 <= i < digits.len() ==> digit(#[trigger] digits[i]),
    ensures
        0 <= number_spelled(digits.take(n)) <= number_spelled(digits),
    decreases digits.len(),
{
    if digits.len() > 0 {
        let shorter = digits.drop_last();
        assert(digit(digits[digits.len() - 1]));
        assert forall|i: int| 0 <= i < shorter.len() implies digit(#[trigger] shorter[i]) by {
            assert(digit(digits[i]));
        }
        if n < digits.len() {
            lemma_number_grows(shorter, n);
            assert(shorter.take(n) =~= digits.take(n));
        } else {
            lemma_number_grows(shorter, shorter.len() as int);
            assert(shorter.take(shorter.len() as int) =~= shorter);
            assert(digits.take(n) =~= digits);
        }
    } else {
        assert(digits.take(n) =~= digits);
    }
}

/// Reads a port.
pub fn parse_port(text: &str) -> (r: Option<u16>)
    ensures
        r == port_spelled(text@),
{
    let chars = chars_of(text);
    let n: usize = chars.len();
    let from: usize = if n > 0 && chars[0] == '+' {
        1
    } else {
        0
    };
    let digits = part(chars.as_slice(), from, n);
    assert(digits@ =~= unsigned_part(text@));
    if !is_all_digits(digits.as_slice()) {
        return None;
    }
    let mut number: u32 = 0;
    let mut i: usize = 0;
    assert(digits@.take(0) =~= Seq::<char>::empty());
    while i < digits.len()
        invariant
            digits@ == unsigned_part(text@),
            all_digits(digits@),
            i <= digits@.len(),
            number == number_spelled(digits@.take(i as int)),
            number <= 0xffff,
        decreases digits@.len() - i,
    {
        assert(digit(digits@[i as int]));
        number = 10 * number + (digits[i] as u32 - 48);
        i += 1;
        assert(digits@.take(i as int).drop_last() =~= digits@.take(i - 1));
        if number > 0xffff {
            proof {
                lemma_number_grows(digits@, i as int);
            }
            return None;
        }
    }
    assert(digits@.take(i as int) =~= digits@);
    Some(number as u16)
}

/// The port to connect to: the configured one, or the usual one for the
/// security.
pub open spec fn port_chosen(settings: Map<Seq<char>, Seq<char>>) -> u16 {
    let configured = match stored(settings, "smtp_port"@) {
        Some(port) => port_spelled(port),
        None => None,
    };
    match configured {
        Some(port) => port,
        None => if stored(settings, "smtp_security"@) == Some("tls"@) {
            465
        } else {
            587
        },
    }
}

/// The account to log in with: only where both parts are stored and the name is
/// not empty.
pub open spec fn credentials_chosen(settings: Map<Seq<char>, Seq<char>>) -> Option<
    (Seq<char>, Seq<char>),
> {
    match (stored(settings, "smtp_username"@), stored(settings, "smtp_password"@)) {
        (Some(user), Some(password)) => if user.len() > 0 {
            Some((user, password))
        } else {
            None
        },
        _ => None,
    }
}

/// An account on the mail server.
pub struct Account {
    pub user: String,
    pub password: String,
}

/// The content type of a message.
pub const MESSAGE_TYPE: &'static str = "text/html; charset=utf-8";

/// Everything that a message is sent with.
pub struct SmtpPlan {
    pub host: String,
    pub port: u16,
    pub security: Security,
    pub account: Option<Account>,
    pub from: lettre::message::Mailbox,
    pub to: lettre::message::Mailbox,
    pub subject: String,
    pub content_type: String,
    pub html: String,
}

/// Why a message cannot be sent.
pub enum SmtpError {
    /// The sender is no mailbox.
    Sender(lettre::address::AddressError),
    /// The recipient is no mailbox.
    Recipient(lettre::address::AddressError),
}

impl SmtpPlan {
    /// The plan sends the message as the settings say, apart from the two
    /// mailboxes.
    pub open spec fn follows(
        self,
        settings: Map<Seq<char>, Seq<char>>,
        title: Seq<char>,
        content: Seq<char>,
    ) -> bool {
        &&& self.host@ == stored_or_empty(settings, "smtp_host"@)
        &&& self.port == port_chosen(settings)
        &&& self.security == security_named(stored_or_empty(settings, "smtp_security"@))
        &&& match self.account {
            Some(account) => credentials_chosen(settings) == Some(
                (account.user@, account.password@),
            ),
            None => credentials_chosen(settings) is None,
        }
        &&& self.subject@ == title
        &&& self.content_type@ == MESSAGE_TYPE@
        &&& self.html@ == content
    }
}

/// What a message between the two mailboxes is sent with.
pub fn smtp_plan_between(
    settings: &Settings,
    title: &str,
    content: &str,
    from: lettre::message::Mailbox,
    to: lettre::message::Mailbox,
) -> (r: SmtpPlan)
    ensures
        r.follows(settings@, title@, content@),
        r.from == from,
        r.to == to,
{
    let host = settings.get_or_empty("smtp_host");
    let setting = settings.get_or_empty("smtp_security");
    let security: Security = if same(setting.as_str(), "tls") {
        Security::Tls
    } else if same(setting.as_str(), "none") {
        Security::Plain
    } else {
        Security::StartTls
    };
    let configured: Option<u16> = match settings.get("smtp_port") {
        Some(port) => parse_port(port),
        None => None,
    };
    let tls: bool = match settings.get("smtp_security") {
        Some(setting) => same(setting, "tls"),
        None => false,
    };
    let port: u16 = match configured {
        Some(port) => port,
        None => if tls {
            465
        } else {
            587
        },
    };
    let account: Option<Account> = match (
        settings.get("smtp_username"),
        settings.get("smtp_password"),
    ) {
        (Some(user), Some(password)) => if !user.is_empty() {
            Some(Account { user: user.to_owned(), password: password.to_owned() })
        } else {
            None
        },
        _ => None,
    };
    SmtpPlan {
        host,
        port,
        security,
        account,
        from,
        to,
        subject: title.to_owned(),
        content_type: MESSAGE_TYPE.to_owned(),
        html: content.to_owned(),
    }
}

/// What a message is sent with. The sender is looked at before the recipient.
pub fn smtp_plan(settings: &Settings, title: &str, content: &str) -> (r: Result<
    SmtpPlan,
    SmtpError,
>)
    ensures
        match (
            mailbox_spelled(stored_or_empty(settings@, "smtp_from"@)),
            mailbox_spelled(stored_or_empty(settings@, "smtp_to"@)),
            r,
        ) {
            (Ok(from), Ok(to), Ok(plan)) => {
                &&& plan.follows(settings@, title@, content@)
                &&& plan.from == from
                &&& plan.to == to
            },
            (Err(e), _, Err(SmtpError::Sender(error))) => error == e,
            (Ok(_), Err(e), Err(SmtpError::Recipient(error))) => error == e,
            _ => false,
        },
{
    let from = match parse_mailbox(settings.get_or_empty("smtp_from").as_str()) {
        Ok(from) => from,
        Err(error) => {
            return Err(SmtpError::Sender(error));
        },
    };
    let to = match parse_mailbox(settings.get_or_empty("smtp_to").as_str()) {
        Ok(to) => to,
        Err(error) => {
            return Err(SmtpError::Recipient(error));
        },
    };
    Ok(smtp_plan_between(settings, title, content, from, to))
}

} // verus!

//! Laws of what a message is mailed with.

use vstd::prelude::*;

use crate::smtp::{number_spelled, port_spelled, unsigned_part, Security, SmtpPlan};
use crate::text::{all_digits, digit};

verus! {

/// Whatever the other settings hold, a message is mailed with the account whose
/// name and password are stored, if the name is not empty; and otherwise with
/// none.
pub proof fn law_a_stored_account_is_used(
    plan: SmtpPlan,
    settings: Map<Seq<char>, Seq<char>>,
    title: Seq<char>,
    content: Seq<char>,
)
    requires
        plan.follows(settings, title, content),
    ensures
        settings.dom().contains("smtp_username"@) && settings["smtp_username"@].len() > 0
            && settings.dom().contains("smtp_password"@) ==> {
            &&& plan.account matches Some(account)
            &&& account.user@ == settings["smtp_username"@]
            &&& account.password@ == settings["smtp_password"@]
        },
        !settings.dom().contains("smtp_username"@) || settings["smtp_username"@].len() == 0
            || !settings.dom().contains("smtp_password"@) ==> plan.account is None,
{
}

/// Whatever the other settings hold, a message is mailed through the stored host,
/// as HTML, and with its title and its content as they are.
pub proof fn law_a_message_is_mailed_as_it_is(
    plan: SmtpPlan,
    settings: Map<Seq<char>, Seq<char>>,
    title: Seq<char>,
    content: Seq<char>,
)
    requires
        plan.follows(settings, title, content),
    ensures
        settings.dom().contains("smtp_host"@) ==> plan.host@ == settings["smtp_host"@],
        !settings.dom().contains("smtp_host"@) ==> plan.host@.len() == 0,
        plan.subject@ == title,
        plan.html@ == content,
        plan.content_type@ == "text/html; charset=utf-8"@,
{
}

/// The security is told by its word: `tls`, `none`, and the upgrade of a
/// connection for anything else or nothing.
pub proof fn law_the_security_is_told_by_its_word(
    plan: SmtpPlan,
    settings: Map<Seq<char>, Seq<char>>,
    title: Seq<char>,
    content: Seq<char>,
)
    requires
        plan.follows(settings, title, content),
    ensures
        plan.security == Security::Tls <==> settings.dom().contains("smtp_security"@)
            && settings["smtp_security"@] == "tls"@,
        plan.security == Security::Plain <==> settings.dom().contains("smtp_security"@)
            && settings["smtp_security"@] == "none"@,
{
    reveal_strlit("tls");
    reveal_strlit("none");
    assert("tls"@.len() == 3);
    assert("none"@.len() == 4);
}

/// A port that is stored and can be read is used whatever the security is; and
/// otherwise the usual one, 465 for TLS and 587 for anything else.
pub proof fn law_a_stored_port_is_used(
    plan: SmtpPlan,
    settings: Map<Seq<char>, Seq<char>>,
    title: Seq<char>,
    content: Seq<char>,
)
    requires
        plan.follows(settings, title, content),
    ensures
        settings.dom().contains("smtp_port"@) ==> (port_spelled(settings["smtp_port"@]) matches Some(
            port,
        ) ==> plan.port == port),
        (!settings.dom().contains("smtp_port"@) || port_spelled(settings["smtp_port"@]) is None)
            ==> plan.port == if plan.security == Security::Tls {
            465u16
        } else {
            587u16
        },
{
    law_the_security_is_told_by_its_word(plan, settings, title, content);
}

/// `s` is one or more characters of `0` to `9`.
pub open spec fn decimal(s: Seq<char>) -> bool {
    s.len() > 0 && forall|i: int| 0 <= i < s.len() ==> '0' <= #[trigger] s[i] <= '9'
}

/// A decimal text spells a number of its digits, which is not negative.
proof fn lemma_decimal(s: Seq<char>)
    ensures
        decimal(s) <==> all_digits(s),
        decimal(s) ==> number_spelled(s) >= 0,
    decreases s.len(),
{
    if decimal(s) {
        assert forall|i: int| 0 <= i < s.len() implies digit(#[trigger] s[i]) by {
            assert('0' <= s[i] <= '9');
        }
        let shorter = s.drop_last();
        assert('0' <= s[s.len() - 1] <= '9');
        if shorter.len() > 0 {
            assert forall|i: int| 0 <= i < shorter.len() implies '0' <= #[trigger] shorter[i]
                <= '9' by {
                assert('0' <= s[i] <= '9');
            }
            lemma_decimal(shorter);
        } else {
            assert(number_spelled(shorter) == 0);
        }
    }
    if all_digits(s) {
        assert forall|i: int| 0 <= i < s.len() implies '0' <= #[trigger] s[i] <= '9' by {
            assert(digit(s[i]));
        }
    }
}

/// A port is read digit by digit: one digit is its own value, and one more digit
/// makes it ten times as much and the digit, as long as that is a port.
pub proof fn law_a_port_is_read_digit_by_digit(s: Seq<char>, c: char, p: u16)
    requires
        '0' <= c <= '9',
    ensures
        port_spelled(seq![c]) == Some((c as u32 - '0' as u32) as u16),
        decimal(s) && port_spelled(s) == Some(p) && 10 * p + (c as u32 - '0' as u32) <= 65535
            ==> port_spelled(s.push(c)) == Some((10 * p + (c as u32 - '0' as u32)) as u16),
        decimal(s) && port_spelled(s) == Some(p) && 10 * p + (c as u32 - '0' as u32) > 65535
            ==> port_spelled(s.push(c)) is None,
        decimal(s) && port_spelled(s) is None ==> port_spelled(s.push(c)) is None,
{
    reveal_with_fuel(number_spelled, 2);
    let one = seq![c];
    assert(one.drop_last() =~= Seq::<char>::empty());
    assert(one[0] == c);
    lemma_decimal(one);
    assert(decimal(one));
    assert(unsigned_part(one) == one);
    if decimal(s) {
        let t = s.push(c);
        assert(t.drop_last() =~= s);
        assert('0' <= s[0] <= '9');
        assert(t[0] == s[0]);
        assert(decimal(t)) by {
            assert forall|i: int| 0 <= i < t.len() implies '0' <= #[trigger] t[i] <= '9' by {
                if i < s.len() {
                    assert('0' <= s[i] <= '9');
                }
            }
        }
        lemma_decimal(s);
        lemma_decimal(t);
        assert(unsigned_part(s) == s);
        assert(unsigned_part(t) == t);
    }
}

/// A plus sign in front of a decimal text makes no difference, and nothing else
/// is a port.
pub proof fn law_only_decimals_are_ports(s: Seq<char>)
    ensures
        decimal(s) ==> port_spelled(seq!['+'] + s) == port_spelled(s),
        port_spelled(s) is Some ==> decimal(s) || (s.len() > 0 && s[0] == '+' && decimal(s.skip(1))),
{
    lemma_decimal(s);
    lemma_decimal(s.skip(1));
    assert((seq!['+'] + s).skip(1) =~= s);
    if decimal(s) {
        assert('0' <= s[0] <= '9');
        assert(unsigned_part(s) == s);
    }
}

} // verus!

//! One notification on its way through the configured channels.
//!
//! Every channel has its own switch under the master one, and each is invoked
//! only when its minimum configuration is present. A channel that fails never
//! suppresses another.

use vstd::prelude::*;

use crate::settings::{filled, switched_on, Settings};

verus! {

/// A way out of the hub.
#[derive(Clone, Copy, Debug, PartialEq, Eq, Structural)]
pub enum Channel {
    Pushplus,
    Smtp,
    Telegram,
    Webhook,
}

/// The channels in the order in which they are tried.
pub open spec fn channel_at(i: int) -> Channel {
    if i == 0 {
        Channel::Pushplus
    } else if i == 1 {
        Channel::Smtp
    } else if i == 2 {
        Channel::Telegram
    } else {
        Channel::Webhook
    }
}

/// How many channels there are.
pub const CHANNELS: usize = 4;

/// The channel's own switch is on and its minimum configuration is present.
pub open spec fn ready(settings: Map<Seq<char>, Seq<char>>, channel: Channel) -> bool {
    match channel {
        Channel::Pushplus => switched_on(settings, "pushplus_enabled"@) && filled(
            settings,
            "pushplus_token"@,
        ),
        Channel::Smtp => {
            &&& switched_on(settings, "smtp_enabled"@)
            &&& filled(settings, "smtp_host"@)
            &&& filled(settings, "smtp_from"@)
            &&& filled(settings, "smtp_to"@)
        },
        Channel::Telegram => {
            &&& switched_on(settings, "telegram_enabled"@)
            &&& filled(settings, "telegram_token"@)
            &&& filled(settings, "telegram_chat"@)
        },
        Channel::Webhook => switched_on(settings, "webhook_enabled"@) && filled(
            settings,
            "webhook_url"@,
        ),
    }
}

/// Whether the channel's own switch is on and its minimum configuration is
/// present.
pub fn is_ready(settings: &Settings, channel: Channel) -> (r: bool)
    ensures
        r == ready(settings@, channel),
{
    match channel {
        Channel::Pushplus => settings.is_on("pushplus_enabled") && settings.has("pushplus_token"),
        Channel::Smtp => settings.is_on("smtp_enabled") && settings.has("smtp_host") && settings.has(
            "smtp_from",
        ) && settings.has("smtp_to"),
        Channel::Telegram => settings.is_on("telegram_enabled") && settings.has("telegram_token")
            && settings.has("telegram_chat"),
        Channel::Webhook => settings.is_on("webhook_enabled") && settings.has("webhook_url"),
    }
}

/// What became of a notification.
#[derive(Clone, Copy, Debug, PartialEq, Eq, Structural)]
pub enum Outcome {
    /// No enabled channel is configured.
    Skipped,
    /// No channel that was invoked worked.
    Undelivered,
    /// At least one channel delivered it.
    Delivered,
}

/// What to do next for a notification.
#[derive(Clone, Copy, Debug, PartialEq, Eq, Structural)]
pub enum Step {
    /// Send it through this channel, then `record` whether that worked.
    Attempt(Channel),
    /// There is no further channel.
    Finished(Outcome),
}

/// A notification on its way: how many channels have been considered, and how
/// it went so far.
#[derive(Clone, Copy, Debug, PartialEq, Eq, Structural)]
pub struct Delivery {
    pub considered: usize,
    pub attempted: bool,
    pub delivered: bool,
}

/// The first ready channel from the position `from` on, or `CHANNELS`.
pub open spec fn next_ready(settings: Map<Seq<char>, Seq<char>>, from: int) -> int
    decreases CHANNELS - from,
{
    if from >= CHANNELS {
        CHANNELS as int
    } else if ready(settings, channel_at(from)) {
        from
    } else {
        next_ready(settings, from + 1)
    }
}

impl Delivery {
    /// At most all the channels have been considered, and only what was
    /// attempted was delivered.
    pub open spec fn wf(self) -> bool {
        self.considered <= CHANNELS && (self.delivered ==> self.attempted)
    }

    /// What became of a notification that has been through all channels.
    pub open spec fn outcome(self) -> Outcome {
        if !self.attempted {
            Outcome::Skipped
        } else if !self.delivered {
            Outcome::Undelivered
        } else {
            Outcome::Delivered
        }
    }

    /// The notification before any channel has been considered.
    pub open spec fn fresh() -> Delivery {
        Delivery { considered: 0, attempted: false, delivered: false }
    }

    /// What to do next under the given settings.
    pub open spec fn step(self, settings: Map<Seq<char>, Seq<char>>) -> Step {
        let i = next_ready(settings, self.considered as int);
        if i < CHANNELS {
            Step::Attempt(channel_at(i))
        } else {
            Step::Finished(self.outcome())
        }
    }

    /// The notification after the decision what to do next.
    pub open spec fn stepped(self, settings: Map<Seq<char>, Seq<char>>) -> Delivery {
        let i = next_ready(settings, self.considered as int);
        if i < CHANNELS {
            Delivery { considered: (i + 1) as usize, attempted: true, delivered: self.delivered }
        } else {
            Delivery {
                considered: CHANNELS,
                attempted: self.attempted,
                delivered: self.delivered,
            }
        }
    }

    /// The notification after an attempt that worked, or did not.
    pub open spec fn recorded(self, worked: bool) -> Delivery {
        Delivery {
            considered: self.considered,
            attempted: self.attempted,
            delivered: self.delivered || worked,
        }
    }

    /// Begins to send a notification, unless the master switch is off.
    pub fn start(settings: &Settings) -> (r: Option<Delivery>)
        ensures
            r == if switched_on(settings@, "notify_enabled"@) {
                Some(Delivery::fresh())
            } else {
                None
            },
    {
        if settings.is_on("notify_enabled") {
            Some(Delivery { considered: 0, attempted: false, delivered: false })
        } else {
            None
        }
    }

    /// Decides what to do next: the channels are considered in order, and one
    /// that is ready is invoked however the others fared.
    pub fn next(&mut self, settings: &Settings) -> (r: Step)
        requires
            old(self).wf(),
        ensures
            r == old(self).step(settings@),
            *final(self) == old(self).stepped(settings@),
            final(self).wf(),
    {
        while self.considered < CHANNELS
            invariant
                self.wf(),
                self.attempted == old(self).attempted,
                self.delivered == old(self).delivered,
                next_ready(settings@, old(self).considered as int) == next_ready(
                    settings@,
                    self.considered as int,
                ),
            decreases CHANNELS - self.considered,
        {
            let channel: Channel = match self.considered {
                0 => Channel::Pushplus,
                1 => Channel::Smtp,
                2 => Channel::Telegram,
                _ => Channel::Webhook,
            };
            self.considered = self.considered + 1;
            if is_ready(settings, channel) {
                self.attempted = true;
                return Step::Attempt(channel);
            }
        }
        if !self.attempted {
            Step::Finished(Outcome::Skipped)
        } else if !self.delivered {
            Step::Finished(Outcome::Undelivered)
        } else {
            Step::Finished(Outcome::Delivered)
        }
    }

    /// Records whether the attempt that `next` asked for worked.
    pub fn record(&mut self, worked: bool)
        requires
            old(self).wf(),
            old(self).attempted,
        ensures
            *final(self) == old(self).recorded(worked),
            final(self).wf(),
    {
        if worked {
            self.delivered = true;
        }
    }
}

/// The ready channels from the position `from` on, in order.
pub open spec fn ready_from(settings: Map<Seq<char>, Seq<char>>, from: int) -> Seq<Channel>
    decreases CHANNELS - from,
{
    if from >= CHANNELS {
        Seq::empty()
    } else if ready(settings, channel_at(from)) {
        seq![channel_at(from)] + ready_from(settings, from + 1)
    } else {
        ready_from(settings, from + 1)
    }
}

/// All channels, in the order in which they are tried.
pub open spec fn all_channels() -> Seq<Channel> {
    seq![Channel::Pushplus, Channel::Smtp, Channel::Telegram, Channel::Webhook]
}

/// The search for a ready channel goes forward.
pub proof fn lemma_next_ready(settings: Map<Seq<char>, Seq<char>>, from: int)
    requires
        0 <= from <= CHANNELS,
    ensures
        from <= next_ready(settings, from) <= CHANNELS,
        next_ready(settings, from) < CHANNELS ==> {
            &&& ready(settings, channel_at(next_ready(settings, from)))
            &&& ready_from(settings, from) == seq![channel_at(next_ready(settings, from))]
                + ready_from(settings, next_ready(settings, from) + 1)
        },
        next_ready(settings, from) == CHANNELS ==> ready_from(settings, from) == Seq::<
            Channel,
        >::empty(),
    decreases CHANNELS - from,
{
    if from < CHANNELS && !ready(settings, channel_at(from)) {
        lemma_next_ready(settings, from + 1);
    }
}

/// A notification sent on from `d`, with every attempt made that is asked for:
/// the channels that are invoked, and what becomes of the notification.
/// `worked` says of each channel whether it works.
pub open spec fn sent(
    d: Delivery,
    settings: Map<Seq<char>, Seq<char>>,
    worked: spec_fn(Channel) -> bool,
) -> (Seq<Channel>, Outcome)
    decreases CHANNELS - d.considered,
{
    proof {
        if d.considered <= CHANNELS {
            lemma_next_ready(settings, d.considered as int);
        }
    }
    match d.step(settings) {
        Step::Attempt(channel) => if d.considered <= CHANNELS {
            let (invoked, outcome) = sent(
                d.stepped(settings).recorded(worked(channel)),
                settings,
                worked,
            );
            (seq![channel] + invoked, outcome)
        } else {
            (Seq::empty(), d.outcome())
        },
        Step::Finished(outcome) => (Seq::empty(), outcome),
    }
}

/// From any point on, exactly the channels that are still ready are invoked.
proof fn lemma_sent(
    d: Delivery,
    settings: Map<Seq<char>, Seq<char>>,
    worked: spec_fn(Channel) -> bool,
)
    requires
        d.wf(),
    ensures
        ({
            let invoked = ready_from(settings, d.considered as int);
            let any = exists|i: int| 0 <= i < invoked.len() && worked(#[trigger] invoked[i]);
            let end = Delivery {
                considered: CHANNELS,
                attempted: d.attempted || invoked.len() > 0,
                delivered: d.delivered || any,
            };
            sent(d, settings, worked) == (invoked, end.outcome())
        }),
    decreases CHANNELS - d.considered,
{
    let invoked = ready_from(settings, d.considered as int);
    let at = next_ready(settings, d.considered as int);
    lemma_next_ready(settings, d.considered as int);
    if at < CHANNELS {
        let channel = channel_at(at);
        let after = d.stepped(settings).recorded(worked(channel));
        lemma_sent(after, settings, worked);
        let rest = ready_from(settings, at + 1);
        assert(invoked[0] == channel);
        assert forall|i: int| 0 <= i < rest.len() implies invoked[i + 1] == #[trigger] rest[i] by {}
        if exists|i: int| 0 <= i < rest.len() && worked(#[trigger] rest[i]) {
            let i = choose|i: int| 0 <= i < rest.len() && worked(#[trigger] rest[i]);
            assert(worked(invoked[i + 1]));
        }
        if exists|i: int| 0 <= i < invoked.len() && worked(#[trigger] invoked[i]) {
            let i = choose|i: int| 0 <= i < invoked.len() && worked(#[trigger] invoked[i]);
            if i > 0 {
                assert(worked(rest[i - 1]));
            }
        }
    }
}

/// Sending a notification invokes exactly the channels that are ready, each
/// once and in order, whichever of them work. It is delivered if one of them
/// works, undelivered if none does, and skipped if there is none.
pub proof fn law_every_ready_channel_is_invoked(
    settings: Map<Seq<char>, Seq<char>>,
    worked: spec_fn(Channel) -> bool,
)
    ensures
        ({
            let invoked = all_channels().filter(|channel: Channel| ready(settings, channel));
            sent(Delivery::fresh(), settings, worked) == (
                invoked,
                if invoked.len() == 0 {
                    Outcome::Skipped
                } else if exists|i: int| 0 <= i < invoked.len() && worked(#[trigger] invoked[i]) {
                    Outcome::Delivered
                } else {
                    Outcome::Undelivered
                },
            )
        }),
{
    lemma_sent(Delivery::fresh(), settings, worked);
    let keep = |channel: Channel| ready(settings, channel);
    reveal_with_fuel(ready_from, 5);
    let c = all_channels();
    assert(c.drop_last() =~= seq![Channel::Pushplus, Channel::Smtp, Channel::Telegram]);
    assert(c.drop_last().drop_last() =~= seq![Channel::Pushplus, Channel::Smtp]);
    assert(c.drop_last().drop_last().drop_last() =~= seq![Channel::Pushplus]);
    assert(c.drop_last().drop_last().drop_last().drop_last() =~= Seq::empty());
    reveal_with_fuel(Seq::filter, 5);
    assert(ready_from(settings, 0) =~= c.filter(keep));
}

/// One failing channel never suppresses another: whether an attempt worked
/// makes no difference to which channel is invoked next, under whatever
/// settings hold then.
pub proof fn law_failure_suppresses_nothing(d: Delivery, settings: Map<Seq<char>, Seq<char>>)
    ensures
        match (d.recorded(true).step(settings), d.recorded(false).step(settings)) {
            (Step::Attempt(one), Step::Attempt(other)) => one == other,
            (Step::Finished(_), Step::Finished(_)) => true,
            _ => false,
        },
        d.recorded(true).stepped(settings).considered == d.recorded(false).stepped(
            settings,
        ).considered,
{
}

/// A channel is invoked only when its own switch is on and its minimum
/// configuration is present.
pub proof fn law_only_ready_channels(d: Delivery, settings: Map<Seq<char>, Seq<char>>)
    requires
        d.wf(),
    ensures
        d.step(settings) matches Step::Attempt(channel) ==> ready(settings, channel),
{
    lemma_next_ready(settings, d.considered as int);
}

} // verus!

//! The moderation decision engine: a pure function from one inbound message,
//! its guild context, and the policy store to a decision.
//!
//! The rules are ordered and the first match wins, so every message gets
//! exactly one decision: the bot's own messages first, then messages outside
//! any guild, then the guild owner, then unmonitored channels, then exempt
//! users; whatever remains is enforced.

use vstd::prelude::*;

use crate::bot::HoneyPotBot;

verus! {

/// One inbound message event, as the platform delivers it.
#[derive(Debug, Clone)]
pub struct InboundMessage {
    pub author_id: u64,
    pub channel_id: u64,
    /// Absent for direct messages.
    pub guild_id: Option<u64>,
    /// Used only for logging and echoing, never for the decision.
    pub content: String,
    pub author_display_name: String,
}

/// The guild a message was posted in, fetched per message when the message
/// has a guild id.
#[derive(Debug, Clone)]
pub struct GuildContext {
    pub guild_name: String,
    pub owner_id: u64,
}

/// The decision for one message; exactly one variant per message.
#[derive(Debug, Clone, Copy, PartialEq, Eq, Structural)]
pub enum Decision {
    /// The message was authored by the bot itself.
    SelfAuthored,
    /// The message has no guild id; the policy has no meaning there.
    NoGuildContext,
    /// The author owns the guild.
    OwnerExempt,
    /// The author is on the exempt-user allow-list.
    UserExempt,
    /// The channel is not a monitored (honeypot) channel.
    NotMonitored,
    /// Ban the author and post the public notification.
    Enforce,
}

/// The ordered decision rules; the first match wins.
pub open spec fn decide_spec(m: InboundMessage, g: Option<GuildContext>, p: HoneyPotBot) -> Decision {
    if m.author_id == p.identity() {
        Decision::SelfAuthored
    } else if m.guild_id is None {
        Decision::NoGuildContext
    } else if g matches Some(c) && c.owner_id == m.author_id {
        Decision::OwnerExempt
    } else if !p.monitored().contains(m.channel_id) {
        Decision::NotMonitored
    } else if p.exempt().contains(m.author_id) {
        Decision::UserExempt
    } else {
        Decision::Enforce
    }
}

/// The guild context by value, for stating what `decide` returns.
pub open spec fn ctx_of(g: Option<&GuildContext>) -> Option<GuildContext> {
    match g {
        Some(c) => Some(*c),
        None => None,
    }
}

/// Classifies one message under the policy. Deterministic, no side effects:
/// the result is a function of the three arguments alone.
pub fn decide(msg: &InboundMessage, guild: Option<&GuildContext>, policy: &HoneyPotBot) -> (d:
    Decision)
    requires
        (msg.guild_id is Some) <==> (guild is Some),
    ensures
        d == decide_spec(*msg, ctx_of(guild), *policy),
{
    if msg.author_id == policy.bot_id() {
        return Decision::SelfAuthored;
    }
    match guild {
        None => Decision::NoGuildContext,
        Some(ctx) => {
            if ctx.owner_id == msg.author_id {
                Decision::OwnerExempt
            } else if !policy.is_monitored(msg.channel_id) {
                Decision::NotMonitored
            } else if policy.is_exempt(msg.author_id) {
                Decision::UserExempt
            } else {
                Decision::Enforce
            }
        },
    }
}

/// A message authored by the bot's own identity is `SelfAuthored`, regardless
/// of channel or guild.
pub proof fn lemma_self_authored(m: InboundMessage, g: Option<GuildContext>, p: HoneyPotBot)
    requires
        m.author_id == p.identity(),
    ensures
        decide_spec(m, g, p) == Decision::SelfAuthored,
{
}

/// A message with no guild id is `NoGuildContext` — unless the bot itself
/// wrote it, which the earlier rule catches.
pub proof fn lemma_no_guild(m: InboundMessage, g: Option<GuildContext>, p: HoneyPotBot)
    requires
        m.guild_id is None,
        m.author_id != p.identity(),
    ensures
        decide_spec(m, g, p) == Decision::NoGuildContext,
{
}

/// A guild message whose author is the guild owner is `OwnerExempt`, even in
/// a monitored channel and even if the owner is also on the allow-list —
/// unless the owner is the bot itself, which the earlier rule catches.
pub proof fn lemma_owner_exempt(m: InboundMessage, c: GuildContext, p: HoneyPotBot)
    requires
        m.guild_id is Some,
        c.owner_id == m.author_id,
        m.author_id != p.identity(),
    ensures
        decide_spec(m, Some(c), p) == Decision::OwnerExempt,
{
}

/// A guild message in an unmonitored channel is `NotMonitored`, even if the
/// author is on the allow-list — provided no earlier rule fires.
pub proof fn lemma_not_monitored(m: InboundMessage, c: GuildContext, p: HoneyPotBot)
    requires
        m.guild_id is Some,
        !p.monitored().contains(m.channel_id),
        m.author_id != p.identity(),
        c.owner_id != m.author_id,
    ensures
        decide_spec(m, Some(c), p) == Decision::NotMonitored,
{
}

/// A message in a monitored channel by an allow-listed author who is neither
/// the owner nor the bot is `UserExempt`.
pub proof fn lemma_user_exempt(m: InboundMessage, c: GuildContext, p: HoneyPotBot)
    requires
        m.guild_id is Some,
        p.monitored().contains(m.channel_id),
        p.exempt().contains(m.author_id),
        m.author_id != p.identity(),
        c.owner_id != m.author_id,
    ensures
        decide_spec(m, Some(c), p) == Decision::UserExempt,
{
}

/// `Enforce` comes exactly for a guild message in a monitored channel whose
/// author is not the bot, not the owner, and not allow-listed.
pub proof fn lemma_enforce_exactly(m: InboundMessage, g: Option<GuildContext>, p: HoneyPotBot)
    requires
        (m.guild_id is Some) <==> (g is Some),
    ensures
        decide_spec(m, g, p) == Decision::Enforce <==> (g matches Some(c) && m.author_id
            != p.identity() && c.owner_id != m.author_id && p.monitored().contains(m.channel_id)
            && !p.exempt().contains(m.author_id)),
{
}

/// Deciding is idempotent: any two results obtained for the same immutable
/// inputs are the same decision.
pub proof fn lemma_decide_idempotent(
    m: InboundMessage,
    g: Option<GuildContext>,
    p: HoneyPotBot,
    d1: Decision,
    d2: Decision,
)
    requires
        d1 == decide_spec(m, g, p),
        d2 == decide_spec(m, g, p),
    ensures
        d1 == d2,
{
}

} // verus!

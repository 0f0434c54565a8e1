//! The enforcement executor's orders and outcome record.
//!
//! Enforcement is two independent remote calls: ban the author in the guild,
//! and post a public notification in the channel. The plan built here fixes
//! both calls' arguments; the outcome records each step's result separately,
//! so a failed ban never suppresses the notification attempt and vice versa.

use vstd::prelude::*;
use vstd::string::StringExecFns;

use crate::decision::GuildContext;
use crate::decision::InboundMessage;

verus! {

/// The result the platform reported for one enforcement step; a failure
/// carries the operator-visible report.
#[derive(Debug, Clone, PartialEq, Eq)]
pub enum StepResult {
    Done,
    Failed(String),
}

/// The ban to issue: the author, in the message's guild, with no message
/// history deleted and no stated reason.
#[derive(Debug, Clone, PartialEq, Eq)]
pub struct BanOrder {
    pub guild_id: u64,
    pub user_id: u64,
    pub delete_message_days: u8,
    pub reason: Option<String>,
}

/// The public notification to post in the message's channel.
#[derive(Debug, Clone, PartialEq, Eq)]
pub struct NotifyOrder {
    pub channel_id: u64,
    pub text: String,
}

/// Both orders for one `Enforce` decision.
#[derive(Debug, Clone, PartialEq, Eq)]
pub struct EnforcementPlan {
    pub ban: BanOrder,
    pub notify: NotifyOrder,
}

/// The outcome of one enforcement: each step's result, recorded
/// independently.
#[derive(Debug, Clone, PartialEq, Eq)]
pub struct EnforcementOutcome {
    pub ban_result: StepResult,
    pub notify_result: StepResult,
}

/// The text of the public ban notification.
pub open spec fn notification_text_spec(name: Seq<char>, guild: Seq<char>) -> Seq<char> {
    name + " YOU'RE BANNED from "@ + guild
}

/// Builds the public ban notification, addressed to the banned user's
/// display name and naming the guild.
pub fn notification_text(author_display_name: &str, guild_name: &str) -> (r: String)
    ensures
        r@ == notification_text_spec(author_display_name@, guild_name@),
{
    let mut r = String::from_str(author_display_name);
    r.append(" YOU'RE BANNED from ");
    r.append(guild_name);
    r
}

/// Builds both orders for an `Enforce` decision on `msg` in the guild `ctx`.
pub fn enforcement_plan(msg: &InboundMessage, ctx: &GuildContext) -> (p: EnforcementPlan)
    requires
        msg.guild_id is Some,
    ensures
        p.ban.guild_id == msg.guild_id.unwrap(),
        p.ban.user_id == msg.author_id,
        p.ban.delete_message_days == 0,
        p.ban.reason is None,
        p.notify.channel_id == msg.channel_id,
        p.notify.text@ == notification_text_spec(msg.author_display_name@, ctx.guild_name@),
{
    let gid = match msg.guild_id {
        Some(g) => g,
        None => 0,  // unreachable: the caller supplies a guild message
    };
    EnforcementPlan {
        ban: BanOrder { guild_id: gid, user_id: msg.author_id, delete_message_days: 0, reason: None },
        notify: NotifyOrder {
            channel_id: msg.channel_id,
            text: notification_text(msg.author_display_name.as_str(), ctx.guild_name.as_str()),
        },
    }
}

/// How many of an outcome's two steps succeeded.
pub open spec fn successes(o: EnforcementOutcome) -> int {
    (if o.ban_result is Done {
        1int
    } else {
        0int
    }) + (if o.notify_result is Done {
        1int
    } else {
        0int
    })
}

/// Records the two step results as one outcome, each kept independently.
pub fn record_enforcement(ban_result: StepResult, notify_result: StepResult) -> (o:
    EnforcementOutcome)
    ensures
        o.ban_result == ban_result,
        o.notify_result == notify_result,
{
    EnforcementOutcome { ban_result, notify_result }
}

/// Enforcement independence: when one step fails and the other succeeds, the
/// outcome reflects exactly one success and one failure, and each step's
/// recorded result is its own — the successful step is not rolled back by
/// the failed one.
pub proof fn lemma_enforcement_independence(ban_result: StepResult, notify_result: StepResult)
    requires
        (ban_result is Done) != (notify_result is Done),
    ensures
        successes(
            EnforcementOutcome { ban_result: ban_result, notify_result: notify_result },
        ) == 1,
        (EnforcementOutcome { ban_result: ban_result, notify_result: notify_result }).ban_result
            == ban_result,
        (EnforcementOutcome { ban_result: ban_result, notify_result: notify_result }).notify_result
            == notify_result,
{
}

} // verus!

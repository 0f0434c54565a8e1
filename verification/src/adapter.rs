//! The event adapter: turns one inbound message event and the result of the
//! guild lookup into the action the platform glue must carry out.
//!
//! The adapter owns no state. A failed guild lookup is a hard failure for
//! that one message: no decision is made. Otherwise the decision engine
//! classifies the message, and an `Enforce` decision becomes a concrete
//! enforcement plan.

use vstd::prelude::*;

use crate::bot::HoneyPotBot;
use crate::decision::Decision;
use crate::decision::GuildContext;
use crate::decision::InboundMessage;
use crate::decision::decide;
use crate::decision::decide_spec;
use crate::enforce::EnforcementPlan;
use crate::enforce::enforcement_plan;
use crate::enforce::notification_text_spec;

verus! {

/// What the platform glue must do for one message.
#[derive(Debug, Clone, PartialEq, Eq)]
pub enum MessageAction {
    /// The guild lookup failed: report it to the operator; no decision was
    /// made and no enforcement is attempted.
    ReportContextFailure(String),
    /// The guild owner posted: log the message content, take no action.
    LogOwnerMessage,
    /// Carry out the ban and the notification that the plan describes.
    RunEnforcement(EnforcementPlan),
    /// Any other decision: take no action.
    Ignore(Decision),
}

/// The guild context a successful lookup produced, if any.
pub open spec fn looked_up(l: Option<Result<GuildContext, String>>) -> Option<GuildContext> {
    match l {
        Some(Ok(c)) => Some(c),
        _ => None,
    }
}

/// Routes one message: `lookup` is the guild lookup's result, made exactly
/// when the message has a guild id. A lookup failure is reported with no
/// decision; an `Enforce` decision yields the enforcement plan; an owner's
/// message is logged; everything else is ignored.
pub fn handle_message(
    msg: &InboundMessage,
    lookup: Option<Result<GuildContext, String>>,
    policy: &HoneyPotBot,
) -> (a: MessageAction)
    requires
        (msg.guild_id is Some) <==> (lookup is Some),
    ensures
        lookup matches Some(Err(e)) ==> a == MessageAction::ReportContextFailure(e),
        !(lookup matches Some(Err(e))) ==> ({
            let d = decide_spec(*msg, looked_up(lookup), *policy);
            &&& d == Decision::Enforce ==> ({
                &&& a matches MessageAction::RunEnforcement(p)
                &&& p.ban.guild_id == msg.guild_id.unwrap()
                &&& p.ban.user_id == msg.author_id
                &&& p.ban.delete_message_days == 0
                &&& p.ban.reason is None
                &&& p.notify.channel_id == msg.channel_id
                &&& p.notify.text@ == notification_text_spec(
                    msg.author_display_name@,
                    looked_up(lookup).unwrap().guild_name@,
                )
            })
            &&& d == Decision::OwnerExempt ==> a == MessageAction::LogOwnerMessage
            &&& (d != Decision::Enforce && d != Decision::OwnerExempt) ==> a
                == MessageAction::Ignore(d)
        }),
{
    match lookup {
        Some(Err(e)) => MessageAction::ReportContextFailure(e),
        Some(Ok(ctx)) => {
            let d = decide(msg, Some(&ctx), policy);
            match d {
                Decision::Enforce => MessageAction::RunEnforcement(enforcement_plan(msg, &ctx)),
                Decision::OwnerExempt => MessageAction::LogOwnerMessage,
                _ => MessageAction::Ignore(d),
            }
        },
        None => {
            let d = decide(msg, None, policy);
            MessageAction::Ignore(d)
        },
    }
}

} // verus!

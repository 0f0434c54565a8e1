//! Enforcement plans, independent step outcomes, and message routing.

use discord_honey_bot::HoneyPotBot;
use discord_honey_bot::adapter::MessageAction;
use discord_honey_bot::adapter::handle_message;
use discord_honey_bot::decision::Decision;
use discord_honey_bot::decision::GuildContext;
use discord_honey_bot::decision::InboundMessage;
use discord_honey_bot::enforce::StepResult;
use discord_honey_bot::enforce::enforcement_plan;
use discord_honey_bot::enforce::notification_text;
use discord_honey_bot::enforce::record_enforcement;

fn policy(channels: Vec<u64>, exempt: Vec<u64>) -> HoneyPotBot {
    HoneyPotBot::new("1", Some(channels), None, Some(exempt)).unwrap()
}

fn message(author_id: u64, channel_id: u64, guild_id: Option<u64>) -> InboundMessage {
    InboundMessage {
        author_id,
        channel_id,
        guild_id,
        content: "hello".to_string(),
        author_display_name: "spammer".to_string(),
    }
}

fn guild(owner_id: u64) -> GuildContext {
    GuildContext { guild_name: "The Guild".to_string(), owner_id }
}

#[test]
fn notification_names_user_and_guild() {
    let text = notification_text("spammer", "The Guild");
    assert_eq!(text, "spammer YOU'RE BANNED from The Guild");
}

#[test]
fn plan_bans_author_with_no_deletion_and_no_reason() {
    let m = message(2, 100, Some(7));
    let p = enforcement_plan(&m, &guild(3));
    assert_eq!(p.ban.guild_id, 7);
    assert_eq!(p.ban.user_id, 2);
    assert_eq!(p.ban.delete_message_days, 0);
    assert_eq!(p.ban.reason, None);
    assert_eq!(p.notify.channel_id, 100);
    assert_eq!(p.notify.text, "spammer YOU'RE BANNED from The Guild");
}

#[test]
fn failed_ban_does_not_hide_sent_notification() {
    let o = record_enforcement(
        StepResult::Failed("no permission".to_string()),
        StepResult::Done,
    );
    assert_eq!(o.ban_result, StepResult::Failed("no permission".to_string()));
    assert_eq!(o.notify_result, StepResult::Done);
}

#[test]
fn failed_notification_does_not_hide_ban() {
    let o = record_enforcement(
        StepResult::Done,
        StepResult::Failed("channel gone".to_string()),
    );
    assert_eq!(o.ban_result, StepResult::Done);
    assert_eq!(o.notify_result, StepResult::Failed("channel gone".to_string()));
}

#[test]
fn routing_enforces_stranger_in_honeypot() {
    let p = policy(vec![100], vec![]);
    let m = message(2, 100, Some(7));
    match handle_message(&m, Some(Ok(guild(3))), &p) {
        MessageAction::RunEnforcement(plan) => {
            assert_eq!(plan.ban.guild_id, 7);
            assert_eq!(plan.ban.user_id, 2);
            assert_eq!(plan.notify.channel_id, 100);
            assert_eq!(plan.notify.text, "spammer YOU'RE BANNED from The Guild");
        }
        other => panic!("expected enforcement, got {other:?}"),
    }
}

#[test]
fn routing_logs_owner_message() {
    let p = policy(vec![100], vec![]);
    let m = message(3, 100, Some(7));
    let a = handle_message(&m, Some(Ok(guild(3))), &p);
    assert_eq!(a, MessageAction::LogOwnerMessage);
}

#[test]
fn routing_ignores_unmonitored_channel() {
    let p = policy(vec![100], vec![]);
    let m = message(2, 200, Some(7));
    let a = handle_message(&m, Some(Ok(guild(3))), &p);
    assert_eq!(a, MessageAction::Ignore(Decision::NotMonitored));
}

#[test]
fn routing_ignores_allow_listed_user() {
    let p = policy(vec![100], vec![2]);
    let m = message(2, 100, Some(7));
    let a = handle_message(&m, Some(Ok(guild(3))), &p);
    assert_eq!(a, MessageAction::Ignore(Decision::UserExempt));
}

#[test]
fn routing_ignores_direct_message() {
    let p = policy(vec![100], vec![]);
    let m = message(2, 100, None);
    let a = handle_message(&m, None, &p);
    assert_eq!(a, MessageAction::Ignore(Decision::NoGuildContext));
}

#[test]
fn failed_lookup_reports_and_decides_nothing() {
    let p = policy(vec![100], vec![]);
    let m = message(2, 100, Some(7));
    let a = handle_message(&m, Some(Err("guild inaccessible".to_string())), &p);
    assert_eq!(
        a,
        MessageAction::ReportContextFailure("guild inaccessible".to_string())
    );
}

//! The decision engine's ordered rules on concrete messages.

use discord_honey_bot::HoneyPotBot;
use discord_honey_bot::decision::Decision;
use discord_honey_bot::decision::GuildContext;
use discord_honey_bot::decision::InboundMessage;
use discord_honey_bot::decision::decide;

fn policy(channels: Vec<u64>, exempt: Vec<u64>) -> HoneyPotBot {
    HoneyPotBot::new("1", Some(channels), None, Some(exempt)).unwrap()
}

fn message(author_id: u64, channel_id: u64, guild_id: Option<u64>) -> InboundMessage {
    InboundMessage {
        author_id,
        channel_id,
        guild_id,
        content: "hello".to_string(),
        author_display_name: "someone".to_string(),
    }
}

fn guild(owner_id: u64) -> GuildContext {
    GuildContext { guild_name: "The Guild".to_string(), owner_id }
}

#[test]
fn stranger_in_honeypot_is_enforced() {
    let p = policy(vec![100], vec![]);
    let m = message(2, 100, Some(7));
    assert_eq!(decide(&m, Some(&guild(3)), &p), Decision::Enforce);
}

#[test]
fn owner_is_exempt_in_honeypot() {
    let p = policy(vec![100], vec![]);
    let m = message(3, 100, Some(7));
    assert_eq!(decide(&m, Some(&guild(3)), &p), Decision::OwnerExempt);
}

#[test]
fn unmonitored_channel_is_ignored() {
    let p = policy(vec![100], vec![]);
    let m = message(2, 200, Some(7));
    assert_eq!(decide(&m, Some(&guild(3)), &p), Decision::NotMonitored);
}

#[test]
fn allow_listed_user_is_exempt_in_honeypot() {
    let p = policy(vec![100], vec![2]);
    let m = message(2, 100, Some(7));
    assert_eq!(decide(&m, Some(&guild(3)), &p), Decision::UserExempt);
}

#[test]
fn direct_message_has_no_guild_context() {
    let p = policy(vec![100], vec![]);
    let m = message(2, 100, None);
    assert_eq!(decide(&m, None, &p), Decision::NoGuildContext);
}

#[test]
fn bot_ignores_its_own_messages() {
    let p = policy(vec![100], vec![]);
    let m = message(1, 100, Some(7));
    assert_eq!(decide(&m, Some(&guild(3)), &p), Decision::SelfAuthored);
}

#[test]
fn bot_ignores_its_own_direct_messages() {
    let p = policy(vec![100], vec![]);
    let m = message(1, 100, None);
    assert_eq!(decide(&m, None, &p), Decision::SelfAuthored);
}

#[test]
fn owner_rule_beats_allow_list() {
    let p = policy(vec![100], vec![3]);
    let m = message(3, 100, Some(7));
    assert_eq!(decide(&m, Some(&guild(3)), &p), Decision::OwnerExempt);
}

#[test]
fn channel_rule_beats_allow_list() {
    let p = policy(vec![100], vec![2]);
    let m = message(2, 200, Some(7));
    assert_eq!(decide(&m, Some(&guild(3)), &p), Decision::NotMonitored);
}

#[test]
fn deciding_twice_gives_the_same_decision() {
    let p = policy(vec![100], vec![2]);
    let m = message(4, 100, Some(7));
    let g = guild(3);
    let first = decide(&m, Some(&g), &p);
    let second = decide(&m, Some(&g), &p);
    assert_eq!(first, second);
    assert_eq!(first, Decision::Enforce);
}

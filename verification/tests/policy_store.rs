//! Policy-store construction: channel-list parsing and its error reporting.

use discord_honey_bot::bot::ConfigError;
use discord_honey_bot::bot::HoneyPotBot;
use discord_honey_bot::channels_of_interest;

#[test]
fn parses_valid_list() {
    let v = channels_of_interest("100, 200,300").unwrap();
    assert_eq!(v.len(), 3);
    assert!(v.contains(&100));
    assert!(v.contains(&200));
    assert!(v.contains(&300));
}

#[test]
fn reports_every_malformed_token() {
    match channels_of_interest("100, abc, 200, 12x") {
        Err(ConfigError::InvalidChannelIds(bad)) => {
            assert_eq!(bad.len(), 2);
            assert_eq!(bad[0], b" abc".to_vec());
            assert_eq!(bad[1], b" 12x".to_vec());
        }
        other => panic!("expected both malformed tokens reported, got {other:?}"),
    }
}

#[test]
fn empty_list_is_malformed() {
    match channels_of_interest("") {
        Err(ConfigError::InvalidChannelIds(bad)) => {
            assert_eq!(bad, vec![Vec::<u8>::new()]);
        }
        other => panic!("expected the empty token reported, got {other:?}"),
    }
}

#[test]
fn trims_token_whitespace() {
    let v = channels_of_interest(" 42 \t").unwrap();
    assert_eq!(v, vec![42]);
}

#[test]
fn accepts_leading_plus_sign() {
    let v = channels_of_interest("+5").unwrap();
    assert_eq!(v, vec![5]);
}

#[test]
fn rejects_doubled_plus_sign() {
    assert!(channels_of_interest("++5").is_err());
}

#[test]
fn accepts_largest_identifier() {
    let v = channels_of_interest("18446744073709551615").unwrap();
    assert_eq!(v, vec![u64::MAX]);
}

#[test]
fn overflowing_token_is_malformed() {
    match channels_of_interest("1, 18446744073709551616") {
        Err(ConfigError::InvalidChannelIds(bad)) => {
            assert_eq!(bad, vec![b" 18446744073709551616".to_vec()]);
        }
        other => panic!("expected the overflowing token reported, got {other:?}"),
    }
}

#[test]
fn duplicate_channels_are_kept_once() {
    let v = channels_of_interest("7,7,7").unwrap();
    assert_eq!(v, vec![7]);
}

#[test]
fn new_builds_store_from_list() {
    let bot = HoneyPotBot::new("1", None, Some("100, 200"), None).unwrap();
    assert_eq!(bot.bot_id(), 1);
    assert!(bot.honey_potted_channels().contains(&100));
    assert!(bot.honey_potted_channels().contains(&200));
    assert_eq!(bot.honey_potted_channels().len(), 2);
    assert!(bot.excluded_users().is_empty());
}

#[test]
fn new_rejects_malformed_bot_identity() {
    match HoneyPotBot::new("bot", None, Some("100"), None) {
        Err(ConfigError::InvalidBotIdentity(t)) => assert_eq!(t, b"bot".to_vec()),
        other => panic!("expected the bot identity rejected, got {other:?}"),
    }
}

#[test]
fn new_requires_some_channel_source() {
    match HoneyPotBot::new("1", None, None, None) {
        Err(ConfigError::MissingChannelSource) => {}
        other => panic!("expected a missing-source error, got {other:?}"),
    }
}

#[test]
fn new_reports_malformed_channel_tokens() {
    match HoneyPotBot::new("1", None, Some("9, x, 8, y"), None) {
        Err(ConfigError::InvalidChannelIds(bad)) => {
            assert_eq!(bad, vec![b" x".to_vec(), b" y".to_vec()]);
        }
        other => panic!("expected both malformed tokens reported, got {other:?}"),
    }
}

#[test]
fn new_prefers_supplied_channels() {
    let bot = HoneyPotBot::new("1", Some(vec![5, 5, 9]), Some("300"), None).unwrap();
    assert_eq!(bot.honey_potted_channels().len(), 2);
    assert!(bot.honey_potted_channels().contains(&5));
    assert!(bot.honey_potted_channels().contains(&9));
}

#[test]
fn new_validates_list_even_with_supplied_channels() {
    match HoneyPotBot::new("1", Some(vec![5]), Some("x"), None) {
        Err(ConfigError::InvalidChannelIds(bad)) => assert_eq!(bad, vec![b"x".to_vec()]),
        other => panic!("expected the malformed list rejected, got {other:?}"),
    }
}

#[test]
fn new_keeps_exempt_users_once() {
    let bot = HoneyPotBot::new("2", Some(vec![1]), None, Some(vec![3, 3])).unwrap();
    assert_eq!(bot.excluded_users(), &vec![3]);
}

use chloe_bot::websocket::message_parser::{can_parse, Badge, BadgeInfo, Emote, MessageTypes, Tags, TwitchMessage};

#[test]
fn test_parse_message() {
    let message =
        "@badge-info=subscriber/6;badges=subscriber/6;color=#0000FF;display-name=chloe_dev_rust;emotes=;flags=;id=9f3a3f2a-2b1a-4b0a-8e4a-9e2a2a1a1a1a;mod=0;room-id=123456789;subscriber=1;tmi-sent-ts=1612345678901;turbo=0;user-id=123456789;user-type= :chloe_dev_rust!chloe_dev_rust@chloe_dev_rust.tmi.twitch.tv PRIVMSG #naowh :test";
    let x = TwitchMessage::parse_message(message.to_string());
    println!("{:#?}", x);
}

#[test]
fn test_parse_message2() {
    let message = "PING :tmi.twitch.tv";
    let x = TwitchMessage::parse_message(message.to_string());
    println!("{:#?}", x);
}

#[test]
fn test_parse_message3() {
    let message = ":lovingt3s!lovingt3s@lovingt3s.tmi.twitch.tv PRIVMSG #lovingt3s :!dilly";
    let x = TwitchMessage::parse_message(message.to_string());
    println!("{:#?}", x);
}

#[test]
fn test_parse_message4() {
    let message =
        "@badge-info=;badges=partner/1;client-nonce=5c6b9e4d39b7ddc691a0e709f5acb25e;color=#FFFFFF;display-name=Birthdays;emotes=;first-msg=0;flags=;id=55ef0949-91e0-48de-bca8-100eddeb87c9;mod=0;returning-chatter=0;room-id=53649632;subscriber=0;tmi-sent-ts=1693337489988;turbo=0;user-id=45671435;user-type= :birthdays!birthdays@birthdays.tmi.twitch.tv PRIVMSG #naowh :its like you lost 20kg";
    let x = TwitchMessage::parse_message(message.to_string());
    println!("{:#?}", x);
}

#[test]
fn test_parse_message5() {
    let message = ":tmi.twitch.tv 001 <user> :Welcome, GLHF!";
    let x = TwitchMessage::parse_message(message.to_string());
    println!("{:#?}", x);
}

#[test]
fn test_parse_message6() {
    let message =
        "@badge-info=;badges=;client-nonce=7d7d6334634c78473df2236e9e12348a;color=;display-name=kaine_mead;emotes=;first-msg=1;flags=;id=7bae6c75-057c-4d62-9351-9ac8a5bb0560;mod=0;returning-chatter=0;room-id=53649632;subscriber=0;tmi-sent-ts=1693340785356;turbo=0;user-id=948559936;user-type= :kaine_mead!kaine_mead@kaine_mead.tmi.twitch.tv PRIVMSG #naowh :you always main druid tank?\r\n";
    let x = TwitchMessage::parse_message(message.to_string());
    println!("{:#?}", x);
}

#[test]
fn test_parse_message7() {
    let message =
        "@badge-info=subscriber/31;badges=subscriber/24,premium/1;client-nonce=acbc0600e1d35322ed7c790546bf39ef;color=#FF4500;display-name=yaattess;emote-only=1;emotes=492:0-1;first-msg=0;flags=;id=05a544d6-9afa-467a-90a0-b609cfd65f02;mod=0;returning-chatter=0;room-id=53649632;subscriber=1;tmi-sent-ts=1693341298247;turbo=0;user-id=47321353;user-type= :yaattess!yaattess@yaattess.tmi.twitch.tv PRIVMSG #naowh ::O\r\n";
    let x = TwitchMessage::parse_message(message.to_string());
    println!("{:#?}", x);
}

fn info(name: &str, amount: Option<i32>) -> BadgeInfo {
    BadgeInfo { name: name.to_string(), version: "0".to_string(), amount }
}

#[test]
fn parses_tagged_chat_line() {
    let message =
        "@badge-info=subscriber/6;badges=subscriber/6;color=#0000FF;display-name=chloe_dev_rust;emotes=;flags=;id=9f3a3f2a-2b1a-4b0a-8e4a-9e2a2a1a1a1a;mod=0;room-id=123456789;subscriber=1;tmi-sent-ts=1612345678901;turbo=0;user-id=123456789;user-type= :chloe_dev_rust!chloe_dev_rust@chloe_dev_rust.tmi.twitch.tv PRIVMSG #naowh :test";
    assert!(can_parse(message));
    let x = TwitchMessage::parse_message(message.to_string());
    assert_eq!(x.command.command, MessageTypes::PRIVMSG);
    assert_eq!(x.command.channel, "#naowh");
    assert_eq!(x.command.message, "test");
    let source = x.source.unwrap();
    assert_eq!(source.nick, "chloe_dev_rust");
    assert_eq!(source.host, "chloe_dev_rust@chloe_dev_rust.tmi.twitch.tv");
    assert!(x.params.is_empty());
    assert_eq!(
        x.tags,
        vec![
            Tags::Badges(vec![Badge::Subscriber(info("subscriber", Some(6)))]),
            Tags::Color("#0000FF".to_string()),
            Tags::DisplayName("chloe_dev_rust".to_string()),
            Tags::Emotes(vec![]),
            Tags::MessageID("9f3a3f2a-2b1a-4b0a-8e4a-9e2a2a1a1a1a".to_string()),
            Tags::Mod(false),
            Tags::Subscriber(true),
            Tags::TimeSent("1612345678901".to_string()),
            Tags::Turbo(false),
            Tags::UserID("123456789".to_string()),
            Tags::UserType("".to_string()),
        ]
    );
}

#[test]
fn parses_ping() {
    let x = TwitchMessage::parse_message("PING :tmi.twitch.tv".to_string());
    assert_eq!(x.command.command, MessageTypes::PING);
    assert_eq!(x.command.channel, "");
    assert_eq!(x.command.message, ":tmi.twitch.tv");
    assert!(x.source.is_none());
    assert!(x.tags.is_empty());
}

#[test]
fn parses_source_line_keeping_colon_in_nick() {
    let x = TwitchMessage::parse_message(
        ":lovingt3s!lovingt3s@lovingt3s.tmi.twitch.tv PRIVMSG #lovingt3s :!dilly".to_string(),
    );
    assert_eq!(x.command.command, MessageTypes::PRIVMSG);
    assert_eq!(x.command.channel, "#lovingt3s");
    assert_eq!(x.command.message, ":!dilly");
    let source = x.source.unwrap();
    assert_eq!(source.nick, ":lovingt3s");
    assert_eq!(source.host, "lovingt3s@lovingt3s.tmi.twitch.tv");
}

#[test]
fn parses_server_line() {
    let x = TwitchMessage::parse_message(":tmi.twitch.tv 001 <user> :Welcome, GLHF!".to_string());
    assert_eq!(x.command.command, MessageTypes::UNKNOWN);
    assert_eq!(x.command.channel, "<user>");
    assert_eq!(x.command.message, ":Welcome, GLHF!");
    let source = x.source.unwrap();
    assert_eq!(source.nick, "");
    assert_eq!(source.host, ":tmi.twitch.tv");
}

#[test]
fn parses_two_badges_emote_and_strips_colons_and_line_end() {
    let message =
        "@badge-info=subscriber/31;badges=subscriber/24,premium/1;client-nonce=acbc0600e1d35322ed7c790546bf39ef;color=#FF4500;display-name=yaattess;emote-only=1;emotes=492:0-1;first-msg=0;flags=;id=05a544d6-9afa-467a-90a0-b609cfd65f02;mod=0;returning-chatter=0;room-id=53649632;subscriber=1;tmi-sent-ts=1693341298247;turbo=0;user-id=47321353;user-type= :yaattess!yaattess@yaattess.tmi.twitch.tv PRIVMSG #naowh ::O\r\n";
    let x = TwitchMessage::parse_message(message.to_string());
    assert_eq!(x.command.message, "O");
    assert_eq!(
        x.tags[0],
        Tags::Badges(vec![
            Badge::Subscriber(info("subscriber", Some(24))),
            Badge::Premium(info("premium", Some(1))),
        ])
    );
    assert!(x.tags.contains(&Tags::Emotes(vec![Emote { id: "492:0-1".to_string() }])));
}

#[test]
fn trims_line_end_from_message() {
    let message =
        "@badge-info=;badges=;client-nonce=7d7d6334634c78473df2236e9e12348a;color=;display-name=kaine_mead;emotes=;first-msg=1;flags=;id=7bae6c75-057c-4d62-9351-9ac8a5bb0560;mod=0;returning-chatter=0;room-id=53649632;subscriber=0;tmi-sent-ts=1693340785356;turbo=0;user-id=948559936;user-type= :kaine_mead!kaine_mead@kaine_mead.tmi.twitch.tv PRIVMSG #naowh :you always main druid tank?\r\n";
    let x = TwitchMessage::parse_message(message.to_string());
    assert_eq!(x.command.message, "you always main druid tank?");
    // An empty badges value gives an empty list: the first entry has no `/`.
    assert_eq!(x.tags[0], Tags::Badges(vec![]));
    assert_eq!(x.tags[1], Tags::Color("".to_string()));
}

#[test]
fn unknown_badge_and_unparsable_amount() {
    let x = TwitchMessage::parse_message(
        "@badge-info=;badges=partner/1,vip/x,bits-leader/+2,moderator/-3 :a!b PRIVMSG #c :hi".to_string(),
    );
    assert_eq!(
        x.tags[0],
        Tags::Badges(vec![
            Badge::Unknown(info("partner", Some(1))),
            Badge::VIP(info("vip", None)),
            Badge::BitsLeader(info("bits-leader", Some(2))),
            Badge::Moderator(info("moderator", Some(-3))),
        ])
    );
}

#[test]
fn badge_reading_stops_at_entry_without_slash() {
    let x = TwitchMessage::parse_message("@badge-info=;badges=staff/1,admin,global_mod/2 :a!b PRIVMSG #c :hi".to_string());
    assert_eq!(x.tags[0], Tags::Badges(vec![Badge::Staff(info("staff", Some(1)))]));
}

#[test]
fn amount_overflow_is_none() {
    let x = TwitchMessage::parse_message(
        "@badge-info=;badges=broadcaster/2147483648,admin/-2147483648 :a!b PRIVMSG #c :hi".to_string(),
    );
    assert_eq!(
        x.tags[0],
        Tags::Badges(vec![
            Badge::Broadcaster(info("broadcaster", None)),
            Badge::Admin(info("admin", Some(i32::MIN))),
        ])
    );
}

#[test]
fn tmi_source_after_tags() {
    let x = TwitchMessage::parse_message("@room-id=1;mod=1 :tmi.twitch.tv ROOMSTATE #chan extra  words ".to_string());
    assert_eq!(x.tags, vec![Tags::Mod(true)]);
    assert_eq!(x.command.command, MessageTypes::ROOMSTATE);
    assert_eq!(x.command.channel, "#chan");
    assert_eq!(x.command.message, "extra  words");
    let source = x.source.unwrap();
    assert_eq!(source.nick, "");
    assert_eq!(source.host, ":tmi.twitch.tv");
}

#[test]
fn message_types_are_recognised() {
    for (name, kind) in [
        ("PRIVMSG", MessageTypes::PRIVMSG),
        ("CLEARCHAT", MessageTypes::CLEARCHAT),
        ("CLEARMSG", MessageTypes::CLEARMSG),
        ("HOSTTARGET", MessageTypes::HOSTTARGET),
        ("RECONNECT", MessageTypes::RECONNECT),
        ("USERNOTICE", MessageTypes::USERNOTICE),
        ("USERSTATE", MessageTypes::USERSTATE),
        ("GLOBALUSERSTATE", MessageTypes::GLOBALUSERSTATE),
        ("PING", MessageTypes::PING),
        ("JOIN", MessageTypes::UNKNOWN),
    ] {
        let x = TwitchMessage::parse_message(format!(":n!h {} #c", name));
        assert_eq!(x.command.command, kind);
        assert_eq!(x.command.message, "");
    }
}

#[test]
fn can_parse_refuses_what_would_fail() {
    assert!(!can_parse(""));
    assert!(!can_parse("@novalue :a!b PRIVMSG #c :hi"));
    assert!(!can_parse(":nick!host PRIVMSG"));
    assert!(!can_parse("tags nickonly PRIVMSG #c"));
    assert!(can_parse("PING"));
    assert!(can_parse("tags :tmi.x PRIVMSG #c"));
    // The first tag keeps the `@` in its key, so it is never one the bot keeps.
    let x = TwitchMessage::parse_message("@mod=1 :a!b PRIVMSG #c".to_string());
    assert!(x.tags.is_empty());
}

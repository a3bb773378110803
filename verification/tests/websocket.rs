use chloe_bot::websocket::bot_commands_parser::command_reply;
use chloe_bot::websocket::client::{ping_reply, Backoff, MAX_BACKOFF};
use chloe_bot::websocket::init::{channels_to_join, handshake_messages, join_message, part_message, pass_message, JoinPacer};

#[test]
fn ping_command_gets_pong() {
    assert_eq!(command_reply("!ping", "#naowh"), Some("PRIVMSG #naowh :PONG".to_string()));
    assert_eq!(command_reply("!Ping", "#naowh"), None);
    assert_eq!(command_reply("hello", "#naowh"), None);
}

#[test]
fn server_ping_gets_pong() {
    assert_eq!(ping_reply("PING :tmi.twitch.tv"), Some("PONG :tmi.twitch.tv".to_string()));
    assert_eq!(ping_reply(":a!b PRIVMSG #c :PING"), None);
}

#[test]
fn backoff_doubles_to_cap_and_resets() {
    let mut b = Backoff::new();
    let waits: Vec<u64> = (0..11).map(|_| b.wait_before_retry()).collect();
    assert_eq!(waits, vec![1, 2, 4, 8, 16, 32, 64, 128, 256, 300, 300]);
    assert_eq!(MAX_BACKOFF, 300);
    b.connected();
    assert_eq!(b.wait_before_retry(), 1);
}

#[test]
fn login_lines() {
    let token = pass_message("abc");
    assert_eq!(token, "PASS oauth:abc");
    assert_eq!(
        handshake_messages(&token),
        vec![
            "CAP REQ :twitch.tv/membership twitch.tv/tags twitch.tv/commands".to_string(),
            "PASS oauth:abc".to_string(),
            "NICK chloe_dev_rust".to_string(),
        ]
    );
    assert_eq!(channels_to_join(vec!["naowh".to_string()]), vec!["naowh".to_string(), "maximum".to_string()]);
    assert_eq!(join_message("naowh"), "JOIN #naowh");
    assert_eq!(part_message("naowh"), "PART #naowh");
}

#[test]
fn pacer_pauses_after_every_tenth_join() {
    let mut p = JoinPacer::new();
    let pauses: Vec<usize> = (1..=25).filter(|_| p.record_join()).collect();
    assert_eq!(pauses, vec![10, 20]);
}

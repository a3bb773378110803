use chloe_bot::commands::modules::{ChannelCommands, Channels, Command, Commands, UserLevel};

#[test]
fn command_kind_from_lowercased_name() {
    assert_eq!(*Command::new("8BALL".to_string(), 5, UserLevel::EVERYONE).command(), Commands::BALL8);
    assert_eq!(*Command::new("Ban".to_string(), 5, UserLevel::MOD).command(), Commands::BAN);
    assert_eq!(*Command::new("unban".to_string(), 5, UserLevel::MOD).command(), Commands::UNBAN);
    assert_eq!(*Command::new("TimeOut".to_string(), 5, UserLevel::MOD).command(), Commands::TIMEOUT);
    assert_eq!(*Command::new("commands".to_string(), 5, UserLevel::SUB).command(), Commands::COMMANDS);
    assert_eq!(*Command::new("AddCommand".to_string(), 5, UserLevel::SUPERMOD).command(), Commands::ADDCOMMAND);
    assert_eq!(*Command::new("removecommand".to_string(), 5, UserLevel::SUPERMOD).command(), Commands::REMOVECOMMAND);
    assert_eq!(*Command::new("followage".to_string(), 5, UserLevel::VIP).command(), Commands::FOLLOWAGE);
    assert_eq!(*Command::new("UPTIME".to_string(), 5, UserLevel::BROADCASTER).command(), Commands::UPTIME);
    assert_eq!(*Command::new("dance".to_string(), 5, UserLevel::EVERYONE).command(), Commands::CUSTOM);
    // `Ping` is matched as written, so a lower-cased name never reaches it.
    assert_eq!(*Command::new("Ping".to_string(), 5, UserLevel::EVERYONE).command(), Commands::CUSTOM);
    assert_eq!(*Command::new("PING".to_string(), 5, UserLevel::EVERYONE).command(), Commands::CUSTOM);
    assert_eq!(*Command::new("ÄX".to_string(), 5, UserLevel::EVERYONE).command(), Commands::CUSTOM);
    assert_eq!(*Command::new("UNBAN".to_string(), 5, UserLevel::EVERYONE).command(), Commands::UNBAN);
    assert_eq!(Command::new("Ban".to_string(), 5, UserLevel::MOD).command_name(), "Ban");
}

#[test]
fn channel_lookup_add_remove() {
    let mut channels = Channels::new();
    assert!(channels.get_channel("naowh".to_string()).is_none());
    channels.add_channel(ChannelCommands::new("naowh".to_string(), vec![], 10));
    channels.add_channel(ChannelCommands::new("maximum".to_string(), vec![], 20));
    assert_eq!(channels.get_channel("naowh".to_string()).unwrap().channel_name(), "naowh");
    // Adding under an existing name replaces the channel.
    channels.add_channel(ChannelCommands::new(
        "naowh".to_string(),
        vec![Command::new("ban".to_string(), 1, UserLevel::MOD)],
        30,
    ));
    let naowh = channels.get_channel("naowh".to_string()).unwrap();
    assert!(naowh.get_command("ban".to_string()).is_some());
    channels.remove_channel("naowh".to_string());
    assert!(channels.get_channel("naowh".to_string()).is_none());
    assert!(channels.get_channel("maximum".to_string()).is_some());
}

#[test]
fn channel_changed_in_place() {
    let mut channels = Channels::new();
    channels.add_channel(ChannelCommands::new("ls".to_string(), vec![], 0));
    channels
        .get_channel_mut("ls".to_string())
        .unwrap()
        .add_command(Command::new("uptime".to_string(), 3, UserLevel::EVERYONE));
    assert!(channels.get_channel("ls".to_string()).unwrap().get_command("uptime".to_string()).is_some());
    assert!(channels.get_channel_mut("nobody".to_string()).is_none());
}

#[test]
fn commands_add_get_remove() {
    let mut ch = ChannelCommands::new("c".to_string(), vec![], 0);
    ch.add_command(Command::new("a".to_string(), 1, UserLevel::EVERYONE));
    ch.add_command(Command::new("b".to_string(), 2, UserLevel::EVERYONE));
    ch.add_command(Command::new("a".to_string(), 3, UserLevel::MOD));
    assert_eq!(ch.get_command("a".to_string()).unwrap().command_name(), "a");
    ch.remove_command("a".to_string());
    assert!(ch.get_command("a".to_string()).is_none());
    assert!(ch.get_command("b".to_string()).is_some());
}

#[test]
fn cooldowns_at_given_times() {
    let ch = ChannelCommands::new("c".to_string(), vec![], 100);
    assert!(ch.is_on_global_cooldown_at(101));
    assert!(!ch.is_on_global_cooldown_at(100));
    // A cooldown time in the past counts as lying before the clock's reading.
    assert!(ch.is_on_global_cooldown());
    let mut cmd = Command::new("a".to_string(), 30, UserLevel::EVERYONE);
    assert!(cmd.is_on_cooldown_at(1));
    cmd.set_cooldown_at(1000);
    assert!(!cmd.is_on_cooldown_at(1030));
    assert!(cmd.is_on_cooldown_at(1031));
    cmd.set_cooldown();
    assert!(!cmd.is_on_cooldown());
}

#[test]
fn user_level_labels() {
    assert_eq!(UserLevel::BROADCASTER.label(), "Broadcaster");
    assert_eq!(UserLevel::SUPERMOD.label(), "Super Moderator");
    assert_eq!(UserLevel::MOD.label(), "Moderator");
    assert_eq!(UserLevel::VIP.label(), "VIP");
    assert_eq!(UserLevel::SUB.label(), "Subscriber");
    assert_eq!(UserLevel::EVERYONE.label(), "Everyone");
}

#[test]
fn renamed_channel_stays_under_its_old_name() {
    let mut channels = Channels::new();
    channels.add_channel(ChannelCommands::new("old".to_string(), vec![], 1));
    *channels.get_channel_mut("old".to_string()).unwrap() = ChannelCommands::new("new".to_string(), vec![], 2);
    assert_eq!(channels.get_channel("old".to_string()).unwrap().channel_name(), "new");
    assert!(channels.get_channel("new".to_string()).is_none());
}

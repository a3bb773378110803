//! The registry of chat commands: channels by name, each with its commands, and
//! the cooldowns that gate them.
use vstd::prelude::*;

use crate::clock::{clock_reading, now_timestamp, CLOCK_MAX};
use crate::text::{
    eq_str, is_ascii_upper, lemma_lowercase_has_no_ascii_upper, lowercase, to_lowercase,
};

verus! {

// ---------------------------------------------------------------------------
// Channels
// ---------------------------------------------------------------------------

/// The channels the bot serves, each stored under the name it was added with.
#[derive(Debug, Clone)]
pub struct Channels {
    channels: Vec<(String, ChannelCommands)>,
}

/// The entries of `s` by key; where a key occurs more than once, the last one counts.
pub open spec fn channel_map(s: Seq<(String, ChannelCommands)>) -> Map<Seq<char>, ChannelCommands>
    decreases s.len(),
{
    if s.len() == 0 {
        Map::empty()
    } else {
        channel_map(s.drop_last()).insert(s.last().0@, s.last().1)
    }
}

/// `s` without the entries keyed `k`, the others in order.
pub open spec fn channels_without(s: Seq<(String, ChannelCommands)>, k: Seq<char>) -> Seq<
    (String, ChannelCommands),
>
    decreases s.len(),
{
    if s.len() == 0 {
        s
    } else {
        let rest = channels_without(s.drop_last(), k);
        if s.last().0@ == k {
            rest
        } else {
            rest.push(s.last())
        }
    }
}

proof fn lemma_channels_without(s: Seq<(String, ChannelCommands)>, k: Seq<char>)
    ensures
        channel_map(channels_without(s, k)) == channel_map(s).remove(k),
    decreases s.len(),
{
    if s.len() > 0 {
        lemma_channels_without(s.drop_last(), k);
        let rest = channels_without(s.drop_last(), k);
        if s.last().0@ != k {
            assert(rest.push(s.last()).drop_last() =~= rest);
        }
        assert(channel_map(channels_without(s, k)) =~= channel_map(s).remove(k));
    } else {
        assert(channel_map(s).remove(k) =~= Map::empty());
    }
}

/// The map holds `k` exactly when some entry is keyed `k`, and then it holds the last
/// one so keyed.
proof fn lemma_channel_map_lookup(s: Seq<(String, ChannelCommands)>, k: Seq<char>, i: int)
    requires
        -1 <= i < s.len(),
        i >= 0 ==> s[i].0@ == k,
        forall|j: int| i < j < s.len() ==> (#[trigger] s[j]).0@ != k,
    ensures
        i >= 0 ==> channel_map(s).contains_key(k) && channel_map(s)[k] == s[i].1,
        i < 0 ==> !channel_map(s).contains_key(k),
    decreases s.len(),
{
    if s.len() > 0 {
        if i == s.len() - 1 {
        } else {
            let p = s.drop_last();
            assert forall|j: int| i < j < p.len() implies (#[trigger] p[j]).0@ != k by {
                assert(p[j] == s[j]);
            }
            if i >= 0 {
                assert(p[i] == s[i]);
            }
            lemma_channel_map_lookup(p, k, i);
            assert(s[s.len() - 1].0@ != k);
        }
    }
}

/// Replacing the channel of the last entry keyed `k` replaces the map's entry for `k`.
proof fn lemma_channel_map_update(
    s: Seq<(String, ChannelCommands)>,
    k: Seq<char>,
    i: int,
    c: ChannelCommands,
)
    requires
        0 <= i < s.len(),
        s[i].0@ == k,
        forall|j: int| i < j < s.len() ==> (#[trigger] s[j]).0@ != k,
    ensures
        channel_map(s.update(i, (s[i].0, c))) == channel_map(s).insert(k, c),
    decreases s.len(),
{
    let t = s.update(i, (s[i].0, c));
    if i == s.len() - 1 {
        assert(t.drop_last() =~= s.drop_last());
        assert(channel_map(t) =~= channel_map(s).insert(k, c));
    } else {
        let p = s.drop_last();
        assert forall|j: int| i < j < p.len() implies (#[trigger] p[j]).0@ != k by {
            assert(p[j] == s[j]);
        }
        lemma_channel_map_update(p, k, i, c);
        assert(p[i] == s[i]);
        assert(t.drop_last() =~= p.update(i, (p[i].0, c)));
        assert(s[s.len() - 1].0@ != k);
        assert(channel_map(t) =~= channel_map(s).insert(k, c));
    }
}

impl View for Channels {
    type V = Map<Seq<char>, ChannelCommands>;

    closed spec fn view(&self) -> Map<Seq<char>, ChannelCommands> {
        channel_map(self.channels@)
    }
}

/// The channel a registry holds under the name `k`, if any: what `get_channel` gives.
pub open spec fn channel_named(channels: Map<Seq<char>, ChannelCommands>, k: Seq<char>) -> Option<
    ChannelCommands,
> {
    if channels.contains_key(k) {
        Some(channels[k])
    } else {
        None
    }
}

/// Every channel of a registry is stored under its own name.
pub open spec fn names_match(channels: Map<Seq<char>, ChannelCommands>) -> bool {
    forall|k: Seq<char>| #[trigger] channels.contains_key(k) ==> channels[k]@.channel_name == k
}

impl Channels {
    /// No channels.
    pub fn new() -> (r: Self)
        ensures
            r@ == Map::<Seq<char>, ChannelCommands>::empty(),
    {
        Self { channels: Vec::new() }
    }

    /// Keeps only the entries not keyed `k`.
    fn drop_named(&mut self, k: &String)
        ensures
            final(self)@ == old(self)@.remove(k@),
    {
        let ghost s = self.channels@;
        let mut kept: Vec<(String, ChannelCommands)> = Vec::new();
        let mut rest: Vec<(String, ChannelCommands)> = Vec::new();
        std::mem::swap(&mut rest, &mut self.channels);
        let ghost mut i: int = 0;
        while rest.len() > 0
            invariant
                0 <= i <= s.len(),
                rest@ == s.skip(i),
                kept@ == channels_without(s.take(i), k@),
            decreases rest.len(),
        {
            let e = rest.remove(0);
            proof {
                assert(s.take(i + 1).drop_last() =~= s.take(i));
                assert(e == s[i]);
            }
            if e.0 != *k {
                kept.push(e);
            }
            proof {
                i = i + 1;
                assert(rest@ =~= s.skip(i));
            }
        }
        assert(s.take(i) =~= s);
        proof {
            lemma_channels_without(s, k@);
        }
        self.channels = kept;
    }

    /// Adds `channel` under its name, in place of any channel under that name.
    pub fn add_channel(&mut self, channel: ChannelCommands)
        ensures
            final(self)@ == old(self)@.insert(channel@.channel_name, channel),
    {
        let name = channel.channel_name().clone();
        self.drop_named(&name);
        let ghost before = self.channels@;
        self.channels.push((name, channel));
        assert(self.channels@.drop_last() =~= before);
        assert(self@ =~= old(self)@.remove(name@).insert(name@, channel));
    }

    /// Removes the channel under `channel_name`, if there is one.
    pub fn remove_channel(&mut self, channel_name: String)
        ensures
            final(self)@ == old(self)@.remove(channel_name@),
    {
        self.drop_named(&channel_name);
    }

    /// Where the last entry keyed `k` stands, if one does.
    fn position_of(&self, k: &String) -> (r: Option<usize>)
        ensures
            match r {
                Some(i) => i < self.channels@.len() && self.channels@[i as int].0@ == k@
                    && forall|j: int|
                    i < j < self.channels@.len() ==> (#[trigger] self.channels@[j]).0@ != k@,
                None => forall|j: int|
                    0 <= j < self.channels@.len() ==> (#[trigger] self.channels@[j]).0@ != k@,
            },
    {
        let mut j: usize = self.channels.len();
        while j > 0
            invariant
                j <= self.channels@.len(),
                forall|t: int| j <= t < self.channels@.len() ==> (#[trigger] self.channels@[t]).0@ != k@,
            decreases j,
        {
            if self.channels[j - 1].0 == *k {
                return Some(j - 1);
            }
            j = j - 1;
        }
        None
    }

    /// The channel under `channel_name`, if there is one.
    pub fn get_channel(&self, channel_name: String) -> (r: Option<&ChannelCommands>)
        ensures
            match r {
                Some(c) => channel_named(self@, channel_name@) == Some(*c),
                None => channel_named(self@, channel_name@) is None,
            },
    {
        match self.position_of(&channel_name) {
            Some(i) => {
                proof {
                    lemma_channel_map_lookup(self.channels@, channel_name@, i as int);
                }
                Some(&self.channels[i].1)
            },
            None => {
                proof {
                    lemma_channel_map_lookup(self.channels@, channel_name@, -1);
                }
                None
            },
        }
    }

    /// The channel under `channel_name`, to change in place, if there is one; the
    /// registry then holds the changed channel under that name, whatever it is changed
    /// to, and is otherwise unchanged.
    pub fn get_channel_mut(&mut self, channel_name: String) -> (r: Option<&mut ChannelCommands>)
        ensures
            match r {
                Some(c) => {
                    &&& channel_named(old(self)@, channel_name@) == Some(*c)
                    &&& final(self)@ == old(self)@.insert(channel_name@, *final(c))
                },
                None => channel_named(old(self)@, channel_name@) is None && final(self)@ == old(
                    self,
                )@,
            },
    {
        match self.position_of(&channel_name) {
            Some(i) => {
                proof {
                    lemma_channel_map_lookup(self.channels@, channel_name@, i as int);
                    assert forall|c: ChannelCommands| #[trigger]
                        channel_map(self.channels@.update(i as int, (self.channels@[i as int].0, c)))
                            == channel_map(self.channels@).insert(channel_name@, c) by {
                        lemma_channel_map_update(self.channels@, channel_name@, i as int, c);
                    }
                }
                let entry = &mut self.channels[i];
                Some(&mut entry.1)
            },
            None => {
                proof {
                    lemma_channel_map_lookup(self.channels@, channel_name@, -1);
                }
                None
            },
        }
    }
}

// ---------------------------------------------------------------------------
// One channel's commands
// ---------------------------------------------------------------------------

/// One channel's commands and its global cooldown.
#[derive(Debug, Clone, PartialEq)]
pub struct ChannelCommands {
    channel_name: String,
    commands: Vec<Command>,
    global_cooldown: i64,
}

pub struct ChannelCommandsView {
    pub channel_name: Seq<char>,
    pub commands: Seq<Command>,
    pub global_cooldown: i64,
}

impl View for ChannelCommands {
    type V = ChannelCommandsView;

    closed spec fn view(&self) -> ChannelCommandsView {
        ChannelCommandsView {
            channel_name: self.channel_name@,
            commands: self.commands@,
            global_cooldown: self.global_cooldown,
        }
    }
}

/// `s` without the commands named `k`, the others in order.
pub open spec fn commands_without(s: Seq<Command>, k: Seq<char>) -> Seq<Command>
    decreases s.len(),
{
    if s.len() == 0 {
        s
    } else {
        let rest = commands_without(s.drop_last(), k);
        if s.last()@.command_name == k {
            rest
        } else {
            rest.push(s.last())
        }
    }
}

impl ChannelCommands {
    pub fn new(channel_name: String, commands: Vec<Command>, global_cooldown: i64) -> (r: Self)
        ensures
            r@ == (ChannelCommandsView {
                channel_name: channel_name@,
                commands: commands@,
                global_cooldown,
            }),
    {
        Self { channel_name, commands, global_cooldown }
    }

    /// Adds `command` after the others.
    pub fn add_command(&mut self, command: Command)
        ensures
            final(self)@ == (ChannelCommandsView {
                commands: old(self)@.commands.push(command),
                ..old(self)@
            }),
    {
        self.commands.push(command);
    }

    /// Removes every command named `command_name`.
    pub fn remove_command(&mut self, command_name: String)
        ensures
            final(self)@ == (ChannelCommandsView {
                commands: commands_without(old(self)@.commands, command_name@),
                ..old(self)@
            }),
    {
        let ghost s = self.commands@;
        let mut kept: Vec<Command> = Vec::new();
        let mut rest: Vec<Command> = Vec::new();
        std::mem::swap(&mut rest, &mut self.commands);
        let ghost mut i: int = 0;
        while rest.len() > 0
            invariant
                0 <= i <= s.len(),
                rest@ == s.skip(i),
                kept@ == commands_without(s.take(i), command_name@),
            decreases rest.len(),
        {
            let c = rest.remove(0);
            proof {
                assert(s.take(i + 1).drop_last() =~= s.take(i));
                assert(c == s[i]);
            }
            if c.command_name != command_name {
                kept.push(c);
            }
            proof {
                i = i + 1;
                assert(rest@ =~= s.skip(i));
            }
        }
        assert(s.take(i) =~= s);
        self.commands = kept;
    }

    /// The first command named `command_name`, if there is one.
    pub fn get_command(&self, command_name: String) -> (r: Option<&Command>)
        ensures
            match r {
                Some(c) => exists|i: int|
                    0 <= i < self@.commands.len() && *c == self@.commands[i] && c@.command_name
                        == command_name@ && forall|j: int|
                        0 <= j < i ==> (#[trigger] self@.commands[j])@.command_name
                            != command_name@,
                None => forall|j: int|
                    0 <= j < self@.commands.len() ==> (#[trigger] self@.commands[j])@.command_name
                        != command_name@,
            },
    {
        let mut i: usize = 0;
        while i < self.commands.len()
            invariant
                i <= self.commands@.len(),
                forall|j: int|
                    0 <= j < i ==> (#[trigger] self.commands@[j])@.command_name != command_name@,
            decreases self.commands@.len() - i,
        {
            if self.commands[i].command_name == command_name {
                return Some(&self.commands[i]);
            }
            i = i + 1;
        }
        None
    }

    /// Whether the global cooldown time lies before `now`.
    pub fn is_on_global_cooldown_at(&self, now: i64) -> (r: bool)
        ensures
            r == (self@.global_cooldown < now),
    {
        self.global_cooldown < now
    }

    /// Whether the global cooldown time lies before the clock's current reading.
    pub fn is_on_global_cooldown(&self) -> (r: bool)
        ensures
            exists|now: i64| #[trigger] clock_reading(now) && r == (self@.global_cooldown < now),
    {
        let now = now_timestamp();
        let r = self.is_on_global_cooldown_at(now);
        assert(clock_reading(now) && r == (self@.global_cooldown < now));
        r
    }

    pub fn channel_name(&self) -> (r: &String)
        ensures
            r@ == self@.channel_name,
    {
        &self.channel_name
    }
}

// ---------------------------------------------------------------------------
// One command
// ---------------------------------------------------------------------------

/// A chat command of a channel.
#[derive(Debug, Clone, PartialEq)]
pub struct Command {
    command_name: String,
    cooldown: i64,
    next_available: i64,
    command: Commands,
    command_level: UserLevel,
    command_response: Option<String>,
}

pub struct CommandView {
    pub command_name: Seq<char>,
    pub cooldown: i64,
    pub next_available: i64,
    pub command: Commands,
    pub command_level: UserLevel,
    pub command_response: Option<Seq<char>>,
}

impl View for Command {
    type V = CommandView;

    closed spec fn view(&self) -> CommandView {
        CommandView {
            command_name: self.command_name@,
            cooldown: self.cooldown,
            next_available: self.next_available,
            command: self.command,
            command_level: self.command_level,
            command_response: match self.command_response {
                Some(s) => Some(s@),
                None => None,
            },
        }
    }
}

/// The built-in command that a lower-cased command name stands for. (The name
/// `Ping` is compared as written, so no lower-cased name reaches `PING`.)
pub open spec fn command_kind_spec(lowered: Seq<char>) -> Commands {
    if lowered == "Ping"@ {
        Commands::PING
    } else if lowered == "8ball"@ {
        Commands::BALL8
    } else if lowered == "ban"@ {
        Commands::BAN
    } else if lowered == "unban"@ {
        Commands::UNBAN
    } else if lowered == "timeout"@ {
        Commands::TIMEOUT
    } else if lowered == "commands"@ {
        Commands::COMMANDS
    } else if lowered == "addcommand"@ {
        Commands::ADDCOMMAND
    } else if lowered == "removecommand"@ {
        Commands::REMOVECOMMAND
    } else if lowered == "followage"@ {
        Commands::FOLLOWAGE
    } else if lowered == "uptime"@ {
        Commands::UPTIME
    } else {
        Commands::CUSTOM
    }
}

/// A lower-cased command name is a built-in command exactly when it is that command's
/// name as written (`ban`, not `bandcamp`), is never `PING`, and is a custom command
/// exactly when it is none of the nine built-in names.
pub proof fn law_command_kind_by_name(name: Seq<char>)
    ensures
        command_kind_spec(lowercase(name)) != Commands::PING,
        (command_kind_spec(lowercase(name)) == Commands::BALL8) <==> lowercase(name) == "8ball"@,
        (command_kind_spec(lowercase(name)) == Commands::BAN) <==> lowercase(name) == "ban"@,
        (command_kind_spec(lowercase(name)) == Commands::UNBAN) <==> lowercase(name) == "unban"@,
        (command_kind_spec(lowercase(name)) == Commands::TIMEOUT) <==> lowercase(name)
            == "timeout"@,
        (command_kind_spec(lowercase(name)) == Commands::COMMANDS) <==> lowercase(name)
            == "commands"@,
        (command_kind_spec(lowercase(name)) == Commands::ADDCOMMAND) <==> lowercase(name)
            == "addcommand"@,
        (command_kind_spec(lowercase(name)) == Commands::REMOVECOMMAND) <==> lowercase(name)
            == "removecommand"@,
        (command_kind_spec(lowercase(name)) == Commands::FOLLOWAGE) <==> lowercase(name)
            == "followage"@,
        (command_kind_spec(lowercase(name)) == Commands::UPTIME) <==> lowercase(name)
            == "uptime"@,
        (command_kind_spec(lowercase(name)) == Commands::CUSTOM) <==> (lowercase(name) != "8ball"@
            && lowercase(name) != "ban"@ && lowercase(name) != "unban"@ && lowercase(name)
            != "timeout"@ && lowercase(name) != "commands"@ && lowercase(name) != "addcommand"@
            && lowercase(name) != "removecommand"@ && lowercase(name) != "followage"@
            && lowercase(name) != "uptime"@),
{
    reveal_strlit("Ping");
    reveal_strlit("8ball");
    reveal_strlit("ban");
    reveal_strlit("unban");
    reveal_strlit("timeout");
    reveal_strlit("commands");
    reveal_strlit("addcommand");
    reveal_strlit("removecommand");
    reveal_strlit("followage");
    reveal_strlit("uptime");
    assert("Ping"@.len() == 4 && "Ping"@[0] == 'P' && "Ping"@[1] == 'i');
    assert("8ball"@.len() == 5 && "8ball"@[0] == '8' && "8ball"@[1] == 'b');
    assert("ban"@.len() == 3 && "ban"@[0] == 'b' && "ban"@[1] == 'a');
    assert("unban"@.len() == 5 && "unban"@[0] == 'u' && "unban"@[1] == 'n');
    assert("timeout"@.len() == 7 && "timeout"@[0] == 't' && "timeout"@[1] == 'i');
    assert("commands"@.len() == 8 && "commands"@[0] == 'c' && "commands"@[1] == 'o');
    assert("addcommand"@.len() == 10 && "addcommand"@[0] == 'a' && "addcommand"@[1] == 'd');
    assert("removecommand"@.len() == 13 && "removecommand"@[0] == 'r' && "removecommand"@[1] == 'e');
    assert("followage"@.len() == 9 && "followage"@[0] == 'f' && "followage"@[1] == 'o');
    assert("uptime"@.len() == 6 && "uptime"@[0] == 'u' && "uptime"@[1] == 'p');
    lemma_lowercase_has_no_ascii_upper(name);
    if lowercase(name) == "Ping"@ {
        assert(is_ascii_upper("Ping"@[0]));
    }
}

/// The time `cooldown` seconds after `now`.
pub open spec fn available_after(now: i64, cooldown: i64) -> int {
    now + cooldown
}

/// A command set on cooldown at a reading is available again exactly `cooldown`
/// seconds later, so two readings `d` seconds apart give times `d` seconds apart.
pub proof fn law_cooldown_moves_with_the_clock(now1: i64, now2: i64, cooldown: i64)
    ensures
        available_after(now1, cooldown) - now1 == cooldown,
        available_after(now2, cooldown) - available_after(now1, cooldown) == now2 - now1,
{
}

impl Command {
    /// A command named `command_name`, available at once, with no response text; its
    /// kind is the built-in command its lower-cased name stands for, and never `PING`
    /// (a lower-cased name holds no capital `P`).
    pub fn new(command_name: String, cooldown: i64, level: UserLevel) -> (r: Self)
        ensures
            r@ == (CommandView {
                command_name: command_name@,
                cooldown,
                next_available: 0,
                command: command_kind_spec(lowercase(command_name@)),
                command_level: level,
                command_response: None,
            }),
            r@.command != Commands::PING,
    {
        proof {
            reveal_strlit("Ping");
            lemma_lowercase_has_no_ascii_upper(command_name@);
            if lowercase(command_name@) == "Ping"@ {
                assert(is_ascii_upper("Ping"@[0]));
            }
        }
        let lowered = to_lowercase(command_name.as_str());
        let l = crate::text::chars_of(lowered.as_str());
        let command = if eq_str(&l, "Ping") {
            Commands::PING
        } else if eq_str(&l, "8ball") {
            Commands::BALL8
        } else if eq_str(&l, "ban") {
            Commands::BAN
        } else if eq_str(&l, "unban") {
            Commands::UNBAN
        } else if eq_str(&l, "timeout") {
            Commands::TIMEOUT
        } else if eq_str(&l, "commands") {
            Commands::COMMANDS
        } else if eq_str(&l, "addcommand") {
            Commands::ADDCOMMAND
        } else if eq_str(&l, "removecommand") {
            Commands::REMOVECOMMAND
        } else if eq_str(&l, "followage") {
            Commands::FOLLOWAGE
        } else if eq_str(&l, "uptime") {
            Commands::UPTIME
        } else {
            Commands::CUSTOM
        };
        Self {
            command_name,
            cooldown,
            next_available: 0,
            command_level: level,
            command,
            command_response: None,
        }
    }

    pub fn command_name(&self) -> (r: &String)
        ensures
            r@ == self@.command_name,
    {
        &self.command_name
    }

    pub fn command(&self) -> (r: &Commands)
        ensures
            *r == self@.command,
    {
        &self.command
    }

    /// Whether the time the command is next available lies before `now`.
    pub fn is_on_cooldown_at(&self, now: i64) -> (r: bool)
        ensures
            r == (self@.next_available < now),
    {
        self.next_available < now
    }

    /// Whether the time the command is next available lies before the clock's reading.
    pub fn is_on_cooldown(&self) -> (r: bool)
        ensures
            exists|now: i64| #[trigger] clock_reading(now) && r == (self@.next_available < now),
    {
        let now = now_timestamp();
        let r = self.is_on_cooldown_at(now);
        assert(clock_reading(now) && r == (self@.next_available < now));
        r
    }

    /// Makes the command next available `cooldown` seconds after `now`.
    pub fn set_cooldown_at(&mut self, now: i64)
        requires
            i64::MIN <= now + old(self)@.cooldown <= i64::MAX,
        ensures
            final(self)@ == (CommandView { next_available: (now + old(self)@.cooldown) as i64, ..old(self)@ }),
    {
        self.next_available = now + self.cooldown;
    }

    /// Makes the command next available `cooldown` seconds after the clock's reading,
    /// when that time fits in an `i64` (as it always does while `cooldown` is at most
    /// `i64::MAX - CLOCK_MAX`); otherwise leaves the command as it is. Only the time of
    /// next availability can change.
    pub fn set_cooldown(&mut self)
        ensures
            final(self)@ == (CommandView { next_available: final(self)@.next_available, ..old(self)@ }),
            final(self)@.next_available == old(self)@.next_available || exists|now: i64|
                final(self)@.next_available == #[trigger] available_after(now, old(self)@.cooldown),
            old(self)@.cooldown <= i64::MAX - CLOCK_MAX ==> exists|now: i64|
                #[trigger] clock_reading(now) && final(self)@.next_available == available_after(
                    now,
                    old(self)@.cooldown,
                ),
    {
        let now = now_timestamp();
        match now.checked_add(self.cooldown) {
            Some(_) => {
                self.set_cooldown_at(now);
                assert(self@.next_available == available_after(now, old(self)@.cooldown));
                assert(clock_reading(now));
            },
            None => {},
        }
    }
}

/// The built-in commands; every other command is `CUSTOM`.
#[derive(Debug, Clone, Copy, PartialEq, Eq, Structural)]
pub enum Commands {
    PING,
    BALL8,
    BAN,
    UNBAN,
    TIMEOUT,
    COMMANDS,
    ADDCOMMAND,
    REMOVECOMMAND,
    FOLLOWAGE,
    UPTIME,
    CATEGORY,
    CUSTOM,
}

/// Who may use a command.
#[derive(Debug, Clone, Copy, PartialEq, Eq, Structural)]
pub enum UserLevel {
    BROADCASTER,
    SUPERMOD,
    MOD,
    VIP,
    SUB,
    EVERYONE,
}

impl UserLevel {
    /// The name by which a user level is shown.
    pub fn label(&self) -> (r: &'static str)
        ensures
            r@ == match self {
                UserLevel::BROADCASTER => "Broadcaster"@,
                UserLevel::SUPERMOD => "Super Moderator"@,
                UserLevel::MOD => "Moderator"@,
                UserLevel::VIP => "VIP"@,
                UserLevel::SUB => "Subscriber"@,
                UserLevel::EVERYONE => "Everyone"@,
            },
    {
        match self {
            UserLevel::BROADCASTER => "Broadcaster",
            UserLevel::SUPERMOD => "Super Moderator",
            UserLevel::MOD => "Moderator",
            UserLevel::VIP => "VIP",
            UserLevel::SUB => "Subscriber",
            UserLevel::EVERYONE => "Everyone",
        }
    }
}

// ---------------------------------------------------------------------------
// Laws
// ---------------------------------------------------------------------------

/// After `add_channel(channel)` (whose `ensures` gives `after@`), `get_channel` of the
/// channel's name gives that channel, and every other name gives what it gave before.
pub proof fn law_lookup_after_add(before: Channels, after: Channels, channel: ChannelCommands, k: Seq<char>)
    requires
        after@ == before@.insert(channel@.channel_name, channel),
    ensures
        channel_named(after@, channel@.channel_name) == Some(channel),
        k != channel@.channel_name ==> channel_named(after@, k) == channel_named(before@, k),
{
}

/// After `remove_channel(name)`, `get_channel(name)` gives nothing, and every other name
/// gives what it gave before.
pub proof fn law_lookup_after_remove(before: Channels, after: Channels, name: Seq<char>, k: Seq<char>)
    requires
        after@ == before@.remove(name),
    ensures
        channel_named(after@, name) is None,
        k != name ==> channel_named(after@, k) == channel_named(before@, k),
{
}

/// After a channel got through `get_channel_mut(name)` is changed to `changed` (a new
/// name included), `get_channel(name)` gives `changed`, and every other name gives what
/// it gave before.
pub proof fn law_lookup_after_change(before: Channels, after: Channels, name: Seq<char>, changed: ChannelCommands, k: Seq<char>)
    requires
        after@ == before@.insert(name, changed),
    ensures
        channel_named(after@, name) == Some(changed),
        k != name ==> channel_named(after@, k) == channel_named(before@, k),
{
}

/// A registry built by `new`, `add_channel`, `remove_channel`, and changes through
/// `get_channel_mut` that keep a channel's name holds every channel under its own name:
/// `get_channel(n)` then gives only a channel named `n`.
pub proof fn law_channels_keep_their_names(
    m: Map<Seq<char>, ChannelCommands>,
    c: ChannelCommands,
    k: Seq<char>,
)
    ensures
        names_match(Map::empty()),
        names_match(m) ==> names_match(m.insert(c@.channel_name, c)),
        names_match(m) ==> names_match(m.remove(k)),
        names_match(m) && c@.channel_name == k ==> names_match(m.insert(k, c)),
        names_match(m) ==> (channel_named(m, k) matches Some(found) ==> found@.channel_name == k),
{
    assert(names_match(m) ==> names_match(m.insert(c@.channel_name, c))) by {
        if names_match(m) {
            assert forall|j: Seq<char>| #[trigger] m.insert(c@.channel_name, c).contains_key(j)
                implies m.insert(c@.channel_name, c)[j]@.channel_name == j by {
                if j != c@.channel_name {
                    assert(m.contains_key(j));
                }
            }
        }
    }
    assert(names_match(m) ==> names_match(m.remove(k))) by {
        if names_match(m) {
            assert forall|j: Seq<char>| #[trigger] m.remove(k).contains_key(j)
                implies m.remove(k)[j]@.channel_name == j by {
                assert(m.contains_key(j));
            }
        }
    }
    assert(names_match(m) && c@.channel_name == k ==> names_match(m.insert(k, c))) by {
        if names_match(m) && c@.channel_name == k {
            assert forall|j: Seq<char>| #[trigger] m.insert(k, c).contains_key(j)
                implies m.insert(k, c)[j]@.channel_name == j by {
                if j != k {
                    assert(m.contains_key(j));
                }
            }
        }
    }
}

/// After the commands named `k` are removed, none is left, and every other command
/// stays, in order.
pub proof fn law_remove_command(s: Seq<Command>, k: Seq<char>)
    ensures
        forall|i: int| 0 <= i < commands_without(s, k).len() ==> (#[trigger] commands_without(s, k)[i])@.command_name != k,
        forall|c: Command| c@.command_name != k ==> (s.contains(c) <==> #[trigger] commands_without(s, k).contains(c)),
    decreases s.len(),
{
    if s.len() > 0 {
        law_remove_command(s.drop_last(), k);
        let rest = commands_without(s.drop_last(), k);
        assert forall|c: Command| c@.command_name != k implies (s.contains(c) <==> #[trigger] commands_without(s, k).contains(c)) by {
            if s.contains(c) {
                let i = choose|i: int| 0 <= i < s.len() && s[i] == c;
                if i < s.len() - 1 {
                    assert(s.drop_last()[i] == c);
                    assert(s.drop_last().contains(c));
                    assert(rest.contains(c));
                    let j = choose|j: int| 0 <= j < rest.len() && rest[j] == c;
                    if s.last()@.command_name != k {
                        assert(rest.push(s.last())[j] == c);
                    }
                } else {
                    assert(rest.push(s.last())[rest.len() as int] == c);
                }
            }
            if commands_without(s, k).contains(c) {
                let j = choose|j: int| 0 <= j < commands_without(s, k).len() && commands_without(s, k)[j] == c;
                if j < rest.len() {
                    assert(rest[j] == c);
                    assert(rest.contains(c));
                    assert(s.drop_last().contains(c));
                    let i = choose|i: int| 0 <= i < s.drop_last().len() && s.drop_last()[i] == c;
                    assert(s[i] == c);
                } else {
                    assert(s[s.len() - 1] == c);
                }
            }
        }
    }
}

/// After a command's cooldown is set at time `now`, it counts as off cooldown exactly
/// at the times after `now + cooldown`.
pub proof fn law_cooldown_after_set(before: CommandView, now: i64, t: i64)
    requires
        i64::MIN <= now + before.cooldown <= i64::MAX,
    ensures
        ((CommandView { next_available: (now + before.cooldown) as i64, ..before }).next_available < t)
            <==> t > now + before.cooldown,
{
}

} // verus!

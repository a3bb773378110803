//! What the bot sends when it logs in to chat and joins channels, and the pacing
//! of joins.
use vstd::prelude::*;

verus! {

/// The credentials line for the chat server: `PASS oauth:<token>`.
pub fn pass_message(auth_token: &str) -> (r: String)
    ensures
        r@ == "PASS oauth:"@ + auth_token@,
{
    let mut r = "PASS oauth:".to_owned();
    r.append(auth_token);
    r
}

/// The lines sent right after connecting, in order: the capability request, the
/// credentials line, and the bot's nick.
pub fn handshake_messages(parse_token: &String) -> (r: Vec<String>)
    ensures
        r@.map_values(|s: String| s@) == seq![
            "CAP REQ :twitch.tv/membership twitch.tv/tags twitch.tv/commands"@,
            parse_token@,
            "NICK chloe_dev_rust"@,
        ],
{
    let mut r: Vec<String> = Vec::new();
    r.push("CAP REQ :twitch.tv/membership twitch.tv/tags twitch.tv/commands".to_owned());
    r.push(parse_token.clone());
    r.push("NICK chloe_dev_rust".to_owned());
    assert(r@.map_values(|s: String| s@) =~= seq![
        "CAP REQ :twitch.tv/membership twitch.tv/tags twitch.tv/commands"@,
        parse_token@,
        "NICK chloe_dev_rust"@,
    ]);
    r
}

/// The channels to join: those stored for the bot's users, then `maximum`.
pub fn channels_to_join(stored: Vec<String>) -> (r: Vec<String>)
    ensures
        r@ == stored@.push(r@.last()),
        r@.last()@ == "maximum"@,
{
    let mut r = stored;
    r.push("maximum".to_owned());
    r
}

/// The line that joins `channel`: `JOIN #<channel>`.
pub fn join_message(channel: &str) -> (r: String)
    ensures
        r@ == "JOIN #"@ + channel@,
{
    let mut r = "JOIN #".to_owned();
    r.append(channel);
    r
}

/// The line that leaves `channel`: `PART #<channel>`.
pub fn part_message(channel: &str) -> (r: String)
    ensures
        r@ == "PART #"@ + channel@,
{
    let mut r = "PART #".to_owned();
    r.append(channel);
    r
}

/// How many joins the chat server takes before the bot pauses.
pub const JOINS_PER_PAUSE: u8 = 10;

/// How many joins there have been since the last pause, after one more join.
pub open spec fn pacer_step(count: u8) -> u8 {
    if count + 1 == JOINS_PER_PAUSE {
        0
    } else {
        (count + 1) as u8
    }
}

/// The count after `n` joins from a fresh pacer.
pub open spec fn pacer_after(n: nat) -> u8
    decreases n,
{
    if n == 0 {
        0
    } else {
        pacer_step(pacer_after((n - 1) as nat))
    }
}

/// Counts joins; after every tenth the bot pauses for ten seconds.
pub struct JoinPacer {
    joined_since_pause: u8,
}

impl View for JoinPacer {
    type V = u8;

    closed spec fn view(&self) -> u8 {
        self.joined_since_pause
    }
}

impl JoinPacer {
    /// The count stays below the number of joins per pause.
    #[verifier::type_invariant]
    closed spec fn below_pause(self) -> bool {
        self.joined_since_pause < JOINS_PER_PAUSE
    }

    /// No joins yet.
    pub fn new() -> (r: Self)
        ensures
            r@ == 0,
    {
        JoinPacer { joined_since_pause: 0 }
    }

    /// Records one join; answers whether the bot must pause now.
    pub fn record_join(&mut self) -> (pause: bool)
        ensures
            final(self)@ == pacer_step(old(self)@),
            pause == (old(self)@ + 1 == JOINS_PER_PAUSE),
            final(self)@ < JOINS_PER_PAUSE,
    {
        proof {
            use_type_invariant(&*self);
        }
        if self.joined_since_pause + 1 == JOINS_PER_PAUSE {
            self.joined_since_pause = 0;
            true
        } else {
            self.joined_since_pause = self.joined_since_pause + 1;
            false
        }
    }
}

/// After `n` joins from a fresh pacer the count is `n % 10`, so the bot pauses right
/// after the joins numbered 10, 20, 30, and so on, and after no others.
pub proof fn law_pacer_counts(n: nat)
    ensures
        pacer_after(n) == n % 10,
        n > 0 ==> (pacer_after(n) == 0 <==> n % 10 == 0),
    decreases n,
{
    if n > 0 {
        law_pacer_counts((n - 1) as nat);
    }
}

} // verus!

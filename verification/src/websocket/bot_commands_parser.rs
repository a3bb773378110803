//! The bot's own chat commands.
use vstd::prelude::*;

use crate::text::{chars_of, eq_str};

verus! {

/// The reply the bot sends to `message` in `channel`: `!ping` is answered with
/// `PRIVMSG <channel> :PONG`; any other message gets no reply.
pub fn command_reply(message: &str, channel: &str) -> (r: Option<String>)
    ensures
        message@ == "!ping"@ ==> (r matches Some(s) && s@ == "PRIVMSG "@ + channel@ + " :PONG"@),
        message@ != "!ping"@ ==> r is None,
{
    let m = chars_of(message);
    if eq_str(&m, "!ping") {
        let mut reply = "PRIVMSG ".to_owned();
        reply.append(channel);
        reply.append(" :PONG");
        Some(reply)
    } else {
        None
    }
}

} // verus!

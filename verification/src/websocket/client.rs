//! The decisions of the chat client: how long to wait before reconnecting, and how to
//! answer the server's keep-alive pings.
use vstd::prelude::*;
use vstd::arithmetic::power2::pow2;

use crate::text::{chars_of, starts_with_seq, starts_with_str};

verus! {

/// The longest wait between reconnection attempts, in seconds.
pub const MAX_BACKOFF: u64 = 300;

/// By how much the wait grows after each failed or ended connection.
pub const BACKOFF_FACTOR: u64 = 2;

/// The wait that follows a wait of `delay` seconds.
pub open spec fn next_delay(delay: u64) -> u64 {
    if delay * 2 <= MAX_BACKOFF {
        (delay * 2) as u64
    } else {
        MAX_BACKOFF
    }
}

/// The wait before the reconnection attempt that follows `k` waits in a row.
pub open spec fn delay_after(k: nat) -> u64
    decreases k,
{
    if k == 0 {
        1
    } else {
        next_delay(delay_after((k - 1) as nat))
    }
}

/// The wait before the next reconnection attempt.
pub struct Backoff {
    delay: u64,
}

impl View for Backoff {
    type V = u64;

    closed spec fn view(&self) -> u64 {
        self.delay
    }
}

impl Backoff {
    /// The wait is at least one second and at most [`MAX_BACKOFF`].
    #[verifier::type_invariant]
    closed spec fn in_range(self) -> bool {
        1 <= self.delay <= MAX_BACKOFF
    }

    /// A first wait of one second.
    pub fn new() -> (r: Self)
        ensures
            r@ == 1,
    {
        Backoff { delay: 1 }
    }

    /// A connection was made: the next wait is one second again.
    pub fn connected(&mut self)
        ensures
            final(self)@ == 1,
    {
        self.delay = 1;
    }

    /// A connection failed or ended: answers how long to wait now, and doubles the
    /// wait for next time, up to [`MAX_BACKOFF`].
    pub fn wait_before_retry(&mut self) -> (wait: u64)
        ensures
            wait == old(self)@,
            final(self)@ == next_delay(old(self)@),
            1 <= wait <= MAX_BACKOFF,
    {
        proof {
            use_type_invariant(&*self);
        }
        let wait = self.delay;
        let doubled = self.delay * BACKOFF_FACTOR;
        self.delay = if doubled <= MAX_BACKOFF {
            doubled
        } else {
            MAX_BACKOFF
        };
        wait
    }
}

/// After `k` waits in a row from a fresh start the wait is `2^k` seconds, capped at
/// [`MAX_BACKOFF`]: it never falls below one second nor exceeds the cap.
pub proof fn law_backoff_doubles_to_cap(k: nat)
    ensures
        delay_after(k) == (if pow2(k) <= MAX_BACKOFF {
            pow2(k) as u64
        } else {
            MAX_BACKOFF
        }),
        1 <= delay_after(k) <= MAX_BACKOFF,
    decreases k,
{
    vstd::arithmetic::power2::lemma_pow2_pos(k);
    if k == 0 {
        vstd::arithmetic::power2::lemma2_to64();
    } else {
        law_backoff_doubles_to_cap((k - 1) as nat);
        vstd::arithmetic::power2::lemma_pow2_unfold(k);
    }
}

/// The answer to a line from the server: a line that starts with `PING` is answered
/// `PONG :tmi.twitch.tv`; other lines get no answer.
pub fn ping_reply(data: &str) -> (r: Option<String>)
    ensures
        starts_with_seq(data@, "PING"@) ==> (r matches Some(s) && s@ == "PONG :tmi.twitch.tv"@),
        !starts_with_seq(data@, "PING"@) ==> r is None,
{
    let d = chars_of(data);
    if starts_with_str(&d, "PING") {
        Some("PONG :tmi.twitch.tv".to_owned())
    } else {
        None
    }
}

} // verus!

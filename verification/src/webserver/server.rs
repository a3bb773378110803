//! What the web server computes: the random `state` of an OAuth login and the
//! address the login is sent to.
use vstd::prelude::*;
use rand::Rng;

use crate::text::{is_ascii_alphanumeric, push_char};

verus! {

/// Calls `rand::thread_rng().sample(rand::distributions::Alphanumeric)`, which draws
/// one byte from `A`-`Z`, `a`-`z`, `0`-`9`; the contract claims that range and
/// nothing of which one is drawn (rand panics if the system gives it no seed).
#[verifier::external_body]
fn sample_alphanumeric() -> (c: char)
    ensures
        is_ascii_alphanumeric(c),
{
    char::from(rand::thread_rng().sample(rand::distributions::Alphanumeric))
}

/// How many characters an OAuth `state` has.
pub const STATE_LEN: usize = 32;

/// A fresh random OAuth `state`: thirty-two ASCII letters and digits.
pub fn generate_state() -> (r: String)
    ensures
        r@.len() == STATE_LEN,
        forall|i: int| 0 <= i < r@.len() ==> is_ascii_alphanumeric(#[trigger] r@[i]),
{
    let mut r = String::new();
    let mut i: usize = 0;
    while i < STATE_LEN
        invariant
            i <= STATE_LEN,
            r@.len() == i,
            forall|j: int| 0 <= j < r@.len() ==> is_ascii_alphanumeric(#[trigger] r@[j]),
        decreases STATE_LEN - i,
    {
        let c = sample_alphanumeric();
        push_char(&mut r, c);
        i = i + 1;
    }
    r
}

/// The address of Twitch's authorization page for this bot, before the `state`.
pub open spec fn authorize_prefix() -> Seq<char> {
    "https://id.twitch.tv/oauth2/authorize?response_type=code&client_id=9wexo28wfkm476ztq18vafo6xio5la&redirect_uri=https://localhost:8080/auth&scope=moderator:manage:chat_messages&state="@
}

/// Where a login is redirected: Twitch's authorization page, carrying `state`.
pub fn authorize_redirect_url(state: &str) -> (r: String)
    ensures
        r@ == authorize_prefix() + state@,
{
    let mut r = "https://id.twitch.tv/oauth2/authorize?response_type=code&client_id=9wexo28wfkm476ztq18vafo6xio5la&redirect_uri=https://localhost:8080/auth&scope=moderator:manage:chat_messages&state=".to_owned();
    r.append(state);
    r
}

} // verus!

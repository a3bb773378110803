//! The decisions of the OAuth login route: checking the `state`, the parameters of
//! the token request, what the user's record holds, and which answer each outcome of
//! the outside calls gets.
use vstd::prelude::*;

use crate::clock::{clock_reading, now_timestamp, CLOCK_MAX};
use crate::text::{chars_of, eq_str, join_with, lemma_split_join, split};

verus! {

/// The form of the token request: the client's id and secret, the code Twitch gave,
/// the grant type and the address Twitch redirects to.
pub fn create_token_params(client_id: &String, client_secret: &String, code: &String) -> (r: [(
    &'static str,
    String,
); 5])
    ensures
        r@[0].0@ == "client_id"@ && r@[0].1@ == client_id@,
        r@[1].0@ == "client_secret"@ && r@[1].1@ == client_secret@,
        r@[2].0@ == "code"@ && r@[2].1@ == code@,
        r@[3].0@ == "grant_type"@ && r@[3].1@ == "authorization_code"@,
        r@[4].0@ == "redirect_uri"@ && r@[4].1@ == "https://localhost:8080/auth"@,
{
    [
        ("client_id", client_id.clone()),
        ("client_secret", client_secret.clone()),
        ("code", code.clone()),
        ("grant_type", "authorization_code".to_owned()),
        ("redirect_uri", "https://localhost:8080/auth".to_owned()),
    ]
}

/// The elements of `vec` with a comma between neighbours.
pub fn convert_vector_to_string(vec: Vec<String>) -> (r: String)
    ensures
        r@ == join_with(vec@.map_values(|s: String| s@), ","@),
{
    let ghost views = vec@.map_values(|s: String| s@);
    let mut r = String::new();
    let mut i: usize = 0;
    while i < vec.len()
        invariant
            views == vec@.map_values(|s: String| s@),
            i <= vec.len(),
            r@ == join_with(views.take(i as int), ","@),
        decreases vec.len() - i,
    {
        let ghost before = r@;
        if i > 0 {
            r.append(",");
        }
        r.append(vec[i].as_str());
        proof {
            let t = views.take(i + 1);
            assert(t.drop_last() =~= views.take(i as int));
            assert(t.last() == vec@[i as int]@);
            if i == 0 {
                assert(before =~= Seq::<char>::empty());
                assert(r@ =~= t[0]);
            } else {
                assert(r@ =~= before + ","@ + t.last());
            }
        }
        i = i + 1;
    }
    assert(views.take(vec.len() as int) =~= views);
    r
}

/// The expiry time `now + expire_in`, cut to 32 bits.
pub open spec fn expiry_from(now: i64, expire_in: i64) -> i32 {
    (now + expire_in) as i32
}

/// The expiry follows the clock: while it fits in 32 bits it is the reading plus the
/// token's lifetime, so two readings `d` seconds apart give expiries `d` seconds apart.
pub proof fn law_expiry_moves_with_the_clock(now1: i64, now2: i64, expire_in: i64)
    requires
        i32::MIN <= now1 + expire_in <= i32::MAX,
        i32::MIN <= now2 + expire_in <= i32::MAX,
    ensures
        expiry_from(now1, expire_in) == now1 + expire_in,
        expiry_from(now2, expire_in) - expiry_from(now1, expire_in) == now2 - now1,
{
}

/// Splitting at commas what [`convert_vector_to_string`] gives for a non-empty list
/// of texts without commas gives the list back.
pub proof fn law_split_undoes_convert(items: Seq<Seq<char>>)
    requires
        items.len() > 0,
        forall|i: int| 0 <= i < items.len() ==> !(#[trigger] items[i]).contains(','),
    ensures
        split(join_with(items, ","@), ',') == items,
{
    reveal_strlit(",");
    assert(","@ =~= seq![',']);
    lemma_split_join(items, ',');
}

/// When a token that lives `expire_in` seconds from `now` expires, as a timestamp cut
/// to 32 bits.
pub fn expiry_timestamp_at(now: i64, expire_in: i64) -> (r: i32)
    requires
        i64::MIN <= now + expire_in <= i64::MAX,
    ensures
        r == (now + expire_in) as i32,
{
    let t = now + expire_in;
    t as i32
}

/// When a token that lives `expire_in` seconds from the clock's reading expires, as a
/// timestamp cut to 32 bits; `None` when the sum does not fit in an `i64`, which no
/// clock reading allows while `expire_in` is at most `i64::MAX - CLOCK_MAX`.
pub fn get_times_stamp(expire_in: i64) -> (r: Option<i32>)
    ensures
        r matches Some(t) ==> exists|now: i64|
            clock_reading(now) && i64::MIN <= now + expire_in <= i64::MAX && t
                == #[trigger] expiry_from(now, expire_in),
        expire_in <= i64::MAX - CLOCK_MAX ==> r is Some,
{
    let now = now_timestamp();
    match now.checked_add(expire_in) {
        Some(_) => {
            let t = expiry_timestamp_at(now, expire_in);
            assert(clock_reading(now) && i64::MIN <= now + expire_in <= i64::MAX && t
                == expiry_from(now, expire_in));
            Some(t)
        },
        None => None,
    }
}

/// Whether the `state` the login came back with is the one stored in its cookie.
pub fn state_matches(cookie_state: Option<&str>, query_state: &str) -> (r: bool)
    ensures
        r == (cookie_state matches Some(c) && c@ == query_state@),
{
    match cookie_state {
        Some(c) => {
            let cc = chars_of(c);
            eq_str(&cc, query_state)
        },
        None => false,
    }
}

/// Whether a failed token validation means the stored user must go: when Twitch
/// answered `401 Unauthorized`.
pub fn should_delete_user(status: Option<u16>) -> (r: bool)
    ensures
        r == (status == Some(401u16)),
{
    match status {
        Some(s) => s == 401,
        None => false,
    }
}

/// The query a login comes back with from Twitch.
#[derive(Debug, Clone)]
pub struct QueryAuth {
    pub state: String,
    pub code: String,
    pub scope: String,
}

/// Twitch's answer to a token validation.
#[derive(Debug, Clone)]
pub struct VerifyResponse {
    pub client_id: String,
    pub login: String,
    pub scopes: Vec<String>,
    pub user_id: String,
    pub expires_in: u64,
}

// ---------------------------------------------------------------------------
// The login route as a state machine
// ---------------------------------------------------------------------------

/// Where a login stands.
#[derive(Debug, Clone, Copy, PartialEq, Eq, Structural)]
pub enum AuthStage {
    AwaitingRequest,
    AwaitingToken,
    AwaitingValidation,
    AwaitingStore,
    AwaitingRevoke,
    Done,
}

/// What happened outside.
#[derive(Debug, Clone)]
pub enum AuthEvent {
    /// The login came back with `query`; the cookie held `cookie_state`.
    Request { cookie_state: Option<String>, query: QueryAuth },
    /// The token request succeeded or failed.
    TokenFetched { ok: bool },
    /// The token validation succeeded or failed.
    TokenValidated { ok: bool },
    /// Storing the user succeeded or failed.
    UserStored { ok: bool },
    /// The user's old token was revoked.
    TokenRevoked,
}

/// What to do next.
#[derive(Debug, Clone)]
pub enum AuthAction {
    FetchToken,
    ValidateToken,
    StoreUser,
    RevokeOldToken,
    Respond { status: u16, body: String },
}

pub enum AuthEventView {
    Request { cookie_state: Option<Seq<char>>, query_state: Seq<char> },
    TokenFetched { ok: bool },
    TokenValidated { ok: bool },
    UserStored { ok: bool },
    TokenRevoked,
}

pub enum AuthActionView {
    FetchToken,
    ValidateToken,
    StoreUser,
    RevokeOldToken,
    Respond { status: u16, body: Seq<char> },
}

impl View for AuthEvent {
    type V = AuthEventView;

    open spec fn view(&self) -> AuthEventView {
        match self {
            AuthEvent::Request { cookie_state, query } => AuthEventView::Request {
                cookie_state: match cookie_state {
                    Some(c) => Some(c@),
                    None => None,
                },
                query_state: query.state@,
            },
            AuthEvent::TokenFetched { ok } => AuthEventView::TokenFetched { ok: *ok },
            AuthEvent::TokenValidated { ok } => AuthEventView::TokenValidated { ok: *ok },
            AuthEvent::UserStored { ok } => AuthEventView::UserStored { ok: *ok },
            AuthEvent::TokenRevoked => AuthEventView::TokenRevoked,
        }
    }
}

impl View for AuthAction {
    type V = AuthActionView;

    open spec fn view(&self) -> AuthActionView {
        match self {
            AuthAction::FetchToken => AuthActionView::FetchToken,
            AuthAction::ValidateToken => AuthActionView::ValidateToken,
            AuthAction::StoreUser => AuthActionView::StoreUser,
            AuthAction::RevokeOldToken => AuthActionView::RevokeOldToken,
            AuthAction::Respond { status, body } => AuthActionView::Respond {
                status: *status,
                body: body@,
            },
        }
    }
}

/// Whether `event` is one that can happen at `stage`.
pub open spec fn event_fits(stage: AuthStage, event: AuthEventView) -> bool {
    match (stage, event) {
        (AuthStage::AwaitingRequest, AuthEventView::Request { .. }) => true,
        (AuthStage::AwaitingToken, AuthEventView::TokenFetched { .. }) => true,
        (AuthStage::AwaitingValidation, AuthEventView::TokenValidated { .. }) => true,
        (AuthStage::AwaitingStore, AuthEventView::UserStored { .. }) => true,
        (AuthStage::AwaitingRevoke, AuthEventView::TokenRevoked) => true,
        _ => false,
    }
}

/// An answer that ends the login.
pub open spec fn respond(status: u16, body: Seq<char>) -> (AuthStage, AuthActionView) {
    (AuthStage::Done, AuthActionView::Respond { status, body })
}

/// The next stage and action of a login at `stage` when `event` happens.
pub open spec fn auth_transition(stage: AuthStage, event: AuthEventView) -> (AuthStage, AuthActionView) {
    match event {
        AuthEventView::Request { cookie_state, query_state } => {
            if cookie_state == Some(query_state) {
                (AuthStage::AwaitingToken, AuthActionView::FetchToken)
            } else {
                respond(400, "Invalid State"@)
            }
        },
        AuthEventView::TokenFetched { ok } => {
            if ok {
                (AuthStage::AwaitingValidation, AuthActionView::ValidateToken)
            } else {
                respond(500, "Error getting token"@)
            }
        },
        AuthEventView::TokenValidated { ok } => {
            if ok {
                (AuthStage::AwaitingStore, AuthActionView::StoreUser)
            } else {
                respond(500, "Error validating token"@)
            }
        },
        AuthEventView::UserStored { ok } => {
            if ok {
                (AuthStage::AwaitingRevoke, AuthActionView::RevokeOldToken)
            } else {
                respond(500, "Unexpected Error. Please try again later."@)
            }
        },
        AuthEventView::TokenRevoked => respond(200, "Hello"@),
    }
}

fn respond_with(status: u16, body: &str) -> (r: (AuthStage, AuthAction))
    ensures
        (r.0, r.1@) == respond(status, body@),
{
    (AuthStage::Done, AuthAction::Respond { status, body: body.to_owned() })
}

/// One step of the login route: where it goes and what it does when `event` happens.
pub fn auth_step(stage: AuthStage, event: &AuthEvent) -> (r: (AuthStage, AuthAction))
    requires
        event_fits(stage, event@),
    ensures
        (r.0, r.1@) == auth_transition(stage, event@),
{
    match event {
        AuthEvent::Request { cookie_state, query } => {
            let matched = match cookie_state {
                Some(c) => {
                    let cc = chars_of(c.as_str());
                    eq_str(&cc, query.state.as_str())
                },
                None => false,
            };
            if matched {
                (AuthStage::AwaitingToken, AuthAction::FetchToken)
            } else {
                respond_with(400, "Invalid State")
            }
        },
        AuthEvent::TokenFetched { ok } => {
            if *ok {
                (AuthStage::AwaitingValidation, AuthAction::ValidateToken)
            } else {
                respond_with(500, "Error getting token")
            }
        },
        AuthEvent::TokenValidated { ok } => {
            if *ok {
                (AuthStage::AwaitingStore, AuthAction::StoreUser)
            } else {
                respond_with(500, "Error validating token")
            }
        },
        AuthEvent::UserStored { ok } => {
            if *ok {
                (AuthStage::AwaitingRevoke, AuthAction::RevokeOldToken)
            } else {
                respond_with(500, "Unexpected Error. Please try again later.")
            }
        },
        AuthEvent::TokenRevoked => respond_with(200, "Hello"),
    }
}

/// The stages and actions of a login that starts at `stage` and meets `events`.
pub open spec fn auth_run(stage: AuthStage, events: Seq<AuthEventView>) -> (AuthStage, Seq<AuthActionView>)
    decreases events.len(),
{
    if events.len() == 0 {
        (stage, Seq::empty())
    } else {
        let (next, action) = auth_transition(stage, events[0]);
        let (last, rest) = auth_run(next, events.drop_first());
        (last, seq![action] + rest)
    }
}

/// Every step of a login answers exactly when it ends the login, and nothing can happen
/// once the login has ended.
pub proof fn law_answer_ends_login(stage: AuthStage, event: AuthEventView)
    requires
        event_fits(stage, event),
    ensures
        (auth_transition(stage, event).1 is Respond) <==> auth_transition(stage, event).0
            == AuthStage::Done,
        !event_fits(AuthStage::Done, event),
{
}

/// A login whose `state` does not match its cookie is answered `400 Invalid State` at
/// once, and nothing outside is asked.
pub proof fn law_refused_login(cookie_state: Option<Seq<char>>, query_state: Seq<char>)
    requires
        cookie_state != Some(query_state),
    ensures
        auth_transition(
            AuthStage::AwaitingRequest,
            AuthEventView::Request { cookie_state, query_state },
        ) == respond(400, "Invalid State"@),
{
}

/// A login whose `state` matches and whose outside calls all succeed fetches the token,
/// validates it, stores the user, revokes the old token, and is answered `200 Hello`.
pub proof fn law_successful_login(query_state: Seq<char>)
    ensures
        auth_run(
            AuthStage::AwaitingRequest,
            seq![
                AuthEventView::Request { cookie_state: Some(query_state), query_state },
                AuthEventView::TokenFetched { ok: true },
                AuthEventView::TokenValidated { ok: true },
                AuthEventView::UserStored { ok: true },
                AuthEventView::TokenRevoked,
            ],
        ) == (
            AuthStage::Done,
            seq![
                AuthActionView::FetchToken,
                AuthActionView::ValidateToken,
                AuthActionView::StoreUser,
                AuthActionView::RevokeOldToken,
                AuthActionView::Respond { status: 200, body: "Hello"@ },
            ],
        ),
{
    let events = seq![
        AuthEventView::Request { cookie_state: Some(query_state), query_state },
        AuthEventView::TokenFetched { ok: true },
        AuthEventView::TokenValidated { ok: true },
        AuthEventView::UserStored { ok: true },
        AuthEventView::TokenRevoked,
    ];
    reveal_with_fuel(auth_run, 6);
    assert(events.drop_first() =~= seq![
        AuthEventView::TokenFetched { ok: true },
        AuthEventView::TokenValidated { ok: true },
        AuthEventView::UserStored { ok: true },
        AuthEventView::TokenRevoked,
    ]);
    assert(events.drop_first().drop_first() =~= seq![
        AuthEventView::TokenValidated { ok: true },
        AuthEventView::UserStored { ok: true },
        AuthEventView::TokenRevoked,
    ]);
    assert(events.drop_first().drop_first().drop_first() =~= seq![
        AuthEventView::UserStored { ok: true },
        AuthEventView::TokenRevoked,
    ]);
    assert(events.drop_first().drop_first().drop_first().drop_first() =~= seq![
        AuthEventView::TokenRevoked,
    ]);
    assert(events.drop_first().drop_first().drop_first().drop_first().drop_first() =~= Seq::<
        AuthEventView,
    >::empty());
    let r = auth_run(AuthStage::AwaitingRequest, events);
    assert(r.1 =~= seq![
        AuthActionView::FetchToken,
        AuthActionView::ValidateToken,
        AuthActionView::StoreUser,
        AuthActionView::RevokeOldToken,
        AuthActionView::Respond { status: 200, body: "Hello"@ },
    ]);
}

} // verus!

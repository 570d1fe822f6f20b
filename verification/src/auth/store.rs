//! The auth store as the exchange sees it, and what the exchange guarantees
//! when it runs against such a store.
//!
//! The store is modelled as two tables of rows. [`answer`] says what each
//! statement of the exchange does to them and what it reports back, and
//! [`exchange_run`] plays a whole exchange against the model. The theorems at
//! the end are stated over that run.

use crate::auth::cookie::{
    session_cookie_view, CookieView, SitePolicy, COOKIE_NAME, SECONDS_PER_DAY,
};
use crate::auth::error::{AuthError, Denial};
use crate::auth::token::{
    begin_spec, resume_spec, Cookies, ExchangeView, StepView, StoreReply, StoreRequestView,
};
use crate::search::{first_index, is_first, lemma_first_exists, lemma_first_none};
use vstd::prelude::*;

verus! {

/// A row of `users`.
pub struct UserRow {
    pub id: i64,
    pub email: Seq<char>,
    /// The one-time password the user is waiting to redeem, if any.
    pub otp: Option<Seq<char>>,
}

/// A row of `tokens`. `expires` is an instant, counted in seconds.
pub struct TokenRow {
    pub user_id: i64,
    pub token: Seq<char>,
    pub expires: int,
}

/// The two tables, rows in the order the store walks them.
pub struct AuthStore {
    pub users: Seq<UserRow>,
    pub tokens: Seq<TokenRow>,
}

/// For each row of `users`, whether it waits for `otp`.
pub open spec fn holds_otp(users: Seq<UserRow>, otp: Seq<char>) -> Seq<bool> {
    users.map_values(|row: UserRow| row.otp == Some(otp))
}

/// For each row of `tokens`, whether it carries `token` and has not
/// expired at `now`.
pub open spec fn is_live(tokens: Seq<TokenRow>, token: Seq<char>, now: int) -> Seq<bool> {
    tokens.map_values(|row: TokenRow| row.token == token && row.expires > now)
}

/// The row that redeeming `otp` clears: the password goes, the rest stays.
pub open spec fn redeemed(row: UserRow, user_id: i64, otp: Seq<char>) -> UserRow {
    if row.id == user_id && row.otp == Some(otp) {
        UserRow { otp: None, ..row }
    } else {
        row
    }
}

/// Number of rows that redeeming `otp` for `user_id` changes.
pub open spec fn redeemable(users: Seq<UserRow>, user_id: i64, otp: Seq<char>) -> nat {
    users.filter(|row: UserRow| row.id == user_id && row.otp == Some(otp)).len()
}

/// What a statement does to the store at the instant `now`, and what the
/// store answers. A lookup takes the first row that matches. The store of
/// the model never fails.
pub open spec fn answer(store: AuthStore, now: int, request: StoreRequestView) -> (
    AuthStore,
    StoreReply,
) {
    match request {
        StoreRequestView::FindUserByOtp { otp } => (
            store,
            match first_index(holds_otp(store.users, otp)) {
                Some(i) => StoreReply::UserFound(store.users[i].id),
                None => StoreReply::NoMatch,
            },
        ),
        StoreRequestView::FindUserByToken { token } => (
            store,
            match first_index(is_live(store.tokens, token, now)) {
                Some(i) => StoreReply::UserFound(store.tokens[i].user_id),
                None => StoreReply::NoMatch,
            },
        ),
        StoreRequestView::InsertToken { user_id, token, lifetime_days } => (
            AuthStore {
                tokens: store.tokens.push(
                    TokenRow { user_id, token, expires: now + lifetime_days * SECONDS_PER_DAY },
                ),
                ..store
            },
            StoreReply::Inserted,
        ),
        StoreRequestView::ClearOtp { user_id, otp } => (
            AuthStore {
                users: store.users.map_values(|row: UserRow| redeemed(row, user_id, otp)),
                ..store
            },
            StoreReply::Changed(redeemable(store.users, user_id, otp) as u64),
        ),
    }
}

/// Plays `step` against the store until the exchange is done, for at most
/// `rounds` statements. An exchange asks three times at most.
pub open spec fn settle(step: StepView, store: AuthStore, now: int, token: Seq<char>, rounds: nat) -> (
    AuthStore,
    Result<Cookies, AuthError>,
)
    decreases rounds,
{
    match step {
        StepView::Done(result) => (store, result),
        StepView::Ask(exchange, request) => if rounds == 0 {
            (store, Err(AuthError::StorageFailure))
        } else {
            let (next, reply) = answer(store, now, request);
            settle(resume_spec(exchange, reply, token), next, now, token, (rounds - 1) as nat)
        },
    }
}

/// A whole exchange at the instant `now`: the store it leaves behind and
/// the jar or the refusal it ends with. `token` is the token that is drawn
/// if one is issued.
pub open spec fn exchange_run(
    store: AuthStore,
    now: int,
    otp: Option<Seq<char>>,
    jar: Cookies,
    token: Seq<char>,
) -> (AuthStore, Result<Cookies, AuthError>) {
    settle(begin_spec(otp, jar), store, now, token, 3)
}

/// A one-time password is good for one exchange. When exactly one user
/// waits for `otp`, redeeming it succeeds: the jar comes back with the
/// session cookie for the new token, the token is stored for that user with
/// its full lifetime, and the user's password is cleared while every other
/// row stays as it was. Redeeming the same password again, at any later
/// time and with any jar, is refused as unauthorized and changes nothing.
pub proof fn theorem_otp_single_use(
    store: AuthStore,
    now: int,
    otp: Seq<char>,
    jar: Cookies,
    token: Seq<char>,
    holder: int,
    later: int,
    other_jar: Cookies,
    other_token: Seq<char>,
)
    requires
        0 <= holder < store.users.len(),
        store.users[holder].otp == Some(otp),
        forall|i: int| 0 <= i < store.users.len() && i != holder ==> store.users[i].otp != Some(otp),
    ensures
        ({
            let (after, result) = exchange_run(store, now, Some(otp), jar, token);
            &&& result == Ok::<Cookies, AuthError>(jar.insert(COOKIE_NAME@, session_cookie_view(token)))
            &&& after.users == store.users.update(
                holder,
                UserRow { otp: None, ..store.users[holder] },
            )
            &&& after.tokens == store.tokens.push(
                TokenRow { user_id: store.users[holder].id, token, expires: now + 34_560_000 },
            )
            &&& exchange_run(after, later, Some(otp), other_jar, other_token) == (
                after,
                Err::<Cookies, AuthError>(AuthError::Unauthorized(Denial::OtpNotFound)),
            )
        }),
{
    reveal_with_fuel(settle, 4);
    let users = store.users;
    lemma_first_exists(holds_otp(users, otp), holder);
    assert(first_index(holds_otp(users, otp)) == Some(holder));
    let (after, result) = exchange_run(store, now, Some(otp), jar, token);
    assert(after.users == users.map_values(|row: UserRow| redeemed(row, users[holder].id, otp)));
    lemma_first_none(holds_otp(after.users, otp));
}

/// Renewal by cookie. When the jar carries a session token that the store
/// knows and that has not expired, the exchange succeeds: the jar comes back
/// with the session cookie for a new token, that token is stored with its
/// full lifetime for the user who owns the first such row, and no user row
/// is touched.
pub proof fn theorem_cookie_renewal(
    store: AuthStore,
    now: int,
    jar: Cookies,
    token: Seq<char>,
    row: int,
)
    requires
        jar.contains_key(COOKIE_NAME@),
        0 <= row < store.tokens.len(),
        store.tokens[row].token == jar[COOKIE_NAME@].value,
        store.tokens[row].expires > now,
    ensures
        ({
            let (after, result) = exchange_run(store, now, None, jar, token);
            let live = is_live(store.tokens, jar[COOKIE_NAME@].value, now);
            let first = first_index(live);
            &&& first is Some
            &&& is_first(live, first->0)
            &&& result == Ok::<Cookies, AuthError>(jar.insert(COOKIE_NAME@, session_cookie_view(token)))
            &&& after.users == store.users
            &&& after.tokens == store.tokens.push(
                TokenRow {
                    user_id: store.tokens[first->0].user_id,
                    token,
                    expires: now + 34_560_000,
                },
            )
        }),
{
    let live = is_live(store.tokens, jar[COOKIE_NAME@].value, now);
    lemma_first_exists(live, row);
    reveal_with_fuel(settle, 4);
}

/// An expired token is as good as none. When the jar carries a session
/// token but every row with that token has expired, or there is no such row,
/// the exchange is refused as unauthorized and the store stays as it was.
pub proof fn theorem_expired_token_refused(
    store: AuthStore,
    now: int,
    jar: Cookies,
    token: Seq<char>,
)
    requires
        jar.contains_key(COOKIE_NAME@),
        forall|i: int|
            0 <= i < store.tokens.len() && store.tokens[i].token == jar[COOKIE_NAME@].value
                ==> store.tokens[i].expires <= now,
    ensures
        exchange_run(store, now, None, jar, token) == (
            store,
            Err::<Cookies, AuthError>(AuthError::Unauthorized(Denial::TokenNotFound)),
        ),
{
    lemma_first_none(is_live(store.tokens, jar[COOKIE_NAME@].value, now));
    reveal_with_fuel(settle, 4);
}

/// Without a password and without a session cookie nothing is asked of the
/// store: the exchange is refused at once.
pub proof fn theorem_missing_cookie_refused(
    store: AuthStore,
    now: int,
    jar: Cookies,
    token: Seq<char>,
)
    requires
        !jar.contains_key(COOKIE_NAME@),
    ensures
        exchange_run(store, now, None, jar, token) == (
            store,
            Err::<Cookies, AuthError>(AuthError::Unauthorized(Denial::TokenNotFound)),
        ),
{
    reveal_with_fuel(settle, 4);
}

/// Plays an exchange from `step` on against any answers at all: each reply
/// in turn answers the statement that is open, until the exchange is done
/// or the replies are used up. `token` is the token that is drawn if one is
/// issued.
pub open spec fn exchange_trace(step: StepView, replies: Seq<StoreReply>, token: Seq<char>) -> StepView
    decreases replies.len(),
{
    match step {
        StepView::Done(_) => step,
        StepView::Ask(exchange, _) => if replies.len() == 0 {
            step
        } else {
            exchange_trace(resume_spec(exchange, replies[0], token), replies.drop_first(), token)
        },
    }
}

/// Whether `step` is on the way from `jar` to `jar` with the session cookie
/// for `token`.
pub open spec fn carries_jar(step: StepView, jar: Cookies, token: Seq<char>) -> bool {
    let issued = jar.insert(COOKIE_NAME@, session_cookie_view(token));
    match step {
        StepView::Ask(ExchangeView::FindingByOtp { jar: held, .. }, _) => held == jar,
        StepView::Ask(ExchangeView::FindingByToken { jar: held }, _) => held == jar,
        StepView::Ask(ExchangeView::Inserting { jar: held, token: drawn, .. }, _) => held == jar
            && drawn == token,
        StepView::Ask(ExchangeView::Clearing { jar: held }, _) => held == issued,
        StepView::Done(Ok(out)) => out == issued,
        StepView::Done(Err(_)) => true,
    }
}

/// [`carries_jar`] holds all along an exchange.
proof fn lemma_trace_carries_jar(
    step: StepView,
    replies: Seq<StoreReply>,
    jar: Cookies,
    token: Seq<char>,
)
    requires
        carries_jar(step, jar, token),
    ensures
        carries_jar(exchange_trace(step, replies, token), jar, token),
    decreases replies.len(),
{
    match step {
        StepView::Done(_) => {},
        StepView::Ask(exchange, _) => {
            if replies.len() > 0 {
                lemma_trace_carries_jar(
                    resume_spec(exchange, replies[0], token),
                    replies.drop_first(),
                    jar,
                    token,
                );
            }
        },
    }
}

/// Every cookie that is issued is a session cookie in full. However the
/// store answers, an exchange that succeeds hands back the jar it was given
/// with one change: the session cookie carries the new token and is
/// HTTP-only, `Secure`, `SameSite=Strict`, scoped to `/` and kept for
/// 34,560,000 seconds. It never hands the jar back as it was.
pub proof fn theorem_success_sets_session_cookie(
    otp: Option<Seq<char>>,
    jar: Cookies,
    replies: Seq<StoreReply>,
    token: Seq<char>,
)
    ensures
        exchange_trace(begin_spec(otp, jar), replies, token) matches StepView::Done(Ok(out)) ==> {
            &&& out == jar.insert(COOKIE_NAME@, session_cookie_view(token))
            &&& out.contains_key(COOKIE_NAME@)
            &&& out[COOKIE_NAME@] == CookieView {
                value: token,
                http_only: Some(true),
                secure: Some(true),
                same_site: Some(SitePolicy::Strict),
                path: Some("/"@),
                max_age: Some(34_560_000),
            }
        },
{
    lemma_trace_carries_jar(begin_spec(otp, jar), replies, jar, token);
}

} // verus!

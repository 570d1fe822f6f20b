//! The token exchange, one store statement at a time.
//!
//! An exchange never touches the store itself. [`begin`] and [`resume`] say
//! which statement to run next, the caller runs it and reports what the store
//! answered, and so on until the exchange is [`Step::Done`]. Every decision of
//! the protocol is taken here; the caller only carries statements and answers.

use crate::auth::cookie::{
    jar_cookies, session_cookie_view, session_token, with_session, CookieView, COOKIE_NAME,
    TOKEN_LIFETIME_DAYS,
};
use crate::auth::error::{AuthError, Denial};
use axum_extra::extract::cookie::CookieJar;
use vstd::prelude::*;

verus! {

/// Number of characters in a session token.
pub const TOKEN_LENGTH: usize = 21;

/// Finds the user who waits for a one-time password.
pub const FIND_USER_BY_OTP: &'static str = "SELECT id FROM users WHERE otp = :otp";

/// Finds the user behind a session token that has not expired.
pub const FIND_USER_BY_TOKEN: &'static str =
    "SELECT user_id FROM tokens WHERE token = :token AND expires > JULIANDAY('now')";

/// Stores a token that expires `:lifetime_days` from now.
pub const INSERT_TOKEN: &'static str =
    "INSERT INTO tokens (user_id, token, expires) VALUES (:user_id, :token, JULIANDAY('now') + :lifetime_days)";

/// Clears a one-time password, unless it was cleared or changed meanwhile.
pub const CLEAR_OTP: &'static str =
    "UPDATE users SET otp = NULL WHERE id = :user_id AND otp = :otp";

/// Body of a request to issue or renew a token.
#[derive(Debug, PartialEq, Eq)]
pub struct TokenRequestData {
    pub otp: Option<String>,
}

/// A statement for the store, with the values to bind to it.
#[derive(Debug, PartialEq, Eq)]
pub enum StoreRequest {
    /// [`FIND_USER_BY_OTP`]; the answer is the first row.
    FindUserByOtp { otp: String },
    /// [`FIND_USER_BY_TOKEN`]; the answer is the first row.
    FindUserByToken { token: String },
    /// [`INSERT_TOKEN`].
    InsertToken { user_id: i64, token: String, lifetime_days: u64 },
    /// [`CLEAR_OTP`].
    ClearOtp { user_id: i64, otp: String },
}

/// What the store answered.
#[derive(Clone, Copy, Debug, PartialEq, Eq, Structural)]
pub enum StoreReply {
    /// A lookup found this user.
    UserFound(i64),
    /// A lookup found no row.
    NoMatch,
    /// An insert went through.
    Inserted,
    /// An update went through and changed this many rows.
    Changed(u64),
    /// The statement failed.
    Failed,
}

/// An exchange that waits for the store. It is made by [`begin`] and by
/// [`grant`], moved on by [`resume`], and cannot be put together by hand.
#[derive(Debug)]
pub struct Exchange {
    waiting: Waiting,
}

/// What an exchange is waiting for.
#[derive(Debug)]
enum Waiting {
    /// The user who holds `otp`.
    FindingByOtp { otp: String, jar: CookieJar },
    /// The user behind the session token in `jar`.
    FindingByToken { jar: CookieJar },
    /// `token` to be stored for `user_id`; `paid` is the password it was
    /// bought with, if any.
    Inserting { paid: Option<String>, user_id: i64, token: String, jar: CookieJar },
    /// The password to be cleared. The token is issued and `jar` carries it.
    Clearing { jar: CookieJar },
}

/// Where an exchange stands after a decision.
#[derive(Debug)]
pub enum Step {
    /// Run the statement and come back with the store's answer.
    Ask(Exchange, StoreRequest),
    /// The exchange is over: the updated jar, or why there is none.
    Done(Result<CookieJar, AuthError>),
}

/// The cookies of a jar, by name.
pub type Cookies = Map<Seq<char>, CookieView>;

/// A [`StoreRequest`] as plain values.
pub enum StoreRequestView {
    FindUserByOtp { otp: Seq<char> },
    FindUserByToken { token: Seq<char> },
    InsertToken { user_id: i64, token: Seq<char>, lifetime_days: int },
    ClearOtp { user_id: i64, otp: Seq<char> },
}

/// What an exchange is waiting for, as plain values.
pub enum ExchangeView {
    /// The user who holds `otp`.
    FindingByOtp { otp: Seq<char>, jar: Cookies },
    /// The user behind the session token in `jar`.
    FindingByToken { jar: Cookies },
    /// `token` to be stored for `user_id`; `paid` is the password it was
    /// bought with, if any.
    Inserting { paid: Option<Seq<char>>, user_id: i64, token: Seq<char>, jar: Cookies },
    /// The password to be cleared. The token is issued and `jar` carries it.
    Clearing { jar: Cookies },
}

/// A [`Step`] as plain values. A jar is the cookies it holds.
pub enum StepView {
    Ask(ExchangeView, StoreRequestView),
    Done(Result<Cookies, AuthError>),
}

/// The characters of an optional string.
pub open spec fn opt_view(s: Option<String>) -> Option<Seq<char>> {
    match s {
        Some(s) => Some(s@),
        None => None,
    }
}

impl View for StoreRequest {
    type V = StoreRequestView;

    open spec fn view(&self) -> StoreRequestView {
        match *self {
            StoreRequest::FindUserByOtp { otp } => StoreRequestView::FindUserByOtp { otp: otp@ },
            StoreRequest::FindUserByToken { token } => StoreRequestView::FindUserByToken {
                token: token@,
            },
            StoreRequest::InsertToken {
                user_id,
                token,
                lifetime_days,
            } => StoreRequestView::InsertToken {
                user_id,
                token: token@,
                lifetime_days: lifetime_days as int,
            },
            StoreRequest::ClearOtp { user_id, otp } => StoreRequestView::ClearOtp {
                user_id,
                otp: otp@,
            },
        }
    }
}

impl View for Exchange {
    type V = ExchangeView;

    closed spec fn view(&self) -> ExchangeView {
        match self.waiting {
            Waiting::FindingByOtp { otp, jar } => ExchangeView::FindingByOtp {
                otp: otp@,
                jar: jar_cookies(jar),
            },
            Waiting::FindingByToken { jar } => ExchangeView::FindingByToken {
                jar: jar_cookies(jar),
            },
            Waiting::Inserting { paid, user_id, token, jar } => ExchangeView::Inserting {
                paid: opt_view(paid),
                user_id,
                token: token@,
                jar: jar_cookies(jar),
            },
            Waiting::Clearing { jar } => ExchangeView::Clearing { jar: jar_cookies(jar) },
        }
    }
}

impl View for Step {
    type V = StepView;

    open spec fn view(&self) -> StepView {
        match *self {
            Step::Ask(exchange, request) => StepView::Ask(exchange@, request@),
            Step::Done(Ok(jar)) => StepView::Done(Ok(jar_cookies(jar))),
            Step::Done(Err(error)) => StepView::Done(Err(error)),
        }
    }
}

/// The SQL text of a statement.
pub open spec fn statement_spec(request: StoreRequestView) -> Seq<char> {
    match request {
        StoreRequestView::FindUserByOtp { .. } => FIND_USER_BY_OTP@,
        StoreRequestView::FindUserByToken { .. } => FIND_USER_BY_TOKEN@,
        StoreRequestView::InsertToken { .. } => INSERT_TOKEN@,
        StoreRequestView::ClearOtp { .. } => CLEAR_OTP@,
    }
}

impl StoreRequest {
    /// The SQL text of this statement. Its parameters carry the names of
    /// the fields.
    pub fn statement(&self) -> (sql: &'static str)
        ensures
            sql@ == statement_spec(self@),
    {
        match self {
            StoreRequest::FindUserByOtp { .. } => FIND_USER_BY_OTP,
            StoreRequest::FindUserByToken { .. } => FIND_USER_BY_TOKEN,
            StoreRequest::InsertToken { .. } => INSERT_TOKEN,
            StoreRequest::ClearOtp { .. } => CLEAR_OTP,
        }
    }
}

/// Whether `c` may stand in a session token: a letter, a digit, `_` or `-`.
pub open spec fn is_token_char(c: char) -> bool {
    ||| 'a' <= c && c <= 'z'
    ||| 'A' <= c && c <= 'Z'
    ||| '0' <= c && c <= '9'
    ||| c == '_'
    ||| c == '-'
}

/// Whether `token` has the shape of a session token: [`TOKEN_LENGTH`]
/// characters, each of them safe in a URL.
pub open spec fn is_token(token: Seq<char>) -> bool {
    &&& token.len() == TOKEN_LENGTH
    &&& forall|i: int| 0 <= i < token.len() ==> is_token_char(#[trigger] token[i])
}

/// First decision of an exchange. A password, if there is one, decides the
/// path: the cookie is then not even looked at. Without a password the
/// session cookie must be there.
pub open spec fn begin_spec(otp: Option<Seq<char>>, jar: Cookies) -> StepView {
    match otp {
        Some(otp) => StepView::Ask(
            ExchangeView::FindingByOtp { otp, jar },
            StoreRequestView::FindUserByOtp { otp },
        ),
        None => if jar.contains_key(COOKIE_NAME@) {
            StepView::Ask(
                ExchangeView::FindingByToken { jar },
                StoreRequestView::FindUserByToken { token: jar[COOKIE_NAME@].value },
            )
        } else {
            StepView::Done(Err(AuthError::Unauthorized(Denial::TokenNotFound)))
        },
    }
}

/// The step that stores `token` for `user_id`.
pub open spec fn grant_spec(
    paid: Option<Seq<char>>,
    jar: Cookies,
    user_id: i64,
    token: Seq<char>,
) -> StepView {
    StepView::Ask(
        ExchangeView::Inserting { paid, user_id, token, jar },
        StoreRequestView::InsertToken {
            user_id,
            token,
            lifetime_days: TOKEN_LIFETIME_DAYS as int,
        },
    )
}

/// Every later decision of an exchange, given the store's answer. `token` is
/// the fresh token to issue if the answer names a user.
pub open spec fn resume_spec(exchange: ExchangeView, reply: StoreReply, token: Seq<char>) -> StepView {
    match exchange {
        ExchangeView::FindingByOtp { otp, jar } => match reply {
            StoreReply::UserFound(user_id) => grant_spec(Some(otp), jar, user_id, token),
            StoreReply::NoMatch => StepView::Done(
                Err(AuthError::Unauthorized(Denial::OtpNotFound)),
            ),
            _ => StepView::Done(Err(AuthError::StorageFailure)),
        },
        ExchangeView::FindingByToken { jar } => match reply {
            StoreReply::UserFound(user_id) => grant_spec(None, jar, user_id, token),
            StoreReply::NoMatch => StepView::Done(
                Err(AuthError::Unauthorized(Denial::TokenNotFound)),
            ),
            _ => StepView::Done(Err(AuthError::StorageFailure)),
        },
        ExchangeView::Inserting { paid, user_id, token: issued, jar } => match reply {
            StoreReply::Inserted => {
                let jar = jar.insert(COOKIE_NAME@, session_cookie_view(issued));
                match paid {
                    Some(otp) => StepView::Ask(
                        ExchangeView::Clearing { jar },
                        StoreRequestView::ClearOtp { user_id, otp },
                    ),
                    None => StepView::Done(Ok(jar)),
                }
            },
            _ => StepView::Done(Err(AuthError::StorageFailure)),
        },
        ExchangeView::Clearing { jar } => match reply {
            StoreReply::Changed(_) => StepView::Done(Ok(jar)),
            _ => StepView::Done(Err(AuthError::StorageFailure)),
        },
    }
}

/// A fresh identifier from `nanoid::format`, drawn with the crate's default
/// random source over its URL-safe alphabet. Whatever is drawn, the result
/// has `size` characters and each is a letter, a digit, `_` or `-`.
#[verifier::external_body]
fn random_id(size: usize) -> (id: String)
    requires
        0 < size,
        8 * size <= usize::MAX,
    ensures
        id@.len() == size,
        forall|i: int| 0 <= i < id@.len() ==> is_token_char(#[trigger] id@[i]),
{
    nanoid::format(nanoid::rngs::default, &nanoid::alphabet::SAFE, size)
}

/// Starts an exchange for a request body and the cookies that came with it.
pub fn begin(data: TokenRequestData, cookies: CookieJar) -> (step: Step)
    ensures
        step@ == begin_spec(opt_view(data.otp), jar_cookies(cookies)),
{
    match data.otp {
        Some(otp) => {
            let asked = otp.clone();
            Step::Ask(
                Exchange { waiting: Waiting::FindingByOtp { otp, jar: cookies } },
                StoreRequest::FindUserByOtp { otp: asked },
            )
        },
        None => match session_token(&cookies) {
            Some(token) => Step::Ask(
                Exchange { waiting: Waiting::FindingByToken { jar: cookies } },
                StoreRequest::FindUserByToken { token },
            ),
            None => Step::Done(Err(AuthError::Unauthorized(Denial::TokenNotFound))),
        },
    }
}

/// Issues `token` to `user_id`: the next statement stores it. `paid` is the
/// password that was redeemed for it, if any.
pub fn grant(paid: Option<String>, jar: CookieJar, user_id: i64, token: String) -> (step: Step)
    ensures
        step@ == grant_spec(opt_view(paid), jar_cookies(jar), user_id, token@),
{
    let stored = token.clone();
    Step::Ask(
        Exchange { waiting: Waiting::Inserting { paid, user_id, token, jar } },
        StoreRequest::InsertToken { user_id, token: stored, lifetime_days: TOKEN_LIFETIME_DAYS },
    )
}

/// Takes the next decision of `exchange` for the store's `reply`, issuing
/// `token` if the reply names a user.
pub fn resume_with(exchange: Exchange, reply: StoreReply, token: String) -> (step: Step)
    ensures
        step@ == resume_spec(exchange@, reply, token@),
{
    match exchange.waiting {
        Waiting::FindingByOtp { otp, jar } => match reply {
            StoreReply::UserFound(user_id) => grant(Some(otp), jar, user_id, token),
            StoreReply::NoMatch => Step::Done(Err(AuthError::Unauthorized(Denial::OtpNotFound))),
            _ => Step::Done(Err(AuthError::StorageFailure)),
        },
        Waiting::FindingByToken { jar } => match reply {
            StoreReply::UserFound(user_id) => grant(None, jar, user_id, token),
            StoreReply::NoMatch => Step::Done(Err(AuthError::Unauthorized(Denial::TokenNotFound))),
            _ => Step::Done(Err(AuthError::StorageFailure)),
        },
        Waiting::Inserting { paid, user_id, token: issued, jar } => match reply {
            StoreReply::Inserted => {
                let jar = with_session(jar, issued);
                match paid {
                    Some(otp) => Step::Ask(
                        Exchange { waiting: Waiting::Clearing { jar } },
                        StoreRequest::ClearOtp { user_id, otp },
                    ),
                    None => Step::Done(Ok(jar)),
                }
            },
            _ => Step::Done(Err(AuthError::StorageFailure)),
        },
        Waiting::Clearing { jar } => match reply {
            StoreReply::Changed(_) => Step::Done(Ok(jar)),
            _ => Step::Done(Err(AuthError::StorageFailure)),
        },
    }
}

/// Whether `exchange` issues a token when the store answers `reply`.
pub open spec fn issues_token(exchange: ExchangeView, reply: StoreReply) -> bool {
    &&& reply is UserFound
    &&& exchange is FindingByOtp || exchange is FindingByToken
}

/// Takes the next decision of `exchange` for the store's `reply`. If the
/// reply names a user, a token is drawn at random and issued to them:
/// which token cannot be told in advance, only that it has the shape of
/// one. Every other decision is the same for every token.
pub fn resume(exchange: Exchange, reply: StoreReply) -> (step: Step)
    ensures
        exists|token: Seq<char>| is_token(token) && step@ == resume_spec(exchange@, reply, token),
        !issues_token(exchange@, reply) ==> forall|token: Seq<char>|
            step@ == resume_spec(exchange@, reply, token),
{
    let issues = match (&exchange.waiting, &reply) {
        (Waiting::FindingByOtp { .. }, StoreReply::UserFound(_)) => true,
        (Waiting::FindingByToken { .. }, StoreReply::UserFound(_)) => true,
        _ => false,
    };
    if issues {
        let token = random_id(TOKEN_LENGTH);
        assert(is_token(token@));
        resume_with(exchange, reply, token)
    } else {
        assert(is_token(Seq::new(TOKEN_LENGTH as nat, |i: int| '_')));
        resume_with(exchange, reply, String::new())
    }
}

} // verus!

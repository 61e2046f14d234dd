//! Tickets: signed, short-lived permissions to fetch one file.
//!
//! When the file of a request is ready the client does not get its path but a
//! ticket: a token that holds the path and the time at which the ticket runs
//! out, signed with a secret that only the server knows. The server keeps no
//! list of tickets. Whoever shows a ticket gets the file if the signature is
//! right and the time has not run out.
use crate::message::{error_text, Envelope, Reply, ServerMessage, ServerResponse};
use vstd::prelude::*;
use vstd::string::*;

verus! {

/// For how many seconds a ticket is good.
pub const TICKET_VALIDITY: u64 = 120;

/// The time at which a ticket issued at `issued` runs out.
pub open spec fn expiry(issued: u64) -> u64 {
    if issued <= u64::MAX - TICKET_VALIDITY {
        (issued + TICKET_VALIDITY) as u64
    } else {
        u64::MAX
    }
}

/// Whether a ticket that runs out at `expires` is still good at `now`.
pub open spec fn current(expires: u64, now: u64) -> bool {
    now <= expires
}

/// What a ticket says: a path on the server, and until when the ticket is
/// good, in seconds since the epoch.
#[derive(Debug)]
pub struct Claims {
    pub exp: u64,
    pub path: String,
}

impl Claims {
    /// Until when the ticket is good.
    pub open spec fn expires(&self) -> u64 {
        self.exp
    }

    /// What a ticket for `path` issued at `issued` says.
    pub fn new(path: String, issued: u64) -> (r: Self)
        ensures
            r.path == path,
            r.expires() == expiry(issued),
    {
        let exp = if issued <= u64::MAX - TICKET_VALIDITY {
            issued + TICKET_VALIDITY
        } else {
            u64::MAX
        };
        Claims { exp, path }
    }

    /// What a ticket for `path` that is good until `exp` says.
    pub fn until(path: String, exp: u64) -> (r: Self)
        ensures
            r.path == path,
            r.expires() == exp,
    {
        Claims { exp, path }
    }

    /// Until when the ticket is good.
    pub fn exp(&self) -> (r: u64)
        ensures
            r == self.expires(),
    {
        self.exp
    }

    /// Whether the ticket is still good at `now`.
    pub fn is_current(&self, now: u64) -> (r: bool)
        ensures
            r == current(self.expires(), now),
    {
        now <= self.exp
    }
}

/// A ticket is good from the moment it is issued until 120 seconds later,
/// and at no time after that: it is taken 60 seconds after it was issued and
/// refused 121 seconds after.
pub proof fn lemma_ticket_window(issued: u64, now: u64)
    requires
        issued + 121 <= u64::MAX,
    ensures
        current(expiry(issued), now) <==> now <= issued + 120,
        current(expiry(issued), issued),
        current(expiry(issued), (issued + 60) as u64),
        !current(expiry(issued), (issued + 121) as u64),
{
}

/// Why a ticket was not given or not taken.
#[derive(Debug)]
pub enum TicketError {
    /// The server has no secret to sign with.
    SigningUnavailable,
    /// Signing failed; the text says why.
    SigningFailed(String),
    /// The token is not a ticket of this server: it could not be read, its
    /// signature is wrong, or it lacks what a ticket says. The text tells
    /// which.
    Invalid(String),
    /// The ticket has run out.
    Expired,
}

impl TicketError {
    /// The error in words.
    pub open spec fn text(self) -> Seq<char> {
        match self {
            TicketError::SigningUnavailable => "JWT secret not set in server"@,
            TicketError::SigningFailed(why) => why@,
            TicketError::Invalid(why) => "failed to decode JWT string: "@ + why@,
            TicketError::Expired => "the JWT has expired"@,
        }
    }

    /// The error in words.
    pub fn message(&self) -> (r: String)
        ensures
            r@ == self.text(),
    {
        match self {
            TicketError::SigningUnavailable => String::from_str("JWT secret not set in server"),
            TicketError::SigningFailed(why) => why.clone(),
            TicketError::Invalid(why) => {
                let mut r = String::from_str("failed to decode JWT string: ");
                r.append(why.as_str());
                r
            },
            TicketError::Expired => String::from_str("the JWT has expired"),
        }
    }
}

/// An error of `jsonwebtoken`.
#[verifier::external_type_specification]
#[verifier::external_body]
pub struct ExTokenError(jsonwebtoken::errors::Error);

/// The token that `jsonwebtoken::encode` makes with the default header and
/// the key `secret` of claims of two members: the number `expires` under the
/// name `expiry_key` and the text `path` under the name `path_key`.
pub uninterp spec fn signed_token(
    secret: Seq<char>,
    expiry_key: Seq<char>,
    expires: u64,
    path_key: Seq<char>,
    path: Seq<char>,
) -> Seq<char>;

/// `jsonwebtoken::get_current_timestamp`: the time of the system's clock in
/// seconds since the epoch. Nothing is known of it beforehand.
#[verifier::external_body]
fn current_timestamp() -> (r: u64) {
    jsonwebtoken::get_current_timestamp()
}

/// `jsonwebtoken::encode` with `jsonwebtoken::Header::default()` and
/// `jsonwebtoken::EncodingKey::from_secret`, on claims of two members. It
/// gives a token, and the token is the one that these values determine. The
/// call has three ways to fail and none is open here: the key is a secret and
/// the default header asks for a signature by secret; the header and a map of
/// one number and one text are always written as JSON; and signing with a
/// secret always gives a signature.
#[verifier::external_body]
fn encode_claims(secret: &str, expiry_key: &str, expires: u64, path_key: &str, path: &str) -> (r:
    Result<String, jsonwebtoken::errors::Error>)
    ensures
        r is Ok,
        r matches Ok(token) ==> token@ == signed_token(
            secret@,
            expiry_key@,
            expires,
            path_key@,
            path@,
        ),
{
    let mut claims = serde_json::Map::new();
    claims.insert(String::from(expiry_key), serde_json::Value::from(expires));
    claims.insert(String::from(path_key), serde_json::Value::from(path));
    jsonwebtoken::encode(
        &jsonwebtoken::Header::default(),
        &claims,
        &jsonwebtoken::EncodingKey::from_secret(secret.as_bytes()),
    )
}

/// `jsonwebtoken::decode` with `jsonwebtoken::DecodingKey::from_secret` and
/// `jsonwebtoken::Validation::default()`, which checks the signature and
/// holds the expiry against the system's clock with a minute's grace. Of a
/// token that passes it hands out two members of the claims where they are
/// there: the whole number under `expiry_key` and the text under `path_key`.
/// The clock has a say, so nothing is known of the result beforehand.
#[verifier::external_body]
fn decode_claims(token: &str, secret: &str, expiry_key: &str, path_key: &str) -> (r: Result<
    (Option<u64>, Option<String>),
    jsonwebtoken::errors::Error,
>) {
    let data = jsonwebtoken::decode::<serde_json::Value>(
        token,
        &jsonwebtoken::DecodingKey::from_secret(secret.as_bytes()),
        &jsonwebtoken::Validation::default(),
    )?;
    let expires = data.claims.get(expiry_key).and_then(serde_json::Value::as_u64);
    let path = data.claims.get(path_key).and_then(serde_json::Value::as_str).map(String::from);
    Ok((expires, path))
}

/// The `Debug` form of an error of `jsonwebtoken`.
#[verifier::external_body]
fn describe_error(error: &jsonwebtoken::errors::Error) -> (r: String) {
    format!("{:?}", error)
}

/// What the client is told once signing a ticket gave `signed`: the ticket,
/// or why there is none.
pub open spec fn ticket_reply(signed: Result<String, TicketError>) -> Reply {
    match signed {
        Ok(token) => Reply::DownloadJWT(token@),
        Err(error) => Reply::Error(error_text(error.text())),
    }
}

/// The message that tells a client what signing a ticket gave.
pub fn ticket_message(service: &str, context: &str, signed: Result<String, TicketError>) -> (r:
    ServerMessage)
    ensures
        r@ == (Envelope {
            service: service@,
            context: context@,
            response: ticket_reply(signed),
        }),
{
    match signed {
        Ok(token) => ServerMessage::reply(service, context, ServerResponse::DownloadJWT(token)),
        Err(error) => {
            let why = error.message();
            ServerMessage::error(service, context, why.as_str())
        },
    }
}

/// Signs a ticket for `path`, issued at `issued`, with `secret`. Without a
/// secret there is no ticket. With one there always is: the token that holds
/// `path` and the time 120 seconds after `issued`, signed with the secret.
pub fn issue_ticket(path: &str, secret: Option<&str>, issued: u64) -> (r: Result<
    String,
    TicketError,
>)
    ensures
        secret is None ==> r matches Err(TicketError::SigningUnavailable),
        secret matches Some(key) ==> r matches Ok(token) && token@ == signed_token(
            key@,
            "exp"@,
            expiry(issued),
            "path"@,
            path@,
        ),
{
    let key = match secret {
        None => {
            return Err(TicketError::SigningUnavailable);
        },
        Some(key) => key,
    };
    let claims = Claims::new(String::from_str(path), issued);
    match encode_claims(key, "exp", claims.exp(), "path", claims.path.as_str()) {
        Ok(token) => Ok(token),
        Err(error) => Err(TicketError::SigningFailed(describe_error(&error))),
    }
}

/// The message that gives a client the ticket for the file at `path`, issued
/// at `issued`, or tells it that the server has no secret. The message
/// carries the marks `service` and `context` of the request.
pub fn send_download_jwt_at(
    service: &str,
    context: &str,
    path: &str,
    secret: Option<&str>,
    issued: u64,
) -> (r: ServerMessage)
    ensures
        r@.service == service@,
        r@.context == context@,
        r@.response == match secret {
            None => Reply::Error(error_text(TicketError::SigningUnavailable.text())),
            Some(key) => Reply::DownloadJWT(
                signed_token(key@, "exp"@, expiry(issued), "path"@, path@),
            ),
        },
{
    let signed = issue_ticket(path, secret, issued);
    ticket_message(service, context, signed)
}

/// The message that gives a client the ticket for the file at `path`. The
/// ticket is issued at the time of the system's clock. With a secret the
/// message is always a ticket; without one it says that the server has none.
/// The message carries the marks `service` and `context` of the request.
pub fn send_download_jwt(service: &str, context: &str, path: &str, secret: Option<&str>) -> (r:
    ServerMessage)
    ensures
        r@.service == service@,
        r@.context == context@,
        secret is None ==> r@.response == Reply::Error(
            error_text(TicketError::SigningUnavailable.text()),
        ),
        secret matches Some(key) ==> exists|issued: u64|
            r@.response == Reply::DownloadJWT(
                #[trigger] signed_token(key@, "exp"@, expiry(issued), "path"@, path@),
            ),
{
    let issued = current_timestamp();
    send_download_jwt_at(service, context, path, secret, issued)
}

/// What showing a ticket gives at `now`, `decoded` being what reading the
/// token and checking its signature gave: `r` is the path that the ticket is
/// for exactly when the token could be read, says until when it is good and
/// for which path, and has not run out.
pub open spec fn ticket_outcome(
    decoded: Result<(Option<u64>, Option<String>), String>,
    now: u64,
    r: Result<String, TicketError>,
) -> bool {
    match decoded {
        Err(why) => r matches Err(TicketError::Invalid(text)) && text@ == why@,
        Ok((Some(expires), Some(path))) => if current(expires, now) {
            r matches Ok(p) && p == path
        } else {
            r matches Err(TicketError::Expired)
        },
        Ok(_) => r matches Err(TicketError::Invalid(text)) && text@
            == "the claims lack the expiry or the path"@,
    }
}

/// Judges a ticket at `now`, given what reading the token and checking its
/// signature gave.
pub fn check_ticket(decoded: Result<(Option<u64>, Option<String>), String>, now: u64) -> (r:
    Result<String, TicketError>)
    ensures
        ticket_outcome(decoded, now, r),
{
    match decoded {
        Err(why) => Err(TicketError::Invalid(why)),
        Ok((Some(expires), Some(path))) => {
            let claims = Claims::until(path, expires);
            if claims.is_current(now) {
                Ok(claims.path)
            } else {
                Err(TicketError::Expired)
            }
        },
        Ok(_) => Err(
            TicketError::Invalid(String::from_str("the claims lack the expiry or the path")),
        ),
    }
}

/// Takes a ticket at `now`: gives the path that `token` is for, if `token`
/// was signed with `secret` and has not run out. Without a secret no ticket
/// is taken.
pub fn redeem_ticket(token: &str, secret: Option<&str>, now: u64) -> (r: Result<
    String,
    TicketError,
>)
    ensures
        secret is None ==> r matches Err(TicketError::SigningUnavailable),
        secret is Some ==> exists|decoded: Result<(Option<u64>, Option<String>), String>|
            #[trigger] ticket_outcome(decoded, now, r),
{
    let key = match secret {
        None => {
            return Err(TicketError::SigningUnavailable);
        },
        Some(key) => key,
    };
    let decoded = match decode_claims(token, key, "exp", "path") {
        Ok(claims) => Ok(claims),
        Err(error) => Err(describe_error(&error)),
    };
    check_ticket(decoded, now)
}

/// Takes a ticket at the time of the system's clock.
pub fn authorize_download(token: &str, secret: Option<&str>) -> (r: Result<String, TicketError>)
    ensures
        secret is None ==> r matches Err(TicketError::SigningUnavailable),
        secret is Some ==> exists|decoded: Result<(Option<u64>, Option<String>), String>, now: u64|
            #[trigger] ticket_outcome(decoded, now, r),
{
    let now = current_timestamp();
    redeem_ticket(token, secret, now)
}

/// What tells the client under which name to keep the file.
pub open spec fn disposition(file_name: Seq<char>) -> Seq<char> {
    "attachment; filename=\""@ + file_name + "\""@
}

/// The value of the header that makes the client keep the file under
/// `file_name`.
pub fn content_disposition(file_name: &str) -> (r: String)
    ensures
        r@ == disposition(file_name@),
{
    let mut r = String::from_str("attachment; filename=\"");
    r.append(file_name);
    r.append("\"");
    r
}

} // verus!

//! The requests and answers of the account endpoints, and the decisions that
//! guard them: which requests are turned away, with which status and words.

use vstd::prelude::*;
use vstd::string::*;

verus! {

/// The body of a registration request.
#[derive(Clone, Debug, PartialEq, Eq)]
pub struct RegisterRequest {
    pub username: String,
    pub password: String,
}

/// The body of a login request.
#[derive(Clone, Debug, PartialEq, Eq)]
pub struct LoginRequest {
    pub username: String,
    pub password: String,
}

/// The answer to a successful login.
#[derive(Clone, Debug, PartialEq, Eq)]
pub struct AuthResponse {
    pub token: String,
}

/// What a session token asserts: the user it was issued to and the second
/// at which it expires.
#[derive(Clone, Debug, PartialEq, Eq)]
pub struct Claims {
    pub sub: String,
    pub exp: usize,
}

/// Seconds for which a token is valid: 24 hours.
pub const TOKEN_LIFETIME: i64 = 86400;

/// The second at which a token issued at `issued_at` expires, where there is
/// such a second: `issued_at` must not lie before the epoch, and the expiry
/// must fit the field that carries it.
pub open spec fn expiry_of(issued_at: i64) -> Option<usize> {
    if 0 <= issued_at && issued_at + TOKEN_LIFETIME <= usize::MAX && issued_at + TOKEN_LIFETIME
        <= i64::MAX {
        Some((issued_at + TOKEN_LIFETIME) as usize)
    } else {
        None
    }
}

impl Claims {
    /// The claims of a token issued to `user` at the second `issued_at`.
    pub fn issue(user: String, issued_at: i64) -> (claims: Option<Claims>)
        ensures
            claims is Some <==> expiry_of(issued_at) is Some,
            claims matches Some(c) ==> c.sub == user && Some(c.exp) == expiry_of(issued_at),
    {
        if issued_at < 0 || issued_at > i64::MAX - TOKEN_LIFETIME {
            return None;
        }
        let expiry: i64 = issued_at + TOKEN_LIFETIME;
        if expiry as u64 > usize::MAX as u64 {
            return None;
        }
        Some(Claims { sub: user, exp: expiry as usize })
    }
}

/// Why a request is turned away.
#[derive(Clone, Debug, PartialEq, Eq)]
pub enum Rejection {
    /// The request carries no `Authorization` header.
    MissingAuthorization,
    /// The `Authorization` header is not text.
    UnreadableAuthorization,
    /// The `Authorization` header does not hold a bearer token.
    MalformedAuthorization,
    /// The token did not pass validation, for the reason given.
    InvalidToken(String),
    /// The user name is taken.
    UsernameTaken,
    /// No such user, or a wrong password.
    InvalidCredentials,
    /// No snippet of that identifier belongs to the caller.
    SnippetNotFound,
    /// No snippet of that identifier belonging to the caller was changed.
    SnippetUntouched,
    /// A collaborator failed, with the words given.
    Internal(String),
}

impl Rejection {
    /// The HTTP status that reports the rejection.
    pub open spec fn status_of(self) -> u16 {
        match self {
            Rejection::MissingAuthorization => 401,
            Rejection::UnreadableAuthorization => 401,
            Rejection::MalformedAuthorization => 401,
            Rejection::InvalidToken(_) => 401,
            Rejection::UsernameTaken => 409,
            Rejection::InvalidCredentials => 401,
            Rejection::SnippetNotFound => 404,
            Rejection::SnippetUntouched => 404,
            Rejection::Internal(_) => 500,
        }
    }

    /// The words that report the rejection.
    pub open spec fn words_of(self) -> Seq<char> {
        match self {
            Rejection::MissingAuthorization => "Missing Authorization header"@,
            Rejection::UnreadableAuthorization => "Invalid Authorization header"@,
            Rejection::MalformedAuthorization => "Invalid token format"@,
            Rejection::InvalidToken(reason) => "Invalid token: "@ + reason@,
            Rejection::UsernameTaken => "Username already exists"@,
            Rejection::InvalidCredentials => "Invalid credentials"@,
            Rejection::SnippetNotFound => "Snippet not found"@,
            Rejection::SnippetUntouched => "Snippet not found or unauthorized"@,
            Rejection::Internal(words) => words@,
        }
    }

    /// The HTTP status that reports the rejection.
    pub fn status(&self) -> (status: u16)
        ensures
            status == self.status_of(),
    {
        match self {
            Rejection::UsernameTaken => 409,
            Rejection::SnippetNotFound => 404,
            Rejection::SnippetUntouched => 404,
            Rejection::Internal(_) => 500,
            _ => 401,
        }
    }

    /// The words that report the rejection.
    pub fn message(&self) -> (words: String)
        ensures
            words@ == self.words_of(),
    {
        match self {
            Rejection::MissingAuthorization => String::from_str("Missing Authorization header"),
            Rejection::UnreadableAuthorization => String::from_str("Invalid Authorization header"),
            Rejection::MalformedAuthorization => String::from_str("Invalid token format"),
            Rejection::InvalidToken(reason) => {
                let mut words = String::from_str("Invalid token: ");
                words.append(reason.as_str());
                words
            },
            Rejection::UsernameTaken => String::from_str("Username already exists"),
            Rejection::InvalidCredentials => String::from_str("Invalid credentials"),
            Rejection::SnippetNotFound => String::from_str("Snippet not found"),
            Rejection::SnippetUntouched => String::from_str("Snippet not found or unauthorized"),
            Rejection::Internal(words) => words.clone(),
        }
    }
}

/// The token carried by an `Authorization` header: what follows the scheme
/// `Bearer` and one space.
pub open spec fn bearer_token_of(header: Seq<char>) -> Option<Seq<char>> {
    if header.len() >= 7 && header.subrange(0, 7) == "Bearer "@ {
        Some(header.subrange(7, header.len() as int))
    } else {
        None
    }
}

/// Takes the bearer token out of the value of an `Authorization` header.
pub fn bearer_token(header: &str) -> (token: Result<String, Rejection>)
    ensures
        match bearer_token_of(header@) {
            Some(text) => token matches Ok(t) && t@ == text,
            None => token matches Err(Rejection::MalformedAuthorization),
        },
{
    let scheme = "Bearer ";
    proof {
        reveal_strlit("Bearer ");
    }
    let len = header.unicode_len();
    if len < 7 {
        return Err(Rejection::MalformedAuthorization);
    }
    let mut i: usize = 0;
    while i < 7
        invariant
            i <= 7,
            len == header@.len(),
            len >= 7,
            scheme@ == "Bearer "@,
            scheme@.len() == 7,
            forall|k: int| 0 <= k < i ==> header@[k] == scheme@[k],
        decreases 7 - i,
    {
        if header.get_char(i) != scheme.get_char(i) {
            assert(header@.subrange(0, 7)[i as int] != scheme@[i as int]);
            return Err(Rejection::MalformedAuthorization);
        }
        i = i + 1;
    }
    assert(header@.subrange(0, 7) =~= scheme@);
    Ok(header.substring_char(7, len).to_owned())
}

/// Reads the `Authorization` header of a request: `None` where the request
/// has none, `Some(None)` where its value is not text.
pub fn authorization(header: Option<Option<String>>) -> (token: Result<String, Rejection>)
    ensures
        match header {
            None => token matches Err(Rejection::MissingAuthorization),
            Some(None) => token matches Err(Rejection::UnreadableAuthorization),
            Some(Some(value)) => match bearer_token_of(value@) {
                Some(text) => token matches Ok(t) && t@ == text,
                None => token matches Err(Rejection::MalformedAuthorization),
            },
        },
{
    match header {
        None => Err(Rejection::MissingAuthorization),
        Some(None) => Err(Rejection::UnreadableAuthorization),
        Some(Some(value)) => bearer_token(value.as_str()),
    }
}

/// Decides a registration once it is known whether the user name is taken.
pub fn admit_registration(username_taken: bool) -> (admitted: Result<(), Rejection>)
    ensures
        username_taken ==> admitted matches Err(Rejection::UsernameTaken),
        !username_taken ==> admitted is Ok,
{
    if username_taken {
        Err(Rejection::UsernameTaken)
    } else {
        Ok(())
    }
}

/// Decides a login once the stored record was looked up and, where there is
/// one, the password was checked against it: the user's identifier, or the
/// same rejection for an unknown user and for a wrong password.
pub fn admit_login(record: Option<(String, bool)>) -> (user: Result<String, Rejection>)
    ensures
        match record {
            Some((id, true)) => user == Ok::<String, Rejection>(id),
            _ => user matches Err(Rejection::InvalidCredentials),
        },
{
    match record {
        Some((id, true)) => Ok(id),
        _ => Err(Rejection::InvalidCredentials),
    }
}

} // verus!

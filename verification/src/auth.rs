//! The guard in front of every route: which algorithm verifies the tokens,
//! and what a request must carry.

use crate::config::AuthConfig;
use crate::text::{chars_of, same_text, to_uppercase, trim, trimmed, uppercase};
use vstd::prelude::*;
use vstd::string::*;

verus! {

/// The signature algorithms that tokens may be verified with.
#[derive(Debug, Clone, Copy, PartialEq, Eq, Structural)]
pub enum Algorithm {
    HS256,
    RS256,
    ES256,
}

/// The algorithm that an upper-case name stands for.
pub open spec fn algorithm_of(upper: Seq<char>) -> Option<Algorithm> {
    if upper == "HS256"@ {
        Some(Algorithm::HS256)
    } else if upper == "RS256"@ {
        Some(Algorithm::RS256)
    } else if upper == "ES256"@ {
        Some(Algorithm::ES256)
    } else {
        None
    }
}

/// The algorithm that `upper` names, letter for letter.
pub fn algorithm_named(upper: &str) -> (r: Option<Algorithm>)
    ensures
        r == algorithm_of(upper@),
{
    if same_text(upper, "HS256") {
        Some(Algorithm::HS256)
    } else if same_text(upper, "RS256") {
        Some(Algorithm::RS256)
    } else if same_text(upper, "ES256") {
        Some(Algorithm::ES256)
    } else {
        None
    }
}

/// The message with which an algorithm's name is refused.
pub open spec fn unsupported_algorithm(name: Seq<char>) -> Seq<char> {
    "Unsupported algorithm: "@ + name
}

/// Reads an algorithm's name, in any case.
pub fn parse_algorithm(name: &str) -> (r: Result<Algorithm, String>)
    ensures
        match r {
            Ok(a) => algorithm_of(uppercase(name@)) == Some(a),
            Err(e) => algorithm_of(uppercase(name@)) is None && e@ == unsupported_algorithm(
                name@,
            ),
        },
{
    let upper = to_uppercase(name);
    match algorithm_named(upper.as_str()) {
        Some(a) => Ok(a),
        None => {
            let mut message = "Unsupported algorithm: ".to_owned();
            message.append(name);
            Err(message)
        },
    }
}

/// Where the key is read from, and the algorithm it is for.
#[derive(Debug)]
pub struct KeySource {
    pub algorithm: Algorithm,
    pub secret_path: String,
}

/// What the settings say of the verifier's key, or what they lack: first the
/// algorithm, then the path, then an algorithm that is supported.
pub fn key_source(auth: &AuthConfig) -> (r: Result<KeySource, String>)
    ensures
        match r {
            Ok(source) => {
                &&& auth.secret_path == Some(source.secret_path)
                &&& auth.algorithm matches Some(name) && algorithm_of(uppercase(name@)) == Some(
                    source.algorithm,
                )
            },
            Err(e) => match (auth.algorithm, auth.secret_path) {
                (None, _) => e@ == "Auth algorithm is required when auth is enabled"@,
                (Some(_), None) => e@ == "Auth secret_path is required when auth is enabled"@,
                (Some(name), Some(_)) => algorithm_of(uppercase(name@)) is None && e@
                    == unsupported_algorithm(name@),
            },
        },
{
    let name: &String = match &auth.algorithm {
        Some(name) => name,
        None => {
            return Err("Auth algorithm is required when auth is enabled".to_owned());
        },
    };
    let path: &String = match &auth.secret_path {
        Some(path) => path,
        None => {
            return Err("Auth secret_path is required when auth is enabled".to_owned());
        },
    };
    match parse_algorithm(name.as_str()) {
        Ok(algorithm) => Ok(KeySource { algorithm, secret_path: path.clone() }),
        Err(e) => Err(e),
    }
}

/// The key as it is used: the file's content without the white space at its
/// two ends.
pub fn key_material(content: &str) -> (r: String)
    ensures
        r@ == trimmed(content@),
{
    trim(content)
}

/// Why a request is turned away. Each is answered with 401.
#[derive(Debug, Clone, Copy, PartialEq, Eq, Structural)]
pub enum AuthError {
    MissingHeader,
    InvalidFormat,
    InvalidToken,
}

impl AuthError {
    /// The message of this error.
    pub open spec fn text(self) -> Seq<char> {
        match self {
            AuthError::MissingHeader => "Missing Authorization header"@,
            AuthError::InvalidFormat => "Invalid authorization header format"@,
            AuthError::InvalidToken => "Invalid or expired token"@,
        }
    }

    /// The message of this error, as text.
    pub fn message(&self) -> (r: String)
        ensures
            r@ == self.text(),
    {
        match self {
            AuthError::MissingHeader => "Missing Authorization header".to_owned(),
            AuthError::InvalidFormat => "Invalid authorization header format".to_owned(),
            AuthError::InvalidToken => "Invalid or expired token".to_owned(),
        }
    }
}

/// The scheme in front of a bearer token, with the blank that follows it.
pub open spec fn scheme() -> Seq<char> {
    seq!['B', 'e', 'a', 'r', 'e', 'r', ' ']
}

/// The token that a header value carries: what follows the scheme, which
/// stands once at the front, without the white space around it. A scheme
/// that is written again belongs to the token.
pub open spec fn token_of(header: Seq<char>) -> Seq<char> {
    trimmed(header.skip(7))
}

/// Whether the scheme stands at the index `at` of `chars`.
fn scheme_at(chars: &Vec<char>, at: usize) -> (r: bool)
    requires
        at <= chars@.len(),
    ensures
        r == scheme().is_prefix_of(chars@.skip(at as int)),
{
    let ghost rest = chars@.skip(at as int);
    if chars.len() - at < 7 {
        return false;
    }
    let found = chars[at] == 'B' && chars[at + 1] == 'e' && chars[at + 2] == 'a' && chars[at + 3]
        == 'r' && chars[at + 4] == 'e' && chars[at + 5] == 'r' && chars[at + 6] == ' ';
    proof {
        assert(rest.len() >= 7);
        assert(forall|j: int| 0 <= j < 7 ==> rest[j] == chars@[at + j]);
        if found {
            assert(rest.subrange(0, 7) =~= scheme());
        } else {
            if scheme().is_prefix_of(rest) {
                assert(rest.subrange(0, 7) == scheme());
                assert(forall|j: int| 0 <= j < 7 ==> rest.subrange(0, 7)[j] == rest[j]);
                assert(scheme()[0] == 'B' && scheme()[1] == 'e' && scheme()[2] == 'a'
                    && scheme()[3] == 'r' && scheme()[4] == 'e' && scheme()[5] == 'r'
                    && scheme()[6] == ' ');
                assert(false);
            }
        }
    }
    found
}

/// Takes the bearer token out of the `Authorization` header. A request
/// without the header, or whose header does not start with the scheme, is
/// turned away.
pub fn bearer_token(header: Option<&str>) -> (r: Result<String, AuthError>)
    ensures
        match header {
            None => r == Err::<String, AuthError>(AuthError::MissingHeader),
            Some(value) => if scheme().is_prefix_of(value@) {
                r matches Ok(token) && token@ == token_of(value@)
            } else {
                r == Err::<String, AuthError>(AuthError::InvalidFormat)
            },
        },
{
    let value: &str = match header {
        Some(value) => value,
        None => {
            return Err(AuthError::MissingHeader);
        },
    };
    let chars = chars_of(value);
    assert(chars@.skip(0) =~= chars@);
    if !scheme_at(&chars, 0) {
        return Err(AuthError::InvalidFormat);
    }
    let rest = value.substring_char(7, chars.len());
    assert(rest@ =~= value@.skip(7));
    Ok(trim(rest))
}

/// What the guard does with a request before any token is verified.
#[derive(Debug)]
pub enum AuthStep {
    /// No verifier is configured: the request passes.
    Admit,
    /// The request passes if this token verifies.
    Verify(String),
    /// The request is answered with 401 and this error.
    Reject(AuthError),
}

/// The guard's first step. Without a verifier every request passes; with one,
/// the request must carry a bearer token.
pub fn authorize(verifier_present: bool, header: Option<&str>) -> (r: AuthStep)
    ensures
        match r {
            AuthStep::Admit => !verifier_present,
            AuthStep::Verify(token) => {
                &&& verifier_present
                &&& header matches Some(value) && scheme().is_prefix_of(value@) && token@
                    == token_of(value@)
            },
            AuthStep::Reject(e) => verifier_present && match header {
                None => e == AuthError::MissingHeader,
                Some(value) => !scheme().is_prefix_of(value@) && e == AuthError::InvalidFormat,
            },
        },
{
    if !verifier_present {
        return AuthStep::Admit;
    }
    match bearer_token(header) {
        Ok(token) => AuthStep::Verify(token),
        Err(e) => AuthStep::Reject(e),
    }
}

/// The guard's last step: a token that verified lets the request pass, any
/// failure turns it away with the same error.
pub fn verdict(verified: bool) -> (r: Result<(), AuthError>)
    ensures
        r == if verified {
            Ok::<(), AuthError>(())
        } else {
            Err::<(), AuthError>(AuthError::InvalidToken)
        },
{
    if verified {
        Ok(())
    } else {
        Err(AuthError::InvalidToken)
    }
}

} // verus!

//! Signing in with the repository host: which page leads where, the address
//! at which a code is exchanged for a token, and how often that is tried.
use vstd::prelude::*;
use vstd::string::*;
use crate::session::AuthStatus;

verus! {

/// The proxy through which the token exchange is reached from a browser.
pub const CORS_PROXY: &'static str = "https://corsproxy.io/?";

/// The address at which the host exchanges a code for a token.
pub const ACCESS_TOKEN_URL: &'static str = "https://github.com/login/oauth/access_token";

/// The address at which the host asks the user to authorize the application,
/// up to its parameters.
pub const AUTHORIZE_URL: &'static str = "https://github.com/login/oauth/authorize?";

/// The path of the page to which the host sends the user back.
pub const TOKEN_EXCHANGE_PATH: &'static str = "api/auth/login_token";

/// How often the exchange of a code for a token is tried.
pub const MAX_ATTEMPTS: usize = 2;

/// The sixteen digits of a percent-encoded byte, in their order.
pub const HEX_DIGITS: &'static str = "0123456789ABCDEF";

/// Whether percent-encoding keeps a byte as it is: a letter or a digit of
/// ASCII, or one of the marks `-`, `.`, `_` and `~`.
pub open spec fn is_unreserved(byte: u8) -> bool {
    ('0' as u32 <= byte as u32 <= '9' as u32) || ('A' as u32 <= byte as u32 <= 'Z' as u32) || (
    'a' as u32 <= byte as u32 <= 'z' as u32) || byte as u32 == '-' as u32 || byte as u32
        == '.' as u32 || byte as u32 == '_' as u32 || byte as u32 == '~' as u32
}

/// A byte percent-encoded: itself where it is kept, else a percent sign and
/// its two hexadecimal digits, the higher first, in upper case.
pub open spec fn encoded_byte(byte: u8) -> Seq<char> {
    if is_unreserved(byte) {
        seq![byte as char]
    } else {
        seq!['%', HEX_DIGITS@[byte as int / 16], HEX_DIGITS@[byte as int % 16]]
    }
}

/// Bytes percent-encoded, one after the other.
pub open spec fn encoded_bytes(bytes: Seq<u8>) -> Seq<char>
    decreases bytes.len(),
{
    if bytes.len() == 0 {
        Seq::empty()
    } else {
        encoded_bytes(bytes.drop_last()) + encoded_byte(bytes.last())
    }
}

/// A text percent-encoded: each byte of its UTF-8 form, percent-encoded.
pub open spec fn percent_encoded(data: Seq<char>) -> Seq<char> {
    encoded_bytes(vstd::utf8::encode_utf8(data))
}

/// Percent-encodes a text. Calls `urlencoding::encode`, which goes through
/// the bytes of the text's UTF-8 form, keeps each letter and digit of ASCII
/// and each of the marks `-`, `.`, `_` and `~`, and writes a percent sign and
/// two upper-case hexadecimal digits for every other byte. The contract
/// claims exactly that of the result.
#[verifier::external_body]
fn percent_encode(data: &str) -> (res: String)
    ensures
        res@ == percent_encoded(data@),
{
    urlencoding::encode(data).into_owned()
}

/// The address that reaches an encoded target through a proxy.
pub fn proxied_url(proxy: &str, encoded_target: &str) -> (res: String)
    ensures
        res@ == proxy@ + encoded_target@,
{
    proxy.to_owned().concat(encoded_target)
}

/// The address at which a code is exchanged for a token: the proxy,
/// followed by the host's address, percent-encoded.
pub fn exchange_url() -> (res: String)
    ensures
        res@ == CORS_PROXY@ + percent_encoded(ACCESS_TOKEN_URL@),
{
    let target = percent_encode(ACCESS_TOKEN_URL);
    proxied_url(CORS_PROXY, target.as_str())
}

/// The address that asks the user to authorize the application `client_id`
/// for gists, and leads back to the token exchange page under `base_url`.
pub open spec fn spec_authorize_url(client_id: Seq<char>, base_url: Seq<char>) -> Seq<char> {
    AUTHORIZE_URL@ + "client_id="@ + client_id + "&scope=gist&redirect_uri="@ + base_url
        + TOKEN_EXCHANGE_PATH@
}

/// The address that asks the user to authorize the application.
pub fn authorize_url(client_id: &str, base_url: &str) -> (res: String)
    ensures
        res@ == spec_authorize_url(client_id@, base_url@),
{
    AUTHORIZE_URL.to_owned().concat("client_id=").concat(client_id).concat(
        "&scope=gist&redirect_uri=",
    ).concat(base_url).concat(TOKEN_EXCHANGE_PATH)
}

/// A page of the sign-in.
#[derive(Clone, Copy, Debug, PartialEq, Eq, Structural)]
pub enum AuthRoute {
    Login,
    Logout,
    TokenExchange,
}

/// What a page of the sign-in does.
#[derive(Clone, Copy, Debug, PartialEq, Eq, Structural)]
pub enum AuthStep {
    /// Signing in starts: the user is sent to the host to authorize.
    Authorize,
    /// The user is signed out, and the session is cleared.
    SignOut,
    /// The code that the host sent back is exchanged for a token.
    ExchangeTokens,
    /// The page does nothing.
    Stay,
}

/// What a page of the sign-in does in a state of the session: the login page
/// starts signing in when nobody is signed in, the logout page signs out
/// unless nobody is signed in, and the token exchange page exchanges the code
/// while signing in is under way.
pub fn route_step(route: AuthRoute, status: &AuthStatus) -> (res: AuthStep)
    ensures
        res == match route {
            AuthRoute::Login => if status is SignedOut {
                AuthStep::Authorize
            } else {
                AuthStep::Stay
            },
            AuthRoute::Logout => if status is SignedOut {
                AuthStep::Stay
            } else {
                AuthStep::SignOut
            },
            AuthRoute::TokenExchange => if status is Authorizing {
                AuthStep::ExchangeTokens
            } else {
                AuthStep::Stay
            },
        },
{
    match route {
        AuthRoute::Login => match status {
            AuthStatus::SignedOut => AuthStep::Authorize,
            _ => AuthStep::Stay,
        },
        AuthRoute::Logout => match status {
            AuthStatus::SignedOut => AuthStep::Stay,
            _ => AuthStep::SignOut,
        },
        AuthRoute::TokenExchange => match status {
            AuthStatus::Authorizing => AuthStep::ExchangeTokens,
            _ => AuthStep::Stay,
        },
    }
}

/// The state of the session after a step of the sign-in.
pub fn status_after(step: AuthStep, status: AuthStatus) -> (res: AuthStatus)
    ensures
        match step {
            AuthStep::Authorize => res is Authorizing,
            AuthStep::SignOut => res is SignedOut,
            AuthStep::ExchangeTokens => res is ExchangingTokens,
            AuthStep::Stay => res == status,
        },
{
    match step {
        AuthStep::Authorize => AuthStatus::Authorizing,
        AuthStep::SignOut => AuthStatus::SignedOut,
        AuthStep::ExchangeTokens => AuthStatus::ExchangingTokens,
        AuthStep::Stay => status,
    }
}

/// What follows an attempt to exchange the code.
#[derive(Clone, Copy, Debug, PartialEq, Eq, Structural)]
pub enum ExchangeNext {
    /// The exchange is tried again.
    Retry,
    /// The exchange is given up.
    GiveUp,
    /// The user is signed in, and the profile is fetched.
    FetchProfile,
}

/// What follows the attempt with the number `attempt`, counted from zero:
/// success signs the user in; a failure is noted in the session, and the
/// exchange is tried again until `MAX_ATTEMPTS` attempts have failed.
pub fn exchange_outcome(attempt: usize, result: Result<String, String>) -> (res: (
    AuthStatus,
    ExchangeNext,
))
    ensures
        match result {
            Ok(token) => res.0.token() == Some(token@) && res.1 == ExchangeNext::FetchProfile,
            Err(error) => res.0.failure() == Some(error@) && res.1 == if attempt + 1
                < MAX_ATTEMPTS {
                ExchangeNext::Retry
            } else {
                ExchangeNext::GiveUp
            },
        },
{
    match result {
        Ok(token) => (AuthStatus::Successful(token), ExchangeNext::FetchProfile),
        Err(error) => {
            let next = if attempt < MAX_ATTEMPTS - 1 {
                ExchangeNext::Retry
            } else {
                ExchangeNext::GiveUp
            };
            (AuthStatus::Failed(error), next)
        },
    }
}

/// Whether the user has just signed in: the session shows a signed-in user
/// and did not when it was looked at last.
pub fn signed_in_now(status: &AuthStatus, was_authenticated: bool) -> (res: bool)
    ensures
        res == (status is Successful && !was_authenticated),
{
    match status {
        AuthStatus::Successful(_) => !was_authenticated,
        _ => false,
    }
}

} // verus!

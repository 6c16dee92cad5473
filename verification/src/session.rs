//! What a browser session knows of the signed-in user.
use vstd::prelude::*;
use vstd::string::*;
use crate::gist::{GistId, GistInfo};

verus! {

/// How far signing in has come.
#[derive(Debug)]
pub enum AuthStatus {
    /// Nobody is signed in and nothing is under way.
    SignedOut,
    Authorizing,
    ExchangingTokens,
    /// Signed in; the text is the bearer token.
    Successful(String),
    /// Signing in failed; the text says why.
    Failed(String),
}

/// The byline of the state in which nobody is signed in.
pub const BYLINE_NONE: &'static str = "";

/// The byline while the provider is asked.
pub const BYLINE_AUTHORIZING: &'static str = "Establishing handshake";

/// The byline while the code is exchanged for a token.
pub const BYLINE_EXCHANGING: &'static str = "Shaking hands";

/// The byline once signed in.
pub const BYLINE_SUCCESSFUL: &'static str = "Greetings completed";

/// The byline after a failure.
pub const BYLINE_FAILED: &'static str = "Failed to authenticate";

impl Default for AuthStatus {
    fn default() -> (res: Self)
        ensures
            res is SignedOut,
    {
        AuthStatus::SignedOut
    }
}

impl Clone for AuthStatus {
    fn clone(&self) -> (res: Self)
        ensures
            res.token() == self.token(),
            res.failure() == self.failure(),
            res is SignedOut == self is SignedOut,
            res is Authorizing == self is Authorizing,
            res is ExchangingTokens == self is ExchangingTokens,
    {
        match self {
            AuthStatus::SignedOut => AuthStatus::SignedOut,
            AuthStatus::Authorizing => AuthStatus::Authorizing,
            AuthStatus::ExchangingTokens => AuthStatus::ExchangingTokens,
            AuthStatus::Successful(token) => AuthStatus::Successful(token.clone()),
            AuthStatus::Failed(error) => AuthStatus::Failed(error.clone()),
        }
    }
}

impl AuthStatus {
    /// The bearer token, once signed in.
    pub open spec fn token(&self) -> Option<Seq<char>> {
        match self {
            AuthStatus::Successful(token) => Some(token@),
            _ => None,
        }
    }

    /// Why signing in failed, if it did.
    pub open spec fn failure(&self) -> Option<Seq<char>> {
        match self {
            AuthStatus::Failed(error) => Some(error@),
            _ => None,
        }
    }

    /// The byline of each state.
    pub open spec fn spec_byline(&self) -> Seq<char> {
        match self {
            AuthStatus::SignedOut => BYLINE_NONE@,
            AuthStatus::Authorizing => BYLINE_AUTHORIZING@,
            AuthStatus::ExchangingTokens => BYLINE_EXCHANGING@,
            AuthStatus::Successful(_) => BYLINE_SUCCESSFUL@,
            AuthStatus::Failed(_) => BYLINE_FAILED@,
        }
    }

    /// Whether the sign-in dialog is shown: while signing in is under way,
    /// and after it failed.
    pub fn should_show_modal(&self) -> (res: bool)
        ensures
            res == (self is Authorizing || self is ExchangingTokens || self is Failed),
    {
        match self {
            AuthStatus::Authorizing | AuthStatus::ExchangingTokens => true,
            AuthStatus::SignedOut | AuthStatus::Successful(_) => false,
            AuthStatus::Failed(_) => true,
        }
    }

    /// Whether progress is shown: from the start of signing in on, unless it
    /// failed.
    pub fn should_show_progress(&self) -> (res: bool)
        ensures
            res == !(self is SignedOut || self is Failed),
    {
        match self {
            AuthStatus::SignedOut | AuthStatus::Failed(_) => false,
            _ => true,
        }
    }

    /// A short line that says where signing in stands.
    pub fn byline(&self) -> (res: &'static str)
        ensures
            res@ == self.spec_byline(),
    {
        match self {
            AuthStatus::SignedOut => BYLINE_NONE,
            AuthStatus::Authorizing => BYLINE_AUTHORIZING,
            AuthStatus::ExchangingTokens => BYLINE_EXCHANGING,
            AuthStatus::Successful(_) => BYLINE_SUCCESSFUL,
            AuthStatus::Failed(_) => BYLINE_FAILED,
        }
    }

    /// Why signing in failed, if it did.
    pub fn info(&self) -> (res: Option<String>)
        ensures
            res.deep_view() == self.failure(),
    {
        match self {
            AuthStatus::Failed(error) => Some(error.clone()),
            _ => None,
        }
    }
}

/// The signed-in user.
#[derive(Debug, Default)]
pub struct User {
    pub name: String,
    pub login: String,
    pub image_url: String,
}

/// What the signed-in user keeps as gists.
#[derive(Debug, Default)]
pub struct Profile {
    pub app_user_data: GistId,
    pub lists: Vec<GistInfo>,
}

} // verus!

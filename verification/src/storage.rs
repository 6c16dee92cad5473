//! What the application needs to reach the remote repository host.
use vstd::prelude::*;
use vstd::string::*;
use crate::session::AuthStatus;

verus! {

/// The name under which the application speaks to the host.
pub const APP_USER_AGENT: &'static str = "wishlist/0.1.0";

/// What a client of the host is made of.
#[derive(Debug)]
pub struct Credential {
    /// The bearer token of the signed-in user.
    pub token: String,
    /// The name under which the application speaks to the host.
    pub user_agent: String,
}

/// What a client of the host is made of, once a user is signed in; nothing
/// before that.
pub fn get(status: &AuthStatus) -> (res: Option<Credential>)
    ensures
        match res {
            Some(credential) => status.token() == Some(credential.token@)
                && credential.user_agent@ == APP_USER_AGENT@,
            None => status.token() is None,
        },
{
    match status {
        AuthStatus::Successful(token) => Some(
            Credential { token: token.clone(), user_agent: APP_USER_AGENT.to_owned() },
        ),
        _ => None,
    }
}

} // verus!

use vstd::prelude::*;

use crate::auth::{get_user_by_auth_header, spec_resolve, AuthError};
use crate::models::{Session, User};
use crate::store::Store;
use crate::tokens::{format_token, spec_token_text};

verus! {

/// What the remote call answers: the caller's account as seen through its
/// token, with the token echoed back.
pub struct UserView {
    pub auth_token: String,
    pub id: String,
    pub licensed: bool,
    pub name: String,
    pub username: String,
}

/// The remote authentication surface: one operation, delegating to the
/// session resolver, so that this surface and the HTTP one can never
/// disagree on what counts as a valid session.
pub struct UserAuth;

impl UserAuth {
    /// Resolve a caller-held token to its account view. The token goes
    /// through exactly the resolution the HTTP surface uses; the error is
    /// handed back for the transport to render as a failed call.
    pub fn get_user(&self, store: &mut Store, auth_token: &String, now: i64) -> (r: Result<
        UserView,
        AuthError,
    >)
        requires
            old(store).wf(),
        ensures
            final(store).wf(),
            ({
                let (s1, res) = spec_resolve(old(store)@, Some(auth_token@), now);
                &&& final(store)@ == s1
                &&& match r {
                    Err(e) => res == Err::<(User, Session), AuthError>(e),
                    Ok(uv) => (res matches Ok((u, sess)) && uv.auth_token@ == spec_token_text(
                        sess.token,
                    ) && uv.id@ == spec_token_text(u.id) && uv.licensed == u.spec_licensed()
                        && uv.name == u.name && uv.username == u.username),
                }
            }),
    {
        let (user, session) = match get_user_by_auth_header(store, Some(auth_token), now) {
            Ok(pair) => pair,
            Err(e) => {
                return Err(e);
            },
        };
        let licensed = user.is_licensed();
        Ok(
            UserView {
                auth_token: format_token(session.token),
                id: format_token(user.id),
                licensed,
                name: user.name,
                username: user.username,
            },
        )
    }
}

} // verus!

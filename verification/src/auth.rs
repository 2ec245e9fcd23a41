use vstd::prelude::*;

use crate::models::{Session, User};
use crate::store::{
    has_session, has_user_id, session_ix, spec_session, spec_user, update_session_last_used, Store,
    StoreView,
};
use crate::tokens::{parse_token, spec_parse_token};

verus! {

/// Why a bearer token failed to resolve to an account.
#[derive(Clone, Copy, Debug, PartialEq, Eq, Structural)]
pub enum AuthError {
    /// No token came with the request.
    NoCredential,
    /// The token text is not in the opaque-token format.
    MalformedCredential,
    /// The token is well-formed but no live session carries it, or the
    /// session's owning account no longer exists.
    InvalidToken,
}

impl AuthError {
    /// Status the error maps to at the HTTP boundary: a missing or
    /// malformed credential is unauthorized, while an unknown token is a
    /// bad request. The split is kept as existing clients expect it.
    pub open spec fn spec_status(&self) -> u16 {
        match self {
            AuthError::NoCredential => 401,
            AuthError::MalformedCredential => 401,
            AuthError::InvalidToken => 400,
        }
    }

    pub fn status(&self) -> (r: u16)
        ensures
            r == self.spec_status(),
    {
        match self {
            AuthError::NoCredential => 401,
            AuthError::MalformedCredential => 401,
            AuthError::InvalidToken => 400,
        }
    }

    /// The response body that accompanies the status.
    pub open spec fn spec_message(&self) -> Seq<char> {
        match self {
            AuthError::NoCredential => "No authorization header"@,
            AuthError::MalformedCredential => "Invalid authorization header"@,
            AuthError::InvalidToken => "Invalid token"@,
        }
    }

    pub fn message(&self) -> (r: String)
        ensures
            r@ == self.spec_message(),
    {
        match self {
            AuthError::NoCredential => String::from_str("No authorization header"),
            AuthError::MalformedCredential => String::from_str("Invalid authorization header"),
            AuthError::InvalidToken => String::from_str("Invalid token"),
        }
    }
}

/// Resolution of an already-parsed bearer token: the session must exist and
/// its owning account must still exist; on success the session's last-used
/// stamp is refreshed as a side effect (also when the account turns out to
/// be gone, since the session was touched first). The session returned is
/// the row as it stood when presented.
pub open spec fn spec_resolve_token(s: StoreView, token: u128, now: i64) -> (
    StoreView,
    Result<(User, Session), AuthError>,
) {
    if !has_session(s.sessions, token) {
        (s, Err(AuthError::InvalidToken))
    } else {
        let sess = spec_session(s.sessions, token);
        let touched = (StoreView {
            sessions: s.sessions.update(
                session_ix(s.sessions, token),
                (Session { last_used: now, ..sess }),
            ),
            ..s
        });
        if !has_user_id(s.users, sess.user_id) {
            (touched, Err(AuthError::InvalidToken))
        } else {
            (touched, Ok((spec_user(s.users, sess.user_id), sess)))
        }
    }
}

/// Resolution of a raw bearer header: absent, malformed, or resolved as
/// `spec_resolve_token` says.
pub open spec fn spec_resolve(s: StoreView, header: Option<Seq<char>>, now: i64) -> (
    StoreView,
    Result<(User, Session), AuthError>,
) {
    match header {
        None => (s, Err(AuthError::NoCredential)),
        Some(h) => match spec_parse_token(h) {
            None => (s, Err(AuthError::MalformedCredential)),
            Some(t) => spec_resolve_token(s, t, now),
        },
    }
}

/// The view of an optional borrowed header.
pub open spec fn spec_header(header: Option<&String>) -> Option<Seq<char>> {
    match header {
        Some(h) => Some(h@),
        None => None,
    }
}

/// Resolve an already-parsed bearer token to its account and session,
/// refreshing the session's last-used stamp.
pub fn get_user_by_auth(store: &mut Store, token: u128, now: i64) -> (r: Result<
    (User, Session),
    AuthError,
>)
    requires
        old(store).wf(),
    ensures
        final(store).wf(),
        (final(store)@, r) == spec_resolve_token(old(store)@, token, now),
{
    let session = match store.get_session(token) {
        Some(s) => s,
        None => {
            return Err(AuthError::InvalidToken);
        },
    };
    match update_session_last_used(store, token, now) {
        Ok(()) => {},
        Err(_) => {
            proof {
                assert(false);
            }
        },
    }
    let user = match store.get_user(session.user_id) {
        Some(u) => u,
        None => {
            return Err(AuthError::InvalidToken);
        },
    };
    Ok((user, session))
}

/// The single authentication choke point: resolve the bearer header every
/// protected operation presents, exactly as `spec_resolve` says.
pub fn get_user_by_auth_header(store: &mut Store, auth_header: Option<&String>, now: i64) -> (r:
    Result<(User, Session), AuthError>)
    requires
        old(store).wf(),
    ensures
        final(store).wf(),
        (final(store)@, r) == spec_resolve(old(store)@, spec_header(auth_header), now),
{
    let header = match auth_header {
        Some(h) => h,
        None => {
            return Err(AuthError::NoCredential);
        },
    };
    let token = match parse_token(header.as_str()) {
        Some(t) => t,
        None => {
            return Err(AuthError::MalformedCredential);
        },
    };
    get_user_by_auth(store, token, now)
}

/// What resolution can and cannot do: a missing header is refused as
/// lacking a credential, a malformed token is always refused as
/// unauthorized and touches nothing, a session whose owning account was
/// deleted never authenticates, and success names a live session owned by a
/// live account.
pub proof fn lemma_resolver_rejections(s: StoreView, header: Option<Seq<char>>, now: i64)
    requires
        s.wf(),
    ensures
        ({
            let (s1, r) = spec_resolve(s, header, now);
            &&& (header is None ==> r == Err::<(User, Session), AuthError>(AuthError::NoCredential)
                && s1 == s)
            &&& (header matches Some(h) && spec_parse_token(h) is None ==> r == Err::<
                (User, Session),
                AuthError,
            >(AuthError::MalformedCredential) && s1 == s && r->Err_0.spec_status() == 401)
            &&& (header matches Some(h) && spec_parse_token(h) matches Some(t) && has_session(
                s.sessions,
                t,
            ) && !has_user_id(s.users, spec_session(s.sessions, t).user_id) ==> r == Err::<
                (User, Session),
                AuthError,
            >(AuthError::InvalidToken))
            &&& (r matches Ok((u, sess)) ==> header matches Some(h) && spec_parse_token(h)
                == Some(sess.token) && has_session(s.sessions, sess.token) && sess == spec_session(
                s.sessions,
                sess.token,
            ) && has_user_id(s.users, sess.user_id) && u == spec_user(s.users, sess.user_id))
        }),
{
    let (s1, r) = spec_resolve(s, header, now);
    match header {
        Some(h) => {
            match spec_parse_token(h) {
                Some(t) => {
                    if has_session(s.sessions, t) {
                        let ix = session_ix(s.sessions, t);
                        assert(0 <= ix < s.sessions.len() && s.sessions[ix].token == t);
                    }
                },
                None => {},
            }
        },
        None => {},
    }
}

} // verus!

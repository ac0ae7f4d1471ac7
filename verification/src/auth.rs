//! Resolving the identity of a request before any handler runs.

use vstd::prelude::*;
use std::sync::Arc;
use crate::error::Error;
use crate::resource::User;
use crate::text::str_eq;

verus! {

/// Who checks credentials.
pub trait AuthenticationProvider {
    /// The identity that a pair of credentials stands for: `Ok(None)` where
    /// they are not valid.
    spec fn spec_validate_user_token(&self, user_id: Seq<char>, token: Seq<char>) -> Result<
        Option<Seq<char>>,
        Error,
    >;

    fn validate_user_token(&self, user_id: &str, token: &str) -> (user: Result<Option<User>, Error>)
        ensures
            match self.spec_validate_user_token(user_id@, token@) {
                Ok(Some(id)) => user matches Ok(Some(u)) && u@ == id,
                Ok(None) => user matches Ok(None),
                Err(e) => user matches Err(x) && x == e,
            },
    ;
}

/// One identity and its password.
#[derive(Debug)]
pub struct UserEntry {
    pub id: String,
    pub password: String,
}

/// A provider that knows a fixed list of identities.
#[derive(Debug)]
pub struct StaticUserStore {
    pub users: Vec<UserEntry>,
}

/// Whether one of the first `n` entries is the identity `user_id` with the
/// password `token`.
pub open spec fn is_known(users: Seq<UserEntry>, user_id: Seq<char>, token: Seq<char>, n: nat) -> bool
    decreases n,
{
    n > 0 && (is_known(users, user_id, token, (n - 1) as nat) || (users[n - 1].id@ == user_id
        && users[n - 1].password@ == token))
}

impl StaticUserStore {
    pub fn new(users: Vec<UserEntry>) -> (store: StaticUserStore)
        ensures
            store.users == users,
    {
        StaticUserStore { users }
    }
}

impl AuthenticationProvider for StaticUserStore {
    /// The credentials stand for their identity exactly if the list holds
    /// them. The provider never fails.
    open spec fn spec_validate_user_token(&self, user_id: Seq<char>, token: Seq<char>) -> Result<
        Option<Seq<char>>,
        Error,
    > {
        if is_known(self.users@, user_id, token, self.users.len() as nat) {
            Ok(Some(user_id))
        } else {
            Ok(None)
        }
    }

    fn validate_user_token(&self, user_id: &str, token: &str) -> (user: Result<Option<User>, Error>) {
        let mut i: usize = 0;
        while i < self.users.len()
            invariant
                i <= self.users.len(),
                !is_known(self.users@, user_id@, token@, i as nat),
            decreases self.users.len() - i,
        {
            if str_eq(self.users[i].id.as_str(), user_id) && str_eq(
                self.users[i].password.as_str(),
                token,
            ) {
                proof {
                    lemma_known_stays(
                        self.users@,
                        user_id@,
                        token@,
                        (i + 1) as nat,
                        self.users.len() as nat,
                    );
                }
                return Ok(Some(User { id: user_id.to_owned() }));
            }
            i = i + 1;
        }
        Ok(None)
    }
}

/// Credentials once found stay found.
pub proof fn lemma_known_stays(
    users: Seq<UserEntry>,
    user_id: Seq<char>,
    token: Seq<char>,
    n: nat,
    m: nat,
)
    requires
        n <= m,
        is_known(users, user_id, token, n),
    ensures
        is_known(users, user_id, token, m),
    decreases m,
{
    if n < m {
        lemma_known_stays(users, user_id, token, n, (m - 1) as nat);
    }
}

/// What a Basic authorization header carries.
#[derive(Debug)]
pub struct BasicCredentials {
    pub user_id: String,
    pub password: Option<String>,
}

/// Attaches to every request the identity that its credentials stand for.
pub struct AuthenticationMiddleware<AP: AuthenticationProvider> {
    pub auth_provider: Arc<AP>,
}

/// The middleware around one service.
pub struct InnerAuthenticationMiddleware<S, AP: AuthenticationProvider> {
    pub service: Arc<S>,
    pub auth_provider: Arc<AP>,
}

impl<AP: AuthenticationProvider> AuthenticationMiddleware<AP> {
    pub fn new(auth_provider: Arc<AP>) -> (middleware: Self)
        ensures
            middleware.auth_provider == auth_provider,
    {
        Self { auth_provider }
    }

    /// Wraps a service; the provider is shared with it.
    pub fn new_transform<S>(&self, service: S) -> (inner: Result<
        InnerAuthenticationMiddleware<S, AP>,
        (),
    >)
        ensures
            inner matches Ok(m) && *m.service == service && m.auth_provider == self.auth_provider,
    {
        Ok(
            InnerAuthenticationMiddleware {
                service: Arc::new(service),
                auth_provider: Arc::clone(&self.auth_provider),
            },
        )
    }
}

/// The identity that a provider resolves the credentials of a request to.
/// Without credentials, without a password, or where the provider rejects
/// them or fails, there is none, and the request goes on unauthenticated.
pub open spec fn resolved_identity<AP: AuthenticationProvider>(
    provider: AP,
    credentials: Option<BasicCredentials>,
) -> Option<Seq<char>> {
    match credentials {
        Some(BasicCredentials { user_id, password: Some(password) }) => {
            match provider.spec_validate_user_token(user_id@, password@) {
                Ok(Some(user)) => Some(user),
                _ => None,
            }
        },
        _ => None,
    }
}

impl<S, AP: AuthenticationProvider> InnerAuthenticationMiddleware<S, AP> {
    /// The identity to attach to a request with these credentials, before it
    /// is handed to the service. Missing or rejected credentials do not end
    /// the request.
    pub fn call(&self, credentials: Option<BasicCredentials>) -> (user: Option<User>)
        ensures
            match resolved_identity(*self.auth_provider, credentials) {
                Some(id) => user matches Some(u) && u@ == id,
                None => user is None,
            },
    {
        if let Some(auth) = credentials {
            if let Some(password) = auth.password {
                if let Ok(Some(user)) = self.auth_provider.validate_user_token(
                    auth.user_id.as_str(),
                    password.as_str(),
                ) {
                    return Some(user);
                }
            }
        }
        None
    }
}

} // verus!

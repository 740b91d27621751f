//! Plain data carried between the daemon's parts: credentials, the
//! signed-in user, and where a piece of data was served from.
use vstd::prelude::*;

verus! {

/// One credential record: the bearer token, the token that renews it,
/// when it was obtained (seconds since the epoch) and the optional
/// scope it was granted with.
pub struct Token {
    pub access_token: String,
    pub refresh_token: String,
    pub obtain_time: u64,
    pub scope: Option<String>,
}

/// A token is stale once its age reaches this many seconds; the sync
/// engine then refreshes it before pushing anything.
pub const TOKEN_REFRESH_AGE: u64 = 3500;

impl Token {
    /// A token obtained now, without a scope.
    pub fn new(access_token: String, refresh_token: String, obtain_time: u64) -> (r: Token)
        ensures
            r.access_token == access_token,
            r.refresh_token == refresh_token,
            r.obtain_time == obtain_time,
            r.scope is None,
    {
        Token { access_token, refresh_token, obtain_time, scope: None }
    }

    /// Whether the token is due for a refresh at time `now`.
    pub open spec fn spec_needs_refresh(self, now: u64) -> bool {
        now - self.obtain_time >= TOKEN_REFRESH_AGE
    }

    /// A token needs a refresh once it is 3500 seconds old.
    pub fn needs_refresh(&self, now: u64) -> (r: bool)
        requires
            self.obtain_time <= now,
        ensures
            r == self.spec_needs_refresh(now),
    {
        now - self.obtain_time >= TOKEN_REFRESH_AGE
    }
}

impl Clone for Token {
    fn clone(&self) -> (r: Self)
        ensures
            r == *self,
    {
        Token {
            access_token: self.access_token.clone(),
            refresh_token: self.refresh_token.clone(),
            obtain_time: self.obtain_time,
            scope: match &self.scope {
                Some(s) => Some(s.clone()),
                None => None,
            },
        }
    }
}

/// The user this daemon serves.
pub struct UserInfo {
    pub username: String,
    pub galaxy_user_id: String,
}

impl Clone for UserInfo {
    fn clone(&self) -> (r: Self)
        ensures
            r == *self,
    {
        UserInfo { username: self.username.clone(), galaxy_user_id: self.galaxy_user_id.clone() }
    }
}

/// Where a reply was served from: the remote service or the local
/// cache.
#[derive(PartialEq, Eq, Structural, Clone, Copy, Debug)]
pub enum DataSource {
    Online,
    Local,
}

} // verus!

//! The sync engine's decisions.
//!
//! Every ten seconds, and once when a handler winds down, the caller
//! walks these steps: refresh the token if it has aged out, then push
//! each dirty achievement, statistic and leaderboard row, and record
//! each outcome here. A pushed row's dirty bit goes down only on
//! success; a conflict on a score is resolved by reading the server's
//! entry back; every other failure leaves the row dirty so the next
//! pass retries it.
use vstd::prelude::*;

use crate::cache::{GameplayCache, spec_clear_ach_changed, spec_clear_stat_changed,
    spec_overwrite_lb_score, spec_set_lb_changed, spec_set_lb_rank, CacheV};
use crate::comm::TokenFetchResult;
use crate::context::State;
use crate::token_store::{spec_find, spec_insert, TokenEntry, TokenStore};
use crate::types::TOKEN_REFRESH_AGE;

verus! {

/// What the token check asks the caller to do: nothing, or refresh
/// with these credentials.
pub enum SyncTokenPlan {
    Skip,
    Refresh { client_id: String, client_secret: String, refresh_token: String, openid: bool },
}

/// Decide whether the client's token is due for a refresh at time
/// `now`: only an identified client with a stored token at least 3500
/// seconds old gets one, using that token's refresh half and keeping
/// its scope.
pub fn plan_token_refresh(state: &State, store: &TokenStore, now: u64) -> (r: SyncTokenPlan)
    ensures
        (r matches SyncTokenPlan::Refresh { client_id, client_secret, refresh_token, openid } ==> {
            &&& state.client_id == Some(client_id)
            &&& state.client_secret == Some(client_secret)
            &&& (spec_find(store@, client_id@) matches Some(t) && refresh_token == t.refresh_token
                && openid == (t.scope is Some) && now >= t.obtain_time && now - t.obtain_time
                >= TOKEN_REFRESH_AGE)
        }),
        (r is Skip <==> state.client_id is None || state.client_secret is None || (
        match state.client_id {
            Some(cid) => match spec_find(store@, cid@) {
                Some(t) => !(now >= t.obtain_time && now - t.obtain_time >= TOKEN_REFRESH_AGE),
                None => true,
            },
            None => true,
        })),
{
    let client_id = match &state.client_id {
        Some(c) => c.clone(),
        None => {
            return SyncTokenPlan::Skip;
        },
    };
    let client_secret = match &state.client_secret {
        Some(c) => c.clone(),
        None => {
            return SyncTokenPlan::Skip;
        },
    };
    let token = match store.get(&client_id) {
        Some(t) => t,
        None => {
            return SyncTokenPlan::Skip;
        },
    };
    if now >= token.obtain_time && now - token.obtain_time >= TOKEN_REFRESH_AGE {
        SyncTokenPlan::Refresh {
            client_id,
            client_secret,
            refresh_token: token.refresh_token,
            openid: token.scope.is_some(),
        }
    } else {
        SyncTokenPlan::Skip
    }
}

/// Record the outcome of a token refresh: a fetched token replaces the
/// stored one; a transport failure flips the handler offline, which
/// halts this sync pass; any other failure changes nothing and the
/// pass is halted as well.
pub fn apply_refresh_outcome(
    state: &mut State,
    store: &mut TokenStore,
    client_id: String,
    outcome: TokenFetchResult,
) -> (halt: bool)
    ensures
        (match outcome {
            TokenFetchResult::Fetched(t) => {
                &&& final(store)@ == spec_insert(old(store)@, TokenEntry { client_id, token: t })
                &&& *final(state) == *old(state)
                &&& !halt
            },
            TokenFetchResult::Transport => {
                &&& final(store)@ == old(store)@
                &&& *final(state) == (State { is_online: false, ..*old(state) })
                &&& halt
            },
            TokenFetchResult::HttpStatus(_) => {
                &&& final(store)@ == old(store)@
                &&& *final(state) == *old(state)
                &&& halt
            },
        }),
{
    match outcome {
        TokenFetchResult::Fetched(t) => {
            store.insert(client_id, t);
            false
        },
        TokenFetchResult::Transport => {
            state.set_offline();
            true
        },
        TokenFetchResult::HttpStatus(_) => true,
    }
}

/// Record one achievement push: success lowers the row's dirty bit
/// and touches nothing else of it; failure leaves the row dirty for
/// the next pass.
pub fn apply_achievement_push(cache: &mut GameplayCache, id: i64, pushed: bool)
    ensures
        pushed ==> final(cache)@ == (CacheV {
            achievements: spec_clear_ach_changed(old(cache)@.achievements, id),
            ..old(cache)@
        }),
        !pushed ==> final(cache)@ == old(cache)@,
{
    if pushed {
        cache.clear_achievement_changed(id);
    }
}

/// Record one statistic push, like the achievement push.
pub fn apply_stat_push(cache: &mut GameplayCache, id: i64, pushed: bool)
    ensures
        pushed ==> final(cache)@ == (CacheV {
            stats: spec_clear_stat_changed(old(cache)@.stats, id),
            ..old(cache)@
        }),
        !pushed ==> final(cache)@ == old(cache)@,
{
    if pushed {
        cache.clear_stat_changed(id);
    }
}

/// How one score push ended.
pub enum ScoreSyncOutcome {
    /// The service took the score and reported the standing.
    Accepted { new_rank: u32, leaderboard_entry_total_count: u32 },
    /// The service answered with a conflict and the read-back found
    /// the server's current entry.
    ConflictResolved { score: i32, rank: u32 },
    /// The service answered with a conflict but the read-back failed.
    ConflictUnresolved,
    /// The push failed some other way.
    Failed,
}

/// Record one score push. Acceptance stores the reported standing and
/// lowers the dirty bit; a conflict takes the server's score and rank
/// instead, lowering the bit; an unresolved conflict lowers the bit
/// without new values; any other failure leaves the row dirty.
pub fn apply_score_push(cache: &mut GameplayCache, id: i64, outcome: ScoreSyncOutcome)
    ensures
        (match outcome {
            ScoreSyncOutcome::Accepted { new_rank, leaderboard_entry_total_count } => final(cache)@
                == (CacheV {
                leaderboards: spec_set_lb_changed(
                    spec_set_lb_rank(
                        old(cache)@.leaderboards,
                        id,
                        new_rank,
                        leaderboard_entry_total_count,
                    ),
                    id,
                    false,
                ),
                ..old(cache)@
            }),
            ScoreSyncOutcome::ConflictResolved { score, rank } => final(cache)@ == (CacheV {
                leaderboards: spec_overwrite_lb_score(old(cache)@.leaderboards, id, score, rank),
                ..old(cache)@
            }),
            ScoreSyncOutcome::ConflictUnresolved => final(cache)@ == (CacheV {
                leaderboards: spec_set_lb_changed(old(cache)@.leaderboards, id, false),
                ..old(cache)@
            }),
            ScoreSyncOutcome::Failed => final(cache)@ == old(cache)@,
        }),
{
    match outcome {
        ScoreSyncOutcome::Accepted { new_rank, leaderboard_entry_total_count } => {
            cache.set_leaderboard_rank(id, new_rank, leaderboard_entry_total_count);
            cache.set_leaderboard_changed(id, false);
        },
        ScoreSyncOutcome::ConflictResolved { score, rank } => {
            cache.overwrite_leaderboard_score(id, score, rank);
        },
        ScoreSyncOutcome::ConflictUnresolved => {
            cache.set_leaderboard_changed(id, false);
        },
        ScoreSyncOutcome::Failed => {},
    }
}

} // verus!

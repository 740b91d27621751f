//! Communication-service request handling.
//!
//! Each function here is the decision core of one request the game can
//! send: it reads and writes the handler state, the token store and
//! the gameplay cache, takes any remote call's outcome as an argument,
//! and says exactly what it returns for every outcome. The caller
//! performs the I/O around it: it reads the frame, makes the remote
//! call this module asked for, and writes the framed response.
use vstd::prelude::*;

use crate::cache::{AchievementRow, GameplayCache, LeaderboardRow, StatRow, spec_set_achievement,
    spec_set_lb_changed, spec_set_lb_rank, spec_set_lb_score, spec_set_stat_float,
    spec_set_stat_int, spec_reset_achievements, spec_reset_stats, spec_upsert_achs,
    spec_upsert_lbs, spec_upsert_stats, CacheV, unique_ach_ids, unique_lb_ids, unique_stat_ids};
use crate::context::{State, spec_auth_identify, spec_mark_db_opened};
use crate::ext::{b64url_encode, b64url_encode_of, rfc3339_of_timestamp, timestamp_to_rfc3339};
use crate::ids::{IDType, INNER_ID_LIMIT};
use crate::numbers::{parse_u64, spec_digits_value, spec_is_digits};
use crate::token_store::{spec_insert, TokenEntry, TokenStore};
use crate::types::{DataSource, Token, UserInfo};

verus! {

/// Sort byte of the communication-service message family.
pub const SORT_COMMUNICATION_SERVICE: u32 = 1;

/// Sort byte of the webbroker message family.
pub const SORT_WEBBROKER: u32 = 2;

/// Sort byte of the overlay-for-service message family.
pub const SORT_OVERLAY_SERVICE: u32 = 3;

/// Sort byte of the overlay-for-client message family.
pub const SORT_OVERLAY_CLIENT: u32 = 7;

/// Message type of a library-info request, and of its response.
pub const MT_LIBRARY_INFO_REQUEST: u32 = 1;

/// Message type of the library-info response.
pub const MT_LIBRARY_INFO_RESPONSE: u32 = 2;

/// Message type of an auth request from the game.
pub const MT_AUTH_INFO_REQUEST: u32 = 3;

/// Message type of the auth response.
pub const MT_AUTH_INFO_RESPONSE: u32 = 4;

/// Message type of a statistics read.
pub const MT_GET_USER_STATS_REQUEST: u32 = 5;

/// Message type of the statistics reply.
pub const MT_GET_USER_STATS_RESPONSE: u32 = 6;

/// Message type of a statistic update.
pub const MT_UPDATE_USER_STAT_REQUEST: u32 = 7;

/// Message type of the statistic-update reply.
pub const MT_UPDATE_USER_STAT_RESPONSE: u32 = 8;

/// Message type of a statistics delete.
pub const MT_DELETE_USER_STATS_REQUEST: u32 = 9;

/// Message type of the statistics-delete reply.
pub const MT_DELETE_USER_STATS_RESPONSE: u32 = 10;

/// Message type of an achievements read.
pub const MT_GET_USER_ACHIEVEMENTS_REQUEST: u32 = 11;

/// Message type of the achievements reply.
pub const MT_GET_USER_ACHIEVEMENTS_RESPONSE: u32 = 12;

/// Message type of an achievement unlock.
pub const MT_UNLOCK_USER_ACHIEVEMENT_REQUEST: u32 = 13;

/// Message type of the unlock reply.
pub const MT_UNLOCK_USER_ACHIEVEMENT_RESPONSE: u32 = 14;

/// Message type of an achievement clear.
pub const MT_CLEAR_USER_ACHIEVEMENT_REQUEST: u32 = 15;

/// Message type of the clear reply.
pub const MT_CLEAR_USER_ACHIEVEMENT_RESPONSE: u32 = 16;

/// Message type of an achievements delete.
pub const MT_DELETE_USER_ACHIEVEMENTS_REQUEST: u32 = 17;

/// Message type of the achievements-delete reply.
pub const MT_DELETE_USER_ACHIEVEMENTS_RESPONSE: u32 = 18;

/// Message type of a leaderboards listing.
pub const MT_GET_LEADERBOARDS_REQUEST: u32 = 19;

/// Message type of the leaderboards reply.
pub const MT_GET_LEADERBOARDS_RESPONSE: u32 = 20;

/// Message type of a leaderboards listing by key.
pub const MT_GET_LEADERBOARDS_BY_KEY_REQUEST: u32 = 21;

/// Message type of a global entries read.
pub const MT_GET_LEADERBOARD_ENTRIES_GLOBAL_REQUEST: u32 = 22;

/// Message type of an entries read around the user.
pub const MT_GET_LEADERBOARD_ENTRIES_AROUND_USER_REQUEST: u32 = 23;

/// Message type of an entries read for chosen users.
pub const MT_GET_LEADERBOARD_ENTRIES_FOR_USERS_REQUEST: u32 = 24;

/// Message type of the entries reply.
pub const MT_GET_LEADERBOARD_ENTRIES_RESPONSE: u32 = 25;

/// Message type of a score post from the game.
pub const MT_SET_LEADERBOARD_SCORE_REQUEST: u32 = 26;

/// Message type of the score reply.
pub const MT_SET_LEADERBOARD_SCORE_RESPONSE: u32 = 27;

/// Message type of a leaderboard creation.
pub const MT_CREATE_LEADERBOARD_REQUEST: u32 = 28;

/// Message type of the creation reply.
pub const MT_CREATE_LEADERBOARD_RESPONSE: u32 = 29;

/// Message type of a session start.
pub const MT_START_GAME_SESSION_REQUEST: u32 = 30;

/// Message type of the session-start reply.
pub const MT_START_GAME_SESSION_RESPONSE: u32 = 31;

/// Message type of the overlay-state notification the daemon sends.
pub const MT_OVERLAY_STATE_CHANGE_NOTIFICATION: u32 = 32;

/// Webbroker message type of a topic subscription, as the game sends
/// it.
pub const MT_SUBSCRIBE_TOPIC_REQUEST: u32 = 3;

/// Webbroker message type of the subscription reply.
pub const MT_SUBSCRIBE_TOPIC_RESPONSE: u32 = 4;

/// What a remote token fetch came back with: a token, an HTTP status,
/// or a transport failure (connect or timeout).
pub enum TokenFetchResult {
    Fetched(Token),
    HttpStatus(u16),
    Transport,
}

/// An auth request as decoded from the wire.
pub struct AuthInfoRequest {
    pub client_id: String,
    pub client_secret: String,
    pub game_pid: u32,
    pub openid: bool,
}

/// The reply to a successful auth request.
pub struct AuthInfoResponse {
    pub refresh_token: String,
    pub region: u32,
    pub environment_type: u32,
    pub user_id: u64,
    pub user_name: String,
}

/// Region value sent in every auth response: world-wide.
pub const REGION_WORLD_WIDE: u32 = 0;

/// Environment value sent in every auth response: production.
pub const ENVIRONMENT_PRODUCTION: u32 = 0;

/// How an auth request ends: a reply to the game, a refusal because
/// the user does not own the game, or a fatal stop because the daemon
/// is offline with an empty cache.
pub enum AuthOutcome {
    Respond(AuthInfoResponse),
    Unauthorized,
    Fatal,
}

/// The decimal value of a user id text.
pub open spec fn spec_user_id_value(s: Seq<char>) -> nat {
    spec_digits_value(vstd::utf8::encode_utf8(s))
}

/// Whether a user id text is a decimal number small enough to tag.
pub open spec fn spec_valid_user_id(s: Seq<char>) -> bool {
    spec_is_digits(vstd::utf8::encode_utf8(s)) && spec_user_id_value(s) < INNER_ID_LIMIT
}

/// Serve an auth request, given the outcome of the token refresh the
/// caller performed with the bootstrap refresh token.
///
/// The first request pins the client's identity; the database-open
/// mark is set; a fetched token is stored under the request's client
/// id and the daemon goes online. A 403 refuses the client. Any other
/// failure keeps serving only if the cache holds achievements or
/// statistics, else the handler must stop. The reply always carries
/// the user id tagged as a user id.
pub fn auth_info_request(
    state: &mut State,
    store: &mut TokenStore,
    cache: &GameplayCache,
    req: &AuthInfoRequest,
    fetch: TokenFetchResult,
    user: &UserInfo,
) -> (r: AuthOutcome)
    requires
        spec_valid_user_id(user.galaxy_user_id@),
    ensures
        *final(state) == (State {
            is_online: final(state).is_online,
            ..spec_mark_db_opened(
                spec_auth_identify(*old(state), req.client_id, req.client_secret),
            )
        }),
        final(state).is_online == if fetch is Fetched {
            true
        } else {
            old(state).is_online
        },
        (match fetch {
            TokenFetchResult::Fetched(t) => final(store)@ == spec_insert(
                old(store)@,
                TokenEntry { client_id: req.client_id, token: t },
            ),
            _ => final(store)@ == old(store)@,
        }),
        (r matches AuthOutcome::Respond(resp) ==> {
            &&& resp.user_id == IDType::User(
                spec_user_id_value(user.galaxy_user_id@) as u64,
            ).spec_value()
            &&& resp.user_name == user.username
            &&& resp.region == REGION_WORLD_WIDE
            &&& resp.environment_type == ENVIRONMENT_PRODUCTION
            &&& (fetch matches TokenFetchResult::Fetched(t) ==> resp.refresh_token
                == t.refresh_token)
            &&& (!(fetch is Fetched) ==> resp.refresh_token@ == Seq::<char>::empty())
        }),
        (r is Unauthorized <==> fetch matches TokenFetchResult::HttpStatus(403u16)),
        (r is Fatal <==> (fetch is Transport || (fetch matches TokenFetchResult::HttpStatus(st)
            && st != 403)) && !cache@.achievements_retrieved && !cache@.stats_retrieved),
        (r is Respond <==> fetch is Fetched || ((fetch is Transport || (
        fetch matches TokenFetchResult::HttpStatus(st) && st != 403)) && (
        cache@.achievements_retrieved || cache@.stats_retrieved))),
{
    state.identify_client(req.client_id.clone(), req.client_secret.clone());
    state.mark_db_opened();
    let user_id_inner = match parse_u64(user.galaxy_user_id.as_str()) {
        Some(v) => v,
        None => {
            proof {
                assert(false);
            }
            0
        },
    };
    let tagged = IDType::User(user_id_inner);
    let mut refresh_token = String::new();
    match fetch {
        TokenFetchResult::Fetched(t) => {
            refresh_token = t.refresh_token.clone();
            store.insert(req.client_id.clone(), t);
            state.set_online();
        },
        TokenFetchResult::HttpStatus(status) => {
            if status == 403 {
                return AuthOutcome::Unauthorized;
            }
            if !cache.has_achievements() && !cache.has_statistics() {
                return AuthOutcome::Fatal;
            }
        },
        TokenFetchResult::Transport => {
            if !cache.has_achievements() && !cache.has_statistics() {
                return AuthOutcome::Fatal;
            }
        },
    }
    AuthOutcome::Respond(
        AuthInfoResponse {
            refresh_token,
            region: REGION_WORLD_WIDE,
            environment_type: ENVIRONMENT_PRODUCTION,
            user_id: tagged.value(),
            user_name: user.username.clone(),
        },
    )
}

/// Serve a statistics read: prefer the rows the caller fetched from
/// the remote service; store them and mark the pending flag when the
/// fetch succeeded; otherwise serve the cache unchanged.
pub fn get_user_stats(state: &mut State, cache: &mut GameplayCache, fetched: Option<Vec<StatRow>>)
    -> (r: (Vec<StatRow>, DataSource))
    requires
        unique_stat_ids(old(cache)@.stats),
    ensures
        (match fetched {
            Some(rows) => {
                &&& r.0@ == rows@
                &&& r.1 == DataSource::Online
                &&& final(cache)@ == (CacheV {
                    stats: spec_upsert_stats(old(cache)@.stats, rows@),
                    stats_retrieved: true,
                    ..old(cache)@
                })
                &&& *final(state) == (State { updated_stats: true, ..*old(state) })
            },
            None => {
                &&& r.0@ == old(cache)@.stats
                &&& r.1 == DataSource::Local
                &&& final(cache)@ == old(cache)@
                &&& *final(state) == *old(state)
            },
        }),
{
    match fetched {
        Some(rows) => {
            let mut out: Vec<StatRow> = Vec::new();
            let mut i: usize = 0;
            while i < rows.len()
                invariant
                    0 <= i <= rows.len(),
                    out@ == rows@.take(i as int),
                decreases rows.len() - i,
            {
                out.push(rows[i].clone());
                proof {
                    assert(out@ =~= rows@.take(i as int + 1));
                }
                i += 1;
            }
            proof {
                assert(rows@.take(rows@.len() as int) =~= rows@);
            }
            cache.set_statistics(rows);
            state.set_updated_stats(true);
            (out, DataSource::Online)
        },
        None => {
            let rows = cache.get_statistics(false);
            proof {
                crate::cache::lemma_filter_stats_all(cache@.stats);
            }
            (rows, DataSource::Local)
        },
    }
}

/// Serve an achievements read, like the statistics read; the reply
/// also carries the achievements mode.
pub fn get_user_achievements(
    state: &mut State,
    cache: &mut GameplayCache,
    fetched: Option<(Vec<AchievementRow>, String)>,
) -> (r: (Vec<AchievementRow>, String, DataSource))
    requires
        unique_ach_ids(old(cache)@.achievements),
    ensures
        (match fetched {
            Some(pair) => {
                &&& r.0@ == pair.0@
                &&& r.1 == pair.1
                &&& r.2 == DataSource::Online
                &&& final(cache)@ == (CacheV {
                    achievements: spec_upsert_achs(old(cache)@.achievements, pair.0@),
                    achievements_retrieved: true,
                    achievements_mode: pair.1@,
                    ..old(cache)@
                })
                &&& *final(state) == (State { updated_achievements: true, ..*old(state) })
            },
            None => {
                &&& r.0@ == old(cache)@.achievements
                &&& r.1@ == old(cache)@.achievements_mode
                &&& r.2 == DataSource::Local
                &&& final(cache)@ == old(cache)@
                &&& *final(state) == *old(state)
            },
        }),
{
    match fetched {
        Some((rows, mode)) => {
            let mut out: Vec<AchievementRow> = Vec::new();
            let mut i: usize = 0;
            while i < rows.len()
                invariant
                    0 <= i <= rows.len(),
                    out@ == rows@.take(i as int),
                decreases rows.len() - i,
            {
                out.push(rows[i].clone());
                proof {
                    assert(out@ =~= rows@.take(i as int + 1));
                }
                i += 1;
            }
            proof {
                assert(rows@.take(rows@.len() as int) =~= rows@);
            }
            let mode_out = mode.clone();
            cache.set_achievements(rows, mode);
            state.set_updated_achievements(true);
            (out, mode_out, DataSource::Online)
        },
        None => {
            let (rows, mode) = cache.get_achievements(false);
            proof {
                crate::cache::lemma_filter_achs_all(cache@.achievements);
            }
            (rows, mode, DataSource::Local)
        },
    }
}

/// A statistic update from the game, already typed.
pub enum StatUpdateValue {
    Int(i32),
    FloatBits(u32),
}

/// Write a statistic the game reported and raise the pending flag; an
/// increment-only integer statistic never goes down.
pub fn update_user_stat(
    state: &mut State,
    cache: &mut GameplayCache,
    stat_id: i64,
    value: StatUpdateValue,
)
    ensures
        (match value {
            StatUpdateValue::Int(v) => final(cache)@ == (CacheV {
                stats: spec_set_stat_int(old(cache)@.stats, stat_id, v),
                ..old(cache)@
            }),
            StatUpdateValue::FloatBits(bits) => final(cache)@ == (CacheV {
                stats: spec_set_stat_float(old(cache)@.stats, stat_id, bits),
                ..old(cache)@
            }),
        }),
        *final(state) == (State { updated_stats: true, ..*old(state) }),
{
    match value {
        StatUpdateValue::Int(v) => cache.set_stat_int(stat_id, v),
        StatUpdateValue::FloatBits(bits) => cache.set_stat_float(stat_id, bits),
    }
    state.set_updated_stats(true);
}

/// After the caller deleted the remote statistics: put every cached
/// value back at its default with the dirty bits down.
pub fn delete_user_stats(cache: &mut GameplayCache)
    ensures
        final(cache)@ == (CacheV { stats: spec_reset_stats(old(cache)@.stats), ..old(cache)@ }),
{
    cache.reset_stats();
}

/// After the caller deleted the remote achievements: clear every
/// cached unlock with the dirty bits down.
pub fn delete_user_achievements(cache: &mut GameplayCache)
    ensures
        final(cache)@ == (CacheV {
            achievements: spec_reset_achievements(old(cache)@.achievements),
            ..old(cache)@
        }),
{
    cache.reset_achievements();
}

/// Whether the table holds a locked row with the id: one whose unlock
/// time is absent.
pub open spec fn has_locked_ach(s: Seq<AchievementRow>, id: i64) -> bool {
    exists|i: int|
        0 <= i < s.len() && (#[trigger] s[i]).id == id && s[i].unlock_time is None
}

/// Unlock an achievement at a given epoch second: exactly when the
/// second renders as a date and the table holds a locked row with the
/// id, the unlock time is written as RFC 3339 text and the dirty bit
/// raised, and the updated row comes back so it can be announced; any
/// other request leaves everything exactly as it is.
pub fn unlock_user_achievement(state: &mut State, cache: &mut GameplayCache, id: i64, time: u32)
    -> (r: Option<AchievementRow>)
    requires
        unique_ach_ids(old(cache)@.achievements),
    ensures
        (r is Some <==> rfc3339_of_timestamp(time as i64) is Some && has_locked_ach(
            old(cache)@.achievements,
            id,
        )),
        (match r {
            Some(row) => {
                &&& row.id == id
                &&& (rfc3339_of_timestamp(time as i64) matches Some(text) && row.unlock_time
                    matches Some(s) && s@ == text)
                &&& row.changed
                &&& (exists|s: String|
                    s@ == rfc3339_of_timestamp(time as i64).unwrap() && final(cache)@ == (CacheV {
                        achievements: #[trigger] spec_set_achievement(
                            old(cache)@.achievements,
                            id,
                            Some(s),
                        ),
                        ..old(cache)@
                    }))
                &&& *final(state) == (State { updated_achievements: true, ..*old(state) })
            },
            None => {
                &&& final(cache)@ == old(cache)@
                &&& *final(state) == *old(state)
            },
        }),
{
    let text = match timestamp_to_rfc3339(time as i64) {
        Some(t) => t,
        None => {
            return None;
        },
    };
    let existing = match cache.get_achievement(id) {
        Some(row) => row,
        None => {
            return None;
        },
    };
    match existing.unlock_time {
        Some(_) => {
            proof {
                let s = old(cache)@.achievements;
                let j = choose|j: int| 0 <= j < s.len() && s[j] == existing && existing.id == id;
                assert forall|k: int|
                    0 <= k < s.len() && (#[trigger] s[k]).id == id implies !(s[k].unlock_time
                    is None) by {
                    assert(s[k].id == s[j].id);
                    if k != j {
                        assert(s[k].id != s[j].id);
                    }
                };
                assert(!has_locked_ach(s, id));
            }
            None
        },
        None => {
            let ghost written = text@;
            cache.set_achievement(id, Some(text.clone()));
            state.set_updated_achievements(true);
            let updated = AchievementRow { unlock_time: Some(text), changed: true, ..existing };
            proof {
                let s = old(cache)@.achievements;
                let j = choose|j: int| 0 <= j < s.len() && s[j] == existing && existing.id == id;
                assert(s[j].id == id && s[j].unlock_time is None);
                assert(has_locked_ach(s, id));
            }
            Some(updated)
        },
    }
}

/// Clear an achievement's unlock: the unlock time is removed and the
/// dirty bit raised, whatever state the row was in.
pub fn clear_user_achievement(state: &mut State, cache: &mut GameplayCache, id: i64)
    ensures
        final(cache)@ == (CacheV {
            achievements: spec_set_achievement(old(cache)@.achievements, id, None),
            ..old(cache)@
        }),
        *final(state) == (State { updated_achievements: true, ..*old(state) }),
{
    cache.set_achievement(id, None);
    state.set_updated_achievements(true);
}

/// The cached score of a leaderboard, zero when the board has no row.
pub open spec fn spec_current_score(s: Seq<LeaderboardRow>, id: i64) -> i32 {
    if exists|i: int| 0 <= i < s.len() && (#[trigger] s[i]).id == id {
        s[choose|i: int| 0 <= i < s.len() && (#[trigger] s[i]).id == id].score
    } else {
        0
    }
}

/// What a score request asks the caller to do next: answer the game
/// with a mirrored conflict because the score is no improvement, or
/// post the score to the remote service.
pub enum ScoreDecision {
    NoImprovement,
    Post { score: i32, force: bool, details_b64: String },
}

/// HTTP status mirrored to the game when a score is no improvement.
pub const STATUS_CONFLICT: u32 = 409;

/// HTTP status mirrored to the game when a leaderboard is unknown.
pub const STATUS_NOT_FOUND: u32 = 404;

/// Decide a score request against the cached score: without the force
/// flag, a score no better than the cached one is refused outright;
/// anything else is posted, with the details in their base64 form.
pub fn decide_leaderboard_score(
    cache: &GameplayCache,
    id: i64,
    score: i32,
    force: bool,
    details_raw: &Vec<u8>,
) -> (r: ScoreDecision)
    requires
        unique_lb_ids(cache@.leaderboards),
    ensures
        (r is NoImprovement <==> !force && score <= spec_current_score(cache@.leaderboards, id)),
        (r matches ScoreDecision::Post { score: s, force: f, details_b64: d } ==> s == score && f
            == force && d@ == b64url_encode_of(details_raw@)),
{
    let current = match cache.get_leaderboard_score(id) {
        Some(row) => {
            proof {
                let i = choose|i: int|
                    0 <= i < cache@.leaderboards.len() && (#[trigger] cache@.leaderboards[i]).id
                        == id;
                let j = choose|j: int|
                    0 <= j < cache@.leaderboards.len() && cache@.leaderboards[j] == row && row.id
                        == id;
                assert(cache@.leaderboards[i].id == cache@.leaderboards[j].id);
                assert(i == j);
            }
            row.score
        },
        None => 0,
    };
    if !force && score <= current {
        return ScoreDecision::NoImprovement;
    }
    let details_b64 = b64url_encode(details_raw);
    ScoreDecision::Post { score, force, details_b64 }
}

/// The first row of a leaderboard table carrying the id.
pub open spec fn spec_find_lb(s: Seq<LeaderboardRow>, id: i64) -> Option<LeaderboardRow>
    decreases s.len(),
{
    if s.len() == 0 {
        None
    } else if s[0].id == id {
        Some(s[0])
    } else {
        spec_find_lb(s.drop_first(), id)
    }
}

/// With unique ids, any row carrying the id is the one found.
pub proof fn lemma_find_lb_unique(s: Seq<LeaderboardRow>, id: i64, i: int)
    requires
        unique_lb_ids(s),
        0 <= i < s.len(),
        s[i].id == id,
    ensures
        spec_find_lb(s, id) == Some(s[i]),
    decreases s.len(),
{
    if i == 0 {
    } else {
        assert(s[0].id != id);
        assert(s.drop_first()[i - 1] == s[i]);
        assert(unique_lb_ids(s.drop_first())) by {
            assert(forall|a: int, b: int|
                0 <= a < b < s.drop_first().len() ==> (#[trigger] s.drop_first()[a]) == s[a + 1]
                    && (#[trigger] s.drop_first()[b]) == s[b + 1]);
        };
        lemma_find_lb_unique(s.drop_first(), id, i - 1);
    }
}

/// If no row carries the id, nothing is found.
pub proof fn lemma_find_lb_none(s: Seq<LeaderboardRow>, id: i64)
    requires
        forall|i: int| 0 <= i < s.len() ==> (#[trigger] s[i]).id != id,
    ensures
        spec_find_lb(s, id) is None,
    decreases s.len(),
{
    if s.len() > 0 {
        lemma_find_lb_none(s.drop_first(), id);
    }
}

/// The standing a failed post is answered with, computed from the
/// cached row: its rank stands for the old rank, a zero rank means the
/// entry is new (rank one, one more entry).
pub open spec fn spec_failed_post_reply(
    s: Seq<LeaderboardRow>,
    id: i64,
    score: i32,
) -> SetLeaderboardScoreResponse {
    let old_rank = match spec_find_lb(s, id) {
        Some(row) => row.rank,
        None => 0,
    };
    let count = match spec_find_lb(s, id) {
        Some(row) => row.entry_total_count,
        None => 0,
    };
    SetLeaderboardScoreResponse {
        score: score,
        old_rank: old_rank,
        new_rank: if old_rank != 0 {
            old_rank
        } else {
            1
        },
        leaderboard_entry_total_count: if old_rank != 0 {
            count
        } else if count < u32::MAX {
            (count + 1) as u32
        } else {
            count
        },
    }
}

/// What the remote score post came back with.
pub enum ScorePostResult {
    Accepted { old_rank: u32, new_rank: u32, leaderboard_entry_total_count: u32 },
    HttpStatus(u16),
    Transport,
}

/// The reply to a score request.
pub struct SetLeaderboardScoreResponse {
    pub score: i32,
    pub old_rank: u32,
    pub new_rank: u32,
    pub leaderboard_entry_total_count: u32,
}

/// Record the outcome of a posted score.
///
/// On success the cache takes the score, the reported standing, and a
/// lowered dirty bit, and the reply carries the reported ranks. On any
/// failure the score is written with the dirty bit up — it will be
/// pushed again — and the reply is computed from the cached standing;
/// a failure other than a conflict also raises the handler's pending
/// flag.
pub fn apply_leaderboard_score_result(
    state: &mut State,
    cache: &mut GameplayCache,
    id: i64,
    score: i32,
    force: bool,
    details_b64: String,
    result: ScorePostResult,
) -> (r: SetLeaderboardScoreResponse)
    requires
        unique_lb_ids(old(cache)@.leaderboards),
    ensures
        r.score == score,
        (match result {
            ScorePostResult::Accepted { old_rank, new_rank, leaderboard_entry_total_count } => {
                &&& final(cache)@ == (CacheV {
                    leaderboards: spec_set_lb_changed(
                        spec_set_lb_rank(
                            spec_set_lb_score(
                                old(cache)@.leaderboards,
                                id,
                                score,
                                force,
                                details_b64,
                            ),
                            id,
                            new_rank,
                            leaderboard_entry_total_count,
                        ),
                        id,
                        false,
                    ),
                    ..old(cache)@
                })
                &&& r.old_rank == old_rank
                &&& r.new_rank == new_rank
                &&& r.leaderboard_entry_total_count == leaderboard_entry_total_count
                &&& *final(state) == *old(state)
            },
            _ => {
                &&& final(cache)@ == (CacheV {
                    leaderboards: spec_set_lb_score(
                        old(cache)@.leaderboards,
                        id,
                        score,
                        force,
                        details_b64,
                    ),
                    ..old(cache)@
                })
                &&& (*final(state) == if (result matches ScorePostResult::HttpStatus(st) && st
                    == 409) {
                    *old(state)
                } else {
                    State { updated_leaderboards: true, ..*old(state) }
                })
                &&& r == spec_failed_post_reply(old(cache)@.leaderboards, id, score)
            },
        }),
{
    let ghost oldlb = old(cache)@.leaderboards;
    match result {
        ScorePostResult::Accepted { old_rank, new_rank, leaderboard_entry_total_count } => {
            cache.set_leaderboard_score(id, score, force, details_b64);
            cache.set_leaderboard_rank(id, new_rank, leaderboard_entry_total_count);
            cache.set_leaderboard_changed(id, false);
            SetLeaderboardScoreResponse {
                score,
                old_rank,
                new_rank,
                leaderboard_entry_total_count,
            }
        },
        _ => {
            cache.set_leaderboard_score(id, score, force, details_b64);
            let conflict = match result {
                ScorePostResult::HttpStatus(st) => st == 409,
                _ => false,
            };
            if !conflict {
                state.set_updated_leaderboards(true);
            }
            let found = cache.get_leaderboard_score(id);
            proof {
                let t = cache@.leaderboards;
                match &found {
                    Some(row) => {
                        let i = choose|i: int|
                            0 <= i < t.len() && t[i] == *row && row.id == id;
                        assert(oldlb[i].id == id);
                        lemma_find_lb_unique(oldlb, id, i);
                        assert(row.rank == oldlb[i].rank);
                        assert(row.entry_total_count == oldlb[i].entry_total_count);
                    },
                    None => {
                        assert forall|i: int| 0 <= i < oldlb.len() implies (
                        #[trigger] oldlb[i]).id != id by {
                            assert(t[i].id == oldlb[i].id);
                        };
                        lemma_find_lb_none(oldlb, id);
                    },
                }
            }
            let (old_rank, entry_total_count) = match found {
                Some(row) => (row.rank, row.entry_total_count),
                None => (0u32, 0u32),
            };
            let new_rank = if old_rank != 0 {
                old_rank
            } else {
                1
            };
            let entry_total_count = if old_rank != 0 {
                entry_total_count
            } else if entry_total_count < u32::MAX {
                entry_total_count + 1
            } else {
                entry_total_count
            };
            SetLeaderboardScoreResponse {
                score,
                old_rank,
                new_rank,
                leaderboard_entry_total_count: entry_total_count,
            }
        },
    }
}

/// Whether a key text is among the requested keys.
pub open spec fn spec_key_listed(keys: Seq<String>, k: Seq<char>) -> bool {
    exists|i: int| 0 <= i < keys.len() && (#[trigger] keys[i])@ == k
}

/// The rows whose key is among the requested keys, in table order.
pub open spec fn spec_filter_lbs_by_keys(
    rows: Seq<LeaderboardRow>,
    keys: Seq<String>,
) -> Seq<LeaderboardRow>
    decreases rows.len(),
{
    if rows.len() == 0 {
        Seq::empty()
    } else {
        spec_filter_lbs_by_keys(rows.drop_last(), keys) + (if spec_key_listed(
            keys,
            rows.last().key@,
        ) {
            seq![rows.last()]
        } else {
            Seq::empty()
        })
    }
}

/// Keep only the definitions whose key the game asked for: the local
/// answer to a by-key listing served from the cache.
pub fn filter_leaderboards_by_keys(rows: Vec<LeaderboardRow>, keys: &Vec<String>) -> (r: Vec<
    LeaderboardRow,
>)
    ensures
        r@ == spec_filter_lbs_by_keys(rows@, keys@),
{
    let mut out: Vec<LeaderboardRow> = Vec::new();
    let mut i: usize = 0;
    proof {
        assert(rows@.take(0int) =~= Seq::<LeaderboardRow>::empty());
        assert(out@ =~= spec_filter_lbs_by_keys(rows@.take(0int), keys@));
    }
    while i < rows.len()
        invariant
            0 <= i <= rows@.len(),
            out@ == spec_filter_lbs_by_keys(rows@.take(i as int), keys@),
        decreases rows@.len() - i,
    {
        let row = &rows[i];
        proof {
            let taken = rows@.take(i as int + 1);
            assert(taken.drop_last() =~= rows@.take(i as int));
            assert(taken.last() == rows@[i as int]);
        }
        let mut listed = false;
        let mut j: usize = 0;
        while j < keys.len() && !listed
            invariant
                0 <= j <= keys@.len(),
                listed ==> spec_key_listed(keys@, row.key@),
                !listed ==> (forall|k: int| 0 <= k < j ==> (#[trigger] keys@[k])@ != row.key@),
            decreases keys@.len() - j,
        {
            if keys[j].eq(&row.key) {
                listed = true;
            }
            j += 1;
        }
        if listed {
            let ghost pre = out@;
            out.push(row.clone());
            proof {
                assert(out@ =~= pre + seq![rows@[i as int]]);
            }
        } else {
            proof {
                assert(!spec_key_listed(keys@, rows@[i as int].key@));
                assert(spec_filter_lbs_by_keys(rows@.take(i as int + 1), keys@)
                    =~= spec_filter_lbs_by_keys(rows@.take(i as int), keys@));
            }
        }
        i += 1;
    }
    proof {
        assert(rows@.take(rows@.len() as int) =~= rows@);
    }
    out
}

/// Store leaderboard definitions the caller fetched (or re-read from
/// the cache on failure) and return the rows to answer the game with.
pub fn handle_leaderboards_query(cache: &mut GameplayCache, fetched: Option<Vec<LeaderboardRow>>)
    -> (r: Vec<LeaderboardRow>)
    requires
        unique_lb_ids(old(cache)@.leaderboards),
    ensures
        (match fetched {
            Some(rows) => final(cache)@ == (CacheV {
                leaderboards: spec_upsert_lbs(old(cache)@.leaderboards, rows@),
                ..old(cache)@
            }),
            None => final(cache)@ == old(cache)@,
        }),
        r@ == final(cache)@.leaderboards,
{
    if let Some(rows) = fetched {
        cache.update_leaderboards(rows);
    }
    cache.get_leaderboards_defs()
}

} // verus!

use comet::cache::{AchievementRow, GameplayCache, IntStatValues, LeaderboardRow, StatRow,
    StatValues};
use comet::comm::{apply_leaderboard_score_result, auth_info_request, clear_user_achievement,
    decide_leaderboard_score, delete_user_stats, filter_leaderboards_by_keys,
    get_user_achievements, get_user_stats, handle_leaderboards_query, unlock_user_achievement,
    update_user_stat, AuthInfoRequest, AuthOutcome, ScoreDecision, ScorePostResult,
    StatUpdateValue, TokenFetchResult, ENVIRONMENT_PRODUCTION, REGION_WORLD_WIDE};
use comet::context::State;
use comet::remote::{classify_remote_failure, LeaderboardEntry, RemoteErrorKind,
    wire_leaderboard_entries};
use comet::sync::{apply_achievement_push, apply_refresh_outcome, apply_score_push,
    plan_token_refresh, ScoreSyncOutcome, SyncTokenPlan};
use comet::token_store::TokenStore;
use comet::types::{DataSource, Token, UserInfo};

fn user() -> UserInfo {
    UserInfo {
        username: String::from("player"),
        galaxy_user_id: String::from("50736722030801397"),
    }
}

fn auth_req() -> AuthInfoRequest {
    AuthInfoRequest {
        client_id: String::from("55136604336243776"),
        client_secret: String::from("SECRET-REDACTED"),
        game_pid: 4242,
        openid: false,
    }
}

fn token(access: &str, refresh: &str, obtained: u64) -> Token {
    Token::new(String::from(access), String::from(refresh), obtained)
}

fn ach(id: i64, unlock: Option<&str>) -> AchievementRow {
    AchievementRow {
        id,
        key: format!("ach_{id}"),
        name: format!("Achievement {id}"),
        description: String::from("desc"),
        image_url_locked: String::from("https://img/locked"),
        image_url_unlocked: String::from("https://img/unlocked"),
        visible: true,
        unlock_time: unlock.map(String::from),
        rarity_bits: 0,
        rarity_level_description: String::new(),
        rarity_level_slug: String::new(),
        changed: false,
    }
}

fn lb(id: i64, score: i32, rank: u32, count: u32) -> LeaderboardRow {
    LeaderboardRow {
        id,
        key: format!("lb_{id}"),
        name: format!("Board {id}"),
        sort_method: String::from("desc"),
        display_type: String::from("numeric"),
        score,
        rank,
        entry_total_count: count,
        force_update: false,
        details: String::new(),
        changed: false,
    }
}

fn int_stat(id: i64, value: i32, increment_only: bool) -> StatRow {
    StatRow {
        id,
        key: format!("stat_{id}"),
        window_bits: None,
        increment_only,
        values: StatValues::Int(IntStatValues {
            value,
            default_value: Some(0),
            min_value: None,
            max_value: None,
            max_change: None,
        }),
        changed: false,
    }
}

#[test]
fn offline_first_boot_with_empty_cache_is_fatal() {
    let mut state = State::new();
    let mut store = TokenStore::new();
    let cache = GameplayCache::new(String::from("en-US"));
    let r = auth_info_request(
        &mut state,
        &mut store,
        &cache,
        &auth_req(),
        TokenFetchResult::Transport,
        &user(),
    );
    assert!(matches!(r, AuthOutcome::Fatal));
    assert!(!state.is_online);
}

#[test]
fn offline_boot_with_cached_data_keeps_serving() {
    let mut state = State::new();
    let mut store = TokenStore::new();
    let mut cache = GameplayCache::new(String::from("en-US"));
    cache.set_achievements(vec![ach(1, None)], String::from("normal"));
    let r = auth_info_request(
        &mut state,
        &mut store,
        &cache,
        &auth_req(),
        TokenFetchResult::Transport,
        &user(),
    );
    match r {
        AuthOutcome::Respond(resp) => {
            assert!(resp.refresh_token.is_empty());
            assert_eq!(resp.user_name, "player");
        },
        _ => panic!("an offline boot with cached data must keep serving"),
    }
    assert!(!state.is_online);
}

#[test]
fn forbidden_refresh_refuses_the_client() {
    let mut state = State::new();
    let mut store = TokenStore::new();
    let cache = GameplayCache::new(String::from("en-US"));
    let r = auth_info_request(
        &mut state,
        &mut store,
        &cache,
        &auth_req(),
        TokenFetchResult::HttpStatus(403),
        &user(),
    );
    assert!(matches!(r, AuthOutcome::Unauthorized));
}

#[test]
fn successful_auth_tags_the_user_id_and_stores_the_token() {
    let mut state = State::new();
    let mut store = TokenStore::new();
    let cache = GameplayCache::new(String::from("en-US"));
    let req = auth_req();
    let r = auth_info_request(
        &mut state,
        &mut store,
        &cache,
        &req,
        TokenFetchResult::Fetched(token("acc", "ref", 1000)),
        &user(),
    );
    match r {
        AuthOutcome::Respond(resp) => {
            assert_eq!(resp.user_id >> 56, 2, "a user id crossing the wire is tagged 2");
            assert_eq!(resp.user_id & 0x00FF_FFFF_FFFF_FFFF, 50736722030801397);
            assert_eq!(resp.refresh_token, "ref");
            assert_eq!(resp.region, REGION_WORLD_WIDE);
            assert_eq!(resp.environment_type, ENVIRONMENT_PRODUCTION);
        },
        _ => panic!("a successful refresh must answer the game"),
    }
    assert!(state.is_online);
    assert!(state.client_identified);
    assert_eq!(state.client_id.as_deref(), Some("55136604336243776"));
    let stored = store.get(&String::from("55136604336243776")).unwrap();
    assert_eq!(stored.refresh_token, "ref");
}

#[test]
fn repeated_auth_converges() {
    let mut state = State::new();
    let mut store = TokenStore::new();
    let cache = GameplayCache::new(String::from("en-US"));
    let req = auth_req();
    let t = TokenFetchResult::Fetched(token("acc", "ref", 1000));
    auth_info_request(&mut state, &mut store, &cache, &req, t, &user());
    let id_after_first = state.client_id.clone();
    let opened_after_first = state.db_opened;
    let mut second = auth_req();
    second.client_secret = String::from("SECRET-REDACTED");
    let t2 = TokenFetchResult::Fetched(token("acc", "ref", 1000));
    auth_info_request(&mut state, &mut store, &cache, &second, t2, &user());
    assert_eq!(state.client_id, id_after_first, "the first identification sticks");
    assert_eq!(state.db_opened, opened_after_first);
    assert!(state.client_identified);
}

#[test]
fn database_open_mark_is_set_once() {
    let mut state = State::new();
    assert!(state.mark_db_opened(), "the first call opens");
    assert!(!state.mark_db_opened(), "later calls find it open");
    assert!(state.db_opened);
}

#[test]
fn score_improvement_round_trip() {
    let mut state = State::new();
    let mut cache = GameplayCache::new(String::from("en-US"));
    cache.update_leaderboards(vec![lb(1, 0, 0, 0)]);
    cache.set_leaderboard_score(1, 100, false, String::new());
    cache.set_leaderboard_rank(1, 10, 50);
    cache.set_leaderboard_changed(1, false);

    let decision = decide_leaderboard_score(&cache, 1, 200, false, &Vec::new());
    let (score, force, details) = match decision {
        ScoreDecision::Post { score, force, details_b64 } => (score, force, details_b64),
        _ => panic!("an improved score must be posted"),
    };
    assert_eq!(score, 200);
    assert!(!force);
    let resp = apply_leaderboard_score_result(
        &mut state,
        &mut cache,
        1,
        score,
        force,
        details,
        ScorePostResult::Accepted { old_rank: 10, new_rank: 5, leaderboard_entry_total_count: 50 },
    );
    assert_eq!(resp.score, 200);
    assert_eq!(resp.old_rank, 10);
    assert_eq!(resp.new_rank, 5);
    assert_eq!(resp.leaderboard_entry_total_count, 50);
    let row = cache.get_leaderboard_score(1).unwrap();
    assert_eq!(row.score, 200);
    assert_eq!(row.rank, 5);
    assert!(!row.changed);
}

#[test]
fn score_non_improvement_is_refused_and_cache_untouched() {
    let mut cache = GameplayCache::new(String::from("en-US"));
    cache.update_leaderboards(vec![lb(1, 0, 0, 0)]);
    cache.set_leaderboard_score(1, 200, false, String::new());
    cache.set_leaderboard_changed(1, false);
    let decision = decide_leaderboard_score(&cache, 1, 150, false, &Vec::new());
    assert!(matches!(decision, ScoreDecision::NoImprovement));
    let row = cache.get_leaderboard_score(1).unwrap();
    assert_eq!(row.score, 200);
    assert!(!row.changed);
}

#[test]
fn forced_score_is_posted_even_when_lower() {
    let mut cache = GameplayCache::new(String::from("en-US"));
    cache.update_leaderboards(vec![lb(1, 0, 0, 0)]);
    cache.set_leaderboard_score(1, 200, false, String::new());
    let decision = decide_leaderboard_score(&cache, 1, 150, true, &Vec::new());
    assert!(matches!(decision, ScoreDecision::Post { .. }));
}

#[test]
fn score_conflict_is_resolved_by_read_back() {
    let mut state = State::new();
    let mut cache = GameplayCache::new(String::from("en-US"));
    cache.update_leaderboards(vec![lb(1, 0, 0, 0)]);
    cache.set_leaderboard_score(1, 100, false, String::new());
    cache.set_leaderboard_changed(1, false);

    let decision = decide_leaderboard_score(&cache, 1, 300, false, &Vec::new());
    assert!(matches!(decision, ScoreDecision::Post { .. }));
    apply_leaderboard_score_result(
        &mut state,
        &mut cache,
        1,
        300,
        false,
        String::new(),
        ScorePostResult::HttpStatus(409),
    );
    let row = cache.get_leaderboard_score(1).unwrap();
    assert_eq!(row.score, 300);
    assert!(row.changed, "a conflicted score stays dirty until the sync pass resolves it");
    // The sync pass reads the server's entry back.
    apply_score_push(&mut cache, 1, ScoreSyncOutcome::ConflictResolved { score: 250, rank: 3 });
    let row = cache.get_leaderboard_score(1).unwrap();
    assert_eq!(row.score, 250);
    assert_eq!(row.rank, 3);
    assert!(!row.changed);
}

#[test]
fn base64_details_are_encoded_before_posting() {
    let mut cache = GameplayCache::new(String::from("en-US"));
    cache.update_leaderboards(vec![lb(1, 0, 0, 0)]);
    let decision = decide_leaderboard_score(&cache, 1, 10, true, &b"hello".to_vec());
    match decision {
        ScoreDecision::Post { details_b64, .. } => assert_eq!(details_b64, "aGVsbG8"),
        _ => panic!("a forced score must be posted"),
    }
}

#[test]
fn achievement_unlock_writes_time_and_raises_dirty_bit() {
    let mut state = State::new();
    let mut cache = GameplayCache::new(String::from("en-US"));
    cache.set_achievements(vec![ach(17, None)], String::from("normal"));
    let row = unlock_user_achievement(&mut state, &mut cache, 17, 1704067200)
        .expect("a locked achievement must unlock");
    assert_eq!(row.unlock_time.as_deref(), Some("2024-01-01T00:00:00+00:00"));
    assert!(row.changed);
    assert!(state.updated_achievements);
    let cached = cache.get_achievement(17).unwrap();
    assert_eq!(cached.unlock_time.as_deref(), Some("2024-01-01T00:00:00+00:00"));
    assert!(cached.changed);
    // The periodic sync posts it and lowers the dirty bit.
    apply_achievement_push(&mut cache, 17, true);
    let cached = cache.get_achievement(17).unwrap();
    assert!(!cached.changed);
    assert_eq!(cached.unlock_time.as_deref(), Some("2024-01-01T00:00:00+00:00"));
}

#[test]
fn unlocking_an_unlocked_achievement_changes_nothing() {
    let mut state = State::new();
    let mut cache = GameplayCache::new(String::from("en-US"));
    cache.set_achievements(vec![ach(17, Some("2020-01-01T00:00:00+00:00"))], String::from("n"));
    let r = unlock_user_achievement(&mut state, &mut cache, 17, 1704067200);
    assert!(r.is_none());
    let row = cache.get_achievement(17).unwrap();
    assert_eq!(row.unlock_time.as_deref(), Some("2020-01-01T00:00:00+00:00"));
    assert!(!row.changed);
}

#[test]
fn clearing_an_achievement_marks_it_dirty() {
    let mut state = State::new();
    let mut cache = GameplayCache::new(String::from("en-US"));
    cache.set_achievements(vec![ach(3, Some("2020-01-01T00:00:00+00:00"))], String::from("n"));
    clear_user_achievement(&mut state, &mut cache, 3);
    let row = cache.get_achievement(3).unwrap();
    assert!(row.unlock_time.is_none());
    assert!(row.changed);
}

#[test]
fn stats_read_prefers_the_fetched_rows() {
    let mut state = State::new();
    let mut cache = GameplayCache::new(String::from("en-US"));
    let (rows, source) = get_user_stats(&mut state, &mut cache, Some(vec![int_stat(1, 5, false)]));
    assert_eq!(source, DataSource::Online);
    assert_eq!(rows.len(), 1);
    assert!(cache.has_statistics());
    assert!(state.updated_stats);
}

#[test]
fn stats_read_falls_back_to_the_cache() {
    let mut state = State::new();
    let mut cache = GameplayCache::new(String::from("en-US"));
    cache.set_statistics(vec![int_stat(1, 5, false)]);
    state.set_updated_stats(false);
    let (rows, source) = get_user_stats(&mut state, &mut cache, None);
    assert_eq!(source, DataSource::Local);
    assert_eq!(rows.len(), 1);
}

#[test]
fn achievements_read_stores_mode_and_marks_pending() {
    let mut state = State::new();
    let mut cache = GameplayCache::new(String::from("en-US"));
    let (rows, mode, source) = get_user_achievements(
        &mut state,
        &mut cache,
        Some((vec![ach(1, None)], String::from("normal"))),
    );
    assert_eq!(rows.len(), 1);
    assert_eq!(mode, "normal");
    assert_eq!(source, DataSource::Online);
    assert!(cache.has_achievements());
    assert!(state.updated_achievements);
}

#[test]
fn update_user_stat_marks_the_pending_flag() {
    let mut state = State::new();
    let mut cache = GameplayCache::new(String::from("en-US"));
    cache.set_statistics(vec![int_stat(1, 0, false)]);
    state.set_updated_stats(false);
    update_user_stat(&mut state, &mut cache, 1, StatUpdateValue::Int(9));
    assert!(state.updated_stats);
    assert_eq!(cache.get_statistics(true).len(), 1);
}

#[test]
fn delete_stats_resets_the_cache() {
    let mut cache = GameplayCache::new(String::from("en-US"));
    cache.set_statistics(vec![int_stat(1, 42, false)]);
    cache.set_stat_int(1, 50);
    delete_user_stats(&mut cache);
    let rows = cache.get_statistics(false);
    match rows[0].values {
        StatValues::Int(iv) => assert_eq!(iv.value, 0),
        _ => panic!("expected an integer statistic"),
    }
    assert!(!rows[0].changed);
}

#[test]
fn leaderboards_query_stores_fetched_definitions() {
    let mut cache = GameplayCache::new(String::from("en-US"));
    let rows = handle_leaderboards_query(&mut cache, Some(vec![lb(9, 0, 0, 0)]));
    assert_eq!(rows.len(), 1);
    assert_eq!(rows[0].id, 9);
    // A later query offline serves the stored definitions.
    let rows = handle_leaderboards_query(&mut cache, None);
    assert_eq!(rows.len(), 1);
}

#[test]
fn wire_entries_tag_user_ids_and_decode_details() {
    let items = vec![
        LeaderboardEntry {
            user_id: String::from("50736722030801397"),
            rank: 1,
            score: 900,
            details: Some(String::from("aGVsbG8")),
        },
        LeaderboardEntry {
            user_id: String::from("not-a-number"),
            rank: 2,
            score: 800,
            details: None,
        },
    ];
    let wire = wire_leaderboard_entries(&items);
    assert_eq!(wire.len(), 1, "an entry with a malformed user id is dropped");
    assert_eq!(wire[0].user_id >> 56, 2);
    assert_eq!(wire[0].user_id & 0x00FF_FFFF_FFFF_FFFF, 50736722030801397);
    assert_eq!(wire[0].details, b"hello");
}

#[test]
fn remote_failures_classify_by_the_error_taxonomy() {
    assert_eq!(classify_remote_failure(Some(403), false), RemoteErrorKind::Unauthorized);
    assert_eq!(classify_remote_failure(Some(409), false), RemoteErrorKind::Conflict);
    assert_eq!(classify_remote_failure(None, true), RemoteErrorKind::Offline);
    assert_eq!(classify_remote_failure(Some(500), false), RemoteErrorKind::Network);
    assert_eq!(classify_remote_failure(None, false), RemoteErrorKind::Network);
}

#[test]
fn token_refresh_planned_only_after_the_age_limit() {
    let mut state = State::new();
    let mut store = TokenStore::new();
    state.identify_client(String::from("c1"), String::from("s1"));
    store.insert(String::from("c1"), token("acc", "ref", 1000));
    assert!(matches!(plan_token_refresh(&state, &store, 1000 + 3499), SyncTokenPlan::Skip));
    match plan_token_refresh(&state, &store, 1000 + 3500) {
        SyncTokenPlan::Refresh { client_id, refresh_token, openid, .. } => {
            assert_eq!(client_id, "c1");
            assert_eq!(refresh_token, "ref");
            assert!(!openid);
        },
        _ => panic!("an aged token must be refreshed"),
    }
}

#[test]
fn transport_failure_during_refresh_halts_and_goes_offline() {
    let mut state = State::new();
    let mut store = TokenStore::new();
    state.set_online();
    let halt = apply_refresh_outcome(
        &mut state,
        &mut store,
        String::from("c1"),
        comet::comm::TokenFetchResult::Transport,
    );
    assert!(halt);
    assert!(!state.is_online);
    let halt = apply_refresh_outcome(
        &mut state,
        &mut store,
        String::from("c1"),
        comet::comm::TokenFetchResult::Fetched(token("a2", "r2", 5000)),
    );
    assert!(!halt);
    assert_eq!(store.get(&String::from("c1")).unwrap().refresh_token, "r2");
}

#[test]
fn unlocking_a_missing_achievement_does_nothing() {
    let mut state = State::new();
    let mut cache = GameplayCache::new(String::from("en-US"));
    cache.set_achievements(vec![ach(1, None)], String::from("n"));
    let r = unlock_user_achievement(&mut state, &mut cache, 999, 1704067200);
    assert!(r.is_none(), "an unknown id must not unlock anything");
    assert!(!state.updated_achievements);
}

#[test]
fn local_by_key_listing_filters_by_the_requested_keys() {
    let mut a = lb(1, 0, 0, 0);
    a.key = String::from("speedrun");
    let mut b = lb(2, 0, 0, 0);
    b.key = String::from("score");
    let keys = vec![String::from("score"), String::from("other")];
    let kept = filter_leaderboards_by_keys(vec![a, b], &keys);
    assert_eq!(kept.len(), 1);
    assert_eq!(kept[0].key, "score");
    assert_eq!(kept[0].id, 2);
}

#[test]
fn failed_score_post_answers_from_the_cached_standing() {
    let mut state = State::new();
    let mut cache = GameplayCache::new(String::from("en-US"));
    cache.update_leaderboards(vec![lb(1, 0, 0, 0)]);
    cache.set_leaderboard_score(1, 100, false, String::new());
    cache.set_leaderboard_rank(1, 10, 50);
    cache.set_leaderboard_changed(1, false);
    let resp = apply_leaderboard_score_result(
        &mut state,
        &mut cache,
        1,
        300,
        false,
        String::new(),
        ScorePostResult::Transport,
    );
    assert_eq!(resp.score, 300);
    assert_eq!(resp.old_rank, 10);
    assert_eq!(resp.new_rank, 10);
    assert_eq!(resp.leaderboard_entry_total_count, 50);
    assert!(state.updated_leaderboards, "a transport failure leaves the row to retry");
    // An unranked board answers rank one with one more entry.
    let mut state2 = State::new();
    let mut cache2 = GameplayCache::new(String::from("en-US"));
    cache2.update_leaderboards(vec![lb(2, 0, 0, 7)]);
    let resp = apply_leaderboard_score_result(
        &mut state2,
        &mut cache2,
        2,
        40,
        false,
        String::new(),
        ScorePostResult::Transport,
    );
    assert_eq!(resp.old_rank, 0);
    assert_eq!(resp.new_rank, 1);
    assert_eq!(resp.leaderboard_entry_total_count, 8);
}

#[test]
fn subscribed_topics_deduplicate() {
    let mut state = State::new();
    state.subscribe_topic(String::from("chat"));
    state.subscribe_topic(String::from("chat"));
    assert!(state.is_subscribed(&String::from("chat")));
    assert!(!state.is_subscribed(&String::from("presence")));
    assert_eq!(state.subscribed_topics.len(), 1);
}

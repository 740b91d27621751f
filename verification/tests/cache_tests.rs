use comet::cache::{AchievementRow, GameplayCache, IntStatValues, LeaderboardRow, StatRow,
    StatValues};

fn ach(id: i64, unlock: Option<&str>, changed: bool) -> AchievementRow {
    AchievementRow {
        id,
        key: format!("ach_{id}"),
        name: format!("Achievement {id}"),
        description: String::from("desc"),
        image_url_locked: String::from("https://img/locked"),
        image_url_unlocked: String::from("https://img/unlocked"),
        visible: true,
        unlock_time: unlock.map(String::from),
        rarity_bits: 0,
        rarity_level_description: String::new(),
        rarity_level_slug: String::new(),
        changed,
    }
}

fn int_stat(id: i64, value: i32, default: Option<i32>, increment_only: bool, changed: bool)
    -> StatRow {
    StatRow {
        id,
        key: format!("stat_{id}"),
        window_bits: None,
        increment_only,
        values: StatValues::Int(IntStatValues {
            value,
            default_value: default,
            min_value: None,
            max_value: None,
            max_change: None,
        }),
        changed,
    }
}

fn lb(id: i64, score: i32, rank: u32, count: u32, changed: bool) -> LeaderboardRow {
    LeaderboardRow {
        id,
        key: format!("lb_{id}"),
        name: format!("Board {id}"),
        sort_method: String::from("desc"),
        display_type: String::from("numeric"),
        score,
        rank,
        entry_total_count: count,
        force_update: false,
        details: String::new(),
        changed,
    }
}

fn int_value(row: &StatRow) -> i32 {
    match row.values {
        StatValues::Int(iv) => iv.value,
        _ => panic!("expected an integer statistic"),
    }
}

fn empty_cache() -> GameplayCache {
    GameplayCache::new(String::from("en-US"))
}

#[test]
fn mark_sets_dirty_and_clear_keeps_value() {
    let mut cache = empty_cache();
    cache.set_achievements(vec![ach(17, None, false)], String::from("normal"));
    cache.set_achievement(17, Some(String::from("2024-01-01T00:00:00+00:00")));
    let row = cache.get_achievement(17).unwrap();
    assert!(row.changed);
    assert_eq!(row.unlock_time.as_deref(), Some("2024-01-01T00:00:00+00:00"));
    cache.clear_achievement_changed(17);
    let row = cache.get_achievement(17).unwrap();
    assert!(!row.changed);
    assert_eq!(row.unlock_time.as_deref(), Some("2024-01-01T00:00:00+00:00"));
}

#[test]
fn increment_only_stat_never_goes_down() {
    let mut cache = empty_cache();
    cache.set_statistics(vec![int_stat(3, 10, Some(0), true, false)]);
    cache.set_stat_int(3, 5);
    assert_eq!(int_value(&cache.get_statistics(false)[0]), 10);
    cache.set_stat_int(3, 25);
    assert_eq!(int_value(&cache.get_statistics(false)[0]), 25);
    cache.set_stat_int(3, 24);
    assert_eq!(int_value(&cache.get_statistics(false)[0]), 25);
    cache.set_stat_int(3, 25);
    assert_eq!(int_value(&cache.get_statistics(false)[0]), 25);
}

#[test]
fn plain_stat_may_go_down_and_becomes_dirty() {
    let mut cache = empty_cache();
    cache.set_statistics(vec![int_stat(4, 10, Some(0), false, false)]);
    cache.set_stat_int(4, 5);
    let rows = cache.get_statistics(false);
    assert_eq!(int_value(&rows[0]), 5);
    assert!(rows[0].changed);
}

#[test]
fn upsert_preserves_dirty_rows() {
    let mut cache = empty_cache();
    cache.set_achievements(vec![ach(1, None, false)], String::from("normal"));
    cache.set_achievement(1, Some(String::from("2024-06-01T00:00:00+00:00")));
    // A refresh from the remote service says the achievement is locked.
    cache.set_achievements(vec![ach(1, None, false)], String::from("normal"));
    let row = cache.get_achievement(1).unwrap();
    assert!(row.changed, "a dirty row must stay dirty through a refresh");
    assert_eq!(
        row.unlock_time.as_deref(),
        Some("2024-06-01T00:00:00+00:00"),
        "a dirty row's unlock time must survive a refresh"
    );
}

#[test]
fn upsert_updates_clean_rows_and_inserts_new_ones() {
    let mut cache = empty_cache();
    cache.set_achievements(vec![ach(1, None, false)], String::from("normal"));
    let mut refreshed = ach(1, Some("2023-01-01T00:00:00+00:00"), false);
    refreshed.name = String::from("Renamed");
    cache.set_achievements(vec![refreshed, ach(2, None, false)], String::from("normal"));
    let row1 = cache.get_achievement(1).unwrap();
    assert_eq!(row1.name, "Renamed");
    assert_eq!(row1.unlock_time.as_deref(), Some("2023-01-01T00:00:00+00:00"));
    assert!(!row1.changed);
    assert!(cache.get_achievement(2).is_some());
    let (rows, mode) = cache.get_achievements(false);
    assert_eq!(rows.len(), 2);
    assert_eq!(mode, "normal");
}

#[test]
fn marking_twice_leaves_one_dirty_row() {
    let mut cache = empty_cache();
    cache.set_achievements(vec![ach(7, None, false)], String::from("normal"));
    let t = String::from("2024-01-01T00:00:00+00:00");
    cache.set_achievement(7, Some(t.clone()));
    cache.set_achievement(7, Some(t.clone()));
    let (rows, _) = cache.get_achievements(false);
    assert_eq!(rows.len(), 1, "marking twice must not duplicate the row");
    assert!(rows[0].changed);
    assert_eq!(rows[0].unlock_time.as_deref(), Some(t.as_str()));
}

#[test]
fn reset_stats_twice_is_a_no_op_after_the_first() {
    let mut cache = empty_cache();
    cache.set_statistics(vec![
        int_stat(1, 99, Some(7), false, false),
        int_stat(2, 4, None, true, false),
    ]);
    cache.set_stat_int(1, 100);
    cache.reset_stats();
    let after_first = cache.get_statistics(false);
    assert_eq!(int_value(&after_first[0]), 7);
    assert_eq!(int_value(&after_first[1]), 0);
    assert!(after_first.iter().all(|r| !r.changed));
    cache.reset_stats();
    let after_second = cache.get_statistics(false);
    assert_eq!(int_value(&after_second[0]), 7);
    assert_eq!(int_value(&after_second[1]), 0);
    assert!(after_second.iter().all(|r| !r.changed));
}

#[test]
fn reset_achievements_clears_unlocks_and_dirty_bits() {
    let mut cache = empty_cache();
    cache.set_achievements(
        vec![ach(1, Some("2024-01-01T00:00:00+00:00"), false)],
        String::from("normal"),
    );
    cache.set_achievement(1, None);
    cache.reset_achievements();
    let row = cache.get_achievement(1).unwrap();
    assert!(row.unlock_time.is_none());
    assert!(!row.changed);
}

#[test]
fn only_changed_reads_filter_by_the_dirty_bit() {
    let mut cache = empty_cache();
    cache.set_achievements(vec![ach(1, None, false), ach(2, None, false)], String::from("normal"));
    cache.set_achievement(2, Some(String::from("2024-01-01T00:00:00+00:00")));
    let (dirty, _) = cache.get_achievements(true);
    assert_eq!(dirty.len(), 1);
    assert_eq!(dirty[0].id, 2);
    cache.set_statistics(vec![int_stat(1, 0, None, false, false)]);
    cache.set_stat_int(1, 3);
    assert_eq!(cache.get_statistics(true).len(), 1);
}

#[test]
fn leaderboard_definitions_merge_without_touching_scores() {
    let mut cache = empty_cache();
    cache.update_leaderboards(vec![lb(5, 0, 0, 0, false)]);
    cache.set_leaderboard_score(5, 100, false, String::from("ZGV0YWlscw"));
    let mut renamed = lb(5, 0, 0, 0, false);
    renamed.name = String::from("Renamed board");
    cache.update_leaderboards(vec![renamed]);
    let row = cache.get_leaderboard_score(5).unwrap();
    assert_eq!(row.name, "Renamed board");
    assert_eq!(row.score, 100, "a definition refresh must not touch the cached score");
    assert!(row.changed, "a definition refresh must not touch the dirty bit");
    assert_eq!(row.details, "ZGV0YWlscw");
}

#[test]
fn leaderboard_rank_write_leaves_the_dirty_bit() {
    let mut cache = empty_cache();
    cache.update_leaderboards(vec![lb(5, 0, 0, 0, false)]);
    cache.set_leaderboard_score(5, 100, false, String::new());
    cache.set_leaderboard_rank(5, 4, 50);
    let row = cache.get_leaderboard_score(5).unwrap();
    assert_eq!(row.rank, 4);
    assert_eq!(row.entry_total_count, 50);
    assert_eq!(row.score, 100);
    assert!(row.changed);
}

#[test]
fn changed_leaderboards_listing_returns_only_dirty_rows() {
    let mut cache = empty_cache();
    cache.update_leaderboards(vec![lb(1, 0, 0, 0, false), lb(2, 0, 0, 0, false)]);
    cache.set_leaderboard_score(2, 10, false, String::new());
    let dirty = cache.get_leaderboards_score_changed();
    assert_eq!(dirty.len(), 1);
    assert_eq!(dirty[0].id, 2);
}

use comet::cache::{AchievementRow, IntStatValues, LeaderboardRow, StatRow, StatValues};
use comet::comm::{AuthInfoResponse, SetLeaderboardScoreResponse};
use comet::msg::{parse_fields, Field, FieldVal};
use comet::remote::{wire_leaderboard_entries, LeaderboardEntry};
use comet::wire;

fn bytes_of(fields: &[Field], num: u32) -> Option<Vec<u8>> {
    fields.iter().find_map(|f| match &f.val {
        FieldVal::Bytes(b) if f.num == num => Some(b.clone()),
        _ => None,
    })
}

fn varint_of(fields: &[Field], num: u32) -> Option<u64> {
    fields.iter().find_map(|f| match &f.val {
        FieldVal::Varint(v) if f.num == num => Some(*v),
        _ => None,
    })
}

fn ach(id: i64, unlock: Option<&str>) -> AchievementRow {
    AchievementRow {
        id,
        key: format!("ach_{id}"),
        name: format!("Achievement {id}"),
        description: String::from("desc"),
        image_url_locked: String::from("https://img/locked"),
        image_url_unlocked: String::from("https://img/unlocked"),
        visible: true,
        unlock_time: unlock.map(String::from),
        rarity_bits: 7,
        rarity_level_description: String::new(),
        rarity_level_slug: String::new(),
        changed: false,
    }
}

#[test]
fn achievements_reply_sends_unlock_time_as_epoch_seconds() {
    let rows = vec![ach(17, Some("2024-01-01T00:00:00+00:00")), ach(18, None)];
    let body = wire::encode_achievements_reply(
        &rows,
        &String::from("normal"),
        &String::from("en-US"),
    );
    let fields = parse_fields(&body).unwrap();
    assert_eq!(bytes_of(&fields, 1).unwrap(), b"normal");
    assert_eq!(bytes_of(&fields, 2).unwrap(), b"en-US");
    let row_bodies: Vec<Vec<u8>> = fields
        .iter()
        .filter(|f| f.num == 3)
        .filter_map(|f| match &f.val {
            FieldVal::Bytes(b) => Some(b.clone()),
            _ => None,
        })
        .collect();
    assert_eq!(row_bodies.len(), 2);
    let unlocked = parse_fields(&row_bodies[0]).unwrap();
    assert_eq!(varint_of(&unlocked, 1), Some(17));
    assert_eq!(
        varint_of(&unlocked, 11),
        Some(1704067200),
        "the unlock time goes out as epoch seconds"
    );
    let locked = parse_fields(&row_bodies[1]).unwrap();
    assert_eq!(varint_of(&locked, 11), None, "a locked row carries no unlock field");
}

#[test]
fn stats_reply_carries_one_body_per_row() {
    let rows = vec![StatRow {
        id: 3,
        key: String::from("stat_3"),
        window_bits: None,
        increment_only: true,
        values: StatValues::Int(IntStatValues {
            value: 12,
            default_value: Some(0),
            min_value: None,
            max_value: None,
            max_change: None,
        }),
        changed: false,
    }];
    let body = wire::encode_stats_reply(&rows);
    let fields = parse_fields(&body).unwrap();
    let row_body = bytes_of(&fields, 1).unwrap();
    let row_fields = parse_fields(&row_body).unwrap();
    assert_eq!(varint_of(&row_fields, 1), Some(3));
    assert_eq!(bytes_of(&row_fields, 2).unwrap(), b"stat_3");
    assert_eq!(varint_of(&row_fields, 3), Some(1));
    assert_eq!(varint_of(&row_fields, 4), Some(1));
    assert_eq!(varint_of(&row_fields, 5), Some(12));
}

#[test]
fn leaderboards_reply_maps_sort_and_display() {
    let rows = vec![LeaderboardRow {
        id: 9,
        key: String::from("board"),
        name: String::from("Board"),
        sort_method: String::from("desc"),
        display_type: String::from("milliseconds"),
        score: 0,
        rank: 0,
        entry_total_count: 0,
        force_update: false,
        details: String::new(),
        changed: false,
    }];
    let body = wire::encode_leaderboards_reply(&rows);
    let fields = parse_fields(&body).unwrap();
    let row_fields = parse_fields(&bytes_of(&fields, 1).unwrap()).unwrap();
    assert_eq!(varint_of(&row_fields, 1), Some(9));
    assert_eq!(varint_of(&row_fields, 4), Some(2), "desc maps to the descending value");
    assert_eq!(varint_of(&row_fields, 5), Some(3), "milliseconds maps to its value");
}

#[test]
fn entries_reply_renders_each_kept_entry() {
    let items = vec![
        LeaderboardEntry {
            user_id: String::from("50736722030801397"),
            rank: 1,
            score: 900,
            details: Some(String::from("aGVsbG8")),
        },
        LeaderboardEntry {
            user_id: String::from("oops"),
            rank: 2,
            score: 800,
            details: None,
        },
    ];
    let entries = wire_leaderboard_entries(&items);
    assert_eq!(entries.len(), 1);
    let body = wire::encode_entries_reply(50, &entries);
    let fields = parse_fields(&body).unwrap();
    assert_eq!(varint_of(&fields, 1), Some(50));
    let entry_fields = parse_fields(&bytes_of(&fields, 2).unwrap()).unwrap();
    assert_eq!(varint_of(&entry_fields, 1).unwrap() >> 56, 2);
    assert_eq!(varint_of(&entry_fields, 2), Some(1));
    assert_eq!(varint_of(&entry_fields, 3), Some(900));
    assert_eq!(bytes_of(&entry_fields, 4).unwrap(), b"hello");
}

#[test]
fn auth_reply_carries_all_fields() {
    let resp = AuthInfoResponse {
        refresh_token: String::from("refresh-me"),
        region: 0,
        environment_type: 0,
        user_id: (2u64 << 56) | 42,
        user_name: String::from("player"),
    };
    let body = wire::encode_auth_reply(&resp);
    let fields = parse_fields(&body).unwrap();
    assert_eq!(bytes_of(&fields, 1).unwrap(), b"refresh-me");
    assert_eq!(varint_of(&fields, 4), Some((2u64 << 56) | 42));
    assert_eq!(bytes_of(&fields, 5).unwrap(), b"player");
}

#[test]
fn score_and_create_replies_encode_their_numbers() {
    let resp = SetLeaderboardScoreResponse {
        score: 200,
        old_rank: 10,
        new_rank: 5,
        leaderboard_entry_total_count: 50,
    };
    let body = wire::encode_score_reply(&resp);
    let fields = parse_fields(&body).unwrap();
    assert_eq!(varint_of(&fields, 1), Some(200));
    assert_eq!(varint_of(&fields, 2), Some(10));
    assert_eq!(varint_of(&fields, 3), Some(5));
    assert_eq!(varint_of(&fields, 4), Some(50));

    let create = wire::encode_create_reply(77);
    let fields = parse_fields(&create).unwrap();
    assert_eq!(varint_of(&fields, 1), Some(77));
}

#[test]
fn subscribe_reply_echoes_the_topic() {
    let body = wire::encode_subscribe_reply(&String::from("friends"));
    let fields = parse_fields(&body).unwrap();
    assert_eq!(bytes_of(&fields, 1).unwrap(), b"friends");
}

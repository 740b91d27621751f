//! Communication-service reply bodies.
//!
//! Each function here encodes one reply's payload, field for field,
//! and its contract gives the bytes exactly, so the game-visible
//! content of a reply is pinned down and not merely assembled. The
//! unlock time of an achievement goes out as the epoch second its
//! stored RFC 3339 text denotes.
use vstd::prelude::*;

use crate::cache::{AchievementRow, LeaderboardRow, StatRow, StatValues};
use crate::comm::{AuthInfoResponse, SetLeaderboardScoreResponse};
use crate::ext::{rfc3339_to_timestamp, timestamp_of_rfc3339};
use crate::msg::{encode_fields, spec_fields_view, spec_msg_bytes, Field, FieldV, FieldVal,
    FieldValV};
use crate::remote::{WireLeaderboardEntry, WireLeaderboardEntryV};

verus! {

/// The fields of one statistic as the reply carries it.
pub open spec fn spec_stat_row_fields(row: StatRow) -> Seq<FieldV> {
    seq![
        FieldV { num: 1, val: FieldValV::Varint(row.id as u64) },
        FieldV { num: 2, val: FieldValV::Bytes(vstd::utf8::encode_utf8(row.key@)) },
        FieldV {
            num: 3,
            val: FieldValV::Varint(
                if row.increment_only {
                    1u64
                } else {
                    0u64
                },
            ),
        },
    ] + (match row.values {
        StatValues::Int(iv) => seq![
            FieldV { num: 4, val: FieldValV::Varint(1) },
            FieldV { num: 5, val: FieldValV::Varint(iv.value as u32 as u64) },
        ],
        StatValues::Float(fv) => seq![
            FieldV { num: 4, val: FieldValV::Varint(2) },
            FieldV { num: 6, val: FieldValV::Varint(fv.value_bits as u64) },
        ],
        StatValues::Avgrate(fv) => seq![
            FieldV { num: 4, val: FieldValV::Varint(3) },
            FieldV { num: 6, val: FieldValV::Varint(fv.value_bits as u64) },
        ],
    }) + (match row.window_bits {
        Some(w) => seq![FieldV { num: 7, val: FieldValV::Varint(w) }],
        None => Seq::empty(),
    })
}

/// The fields of the statistics reply: one nested body per row.
pub open spec fn spec_stats_reply_fields(rows: Seq<StatRow>) -> Seq<FieldV>
    decreases rows.len(),
{
    if rows.len() == 0 {
        Seq::empty()
    } else {
        spec_stats_reply_fields(rows.drop_last()) + seq![
            FieldV {
                num: 1,
                val: FieldValV::Bytes(spec_msg_bytes(spec_stat_row_fields(rows.last()))),
            },
        ]
    }
}

/// Encode one statistic's nested body.
fn encode_stat_row(row: &StatRow) -> (r: Vec<u8>)
    ensures
        r@ == spec_msg_bytes(spec_stat_row_fields(*row)),
{
    let mut fields: Vec<Field> = Vec::new();
    fields.push(Field { num: 1, val: FieldVal::Varint(row.id as u64) });
    fields.push(
        Field {
            num: 2,
            val: FieldVal::Bytes(vstd::slice::slice_to_vec(row.key.as_str().as_bytes())),
        },
    );
    fields.push(
        Field {
            num: 3,
            val: FieldVal::Varint(
                if row.increment_only {
                    1
                } else {
                    0
                },
            ),
        },
    );
    match row.values {
        StatValues::Int(iv) => {
            fields.push(Field { num: 4, val: FieldVal::Varint(1) });
            fields.push(Field { num: 5, val: FieldVal::Varint(iv.value as u32 as u64) });
        },
        StatValues::Float(fv) => {
            fields.push(Field { num: 4, val: FieldVal::Varint(2) });
            fields.push(Field { num: 6, val: FieldVal::Varint(fv.value_bits as u64) });
        },
        StatValues::Avgrate(fv) => {
            fields.push(Field { num: 4, val: FieldVal::Varint(3) });
            fields.push(Field { num: 6, val: FieldVal::Varint(fv.value_bits as u64) });
        },
    }
    if let Some(w) = row.window_bits {
        fields.push(Field { num: 7, val: FieldVal::Varint(w) });
    }
    proof {
        assert(spec_fields_view(fields@) =~= spec_stat_row_fields(*row));
    }
    encode_fields(&fields)
}

/// Encode the statistics reply body.
pub fn encode_stats_reply(rows: &Vec<StatRow>) -> (r: Vec<u8>)
    ensures
        r@ == spec_msg_bytes(spec_stats_reply_fields(rows@)),
{
    let mut fields: Vec<Field> = Vec::new();
    let mut i: usize = 0;
    proof {
        assert(rows@.take(0int) =~= Seq::<StatRow>::empty());
        assert(spec_fields_view(fields@) =~= spec_stats_reply_fields(rows@.take(0int)));
    }
    while i < rows.len()
        invariant
            0 <= i <= rows@.len(),
            spec_fields_view(fields@) == spec_stats_reply_fields(rows@.take(i as int)),
        decreases rows@.len() - i,
    {
        proof {
            let taken = rows@.take(i as int + 1);
            assert(taken.drop_last() =~= rows@.take(i as int));
            assert(taken.last() == rows@[i as int]);
        }
        let ghost pre = spec_fields_view(fields@);
        let body = encode_stat_row(&rows[i]);
        fields.push(Field { num: 1, val: FieldVal::Bytes(body) });
        proof {
            assert(spec_fields_view(fields@) =~= pre + seq![
                FieldV {
                    num: 1,
                    val: FieldValV::Bytes(
                        spec_msg_bytes(spec_stat_row_fields(rows@[i as int])),
                    ),
                },
            ]);
        }
        i += 1;
    }
    proof {
        assert(rows@.take(rows@.len() as int) =~= rows@);
    }
    encode_fields(&fields)
}

/// The unlock field an achievement reply carries: the epoch second of
/// the stored RFC 3339 text, absent while locked or unreadable.
pub open spec fn spec_ach_unlock_fields(row: AchievementRow) -> Seq<FieldV> {
    match row.unlock_time {
        Some(t) => match timestamp_of_rfc3339(t@) {
            Some(ts) => seq![FieldV { num: 11, val: FieldValV::Varint(ts as u64) }],
            None => Seq::empty(),
        },
        None => Seq::empty(),
    }
}

/// The fields of one achievement as the reply carries it.
pub open spec fn spec_ach_row_fields(row: AchievementRow) -> Seq<FieldV> {
    seq![
        FieldV { num: 1, val: FieldValV::Varint(row.id as u64) },
        FieldV { num: 2, val: FieldValV::Bytes(vstd::utf8::encode_utf8(row.key@)) },
        FieldV { num: 3, val: FieldValV::Bytes(vstd::utf8::encode_utf8(row.name@)) },
        FieldV { num: 4, val: FieldValV::Bytes(vstd::utf8::encode_utf8(row.description@)) },
        FieldV {
            num: 5,
            val: FieldValV::Varint(
                if row.visible {
                    1u64
                } else {
                    0u64
                },
            ),
        },
        FieldV {
            num: 6,
            val: FieldValV::Bytes(vstd::utf8::encode_utf8(row.image_url_locked@)),
        },
        FieldV {
            num: 7,
            val: FieldValV::Bytes(vstd::utf8::encode_utf8(row.image_url_unlocked@)),
        },
        FieldV { num: 8, val: FieldValV::Varint(row.rarity_bits as u64) },
        FieldV {
            num: 9,
            val: FieldValV::Bytes(vstd::utf8::encode_utf8(row.rarity_level_description@)),
        },
        FieldV {
            num: 10,
            val: FieldValV::Bytes(vstd::utf8::encode_utf8(row.rarity_level_slug@)),
        },
    ] + spec_ach_unlock_fields(row)
}

/// The fields of the achievements reply: the mode, the language, then
/// one nested body per row.
pub open spec fn spec_ach_reply_fields(
    rows: Seq<AchievementRow>,
    mode: Seq<char>,
    language: Seq<char>,
) -> Seq<FieldV> {
    seq![
        FieldV { num: 1, val: FieldValV::Bytes(vstd::utf8::encode_utf8(mode)) },
        FieldV { num: 2, val: FieldValV::Bytes(vstd::utf8::encode_utf8(language)) },
    ] + spec_ach_row_entries(rows)
}

/// The per-row entries of the achievements reply.
pub open spec fn spec_ach_row_entries(rows: Seq<AchievementRow>) -> Seq<FieldV>
    decreases rows.len(),
{
    if rows.len() == 0 {
        Seq::empty()
    } else {
        spec_ach_row_entries(rows.drop_last()) + seq![
            FieldV {
                num: 3,
                val: FieldValV::Bytes(spec_msg_bytes(spec_ach_row_fields(rows.last()))),
            },
        ]
    }
}

/// Encode one achievement's nested body.
fn encode_ach_row(row: &AchievementRow) -> (r: Vec<u8>)
    ensures
        r@ == spec_msg_bytes(spec_ach_row_fields(*row)),
{
    let mut fields: Vec<Field> = Vec::new();
    fields.push(Field { num: 1, val: FieldVal::Varint(row.id as u64) });
    fields.push(
        Field {
            num: 2,
            val: FieldVal::Bytes(vstd::slice::slice_to_vec(row.key.as_str().as_bytes())),
        },
    );
    fields.push(
        Field {
            num: 3,
            val: FieldVal::Bytes(vstd::slice::slice_to_vec(row.name.as_str().as_bytes())),
        },
    );
    fields.push(
        Field {
            num: 4,
            val: FieldVal::Bytes(vstd::slice::slice_to_vec(row.description.as_str().as_bytes())),
        },
    );
    fields.push(
        Field {
            num: 5,
            val: FieldVal::Varint(
                if row.visible {
                    1
                } else {
                    0
                },
            ),
        },
    );
    fields.push(
        Field {
            num: 6,
            val: FieldVal::Bytes(
                vstd::slice::slice_to_vec(row.image_url_locked.as_str().as_bytes()),
            ),
        },
    );
    fields.push(
        Field {
            num: 7,
            val: FieldVal::Bytes(
                vstd::slice::slice_to_vec(row.image_url_unlocked.as_str().as_bytes()),
            ),
        },
    );
    fields.push(Field { num: 8, val: FieldVal::Varint(row.rarity_bits as u64) });
    fields.push(
        Field {
            num: 9,
            val: FieldVal::Bytes(
                vstd::slice::slice_to_vec(row.rarity_level_description.as_str().as_bytes()),
            ),
        },
    );
    fields.push(
        Field {
            num: 10,
            val: FieldVal::Bytes(
                vstd::slice::slice_to_vec(row.rarity_level_slug.as_str().as_bytes()),
            ),
        },
    );
    match &row.unlock_time {
        Some(t) => {
            match rfc3339_to_timestamp(t) {
                Some(ts) => {
                    fields.push(Field { num: 11, val: FieldVal::Varint(ts as u64) });
                },
                None => {},
            }
        },
        None => {},
    }
    proof {
        assert(spec_fields_view(fields@) =~= spec_ach_row_fields(*row));
    }
    encode_fields(&fields)
}

/// Encode the achievements reply body.
pub fn encode_achievements_reply(
    rows: &Vec<AchievementRow>,
    mode: &String,
    language: &String,
) -> (r: Vec<u8>)
    ensures
        r@ == spec_msg_bytes(spec_ach_reply_fields(rows@, mode@, language@)),
{
    let mut fields: Vec<Field> = Vec::new();
    fields.push(
        Field { num: 1, val: FieldVal::Bytes(vstd::slice::slice_to_vec(mode.as_str().as_bytes())) },
    );
    fields.push(
        Field {
            num: 2,
            val: FieldVal::Bytes(vstd::slice::slice_to_vec(language.as_str().as_bytes())),
        },
    );
    let ghost head = spec_fields_view(fields@);
    proof {
        assert(rows@.take(0int) =~= Seq::<AchievementRow>::empty());
        assert(spec_fields_view(fields@) =~= head + spec_ach_row_entries(rows@.take(0int)));
    }
    let mut i: usize = 0;
    while i < rows.len()
        invariant
            0 <= i <= rows@.len(),
            head == seq![
                FieldV { num: 1, val: FieldValV::Bytes(vstd::utf8::encode_utf8(mode@)) },
                FieldV { num: 2, val: FieldValV::Bytes(vstd::utf8::encode_utf8(language@)) },
            ],
            spec_fields_view(fields@) == head + spec_ach_row_entries(rows@.take(i as int)),
        decreases rows@.len() - i,
    {
        proof {
            let taken = rows@.take(i as int + 1);
            assert(taken.drop_last() =~= rows@.take(i as int));
            assert(taken.last() == rows@[i as int]);
        }
        let ghost pre = spec_fields_view(fields@);
        let body = encode_ach_row(&rows[i]);
        fields.push(Field { num: 3, val: FieldVal::Bytes(body) });
        proof {
            assert(spec_fields_view(fields@) =~= pre + seq![
                FieldV {
                    num: 3,
                    val: FieldValV::Bytes(spec_msg_bytes(spec_ach_row_fields(rows@[i as int]))),
                },
            ]);
            assert(spec_fields_view(fields@) =~= head + spec_ach_row_entries(
                rows@.take(i as int + 1),
            ));
        }
        i += 1;
    }
    proof {
        assert(rows@.take(rows@.len() as int) =~= rows@);
        assert(spec_fields_view(fields@) =~= spec_ach_reply_fields(rows@, mode@, language@));
    }
    encode_fields(&fields)
}

/// The fields of one definition as the reply carries it: sort and
/// display as their wire values.
pub open spec fn spec_lb_def_fields(row: LeaderboardRow) -> Seq<FieldV> {
    seq![
        FieldV { num: 1, val: FieldValV::Varint(row.id as u64) },
        FieldV { num: 2, val: FieldValV::Bytes(vstd::utf8::encode_utf8(row.key@)) },
        FieldV { num: 3, val: FieldValV::Bytes(vstd::utf8::encode_utf8(row.name@)) },
        FieldV {
            num: 4,
            val: FieldValV::Varint(
                if row.sort_method@ == "desc"@ {
                    2u64
                } else {
                    1u64
                },
            ),
        },
        FieldV {
            num: 5,
            val: FieldValV::Varint(
                if row.display_type@ == "seconds"@ {
                    2u64
                } else if row.display_type@ == "milliseconds"@ {
                    3u64
                } else {
                    1u64
                },
            ),
        },
    ]
}

/// The per-row entries of the definitions reply.
pub open spec fn spec_lb_defs_reply_fields(rows: Seq<LeaderboardRow>) -> Seq<FieldV>
    decreases rows.len(),
{
    if rows.len() == 0 {
        Seq::empty()
    } else {
        spec_lb_defs_reply_fields(rows.drop_last()) + seq![
            FieldV {
                num: 1,
                val: FieldValV::Bytes(spec_msg_bytes(spec_lb_def_fields(rows.last()))),
            },
        ]
    }
}

/// Encode one definition's nested body.
fn encode_lb_def_row(row: &LeaderboardRow) -> (r: Vec<u8>)
    ensures
        r@ == spec_msg_bytes(spec_lb_def_fields(*row)),
{
    let desc = String::from_str("desc");
    let seconds = String::from_str("seconds");
    let milliseconds = String::from_str("milliseconds");
    let sort_val: u64 = if row.sort_method.eq(&desc) {
        2
    } else {
        1
    };
    let display_val: u64 = if row.display_type.eq(&seconds) {
        2
    } else if row.display_type.eq(&milliseconds) {
        3
    } else {
        1
    };
    let mut fields: Vec<Field> = Vec::new();
    fields.push(Field { num: 1, val: FieldVal::Varint(row.id as u64) });
    fields.push(
        Field {
            num: 2,
            val: FieldVal::Bytes(vstd::slice::slice_to_vec(row.key.as_str().as_bytes())),
        },
    );
    fields.push(
        Field {
            num: 3,
            val: FieldVal::Bytes(vstd::slice::slice_to_vec(row.name.as_str().as_bytes())),
        },
    );
    fields.push(Field { num: 4, val: FieldVal::Varint(sort_val) });
    fields.push(Field { num: 5, val: FieldVal::Varint(display_val) });
    proof {
        assert(spec_fields_view(fields@) =~= spec_lb_def_fields(*row));
    }
    encode_fields(&fields)
}

/// Encode the definitions reply body.
pub fn encode_leaderboards_reply(rows: &Vec<LeaderboardRow>) -> (r: Vec<u8>)
    ensures
        r@ == spec_msg_bytes(spec_lb_defs_reply_fields(rows@)),
{
    let mut fields: Vec<Field> = Vec::new();
    let mut i: usize = 0;
    proof {
        assert(rows@.take(0int) =~= Seq::<LeaderboardRow>::empty());
        assert(spec_fields_view(fields@) =~= spec_lb_defs_reply_fields(rows@.take(0int)));
    }
    while i < rows.len()
        invariant
            0 <= i <= rows@.len(),
            spec_fields_view(fields@) == spec_lb_defs_reply_fields(rows@.take(i as int)),
        decreases rows@.len() - i,
    {
        proof {
            let taken = rows@.take(i as int + 1);
            assert(taken.drop_last() =~= rows@.take(i as int));
            assert(taken.last() == rows@[i as int]);
        }
        let ghost pre = spec_fields_view(fields@);
        let body = encode_lb_def_row(&rows[i]);
        fields.push(Field { num: 1, val: FieldVal::Bytes(body) });
        proof {
            assert(spec_fields_view(fields@) =~= pre + seq![
                FieldV {
                    num: 1,
                    val: FieldValV::Bytes(spec_msg_bytes(spec_lb_def_fields(rows@[i as int]))),
                },
            ]);
        }
        i += 1;
    }
    proof {
        assert(rows@.take(rows@.len() as int) =~= rows@);
    }
    encode_fields(&fields)
}

/// The fields of one wire entry as the reply carries it.
pub open spec fn spec_entry_fields(e: WireLeaderboardEntryV) -> Seq<FieldV> {
    seq![
        FieldV { num: 1, val: FieldValV::Varint(e.user_id) },
        FieldV { num: 2, val: FieldValV::Varint(e.rank as u64) },
        FieldV { num: 3, val: FieldValV::Varint(e.score as u64) },
        FieldV { num: 4, val: FieldValV::Bytes(e.details) },
    ]
}

/// The per-entry fields of the entries reply.
pub open spec fn spec_entries_rows_fields(entries: Seq<WireLeaderboardEntryV>) -> Seq<FieldV>
    decreases entries.len(),
{
    if entries.len() == 0 {
        Seq::empty()
    } else {
        spec_entries_rows_fields(entries.drop_last()) + seq![
            FieldV {
                num: 2,
                val: FieldValV::Bytes(spec_msg_bytes(spec_entry_fields(entries.last()))),
            },
        ]
    }
}

/// The fields of the entries reply: the total count, then one nested
/// body per entry.
pub open spec fn spec_entries_reply_fields(
    total: u32,
    entries: Seq<WireLeaderboardEntryV>,
) -> Seq<FieldV> {
    seq![FieldV { num: 1, val: FieldValV::Varint(total as u64) }] + spec_entries_rows_fields(
        entries,
    )
}

/// Encode the entries reply body.
pub fn encode_entries_reply(total: u32, entries: &Vec<WireLeaderboardEntry>) -> (r: Vec<u8>)
    ensures
        r@ == spec_msg_bytes(
            spec_entries_reply_fields(total, crate::remote::spec_wire_views(entries@)),
        ),
{
    let mut fields: Vec<Field> = Vec::new();
    fields.push(Field { num: 1, val: FieldVal::Varint(total as u64) });
    let ghost head = spec_fields_view(fields@);
    let ghost views = crate::remote::spec_wire_views(entries@);
    proof {
        assert(views.take(0int) =~= Seq::<WireLeaderboardEntryV>::empty());
        assert(spec_fields_view(fields@) =~= head + spec_entries_rows_fields(views.take(0int)));
    }
    let mut i: usize = 0;
    while i < entries.len()
        invariant
            0 <= i <= entries@.len(),
            views == crate::remote::spec_wire_views(entries@),
            views.len() == entries@.len(),
            head == seq![FieldV { num: 1, val: FieldValV::Varint(total as u64) }],
            spec_fields_view(fields@) == head + spec_entries_rows_fields(views.take(i as int)),
        decreases entries@.len() - i,
    {
        proof {
            let taken = views.take(i as int + 1);
            assert(taken.drop_last() =~= views.take(i as int));
            assert(taken.last() == views[i as int]);
            assert(views[i as int] == entries@[i as int]@);
        }
        let entry = &entries[i];
        let mut sub: Vec<Field> = Vec::new();
        sub.push(Field { num: 1, val: FieldVal::Varint(entry.user_id) });
        sub.push(Field { num: 2, val: FieldVal::Varint(entry.rank as u64) });
        sub.push(Field { num: 3, val: FieldVal::Varint(entry.score as u64) });
        sub.push(
            Field {
                num: 4,
                val: FieldVal::Bytes(vstd::slice::slice_to_vec(entry.details.as_slice())),
            },
        );
        proof {
            assert(spec_fields_view(sub@) =~= spec_entry_fields(views[i as int]));
        }
        let body = encode_fields(&sub);
        let ghost pre = spec_fields_view(fields@);
        fields.push(Field { num: 2, val: FieldVal::Bytes(body) });
        proof {
            assert(spec_fields_view(fields@) =~= pre + seq![
                FieldV {
                    num: 2,
                    val: FieldValV::Bytes(spec_msg_bytes(spec_entry_fields(views[i as int]))),
                },
            ]);
            assert(spec_fields_view(fields@) =~= head + spec_entries_rows_fields(
                views.take(i as int + 1),
            ));
        }
        i += 1;
    }
    proof {
        assert(views.take(views.len() as int) =~= views);
        assert(spec_fields_view(fields@) =~= spec_entries_reply_fields(total, views));
    }
    encode_fields(&fields)
}

/// The fields of the auth reply.
pub open spec fn spec_auth_reply_fields(resp: AuthInfoResponse) -> Seq<FieldV> {
    seq![
        FieldV { num: 1, val: FieldValV::Bytes(vstd::utf8::encode_utf8(resp.refresh_token@)) },
        FieldV { num: 2, val: FieldValV::Varint(resp.region as u64) },
        FieldV { num: 3, val: FieldValV::Varint(resp.environment_type as u64) },
        FieldV { num: 4, val: FieldValV::Varint(resp.user_id) },
        FieldV { num: 5, val: FieldValV::Bytes(vstd::utf8::encode_utf8(resp.user_name@)) },
    ]
}

/// Encode the auth reply body.
pub fn encode_auth_reply(resp: &AuthInfoResponse) -> (r: Vec<u8>)
    ensures
        r@ == spec_msg_bytes(spec_auth_reply_fields(*resp)),
{
    let mut fields: Vec<Field> = Vec::new();
    fields.push(
        Field {
            num: 1,
            val: FieldVal::Bytes(vstd::slice::slice_to_vec(resp.refresh_token.as_str().as_bytes())),
        },
    );
    fields.push(Field { num: 2, val: FieldVal::Varint(resp.region as u64) });
    fields.push(Field { num: 3, val: FieldVal::Varint(resp.environment_type as u64) });
    fields.push(Field { num: 4, val: FieldVal::Varint(resp.user_id) });
    fields.push(
        Field {
            num: 5,
            val: FieldVal::Bytes(vstd::slice::slice_to_vec(resp.user_name.as_str().as_bytes())),
        },
    );
    proof {
        assert(spec_fields_view(fields@) =~= spec_auth_reply_fields(*resp));
    }
    encode_fields(&fields)
}

/// The fields of the score reply.
pub open spec fn spec_score_reply_fields(resp: SetLeaderboardScoreResponse) -> Seq<FieldV> {
    seq![
        FieldV { num: 1, val: FieldValV::Varint(resp.score as u32 as u64) },
        FieldV { num: 2, val: FieldValV::Varint(resp.old_rank as u64) },
        FieldV { num: 3, val: FieldValV::Varint(resp.new_rank as u64) },
        FieldV { num: 4, val: FieldValV::Varint(resp.leaderboard_entry_total_count as u64) },
    ]
}

/// Encode the score reply body.
pub fn encode_score_reply(resp: &SetLeaderboardScoreResponse) -> (r: Vec<u8>)
    ensures
        r@ == spec_msg_bytes(spec_score_reply_fields(*resp)),
{
    let mut fields: Vec<Field> = Vec::new();
    fields.push(Field { num: 1, val: FieldVal::Varint(resp.score as u32 as u64) });
    fields.push(Field { num: 2, val: FieldVal::Varint(resp.old_rank as u64) });
    fields.push(Field { num: 3, val: FieldVal::Varint(resp.new_rank as u64) });
    fields.push(
        Field { num: 4, val: FieldVal::Varint(resp.leaderboard_entry_total_count as u64) },
    );
    proof {
        assert(spec_fields_view(fields@) =~= spec_score_reply_fields(*resp));
    }
    encode_fields(&fields)
}

/// The fields of the creation reply: the new board's id.
pub open spec fn spec_create_reply_fields(id: u64) -> Seq<FieldV> {
    seq![FieldV { num: 1, val: FieldValV::Varint(id) }]
}

/// Encode the creation reply body.
pub fn encode_create_reply(id: u64) -> (r: Vec<u8>)
    ensures
        r@ == spec_msg_bytes(spec_create_reply_fields(id)),
{
    let mut fields: Vec<Field> = Vec::new();
    fields.push(Field { num: 1, val: FieldVal::Varint(id) });
    proof {
        assert(spec_fields_view(fields@) =~= spec_create_reply_fields(id));
    }
    encode_fields(&fields)
}

/// The fields of the subscription reply: the topic echoed.
pub open spec fn spec_subscribe_reply_fields(topic: Seq<char>) -> Seq<FieldV> {
    seq![FieldV { num: 1, val: FieldValV::Bytes(vstd::utf8::encode_utf8(topic)) }]
}

/// Encode the subscription reply body.
pub fn encode_subscribe_reply(topic: &String) -> (r: Vec<u8>)
    ensures
        r@ == spec_msg_bytes(spec_subscribe_reply_fields(topic@)),
{
    let mut fields: Vec<Field> = Vec::new();
    fields.push(
        Field {
            num: 1,
            val: FieldVal::Bytes(vstd::slice::slice_to_vec(topic.as_str().as_bytes())),
        },
    );
    proof {
        assert(spec_fields_view(fields@) =~= spec_subscribe_reply_fields(topic@));
    }
    encode_fields(&fields)
}

} // verus!

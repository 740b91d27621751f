//! Typed values of the remote HTTPS API, and the classification of
//! its failures.
//!
//! The calls themselves are made by the caller; this module holds the
//! shapes that cross that boundary — achievement and leaderboard
//! records as the service writes them, with decimal-text ids — and the
//! verified conversions between those shapes and the cache's rows.
use vstd::prelude::*;

use crate::cache::{AchievementRow, LeaderboardRow};
use crate::ext::{b64url_decode, b64url_decode_of};
use crate::ids::{IDType, INNER_ID_LIMIT};
use crate::numbers::{parse_i64, parse_u64, spec_digits_value, spec_is_digits};

verus! {

/// An achievement as the remote service writes it: ids as decimal
/// text, the rarity percentage as a bit pattern.
pub struct Achievement {
    pub achievement_id: String,
    pub achievement_key: String,
    pub name: String,
    pub description: String,
    pub image_url_locked: String,
    pub image_url_unlocked: String,
    pub visible: bool,
    pub date_unlocked: Option<String>,
    pub rarity_bits: u32,
    pub rarity_level_description: String,
    pub rarity_level_slug: String,
}

impl Achievement {
    /// Assemble an achievement record.
    pub fn new(
        achievement_id: String,
        achievement_key: String,
        name: String,
        description: String,
        image_url_locked: String,
        image_url_unlocked: String,
        visible: bool,
        date_unlocked: Option<String>,
        rarity_bits: u32,
        rarity_level_description: String,
        rarity_level_slug: String,
    ) -> (r: Achievement)
        ensures
            r == (Achievement {
                achievement_id,
                achievement_key,
                name,
                description,
                image_url_locked,
                image_url_unlocked,
                visible,
                date_unlocked,
                rarity_bits,
                rarity_level_description,
                rarity_level_slug,
            }),
    {
        Achievement {
            achievement_id,
            achievement_key,
            name,
            description,
            image_url_unlocked,
            image_url_locked,
            visible,
            date_unlocked,
            rarity_bits,
            rarity_level_slug,
            rarity_level_description,
        }
    }

    /// The cache row this record denotes, locked and clean; nothing
    /// when the id is not a decimal number that fits.
    pub fn to_row(&self) -> (r: Option<AchievementRow>)
        ensures
            (r matches Some(row) ==> {
                &&& spec_is_digits(vstd::utf8::encode_utf8(self.achievement_id@))
                &&& row.id == spec_digits_value(vstd::utf8::encode_utf8(self.achievement_id@))
                &&& row.key == self.achievement_key
                &&& row.name == self.name
                &&& row.description == self.description
                &&& row.image_url_locked == self.image_url_locked
                &&& row.image_url_unlocked == self.image_url_unlocked
                &&& row.visible == self.visible
                &&& row.unlock_time == self.date_unlocked
                &&& row.rarity_bits == self.rarity_bits
                &&& row.rarity_level_description == self.rarity_level_description
                &&& row.rarity_level_slug == self.rarity_level_slug
                &&& !row.changed
            }),
            r is None ==> !spec_is_digits(vstd::utf8::encode_utf8(self.achievement_id@)) || spec_digits_value(
                vstd::utf8::encode_utf8(self.achievement_id@),
            ) > i64::MAX,
    {
        let id = match parse_i64(self.achievement_id.as_str()) {
            Some(v) => v,
            None => {
                return None;
            },
        };
        Some(
            AchievementRow {
                id,
                key: self.achievement_key.clone(),
                name: self.name.clone(),
                description: self.description.clone(),
                image_url_locked: self.image_url_locked.clone(),
                image_url_unlocked: self.image_url_unlocked.clone(),
                visible: self.visible,
                unlock_time: match &self.date_unlocked {
                    Some(t) => Some(t.clone()),
                    None => None,
                },
                rarity_bits: self.rarity_bits,
                rarity_level_description: self.rarity_level_description.clone(),
                rarity_level_slug: self.rarity_level_slug.clone(),
                changed: false,
            },
        )
    }
}

impl Clone for Achievement {
    fn clone(&self) -> (r: Self)
        ensures
            r == *self,
    {
        Achievement {
            achievement_id: self.achievement_id.clone(),
            achievement_key: self.achievement_key.clone(),
            name: self.name.clone(),
            description: self.description.clone(),
            image_url_locked: self.image_url_locked.clone(),
            image_url_unlocked: self.image_url_unlocked.clone(),
            visible: self.visible,
            date_unlocked: match &self.date_unlocked {
                Some(t) => Some(t.clone()),
                None => None,
            },
            rarity_bits: self.rarity_bits,
            rarity_level_description: self.rarity_level_description.clone(),
            rarity_level_slug: self.rarity_level_slug.clone(),
        }
    }
}

/// The body of an achievement unlock or clear sent to the service.
pub struct SetAchievementRequest {
    pub date_unlocked: Option<String>,
}

impl SetAchievementRequest {
    /// A request carrying this unlock time, or its absence to clear.
    pub fn new(date_unlocked: Option<String>) -> (r: SetAchievementRequest)
        ensures
            r.date_unlocked == date_unlocked,
    {
        SetAchievementRequest { date_unlocked }
    }
}

/// One leaderboard definition as the service writes it: the id as
/// decimal text, sort and display as their short names.
pub struct LeaderboardDefinition {
    pub id: String,
    pub key: String,
    pub name: String,
    pub sort_method: String,
    pub display_type: String,
}

impl LeaderboardDefinition {
    /// Assemble a definition record.
    pub fn new(
        id: String,
        key: String,
        name: String,
        sort_method: String,
        display_type: String,
    ) -> (r: LeaderboardDefinition)
        ensures
            r == (LeaderboardDefinition { id, key, name, sort_method, display_type }),
    {
        LeaderboardDefinition { id, key, name, sort_method, display_type }
    }

    /// The definition's id text.
    pub fn id(&self) -> (r: &String)
        ensures
            r == &self.id,
    {
        &self.id
    }

    /// The definition's key.
    pub fn key(&self) -> (r: &String)
        ensures
            r == &self.key,
    {
        &self.key
    }

    /// The definition's display name.
    pub fn name(&self) -> (r: &String)
        ensures
            r == &self.name,
    {
        &self.name
    }

    /// The definition's sort method, `asc` or `desc`.
    pub fn sort_method(&self) -> (r: &String)
        ensures
            r == &self.sort_method,
    {
        &self.sort_method
    }

    /// The definition's display type.
    pub fn display_type(&self) -> (r: &String)
        ensures
            r == &self.display_type,
    {
        &self.display_type
    }

    /// The cache row this definition denotes, with zero score and
    /// standing and the dirty bit down; nothing when the id is not a
    /// decimal number that fits.
    pub fn to_row(&self) -> (r: Option<LeaderboardRow>)
        ensures
            (r matches Some(row) ==> {
                &&& spec_is_digits(vstd::utf8::encode_utf8(self.id@))
                &&& row.id == spec_digits_value(vstd::utf8::encode_utf8(self.id@))
                &&& row.key == self.key
                &&& row.name == self.name
                &&& row.sort_method == self.sort_method
                &&& row.display_type == self.display_type
                &&& row.score == 0 && row.rank == 0 && row.entry_total_count == 0
                &&& !row.force_update && !row.changed
                &&& row.details@ == Seq::<char>::empty()
            }),
            r is None ==> !spec_is_digits(vstd::utf8::encode_utf8(self.id@)) || spec_digits_value(
                vstd::utf8::encode_utf8(self.id@),
            ) > i64::MAX,
    {
        let id = match parse_i64(self.id.as_str()) {
            Some(v) => v,
            None => {
                return None;
            },
        };
        Some(
            LeaderboardRow {
                id,
                key: self.key.clone(),
                name: self.name.clone(),
                sort_method: self.sort_method.clone(),
                display_type: self.display_type.clone(),
                score: 0,
                rank: 0,
                entry_total_count: 0,
                force_update: false,
                details: String::new(),
                changed: false,
            },
        )
    }
}

/// The service's answer to a definitions listing.
pub struct LeaderboardsResponse {
    pub items: Vec<LeaderboardDefinition>,
}

/// One leaderboard entry as the service writes it.
pub struct LeaderboardEntry {
    pub user_id: String,
    pub rank: u32,
    pub score: u32,
    pub details: Option<String>,
}

/// The service's answer to an entries listing.
pub struct LeaderboardEntriesResponse {
    pub items: Vec<LeaderboardEntry>,
    pub leaderboard_entry_total_count: u32,
}

/// The service's answer to a posted score.
pub struct LeaderboardScoreUpdateResponse {
    pub old_rank: u32,
    pub new_rank: u32,
    pub leaderboard_entry_total_count: u32,
}

/// One entry as it goes to the game: the user id tagged as a user id,
/// the details decoded from their base64 form.
pub struct WireLeaderboardEntry {
    pub user_id: u64,
    pub rank: u32,
    pub score: u32,
    pub details: Vec<u8>,
}

/// Mathematical image of a wire entry.
pub struct WireLeaderboardEntryV {
    pub user_id: u64,
    pub rank: u32,
    pub score: u32,
    pub details: Seq<u8>,
}

impl View for WireLeaderboardEntry {
    type V = WireLeaderboardEntryV;

    open spec fn view(&self) -> WireLeaderboardEntryV {
        WireLeaderboardEntryV {
            user_id: self.user_id,
            rank: self.rank,
            score: self.score,
            details: self.details@,
        }
    }
}

/// Whether a service entry can go to the game: its user id is a
/// decimal number small enough to tag.
pub open spec fn spec_entry_kept(e: LeaderboardEntry) -> bool {
    &&& spec_is_digits(vstd::utf8::encode_utf8(e.user_id@))
    &&& spec_digits_value(vstd::utf8::encode_utf8(e.user_id@)) < INNER_ID_LIMIT
}

/// How a kept entry goes to the game: rank and score copied, the user
/// id tagged, the details decoded from base64 (empty when absent or
/// undecodable).
pub open spec fn spec_wire_entry(e: LeaderboardEntry) -> WireLeaderboardEntryV {
    WireLeaderboardEntryV {
        user_id: IDType::User(
            spec_digits_value(vstd::utf8::encode_utf8(e.user_id@)) as u64,
        ).spec_value(),
        rank: e.rank,
        score: e.score,
        details: match e.details {
            Some(t) => match b64url_decode_of(t@) {
                Some(b) => b,
                None => Seq::empty(),
            },
            None => Seq::empty(),
        },
    }
}

/// The wire rendering of a whole entries listing: each kept entry in
/// source order, the others dropped.
pub open spec fn spec_wire_entries(items: Seq<LeaderboardEntry>) -> Seq<WireLeaderboardEntryV>
    decreases items.len(),
{
    if items.len() == 0 {
        Seq::empty()
    } else {
        spec_wire_entries(items.drop_last()) + (if spec_entry_kept(items.last()) {
            seq![spec_wire_entry(items.last())]
        } else {
            Seq::empty()
        })
    }
}

/// The images of a wire entry list.
pub open spec fn spec_wire_views(s: Seq<WireLeaderboardEntry>) -> Seq<WireLeaderboardEntryV> {
    s.map_values(|w: WireLeaderboardEntry| w@)
}

/// Turn the service's entries into wire entries: exactly the wire
/// rendering — one entry per source item whose user id is a decimal
/// number small enough to tag, in source order, with rank and score
/// copied, the user id tagged, and the details decoded from base64.
pub fn wire_leaderboard_entries(items: &Vec<LeaderboardEntry>) -> (r: Vec<WireLeaderboardEntry>)
    ensures
        spec_wire_views(r@) == spec_wire_entries(items@),
        r@.len() <= items@.len(),
        forall|i: int| 0 <= i < r@.len() ==> (#[trigger] r@[i]).user_id >> 56 == 2,
{
    let mut out: Vec<WireLeaderboardEntry> = Vec::new();
    let mut i: usize = 0;
    proof {
        assert(items@.take(0int) =~= Seq::<LeaderboardEntry>::empty());
        assert(spec_wire_views(out@) =~= spec_wire_entries(items@.take(0int)));
    }
    while i < items.len()
        invariant
            0 <= i <= items@.len(),
            out@.len() <= i,
            spec_wire_views(out@) == spec_wire_entries(items@.take(i as int)),
            forall|k: int| 0 <= k < out@.len() ==> (#[trigger] out@[k]).user_id >> 56 == 2,
        decreases items@.len() - i,
    {
        let entry = &items[i];
        proof {
            let taken = items@.take(i as int + 1);
            assert(taken.drop_last() =~= items@.take(i as int));
            assert(taken.last() == items@[i as int]);
        }
        if let Some(inner) = parse_u64(entry.user_id.as_str()) {
            if inner < INNER_ID_LIMIT {
                let tagged = IDType::User(inner);
                let details: Vec<u8> = match &entry.details {
                    Some(text) => match b64url_decode(text) {
                        Some(bytes) => bytes,
                        None => Vec::new(),
                    },
                    None => Vec::new(),
                };
                proof {
                    crate::ids::lemma_user_id_tagged(inner);
                }
                let ghost pre_views = spec_wire_views(out@);
                let wire = WireLeaderboardEntry {
                    user_id: tagged.value(),
                    rank: entry.rank,
                    score: entry.score,
                    details,
                };
                proof {
                    assert(wire@ == spec_wire_entry(items@[i as int]));
                }
                out.push(wire);
                proof {
                    assert(spec_wire_views(out@) =~= pre_views + seq![
                        spec_wire_entry(items@[i as int]),
                    ]);
                }
            } else {
                proof {
                    assert(!spec_entry_kept(items@[i as int]));
                    assert(spec_wire_entries(items@.take(i as int + 1)) =~= spec_wire_entries(
                        items@.take(i as int),
                    ));
                }
            }
        } else {
            proof {
                assert(!spec_entry_kept(items@[i as int]));
                assert(spec_wire_entries(items@.take(i as int + 1)) =~= spec_wire_entries(
                    items@.take(i as int),
                ));
            }
        }
        i += 1;
    }
    proof {
        assert(items@.take(items@.len() as int) =~= items@);
    }
    out
}

/// The daemon's reading of a remote failure, as the error taxonomy
/// names it.
#[derive(PartialEq, Eq, Structural, Clone, Copy, Debug)]
pub enum RemoteErrorKind {
    Unauthorized,
    Conflict,
    Offline,
    Network,
}

/// Classify a failed HTTPS call: a 403 means the user does not own
/// the game; a 409 is a stale score; a connect or timeout failure
/// means the daemon is offline; everything else is a network error.
pub fn classify_remote_failure(status: Option<u16>, connect_or_timeout: bool) -> (r:
    RemoteErrorKind)
    ensures
        r == RemoteErrorKind::Unauthorized <==> status == Some(403u16),
        r == RemoteErrorKind::Conflict <==> status == Some(409u16),
        r == RemoteErrorKind::Offline <==> status is None && connect_or_timeout,
        r == RemoteErrorKind::Network <==> !(status == Some(403u16)) && !(status == Some(409u16))
            && !(status is None && connect_or_timeout),
{
    match status {
        Some(403u16) => RemoteErrorKind::Unauthorized,
        Some(409u16) => RemoteErrorKind::Conflict,
        Some(_) => RemoteErrorKind::Network,
        None => {
            if connect_or_timeout {
                RemoteErrorKind::Offline
            } else {
                RemoteErrorKind::Network
            }
        },
    }
}

} // verus!

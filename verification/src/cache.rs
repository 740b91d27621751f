//! The local gameplay cache: achievements, statistics and leaderboard
//! scores for one (game, user) pair, with a dirty bit per row.
//!
//! The model is write-through: a mutation from the game writes the new
//! value and raises the row's `changed` bit in one step; a refresh
//! from the remote service upserts rows but never overwrites the value
//! columns of a row whose `changed` bit is up; a successful push
//! lowers the bit and touches nothing else. Durable storage mirrors
//! this state row for row.
use vstd::prelude::*;

verus! {

/// One achievement row. `rarity_bits` holds the bit pattern of the
/// rarity percentage. `unlock_time` is an RFC 3339 text, absent while
/// locked.
pub struct AchievementRow {
    pub id: i64,
    pub key: String,
    pub name: String,
    pub description: String,
    pub image_url_locked: String,
    pub image_url_unlocked: String,
    pub visible: bool,
    pub unlock_time: Option<String>,
    pub rarity_bits: u32,
    pub rarity_level_description: String,
    pub rarity_level_slug: String,
    pub changed: bool,
}

impl Clone for AchievementRow {
    fn clone(&self) -> (r: Self)
        ensures
            r == *self,
    {
        AchievementRow {
            id: self.id,
            key: self.key.clone(),
            name: self.name.clone(),
            description: self.description.clone(),
            image_url_locked: self.image_url_locked.clone(),
            image_url_unlocked: self.image_url_unlocked.clone(),
            visible: self.visible,
            unlock_time: match &self.unlock_time {
                Some(t) => Some(t.clone()),
                None => None,
            },
            rarity_bits: self.rarity_bits,
            rarity_level_description: self.rarity_level_description.clone(),
            rarity_level_slug: self.rarity_level_slug.clone(),
            changed: self.changed,
        }
    }
}

/// The bounds and value of an integer statistic.
#[derive(Clone, Copy, PartialEq, Eq, Structural, Debug)]
pub struct IntStatValues {
    pub value: i32,
    pub default_value: Option<i32>,
    pub min_value: Option<i32>,
    pub max_value: Option<i32>,
    pub max_change: Option<i32>,
}

/// The bounds and value of a floating statistic, all as bit patterns.
#[derive(Clone, Copy, PartialEq, Eq, Structural, Debug)]
pub struct FloatStatValues {
    pub value_bits: u32,
    pub default_value_bits: Option<u32>,
    pub min_value_bits: Option<u32>,
    pub max_value_bits: Option<u32>,
    pub max_change_bits: Option<u32>,
}

/// A statistic's tagged value: integer, floating, or average-rate.
#[derive(Clone, Copy, PartialEq, Eq, Structural, Debug)]
pub enum StatValues {
    Int(IntStatValues),
    Float(FloatStatValues),
    Avgrate(FloatStatValues),
}

/// One statistic row. `window_bits` holds the bit pattern of the
/// average-rate window, when there is one.
pub struct StatRow {
    pub id: i64,
    pub key: String,
    pub window_bits: Option<u64>,
    pub increment_only: bool,
    pub values: StatValues,
    pub changed: bool,
}

impl Clone for StatRow {
    fn clone(&self) -> (r: Self)
        ensures
            r == *self,
    {
        StatRow {
            id: self.id,
            key: self.key.clone(),
            window_bits: self.window_bits,
            increment_only: self.increment_only,
            values: self.values,
            changed: self.changed,
        }
    }
}

/// One leaderboard row: the definition columns, the cached score and
/// standing, and the dirty bit. `details` is the URL-safe unpadded
/// base64 form.
pub struct LeaderboardRow {
    pub id: i64,
    pub key: String,
    pub name: String,
    pub sort_method: String,
    pub display_type: String,
    pub score: i32,
    pub rank: u32,
    pub entry_total_count: u32,
    pub force_update: bool,
    pub details: String,
    pub changed: bool,
}

impl Clone for LeaderboardRow {
    fn clone(&self) -> (r: Self)
        ensures
            r == *self,
    {
        LeaderboardRow {
            id: self.id,
            key: self.key.clone(),
            name: self.name.clone(),
            sort_method: self.sort_method.clone(),
            display_type: self.display_type.clone(),
            score: self.score,
            rank: self.rank,
            entry_total_count: self.entry_total_count,
            force_update: self.force_update,
            details: self.details.clone(),
            changed: self.changed,
        }
    }
}

/// Mathematical image of the cache.
#[verifier::ext_equal]
pub struct CacheV {
    pub achievements: Seq<AchievementRow>,
    pub achievements_retrieved: bool,
    pub achievements_mode: Seq<char>,
    pub stats: Seq<StatRow>,
    pub stats_retrieved: bool,
    pub leaderboards: Seq<LeaderboardRow>,
    pub language: Seq<char>,
}

/// The per-(game, user) gameplay cache.
pub struct GameplayCache {
    pub achievements: Vec<AchievementRow>,
    pub achievements_retrieved: bool,
    pub achievements_mode: String,
    pub stats: Vec<StatRow>,
    pub stats_retrieved: bool,
    pub leaderboards: Vec<LeaderboardRow>,
    pub language: String,
}

impl View for GameplayCache {
    type V = CacheV;

    open spec fn view(&self) -> CacheV {
        CacheV {
            achievements: self.achievements@,
            achievements_retrieved: self.achievements_retrieved,
            achievements_mode: self.achievements_mode@,
            stats: self.stats@,
            stats_retrieved: self.stats_retrieved,
            leaderboards: self.leaderboards@,
            language: self.language@,
        }
    }
}

/// No two rows of a table share an id.
pub open spec fn unique_ach_ids(s: Seq<AchievementRow>) -> bool {
    forall|i: int, j: int|
        0 <= i < j < s.len() ==> (#[trigger] s[i]).id != (#[trigger] s[j]).id
}

/// No two rows of a table share an id.
pub open spec fn unique_stat_ids(s: Seq<StatRow>) -> bool {
    forall|i: int, j: int|
        0 <= i < j < s.len() ==> (#[trigger] s[i]).id != (#[trigger] s[j]).id
}

/// No two rows of a table share an id.
pub open spec fn unique_lb_ids(s: Seq<LeaderboardRow>) -> bool {
    forall|i: int, j: int|
        0 <= i < j < s.len() ==> (#[trigger] s[i]).id != (#[trigger] s[j]).id
}

impl CacheV {
    /// Every table keys its rows by a unique id.
    pub open spec fn wf(self) -> bool {
        unique_ach_ids(self.achievements) && unique_stat_ids(self.stats) && unique_lb_ids(
            self.leaderboards,
        )
    }
}

/// The achievement rows a read returns: all of them, or the dirty
/// ones only.
pub open spec fn spec_filter_achs(s: Seq<AchievementRow>, only_changed: bool) -> Seq<
    AchievementRow,
>
    decreases s.len(),
{
    if s.len() == 0 {
        Seq::empty()
    } else {
        spec_filter_achs(s.drop_last(), only_changed) + (if !only_changed || s.last().changed {
            seq![s.last()]
        } else {
            Seq::empty()
        })
    }
}

/// The statistic rows a read returns: all of them, or the dirty ones
/// only.
pub open spec fn spec_filter_stats(s: Seq<StatRow>, only_changed: bool) -> Seq<StatRow>
    decreases s.len(),
{
    if s.len() == 0 {
        Seq::empty()
    } else {
        spec_filter_stats(s.drop_last(), only_changed) + (if !only_changed || s.last().changed {
            seq![s.last()]
        } else {
            Seq::empty()
        })
    }
}

/// The dirty leaderboard rows, in table order.
pub open spec fn spec_changed_lbs(s: Seq<LeaderboardRow>) -> Seq<LeaderboardRow>
    decreases s.len(),
{
    if s.len() == 0 {
        Seq::empty()
    } else {
        spec_changed_lbs(s.drop_last()) + (if s.last().changed {
            seq![s.last()]
        } else {
            Seq::empty()
        })
    }
}

/// An unrestricted read returns the whole table.
pub proof fn lemma_filter_achs_all(s: Seq<AchievementRow>)
    ensures
        spec_filter_achs(s, false) == s,
    decreases s.len(),
{
    if s.len() == 0 {
        assert(spec_filter_achs(s, false) =~= s);
    } else {
        lemma_filter_achs_all(s.drop_last());
        assert(spec_filter_achs(s, false) =~= s);
    }
}

/// An unrestricted read returns the whole table.
pub proof fn lemma_filter_stats_all(s: Seq<StatRow>)
    ensures
        spec_filter_stats(s, false) == s,
    decreases s.len(),
{
    if s.len() == 0 {
        assert(spec_filter_stats(s, false) =~= s);
    } else {
        lemma_filter_stats_all(s.drop_last());
        assert(spec_filter_stats(s, false) =~= s);
    }
}

/// Whether some row carries the id.
pub open spec fn has_ach_id(s: Seq<AchievementRow>, id: i64) -> bool {
    exists|i: int| 0 <= i < s.len() && (#[trigger] s[i]).id == id
}

/// A mutation from the game: the row's unlock time becomes `t` and its
/// dirty bit goes up; every other row stays as it was.
pub open spec fn spec_set_achievement(
    s: Seq<AchievementRow>,
    id: i64,
    t: Option<String>,
) -> Seq<AchievementRow> {
    Seq::new(
        s.len(),
        |i: int|
            if s[i].id == id {
                AchievementRow { unlock_time: t, changed: true, ..s[i] }
            } else {
                s[i]
            },
    )
}

/// A reset: every unlock time cleared, every dirty bit down.
pub open spec fn spec_reset_achievements(s: Seq<AchievementRow>) -> Seq<AchievementRow> {
    Seq::new(s.len(), |i: int| AchievementRow { unlock_time: None, changed: false, ..s[i] })
}

/// After a successful push: the row's dirty bit goes down and nothing
/// else of it moves.
pub open spec fn spec_clear_ach_changed(s: Seq<AchievementRow>, id: i64) -> Seq<AchievementRow> {
    Seq::new(
        s.len(),
        |i: int|
            if s[i].id == id {
                AchievementRow { changed: false, ..s[i] }
            } else {
                s[i]
            },
    )
}

/// A remote row merged over a local one: the definition columns are
/// taken from the remote row, but the unlock time of a dirty local row
/// survives, and the dirty bit itself is kept.
pub open spec fn spec_merge_ach(old_row: AchievementRow, new_row: AchievementRow) -> AchievementRow {
    AchievementRow {
        id: old_row.id,
        key: new_row.key,
        name: new_row.name,
        description: new_row.description,
        image_url_locked: new_row.image_url_locked,
        image_url_unlocked: new_row.image_url_unlocked,
        visible: new_row.visible,
        unlock_time: if old_row.changed {
            old_row.unlock_time
        } else {
            new_row.unlock_time
        },
        rarity_bits: new_row.rarity_bits,
        rarity_level_description: new_row.rarity_level_description,
        rarity_level_slug: new_row.rarity_level_slug,
        changed: old_row.changed,
    }
}

/// Upsert of one remote row: merge over the row with its id, or append
/// it fresh with the dirty bit down.
pub open spec fn spec_upsert_ach(
    s: Seq<AchievementRow>,
    row: AchievementRow,
) -> Seq<AchievementRow> {
    if has_ach_id(s, row.id) {
        Seq::new(
            s.len(),
            |i: int|
                if s[i].id == row.id {
                    spec_merge_ach(s[i], row)
                } else {
                    s[i]
                },
        )
    } else {
        s.push(AchievementRow { changed: false, ..row })
    }
}

/// Upsert of a batch of remote rows, first to last.
pub open spec fn spec_upsert_achs(
    s: Seq<AchievementRow>,
    rows: Seq<AchievementRow>,
) -> Seq<AchievementRow>
    decreases rows.len(),
{
    if rows.len() == 0 {
        s
    } else {
        spec_upsert_achs(spec_upsert_ach(s, rows[0]), rows.drop_first())
    }
}

/// Upserting keeps ids unique.
pub proof fn lemma_upsert_ach_unique(s: Seq<AchievementRow>, row: AchievementRow)
    requires
        unique_ach_ids(s),
    ensures
        unique_ach_ids(spec_upsert_ach(s, row)),
{
    let t = spec_upsert_ach(s, row);
    if has_ach_id(s, row.id) {
        assert forall|i: int, j: int| 0 <= i < j < t.len() implies (#[trigger] t[i]).id
            != (#[trigger] t[j]).id by {
            assert(t[i].id == s[i].id);
            assert(t[j].id == s[j].id);
        };
    } else {
        assert forall|i: int, j: int| 0 <= i < j < t.len() implies (#[trigger] t[i]).id
            != (#[trigger] t[j]).id by {
            if j < s.len() {
                assert(t[i].id == s[i].id && t[j].id == s[j].id);
            } else {
                assert(t[j].id == row.id);
                assert(t[i].id == s[i].id);
                assert(!(exists|k: int| 0 <= k < s.len() && (#[trigger] s[k]).id == row.id));
            }
        };
    }
}

/// A dirty row survives any refresh from the remote service: it keeps
/// its place, its id, its unlock time and its dirty bit, whatever rows
/// come in.
pub proof fn lemma_upsert_preserves_dirty(
    s: Seq<AchievementRow>,
    rows: Seq<AchievementRow>,
    i: int,
)
    requires
        0 <= i < s.len(),
        s[i].changed,
    ensures
        spec_upsert_achs(s, rows).len() >= s.len(),
        spec_upsert_achs(s, rows)[i].id == s[i].id,
        spec_upsert_achs(s, rows)[i].changed,
        spec_upsert_achs(s, rows)[i].unlock_time == s[i].unlock_time,
    decreases rows.len(),
{
    if rows.len() > 0 {
        let s2 = spec_upsert_ach(s, rows[0]);
        assert(s2.len() >= s.len());
        assert(s2[i].id == s[i].id && s2[i].changed && s2[i].unlock_time == s[i].unlock_time);
        lemma_upsert_preserves_dirty(s2, rows.drop_first(), i);
    }
}

/// Marking the same unlock twice leaves exactly what one marking
/// leaves: one row with the time and the dirty bit up.
pub proof fn lemma_set_achievement_idempotent(s: Seq<AchievementRow>, id: i64, t: Option<String>)
    ensures
        spec_set_achievement(spec_set_achievement(s, id, t), id, t) == spec_set_achievement(
            s,
            id,
            t,
        ),
{
    let once = spec_set_achievement(s, id, t);
    let twice = spec_set_achievement(once, id, t);
    assert forall|i: int| 0 <= i < s.len() implies twice[i] == once[i] by {}
    assert(twice =~= once);
}

/// Marking then clearing a row leaves its value where the marking put
/// it, with the dirty bit down.
pub proof fn lemma_mark_then_clear(s: Seq<AchievementRow>, id: i64, t: Option<String>, i: int)
    requires
        0 <= i < s.len(),
        s[i].id == id,
    ensures
        spec_set_achievement(s, id, t)[i].changed,
        spec_set_achievement(s, id, t)[i].unlock_time == t,
        !spec_clear_ach_changed(spec_set_achievement(s, id, t), id)[i].changed,
        spec_clear_ach_changed(spec_set_achievement(s, id, t), id)[i].unlock_time == t,
{
}

impl GameplayCache {
    /// An empty cache for the given language tag.
    pub fn new(language: String) -> (r: GameplayCache)
        ensures
            r@.achievements == Seq::<AchievementRow>::empty(),
            r@.stats == Seq::<StatRow>::empty(),
            r@.leaderboards == Seq::<LeaderboardRow>::empty(),
            !r@.achievements_retrieved,
            !r@.stats_retrieved,
            r@.achievements_mode == Seq::<char>::empty(),
            r@.language == language@,
            r@.wf(),
    {
        let r = GameplayCache {
            achievements: Vec::new(),
            achievements_retrieved: false,
            achievements_mode: String::new(),
            stats: Vec::new(),
            stats_retrieved: false,
            leaderboards: Vec::new(),
            language,
        };
        r
    }

    /// Whether a full achievement set was ever stored.
    pub fn has_achievements(&self) -> (r: bool)
        ensures
            r == self@.achievements_retrieved,
    {
        self.achievements_retrieved
    }

    /// Whether a full statistic set was ever stored.
    pub fn has_statistics(&self) -> (r: bool)
        ensures
            r == self@.stats_retrieved,
    {
        self.stats_retrieved
    }

    /// The achievement rows, all of them or only the dirty ones, with
    /// the stored achievements mode.
    pub fn get_achievements(&self, only_changed: bool) -> (r: (Vec<AchievementRow>, String))
        ensures
            r.0@ == spec_filter_achs(self@.achievements, only_changed),
            r.1@ == self@.achievements_mode,
    {
        let mut out: Vec<AchievementRow> = Vec::new();
        let mut i: usize = 0;
        proof {
            assert(self.achievements@.take(0int) =~= Seq::<AchievementRow>::empty());
        }
        while i < self.achievements.len()
            invariant
                0 <= i <= self.achievements.len(),
                out@ == spec_filter_achs(self.achievements@.take(i as int), only_changed),
            decreases self.achievements.len() - i,
        {
            let row = &self.achievements[i];
            proof {
                let taken = self.achievements@.take(i as int + 1);
                assert(taken.drop_last() =~= self.achievements@.take(i as int));
                assert(taken.last() == self.achievements@[i as int]);
            }
            if !only_changed || row.changed {
                let ghost pre = out@;
                out.push(row.clone());
                proof {
                    assert(out@ =~= pre + seq![self.achievements@[i as int]]);
                }
            } else {
                proof {
                    assert(out@ =~= out@ + Seq::<AchievementRow>::empty());
                }
            }
            i += 1;
        }
        proof {
            assert(self.achievements@.take(self.achievements@.len() as int)
                =~= self.achievements@);
        }
        (out, self.achievements_mode.clone())
    }

    /// The row with the given id, if the table holds one.
    pub fn get_achievement(&self, id: i64) -> (r: Option<AchievementRow>)
        ensures
            (r matches Some(row) ==> has_ach_id(self@.achievements, id) && (exists|i: int|
                0 <= i < self@.achievements.len() && self@.achievements[i] == row && row.id
                    == id)),
            r is None ==> !has_ach_id(self@.achievements, id),
    {
        let mut i: usize = 0;
        while i < self.achievements.len()
            invariant
                0 <= i <= self.achievements.len(),
                forall|j: int| 0 <= j < i ==> (#[trigger] self.achievements@[j]).id != id,
            decreases self.achievements.len() - i,
        {
            if self.achievements[i].id == id {
                return Some(self.achievements[i].clone());
            }
            i += 1;
        }
        None
    }

    /// Write an unlock time (or its absence) for one achievement and
    /// raise its dirty bit, in one step.
    pub fn set_achievement(&mut self, id: i64, unlock_time: Option<String>)
        ensures
            final(self)@ == (CacheV {
                achievements: spec_set_achievement(old(self)@.achievements, id, unlock_time),
                ..old(self)@
            }),
    {
        let ghost orig = self@;
        let mut out: Vec<AchievementRow> = Vec::new();
        let mut i: usize = 0;
        while i < self.achievements.len()
            invariant
                0 <= i <= self.achievements.len(),
                self@ == orig,
                out@.len() == i,
                forall|j: int|
                    0 <= j < i ==> out@[j] == spec_set_achievement(
                        orig.achievements,
                        id,
                        unlock_time,
                    )[j],
            decreases self.achievements.len() - i,
        {
            let row = &self.achievements[i];
            if row.id == id {
                let t2 = match &unlock_time {
                    Some(t) => Some(t.clone()),
                    None => None,
                };
                out.push(AchievementRow { unlock_time: t2, changed: true, ..row.clone() });
            } else {
                out.push(row.clone());
            }
            i += 1;
        }
        self.achievements = out;
        proof {
            assert(self.achievements@ =~= spec_set_achievement(orig.achievements, id, unlock_time));
            assert(self@ =~= (CacheV {
                achievements: spec_set_achievement(orig.achievements, id, unlock_time),
                ..orig
            }));
        }
    }

    /// Clear every unlock time and every dirty bit.
    pub fn reset_achievements(&mut self)
        ensures
            final(self)@ == (CacheV {
                achievements: spec_reset_achievements(old(self)@.achievements),
                ..old(self)@
            }),
    {
        let ghost orig = self@;
        let mut out: Vec<AchievementRow> = Vec::new();
        let mut i: usize = 0;
        while i < self.achievements.len()
            invariant
                0 <= i <= self.achievements.len(),
                self@ == orig,
                out@.len() == i,
                forall|j: int|
                    0 <= j < i ==> out@[j] == spec_reset_achievements(orig.achievements)[j],
            decreases self.achievements.len() - i,
        {
            let row = &self.achievements[i];
            out.push(AchievementRow { unlock_time: None, changed: false, ..row.clone() });
            i += 1;
        }
        self.achievements = out;
        proof {
            assert(self.achievements@ =~= spec_reset_achievements(orig.achievements));
            assert(self@ =~= (CacheV {
                achievements: spec_reset_achievements(orig.achievements),
                ..orig
            }));
        }
    }

    /// Lower one row's dirty bit after its push succeeded; its value
    /// columns stay untouched.
    pub fn clear_achievement_changed(&mut self, id: i64)
        ensures
            final(self)@ == (CacheV {
                achievements: spec_clear_ach_changed(old(self)@.achievements, id),
                ..old(self)@
            }),
    {
        let ghost orig = self@;
        let mut out: Vec<AchievementRow> = Vec::new();
        let mut i: usize = 0;
        while i < self.achievements.len()
            invariant
                0 <= i <= self.achievements.len(),
                self@ == orig,
                out@.len() == i,
                forall|j: int|
                    0 <= j < i ==> out@[j] == spec_clear_ach_changed(orig.achievements, id)[j],
            decreases self.achievements.len() - i,
        {
            let row = &self.achievements[i];
            if row.id == id {
                out.push(AchievementRow { changed: false, ..row.clone() });
            } else {
                out.push(row.clone());
            }
            i += 1;
        }
        self.achievements = out;
        proof {
            assert(self.achievements@ =~= spec_clear_ach_changed(orig.achievements, id));
            assert(self@ =~= (CacheV {
                achievements: spec_clear_ach_changed(orig.achievements, id),
                ..orig
            }));
        }
    }

    /// Upsert one remote row.
    fn upsert_achievement(&mut self, row: AchievementRow)
        requires
            unique_ach_ids(old(self)@.achievements),
        ensures
            final(self)@ == (CacheV {
                achievements: spec_upsert_ach(old(self)@.achievements, row),
                ..old(self)@
            }),
    {
        let ghost orig = self@;
        let mut idx: usize = 0;
        while idx < self.achievements.len() && self.achievements[idx].id != row.id
            invariant
                0 <= idx <= self.achievements.len(),
                self@ == orig,
                forall|j: int| 0 <= j < idx ==> (#[trigger] self.achievements@[j]).id != row.id,
            decreases self.achievements.len() - idx,
        {
            idx += 1;
        }
        let found = idx < self.achievements.len();
        if found {
            let merged = {
                let old_row = &self.achievements[idx];
                AchievementRow {
                    id: old_row.id,
                    unlock_time: if old_row.changed {
                        match &old_row.unlock_time {
                            Some(t) => Some(t.clone()),
                            None => None,
                        }
                    } else {
                        match &row.unlock_time {
                            Some(t) => Some(t.clone()),
                            None => None,
                        }
                    },
                    changed: old_row.changed,
                    ..row.clone()
                }
            };
            proof {
                assert(merged == spec_merge_ach(self.achievements@[idx as int], row));
            }
            self.achievements[idx] = merged;
            proof {
                assert(has_ach_id(orig.achievements, row.id));
                let t = spec_upsert_ach(orig.achievements, row);
                assert forall|j: int| 0 <= j < t.len() implies self.achievements@[j] == t[j] by {
                    if j != idx {
                        assert(orig.achievements[j].id != row.id);
                    }
                };
                assert(self.achievements@ =~= t);
                assert(self@ =~= (CacheV { achievements: t, ..orig }));
            }
        } else {
            proof {
                assert(!has_ach_id(orig.achievements, row.id));
            }
            self.achievements.push(AchievementRow { changed: false, ..row });
            proof {
                assert(self@ =~= (CacheV {
                    achievements: spec_upsert_ach(orig.achievements, row),
                    ..orig
                }));
            }
        }
    }

    /// Store a refreshed achievement set: upsert every row, remember
    /// the achievements mode, and mark the set as retrieved. Dirty
    /// rows keep their unlock time and their dirty bit.
    pub fn set_achievements(&mut self, rows: Vec<AchievementRow>, mode: String)
        requires
            unique_ach_ids(old(self)@.achievements),
        ensures
            final(self)@ == (CacheV {
                achievements: spec_upsert_achs(old(self)@.achievements, rows@),
                achievements_retrieved: true,
                achievements_mode: mode@,
                ..old(self)@
            }),
            unique_ach_ids(final(self)@.achievements),
    {
        let ghost orig = self@;
        let mut i: usize = 0;
        let rows_len = rows.len();
        let mut rows_iter = rows;
        proof {
            assert(rows_iter@.skip(0) =~= rows_iter@);
        }
        let ghost all_rows = rows_iter@;
        while i < rows_len
            invariant
                0 <= i <= rows_len,
                rows_iter@ == all_rows,
                rows_len == all_rows.len(),
                unique_ach_ids(self@.achievements),
                spec_upsert_achs(self@.achievements, all_rows.skip(i as int)) == spec_upsert_achs(
                    orig.achievements,
                    all_rows,
                ),
                self@ == (CacheV { achievements: self@.achievements, ..orig }),
            decreases rows_len - i,
        {
            let ghost pre = self@.achievements;
            let row = rows_iter[i].clone();
            proof {
                assert(all_rows.skip(i as int)[0] == all_rows[i as int]);
                assert(all_rows.skip(i as int).drop_first() =~= all_rows.skip(i as int + 1));
                lemma_upsert_ach_unique(pre, row);
            }
            self.upsert_achievement(row);
            i += 1;
        }
        proof {
            assert(all_rows.skip(rows_len as int) =~= Seq::<AchievementRow>::empty());
        }
        self.achievements_retrieved = true;
        self.achievements_mode = mode;
        proof {
            assert(self@ =~= (CacheV {
                achievements: spec_upsert_achs(orig.achievements, all_rows),
                achievements_retrieved: true,
                achievements_mode: mode@,
                ..orig
            }));
        }
    }
}

/// Whether some statistic row carries the id.
pub open spec fn has_stat_id(s: Seq<StatRow>, id: i64) -> bool {
    exists|i: int| 0 <= i < s.len() && (#[trigger] s[i]).id == id
}

/// An integer update from the game. A decrease of an increment-only
/// statistic is refused: the row stays exactly as it was. Any other
/// update writes the value and raises the dirty bit in one step.
pub open spec fn spec_set_stat_int(s: Seq<StatRow>, id: i64, v: i32) -> Seq<StatRow> {
    Seq::new(
        s.len(),
        |i: int|
            if s[i].id == id {
                match s[i].values {
                    StatValues::Int(iv) => {
                        if s[i].increment_only && v < iv.value {
                            s[i]
                        } else {
                            StatRow {
                                values: StatValues::Int(IntStatValues { value: v, ..iv }),
                                changed: true,
                                ..s[i]
                            }
                        }
                    },
                    _ => s[i],
                }
            } else {
                s[i]
            },
    )
}

/// A floating update from the game: the new bit pattern is written and
/// the dirty bit raised in one step.
pub open spec fn spec_set_stat_float(s: Seq<StatRow>, id: i64, bits: u32) -> Seq<StatRow> {
    Seq::new(
        s.len(),
        |i: int|
            if s[i].id == id {
                match s[i].values {
                    StatValues::Float(fv) => StatRow {
                        values: StatValues::Float(FloatStatValues { value_bits: bits, ..fv }),
                        changed: true,
                        ..s[i]
                    },
                    StatValues::Avgrate(fv) => StatRow {
                        values: StatValues::Avgrate(FloatStatValues { value_bits: bits, ..fv }),
                        changed: true,
                        ..s[i]
                    },
                    StatValues::Int(_) => s[i],
                }
            } else {
                s[i]
            },
    )
}

/// A row's value after a reset: the default, with the dirty bit down.
pub open spec fn spec_reset_stat_row(r: StatRow) -> StatRow {
    match r.values {
        StatValues::Int(iv) => StatRow {
            values: StatValues::Int(
                IntStatValues {
                    value: match iv.default_value {
                        Some(d) => d,
                        None => 0,
                    },
                    ..iv
                },
            ),
            changed: false,
            ..r
        },
        StatValues::Float(fv) => StatRow {
            values: StatValues::Float(
                FloatStatValues {
                    value_bits: match fv.default_value_bits {
                        Some(d) => d,
                        None => 0,
                    },
                    ..fv
                },
            ),
            changed: false,
            ..r
        },
        StatValues::Avgrate(fv) => StatRow {
            values: StatValues::Avgrate(
                FloatStatValues {
                    value_bits: match fv.default_value_bits {
                        Some(d) => d,
                        None => 0,
                    },
                    ..fv
                },
            ),
            changed: false,
            ..r
        },
    }
}

/// A reset: every value back to its default, every dirty bit down.
pub open spec fn spec_reset_stats(s: Seq<StatRow>) -> Seq<StatRow> {
    Seq::new(s.len(), |i: int| spec_reset_stat_row(s[i]))
}

/// After a successful push: the row's dirty bit goes down, nothing
/// else of it moves.
pub open spec fn spec_clear_stat_changed(s: Seq<StatRow>, id: i64) -> Seq<StatRow> {
    Seq::new(
        s.len(),
        |i: int|
            if s[i].id == id {
                StatRow { changed: false, ..s[i] }
            } else {
                s[i]
            },
    )
}

/// A remote row merged over a local one: the definition columns come
/// from the remote row; the values of a dirty local row survive, and
/// the dirty bit is kept.
pub open spec fn spec_merge_stat(old_row: StatRow, new_row: StatRow) -> StatRow {
    StatRow {
        id: old_row.id,
        key: new_row.key,
        window_bits: new_row.window_bits,
        increment_only: new_row.increment_only,
        values: if old_row.changed {
            old_row.values
        } else {
            new_row.values
        },
        changed: old_row.changed,
    }
}

/// Upsert of one remote statistic row.
pub open spec fn spec_upsert_stat(s: Seq<StatRow>, row: StatRow) -> Seq<StatRow> {
    if has_stat_id(s, row.id) {
        Seq::new(
            s.len(),
            |i: int|
                if s[i].id == row.id {
                    spec_merge_stat(s[i], row)
                } else {
                    s[i]
                },
        )
    } else {
        s.push(StatRow { changed: false, ..row })
    }
}

/// Upsert of a batch of remote statistic rows, first to last.
pub open spec fn spec_upsert_stats(s: Seq<StatRow>, rows: Seq<StatRow>) -> Seq<StatRow>
    decreases rows.len(),
{
    if rows.len() == 0 {
        s
    } else {
        spec_upsert_stats(spec_upsert_stat(s, rows[0]), rows.drop_first())
    }
}

/// Upserting keeps statistic ids unique.
pub proof fn lemma_upsert_stat_unique(s: Seq<StatRow>, row: StatRow)
    requires
        unique_stat_ids(s),
    ensures
        unique_stat_ids(spec_upsert_stat(s, row)),
{
    let t = spec_upsert_stat(s, row);
    if has_stat_id(s, row.id) {
        assert forall|i: int, j: int| 0 <= i < j < t.len() implies (#[trigger] t[i]).id
            != (#[trigger] t[j]).id by {
            assert(t[i].id == s[i].id);
            assert(t[j].id == s[j].id);
        };
    } else {
        assert forall|i: int, j: int| 0 <= i < j < t.len() implies (#[trigger] t[i]).id
            != (#[trigger] t[j]).id by {
            if j < s.len() {
                assert(t[i].id == s[i].id && t[j].id == s[j].id);
            } else {
                assert(t[j].id == row.id);
                assert(t[i].id == s[i].id);
                assert(!(exists|k: int| 0 <= k < s.len() && (#[trigger] s[k]).id == row.id));
            }
        };
    }
}

/// One integer update never lowers the value of an increment-only
/// integer statistic.
pub proof fn lemma_set_stat_int_monotone(s: Seq<StatRow>, id: i64, v: i32, i: int)
    requires
        0 <= i < s.len(),
        s[i].increment_only,
        s[i].values matches StatValues::Int(_),
    ensures
        (spec_set_stat_int(s, id, v)[i].values matches StatValues::Int(iv2)
            && s[i].values matches StatValues::Int(iv1) && iv2.value >= iv1.value),
        spec_set_stat_int(s, id, v)[i].increment_only,
        (spec_set_stat_int(s, id, v)[i].values matches StatValues::Int(_)),
{
}

/// The table after a whole run of integer updates, first to last.
pub open spec fn spec_apply_stat_updates(s: Seq<StatRow>, ops: Seq<(i64, i32)>) -> Seq<StatRow>
    decreases ops.len(),
{
    if ops.len() == 0 {
        s
    } else {
        spec_apply_stat_updates(spec_set_stat_int(s, ops[0].0, ops[0].1), ops.drop_first())
    }
}

/// No run of updates, however long, lowers the value of an
/// increment-only integer statistic.
pub proof fn lemma_stat_updates_monotone(s: Seq<StatRow>, ops: Seq<(i64, i32)>, i: int)
    requires
        0 <= i < s.len(),
        s[i].increment_only,
        s[i].values matches StatValues::Int(_),
    ensures
        spec_apply_stat_updates(s, ops).len() == s.len(),
        (spec_apply_stat_updates(s, ops)[i].values matches StatValues::Int(iv2)
            && s[i].values matches StatValues::Int(iv1) && iv2.value >= iv1.value),
        spec_apply_stat_updates(s, ops)[i].increment_only,
    decreases ops.len(),
{
    if ops.len() > 0 {
        let s2 = spec_set_stat_int(s, ops[0].0, ops[0].1);
        lemma_set_stat_int_monotone(s, ops[0].0, ops[0].1, i);
        lemma_stat_updates_monotone(s2, ops.drop_first(), i);
    }
}

/// Resetting a second time changes nothing: the first reset already
/// put every value at its default.
pub proof fn lemma_reset_stats_idempotent(s: Seq<StatRow>)
    ensures
        spec_reset_stats(spec_reset_stats(s)) == spec_reset_stats(s),
{
    let once = spec_reset_stats(s);
    let twice = spec_reset_stats(once);
    assert forall|i: int| 0 <= i < s.len() implies twice[i] == once[i] by {}
    assert(twice =~= once);
}

impl GameplayCache {
    /// The statistic rows, all of them or only the dirty ones.
    pub fn get_statistics(&self, only_changed: bool) -> (r: Vec<StatRow>)
        ensures
            r@ == spec_filter_stats(self@.stats, only_changed),
    {
        let mut out: Vec<StatRow> = Vec::new();
        let mut i: usize = 0;
        proof {
            assert(self.stats@.take(0int) =~= Seq::<StatRow>::empty());
        }
        while i < self.stats.len()
            invariant
                0 <= i <= self.stats.len(),
                out@ == spec_filter_stats(self.stats@.take(i as int), only_changed),
            decreases self.stats.len() - i,
        {
            let row = &self.stats[i];
            proof {
                let taken = self.stats@.take(i as int + 1);
                assert(taken.drop_last() =~= self.stats@.take(i as int));
                assert(taken.last() == self.stats@[i as int]);
            }
            if !only_changed || row.changed {
                let ghost pre = out@;
                out.push(row.clone());
                proof {
                    assert(out@ =~= pre + seq![self.stats@[i as int]]);
                }
            } else {
                proof {
                    assert(out@ =~= out@ + Seq::<StatRow>::empty());
                }
            }
            i += 1;
        }
        proof {
            assert(self.stats@.take(self.stats@.len() as int) =~= self.stats@);
        }
        out
    }

    /// Write an integer statistic from the game and raise its dirty
    /// bit; a decrease of an increment-only statistic is refused.
    pub fn set_stat_int(&mut self, id: i64, value: i32)
        ensures
            final(self)@ == (CacheV {
                stats: spec_set_stat_int(old(self)@.stats, id, value),
                ..old(self)@
            }),
    {
        let ghost orig = self@;
        let mut out: Vec<StatRow> = Vec::new();
        let mut i: usize = 0;
        while i < self.stats.len()
            invariant
                0 <= i <= self.stats.len(),
                self@ == orig,
                out@.len() == i,
                forall|j: int|
                    0 <= j < i ==> out@[j] == spec_set_stat_int(orig.stats, id, value)[j],
            decreases self.stats.len() - i,
        {
            let row = &self.stats[i];
            if row.id == id {
                match row.values {
                    StatValues::Int(iv) => {
                        if row.increment_only && value < iv.value {
                            out.push(row.clone());
                        } else {
                            out.push(
                                StatRow {
                                    values: StatValues::Int(IntStatValues { value, ..iv }),
                                    changed: true,
                                    ..row.clone()
                                },
                            );
                        }
                    },
                    _ => {
                        out.push(row.clone());
                    },
                }
            } else {
                out.push(row.clone());
            }
            i += 1;
        }
        self.stats = out;
        proof {
            assert(self.stats@ =~= spec_set_stat_int(orig.stats, id, value));
            assert(self@ =~= (CacheV { stats: spec_set_stat_int(orig.stats, id, value), ..orig }));
        }
    }

    /// Write a floating statistic's bit pattern from the game and
    /// raise its dirty bit.
    pub fn set_stat_float(&mut self, id: i64, value_bits: u32)
        ensures
            final(self)@ == (CacheV {
                stats: spec_set_stat_float(old(self)@.stats, id, value_bits),
                ..old(self)@
            }),
    {
        let ghost orig = self@;
        let mut out: Vec<StatRow> = Vec::new();
        let mut i: usize = 0;
        while i < self.stats.len()
            invariant
                0 <= i <= self.stats.len(),
                self@ == orig,
                out@.len() == i,
                forall|j: int|
                    0 <= j < i ==> out@[j] == spec_set_stat_float(orig.stats, id, value_bits)[j],
            decreases self.stats.len() - i,
        {
            let row = &self.stats[i];
            if row.id == id {
                match row.values {
                    StatValues::Float(fv) => {
                        out.push(
                            StatRow {
                                values: StatValues::Float(
                                    FloatStatValues { value_bits, ..fv },
                                ),
                                changed: true,
                                ..row.clone()
                            },
                        );
                    },
                    StatValues::Avgrate(fv) => {
                        out.push(
                            StatRow {
                                values: StatValues::Avgrate(
                                    FloatStatValues { value_bits, ..fv },
                                ),
                                changed: true,
                                ..row.clone()
                            },
                        );
                    },
                    StatValues::Int(_) => {
                        out.push(row.clone());
                    },
                }
            } else {
                out.push(row.clone());
            }
            i += 1;
        }
        self.stats = out;
        proof {
            assert(self.stats@ =~= spec_set_stat_float(orig.stats, id, value_bits));
            assert(self@ =~= (CacheV {
                stats: spec_set_stat_float(orig.stats, id, value_bits),
                ..orig
            }));
        }
    }

    /// Put every statistic back at its default and lower every dirty
    /// bit.
    pub fn reset_stats(&mut self)
        ensures
            final(self)@ == (CacheV { stats: spec_reset_stats(old(self)@.stats), ..old(self)@ }),
    {
        let ghost orig = self@;
        let mut out: Vec<StatRow> = Vec::new();
        let mut i: usize = 0;
        while i < self.stats.len()
            invariant
                0 <= i <= self.stats.len(),
                self@ == orig,
                out@.len() == i,
                forall|j: int| 0 <= j < i ==> out@[j] == spec_reset_stats(orig.stats)[j],
            decreases self.stats.len() - i,
        {
            let row = &self.stats[i];
            match row.values {
                StatValues::Int(iv) => {
                    let d = match iv.default_value {
                        Some(d) => d,
                        None => 0,
                    };
                    out.push(
                        StatRow {
                            values: StatValues::Int(IntStatValues { value: d, ..iv }),
                            changed: false,
                            ..row.clone()
                        },
                    );
                },
                StatValues::Float(fv) => {
                    let d = match fv.default_value_bits {
                        Some(d) => d,
                        None => 0,
                    };
                    out.push(
                        StatRow {
                            values: StatValues::Float(FloatStatValues { value_bits: d, ..fv }),
                            changed: false,
                            ..row.clone()
                        },
                    );
                },
                StatValues::Avgrate(fv) => {
                    let d = match fv.default_value_bits {
                        Some(d) => d,
                        None => 0,
                    };
                    out.push(
                        StatRow {
                            values: StatValues::Avgrate(FloatStatValues { value_bits: d, ..fv }),
                            changed: false,
                            ..row.clone()
                        },
                    );
                },
            }
            i += 1;
        }
        self.stats = out;
        proof {
            assert(self.stats@ =~= spec_reset_stats(orig.stats));
            assert(self@ =~= (CacheV { stats: spec_reset_stats(orig.stats), ..orig }));
        }
    }

    /// Lower one statistic's dirty bit after its push succeeded.
    pub fn clear_stat_changed(&mut self, id: i64)
        ensures
            final(self)@ == (CacheV {
                stats: spec_clear_stat_changed(old(self)@.stats, id),
                ..old(self)@
            }),
    {
        let ghost orig = self@;
        let mut out: Vec<StatRow> = Vec::new();
        let mut i: usize = 0;
        while i < self.stats.len()
            invariant
                0 <= i <= self.stats.len(),
                self@ == orig,
                out@.len() == i,
                forall|j: int| 0 <= j < i ==> out@[j] == spec_clear_stat_changed(orig.stats, id)[j],
            decreases self.stats.len() - i,
        {
            let row = &self.stats[i];
            if row.id == id {
                out.push(StatRow { changed: false, ..row.clone() });
            } else {
                out.push(row.clone());
            }
            i += 1;
        }
        self.stats = out;
        proof {
            assert(self.stats@ =~= spec_clear_stat_changed(orig.stats, id));
            assert(self@ =~= (CacheV { stats: spec_clear_stat_changed(orig.stats, id), ..orig }));
        }
    }

    /// Upsert one remote statistic row.
    fn upsert_stat(&mut self, row: StatRow)
        requires
            unique_stat_ids(old(self)@.stats),
        ensures
            final(self)@ == (CacheV { stats: spec_upsert_stat(old(self)@.stats, row), ..old(self)@ }),
    {
        let ghost orig = self@;
        let mut idx: usize = 0;
        while idx < self.stats.len() && self.stats[idx].id != row.id
            invariant
                0 <= idx <= self.stats.len(),
                self@ == orig,
                forall|j: int| 0 <= j < idx ==> (#[trigger] self.stats@[j]).id != row.id,
            decreases self.stats.len() - idx,
        {
            idx += 1;
        }
        let found = idx < self.stats.len();
        if found {
            let merged = {
                let old_row = &self.stats[idx];
                StatRow {
                    id: old_row.id,
                    values: if old_row.changed {
                        old_row.values
                    } else {
                        row.values
                    },
                    changed: old_row.changed,
                    ..row.clone()
                }
            };
            proof {
                assert(merged == spec_merge_stat(self.stats@[idx as int], row));
            }
            self.stats[idx] = merged;
            proof {
                assert(has_stat_id(orig.stats, row.id));
                let t = spec_upsert_stat(orig.stats, row);
                assert forall|j: int| 0 <= j < t.len() implies self.stats@[j] == t[j] by {
                    if j != idx {
                        assert(orig.stats[j].id != row.id);
                    }
                };
                assert(self.stats@ =~= t);
                assert(self@ =~= (CacheV { stats: t, ..orig }));
            }
        } else {
            proof {
                assert(!has_stat_id(orig.stats, row.id));
            }
            self.stats.push(StatRow { changed: false, ..row });
            proof {
                assert(self@ =~= (CacheV { stats: spec_upsert_stat(orig.stats, row), ..orig }));
            }
        }
    }

    /// Store a refreshed statistic set: upsert every row and mark the
    /// set as retrieved. Dirty rows keep their values and their dirty
    /// bit.
    pub fn set_statistics(&mut self, rows: Vec<StatRow>)
        requires
            unique_stat_ids(old(self)@.stats),
        ensures
            final(self)@ == (CacheV {
                stats: spec_upsert_stats(old(self)@.stats, rows@),
                stats_retrieved: true,
                ..old(self)@
            }),
            unique_stat_ids(final(self)@.stats),
    {
        let ghost orig = self@;
        let mut i: usize = 0;
        let rows_len = rows.len();
        let rows_iter = rows;
        let ghost all_rows = rows_iter@;
        proof {
            assert(all_rows.skip(0) =~= all_rows);
        }
        while i < rows_len
            invariant
                0 <= i <= rows_len,
                rows_iter@ == all_rows,
                rows_len == all_rows.len(),
                unique_stat_ids(self@.stats),
                spec_upsert_stats(self@.stats, all_rows.skip(i as int)) == spec_upsert_stats(
                    orig.stats,
                    all_rows,
                ),
                self@ == (CacheV { stats: self@.stats, ..orig }),
            decreases rows_len - i,
        {
            let ghost pre = self@.stats;
            let row = rows_iter[i].clone();
            proof {
                assert(all_rows.skip(i as int)[0] == all_rows[i as int]);
                assert(all_rows.skip(i as int).drop_first() =~= all_rows.skip(i as int + 1));
                lemma_upsert_stat_unique(pre, row);
            }
            self.upsert_stat(row);
            i += 1;
        }
        proof {
            assert(all_rows.skip(rows_len as int) =~= Seq::<StatRow>::empty());
        }
        self.stats_retrieved = true;
        proof {
            assert(self@ =~= (CacheV {
                stats: spec_upsert_stats(orig.stats, all_rows),
                stats_retrieved: true,
                ..orig
            }));
        }
    }
}

/// Whether some leaderboard row carries the id.
pub open spec fn has_lb_id(s: Seq<LeaderboardRow>, id: i64) -> bool {
    exists|i: int| 0 <= i < s.len() && (#[trigger] s[i]).id == id
}

/// A definition refreshed from the remote service merged over a local
/// row: the definition columns are taken anew, the cached score,
/// standing and dirty bit stay.
pub open spec fn spec_merge_lb_def(old_row: LeaderboardRow, new_row: LeaderboardRow) -> LeaderboardRow {
    LeaderboardRow {
        key: new_row.key,
        name: new_row.name,
        sort_method: new_row.sort_method,
        display_type: new_row.display_type,
        ..old_row
    }
}

/// Upsert of one refreshed definition: merge over the row with its
/// id, or append it fresh with zero score and standing.
pub open spec fn spec_upsert_lb(s: Seq<LeaderboardRow>, row: LeaderboardRow) -> Seq<LeaderboardRow> {
    if has_lb_id(s, row.id) {
        Seq::new(
            s.len(),
            |i: int|
                if s[i].id == row.id {
                    spec_merge_lb_def(s[i], row)
                } else {
                    s[i]
                },
        )
    } else {
        s.push(row)
    }
}

/// Upsert of a batch of refreshed definitions, first to last.
pub open spec fn spec_upsert_lbs(s: Seq<LeaderboardRow>, rows: Seq<LeaderboardRow>) -> Seq<
    LeaderboardRow,
>
    decreases rows.len(),
{
    if rows.len() == 0 {
        s
    } else {
        spec_upsert_lbs(spec_upsert_lb(s, rows[0]), rows.drop_first())
    }
}

/// Upserting keeps leaderboard ids unique.
pub proof fn lemma_upsert_lb_unique(s: Seq<LeaderboardRow>, row: LeaderboardRow)
    requires
        unique_lb_ids(s),
    ensures
        unique_lb_ids(spec_upsert_lb(s, row)),
{
    let t = spec_upsert_lb(s, row);
    if has_lb_id(s, row.id) {
        assert forall|i: int, j: int| 0 <= i < j < t.len() implies (#[trigger] t[i]).id
            != (#[trigger] t[j]).id by {
            assert(t[i].id == s[i].id);
            assert(t[j].id == s[j].id);
        };
    } else {
        assert forall|i: int, j: int| 0 <= i < j < t.len() implies (#[trigger] t[i]).id
            != (#[trigger] t[j]).id by {
            if j < s.len() {
                assert(t[i].id == s[i].id && t[j].id == s[j].id);
            } else {
                assert(t[j].id == row.id);
                assert(t[i].id == s[i].id);
                assert(!(exists|k: int| 0 <= k < s.len() && (#[trigger] s[k]).id == row.id));
            }
        };
    }
}

/// A score written by the game: score, force flag and details move,
/// the dirty bit goes up, the standing stays.
pub open spec fn spec_set_lb_score(
    s: Seq<LeaderboardRow>,
    id: i64,
    score: i32,
    force: bool,
    details: String,
) -> Seq<LeaderboardRow> {
    Seq::new(
        s.len(),
        |i: int|
            if s[i].id == id {
                LeaderboardRow {
                    score: score,
                    force_update: force,
                    details: details,
                    changed: true,
                    ..s[i]
                }
            } else {
                s[i]
            },
    )
}

/// A standing reported by the remote service: rank and entry count
/// move, nothing else, in particular not the dirty bit.
pub open spec fn spec_set_lb_rank(
    s: Seq<LeaderboardRow>,
    id: i64,
    rank: u32,
    entry_total_count: u32,
) -> Seq<LeaderboardRow> {
    Seq::new(
        s.len(),
        |i: int|
            if s[i].id == id {
                LeaderboardRow { rank: rank, entry_total_count: entry_total_count, ..s[i] }
            } else {
                s[i]
            },
    )
}

/// The row's dirty bit set or cleared, nothing else moved.
pub open spec fn spec_set_lb_changed(s: Seq<LeaderboardRow>, id: i64, changed: bool) -> Seq<
    LeaderboardRow,
> {
    Seq::new(
        s.len(),
        |i: int|
            if s[i].id == id {
                LeaderboardRow { changed: changed, ..s[i] }
            } else {
                s[i]
            },
    )
}

/// A conflict resolved by read-back: the remote score and rank
/// overwrite the cached ones and the dirty bit goes down.
pub open spec fn spec_overwrite_lb_score(
    s: Seq<LeaderboardRow>,
    id: i64,
    score: i32,
    rank: u32,
) -> Seq<LeaderboardRow> {
    Seq::new(
        s.len(),
        |i: int|
            if s[i].id == id {
                LeaderboardRow { score: score, rank: rank, changed: false, ..s[i] }
            } else {
                s[i]
            },
    )
}

impl GameplayCache {
    /// All leaderboard rows.
    pub fn get_leaderboards_defs(&self) -> (r: Vec<LeaderboardRow>)
        ensures
            r@ == self@.leaderboards,
    {
        let mut out: Vec<LeaderboardRow> = Vec::new();
        let mut i: usize = 0;
        while i < self.leaderboards.len()
            invariant
                0 <= i <= self.leaderboards.len(),
                out@ == self.leaderboards@.take(i as int),
            decreases self.leaderboards.len() - i,
        {
            out.push(self.leaderboards[i].clone());
            proof {
                assert(out@ =~= self.leaderboards@.take(i as int + 1));
            }
            i += 1;
        }
        proof {
            assert(self.leaderboards@.take(self.leaderboards@.len() as int)
                =~= self.leaderboards@);
        }
        out
    }

    /// The dirty leaderboard rows.
    pub fn get_leaderboards_score_changed(&self) -> (r: Vec<LeaderboardRow>)
        ensures
            r@ == spec_changed_lbs(self@.leaderboards),
    {
        let mut out: Vec<LeaderboardRow> = Vec::new();
        let mut i: usize = 0;
        proof {
            assert(self.leaderboards@.take(0int) =~= Seq::<LeaderboardRow>::empty());
        }
        while i < self.leaderboards.len()
            invariant
                0 <= i <= self.leaderboards.len(),
                out@ == spec_changed_lbs(self.leaderboards@.take(i as int)),
            decreases self.leaderboards.len() - i,
        {
            let row = &self.leaderboards[i];
            proof {
                let taken = self.leaderboards@.take(i as int + 1);
                assert(taken.drop_last() =~= self.leaderboards@.take(i as int));
                assert(taken.last() == self.leaderboards@[i as int]);
            }
            if row.changed {
                let ghost pre = out@;
                out.push(row.clone());
                proof {
                    assert(out@ =~= pre + seq![self.leaderboards@[i as int]]);
                }
            } else {
                proof {
                    assert(out@ =~= out@ + Seq::<LeaderboardRow>::empty());
                }
            }
            i += 1;
        }
        proof {
            assert(self.leaderboards@.take(self.leaderboards@.len() as int)
                =~= self.leaderboards@);
        }
        out
    }

    /// The row with the given id, if the table holds one.
    pub fn get_leaderboard_score(&self, id: i64) -> (r: Option<LeaderboardRow>)
        ensures
            (r matches Some(row) ==> has_lb_id(self@.leaderboards, id) && (exists|i: int|
                0 <= i < self@.leaderboards.len() && self@.leaderboards[i] == row && row.id
                    == id)),
            r is None ==> !has_lb_id(self@.leaderboards, id),
    {
        let mut i: usize = 0;
        while i < self.leaderboards.len()
            invariant
                0 <= i <= self.leaderboards.len(),
                forall|j: int| 0 <= j < i ==> (#[trigger] self.leaderboards@[j]).id != id,
            decreases self.leaderboards.len() - i,
        {
            if self.leaderboards[i].id == id {
                return Some(self.leaderboards[i].clone());
            }
            i += 1;
        }
        None
    }

    /// Upsert one refreshed definition.
    fn upsert_leaderboard(&mut self, row: LeaderboardRow)
        requires
            unique_lb_ids(old(self)@.leaderboards),
        ensures
            final(self)@ == (CacheV {
                leaderboards: spec_upsert_lb(old(self)@.leaderboards, row),
                ..old(self)@
            }),
    {
        let ghost orig = self@;
        let mut idx: usize = 0;
        while idx < self.leaderboards.len() && self.leaderboards[idx].id != row.id
            invariant
                0 <= idx <= self.leaderboards.len(),
                self@ == orig,
                forall|j: int| 0 <= j < idx ==> (#[trigger] self.leaderboards@[j]).id != row.id,
            decreases self.leaderboards.len() - idx,
        {
            idx += 1;
        }
        let found = idx < self.leaderboards.len();
        if found {
            let merged = {
                let old_row = &self.leaderboards[idx];
                LeaderboardRow {
                    key: row.key.clone(),
                    name: row.name.clone(),
                    sort_method: row.sort_method.clone(),
                    display_type: row.display_type.clone(),
                    ..old_row.clone()
                }
            };
            proof {
                assert(merged == spec_merge_lb_def(self.leaderboards@[idx as int], row));
            }
            self.leaderboards[idx] = merged;
            proof {
                assert(has_lb_id(orig.leaderboards, row.id));
                let t = spec_upsert_lb(orig.leaderboards, row);
                assert forall|j: int| 0 <= j < t.len() implies self.leaderboards@[j] == t[j] by {
                    if j != idx {
                        assert(orig.leaderboards[j].id != row.id);
                    }
                };
                assert(self.leaderboards@ =~= t);
                assert(self@ =~= (CacheV { leaderboards: t, ..orig }));
            }
        } else {
            proof {
                assert(!has_lb_id(orig.leaderboards, row.id));
            }
            self.leaderboards.push(row);
            proof {
                assert(self@ =~= (CacheV {
                    leaderboards: spec_upsert_lb(orig.leaderboards, row),
                    ..orig
                }));
            }
        }
    }

    /// Store refreshed definitions: upsert each; cached scores,
    /// standings and dirty bits stay.
    pub fn update_leaderboards(&mut self, rows: Vec<LeaderboardRow>)
        requires
            unique_lb_ids(old(self)@.leaderboards),
        ensures
            final(self)@ == (CacheV {
                leaderboards: spec_upsert_lbs(old(self)@.leaderboards, rows@),
                ..old(self)@
            }),
            unique_lb_ids(final(self)@.leaderboards),
    {
        let ghost orig = self@;
        let mut i: usize = 0;
        let rows_len = rows.len();
        let rows_iter = rows;
        let ghost all_rows = rows_iter@;
        proof {
            assert(all_rows.skip(0) =~= all_rows);
        }
        while i < rows_len
            invariant
                0 <= i <= rows_len,
                rows_iter@ == all_rows,
                rows_len == all_rows.len(),
                unique_lb_ids(self@.leaderboards),
                spec_upsert_lbs(self@.leaderboards, all_rows.skip(i as int)) == spec_upsert_lbs(
                    orig.leaderboards,
                    all_rows,
                ),
                self@ == (CacheV { leaderboards: self@.leaderboards, ..orig }),
            decreases rows_len - i,
        {
            let ghost pre = self@.leaderboards;
            let row = rows_iter[i].clone();
            proof {
                assert(all_rows.skip(i as int)[0] == all_rows[i as int]);
                assert(all_rows.skip(i as int).drop_first() =~= all_rows.skip(i as int + 1));
                lemma_upsert_lb_unique(pre, row);
            }
            self.upsert_leaderboard(row);
            i += 1;
        }
        proof {
            assert(all_rows.skip(rows_len as int) =~= Seq::<LeaderboardRow>::empty());
            assert(self@ =~= (CacheV {
                leaderboards: spec_upsert_lbs(orig.leaderboards, all_rows),
                ..orig
            }));
        }
    }

    /// Write a score from the game: score, force flag and details,
    /// with the dirty bit raised, in one step.
    pub fn set_leaderboard_score(&mut self, id: i64, score: i32, force: bool, details: String)
        ensures
            final(self)@ == (CacheV {
                leaderboards: spec_set_lb_score(old(self)@.leaderboards, id, score, force, details),
                ..old(self)@
            }),
    {
        let ghost orig = self@;
        let mut out: Vec<LeaderboardRow> = Vec::new();
        let mut i: usize = 0;
        while i < self.leaderboards.len()
            invariant
                0 <= i <= self.leaderboards.len(),
                self@ == orig,
                out@.len() == i,
                forall|j: int|
                    0 <= j < i ==> out@[j] == spec_set_lb_score(
                        orig.leaderboards,
                        id,
                        score,
                        force,
                        details,
                    )[j],
            decreases self.leaderboards.len() - i,
        {
            let row = &self.leaderboards[i];
            if row.id == id {
                out.push(
                    LeaderboardRow {
                        score: score,
                        force_update: force,
                        details: details.clone(),
                        changed: true,
                        ..row.clone()
                    },
                );
            } else {
                out.push(row.clone());
            }
            i += 1;
        }
        self.leaderboards = out;
        proof {
            assert(self.leaderboards@ =~= spec_set_lb_score(
                orig.leaderboards,
                id,
                score,
                force,
                details,
            ));
            assert(self@ =~= (CacheV {
                leaderboards: spec_set_lb_score(orig.leaderboards, id, score, force, details),
                ..orig
            }));
        }
    }

    /// Record the standing the remote service reported; the dirty bit
    /// is not touched.
    pub fn set_leaderboard_rank(&mut self, id: i64, rank: u32, entry_total_count: u32)
        ensures
            final(self)@ == (CacheV {
                leaderboards: spec_set_lb_rank(old(self)@.leaderboards, id, rank, entry_total_count),
                ..old(self)@
            }),
    {
        let ghost orig = self@;
        let mut out: Vec<LeaderboardRow> = Vec::new();
        let mut i: usize = 0;
        while i < self.leaderboards.len()
            invariant
                0 <= i <= self.leaderboards.len(),
                self@ == orig,
                out@.len() == i,
                forall|j: int|
                    0 <= j < i ==> out@[j] == spec_set_lb_rank(
                        orig.leaderboards,
                        id,
                        rank,
                        entry_total_count,
                    )[j],
            decreases self.leaderboards.len() - i,
        {
            let row = &self.leaderboards[i];
            if row.id == id {
                out.push(
                    LeaderboardRow {
                        rank: rank,
                        entry_total_count: entry_total_count,
                        ..row.clone()
                    },
                );
            } else {
                out.push(row.clone());
            }
            i += 1;
        }
        self.leaderboards = out;
        proof {
            assert(self.leaderboards@ =~= spec_set_lb_rank(
                orig.leaderboards,
                id,
                rank,
                entry_total_count,
            ));
            assert(self@ =~= (CacheV {
                leaderboards: spec_set_lb_rank(orig.leaderboards, id, rank, entry_total_count),
                ..orig
            }));
        }
    }

    /// Raise or lower one row's dirty bit.
    pub fn set_leaderboard_changed(&mut self, id: i64, changed: bool)
        ensures
            final(self)@ == (CacheV {
                leaderboards: spec_set_lb_changed(old(self)@.leaderboards, id, changed),
                ..old(self)@
            }),
    {
        let ghost orig = self@;
        let mut out: Vec<LeaderboardRow> = Vec::new();
        let mut i: usize = 0;
        while i < self.leaderboards.len()
            invariant
                0 <= i <= self.leaderboards.len(),
                self@ == orig,
                out@.len() == i,
                forall|j: int|
                    0 <= j < i ==> out@[j] == spec_set_lb_changed(orig.leaderboards, id, changed)[j],
            decreases self.leaderboards.len() - i,
        {
            let row = &self.leaderboards[i];
            if row.id == id {
                out.push(LeaderboardRow { changed: changed, ..row.clone() });
            } else {
                out.push(row.clone());
            }
            i += 1;
        }
        self.leaderboards = out;
        proof {
            assert(self.leaderboards@ =~= spec_set_lb_changed(orig.leaderboards, id, changed));
            assert(self@ =~= (CacheV {
                leaderboards: spec_set_lb_changed(orig.leaderboards, id, changed),
                ..orig
            }));
        }
    }

    /// Resolve a conflict by read-back: overwrite the cached score and
    /// rank with the remote ones and lower the dirty bit.
    pub fn overwrite_leaderboard_score(&mut self, id: i64, score: i32, rank: u32)
        ensures
            final(self)@ == (CacheV {
                leaderboards: spec_overwrite_lb_score(old(self)@.leaderboards, id, score, rank),
                ..old(self)@
            }),
    {
        let ghost orig = self@;
        let mut out: Vec<LeaderboardRow> = Vec::new();
        let mut i: usize = 0;
        while i < self.leaderboards.len()
            invariant
                0 <= i <= self.leaderboards.len(),
                self@ == orig,
                out@.len() == i,
                forall|j: int|
                    0 <= j < i ==> out@[j] == spec_overwrite_lb_score(
                        orig.leaderboards,
                        id,
                        score,
                        rank,
                    )[j],
            decreases self.leaderboards.len() - i,
        {
            let row = &self.leaderboards[i];
            if row.id == id {
                out.push(
                    LeaderboardRow { score: score, rank: rank, changed: false, ..row.clone() },
                );
            } else {
                out.push(row.clone());
            }
            i += 1;
        }
        self.leaderboards = out;
        proof {
            assert(self.leaderboards@ =~= spec_overwrite_lb_score(
                orig.leaderboards,
                id,
                score,
                rank,
            ));
            assert(self@ =~= (CacheV {
                leaderboards: spec_overwrite_lb_score(orig.leaderboards, id, score, rank),
                ..orig
            }));
        }
    }
}

} // verus!

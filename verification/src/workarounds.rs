//! Per-game workarounds: some titles drive an achievement off a
//! statistic crossing a threshold instead of unlocking it directly.
use vstd::prelude::*;

verus! {

/// One statistic-to-achievement coupling. The threshold is kept as
/// text because the statistic's type is not known here.
pub struct StatAchievementWorkaround {
    pub statistic_key: String,
    pub achievement_key: String,
    pub threshold: String,
}

impl Clone for StatAchievementWorkaround {
    fn clone(&self) -> (r: Self)
        ensures
            r == *self,
    {
        StatAchievementWorkaround {
            statistic_key: self.statistic_key.clone(),
            achievement_key: self.achievement_key.clone(),
            threshold: self.threshold.clone(),
        }
    }
}

} // verus!

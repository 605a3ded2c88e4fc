//! Achievement notifications: a short queue of recent achievements, each
//! shown for a fixed time. Times are milliseconds on the caller's clock.
use vstd::prelude::*;

verus! {

/// How long a notification stays active.
pub const NOTIFICATION_DURATION_MS: u64 = 5000;

/// How many notifications are kept.
pub const MAX_NOTIFICATIONS: usize = 3;

#[derive(Clone, Copy, Debug, PartialEq, Eq, Structural)]
pub enum AchievementCategory {
    Command,
    ModelSelection,
    Quantum,
    Debug,
    Expert,
}

#[derive(Debug)]
pub struct Achievement {
    pub title: String,
    pub description: String,
    pub shown_at_ms: u64,
    pub icon: Option<String>,
    pub category: AchievementCategory,
}

/// Milliseconds from `start` to `now`, zero if `now` comes first.
pub open spec fn elapsed(now: u64, start: u64) -> u64 {
    if now >= start {
        (now - start) as u64
    } else {
        0
    }
}

/// The achievement is still shown at `now`.
pub open spec fn is_active(a: Achievement, now: u64, duration: u64) -> bool {
    elapsed(now, a.shown_at_ms) < duration
}

pub struct AchievementManager {
    achievements: Vec<Achievement>,
    notification_duration_ms: u64,
    max_notifications: usize,
}

impl AchievementManager {
    pub closed spec fn achievements(&self) -> Seq<Achievement> {
        self.achievements@
    }

    pub closed spec fn duration(&self) -> u64 {
        self.notification_duration_ms
    }

    pub closed spec fn max(&self) -> nat {
        self.max_notifications as nat
    }

    pub closed spec fn wf(&self) -> bool {
        &&& self.max_notifications >= 1
        &&& self.achievements@.len() <= self.max_notifications
    }

    pub fn new() -> (r: AchievementManager)
        ensures
            r.wf(),
            r.achievements() == Seq::<Achievement>::empty(),
            r.duration() == NOTIFICATION_DURATION_MS,
            r.max() == MAX_NOTIFICATIONS,
    {
        AchievementManager {
            achievements: Vec::new(),
            notification_duration_ms: NOTIFICATION_DURATION_MS,
            max_notifications: MAX_NOTIFICATIONS,
        }
    }

    pub fn len(&self) -> (r: usize)
        ensures
            r == self.achievements().len(),
    {
        self.achievements.len()
    }

    /// Adds an achievement shown at `now_ms`; past the limit the oldest goes.
    pub fn add_achievement(
        &mut self,
        title: &str,
        description: &str,
        category: AchievementCategory,
        now_ms: u64,
    )
        requires
            old(self).wf(),
        ensures
            final(self).wf(),
            final(self).duration() == old(self).duration(),
            final(self).max() == old(self).max(),
            final(self).achievements().len() > 0,
            final(self).achievements().last().title@ == title@,
            final(self).achievements().last().description@ == description@,
            final(self).achievements().last().shown_at_ms == now_ms,
            final(self).achievements().last().icon is None,
            final(self).achievements().last().category == category,
            final(self).achievements().drop_last() == if old(self).achievements().len() + 1 > old(
                self,
            ).max() {
                old(self).achievements().drop_first()
            } else {
                old(self).achievements()
            },
    {
        let ghost before = self.achievements@;
        self.achievements.push(
            Achievement {
                title: String::from_str(title),
                description: String::from_str(description),
                shown_at_ms: now_ms,
                icon: None,
                category,
            },
        );
        if self.achievements.len() > self.max_notifications {
            let ghost pushed = self.achievements@;
            self.achievements.remove(0);
            proof {
                assert(self.achievements@ =~= pushed.drop_first());
                assert(self.achievements@.drop_last() =~= before.drop_first());
            }
        } else {
            proof {
                assert(self.achievements@.drop_last() =~= before);
            }
        }
    }

    /// The achievements still shown at `now_ms`, oldest first.
    pub fn get_active_notifications(&self, now_ms: u64) -> (r: Vec<&Achievement>)
        ensures
            r@.map_values(|a: &Achievement| *a) == self.achievements().filter(
                |a: Achievement| is_active(a, now_ms, self.duration()),
            ),
    {
        let ghost pred = |a: Achievement| is_active(a, now_ms, self.duration());
        let mut r: Vec<&Achievement> = Vec::new();
        let mut i: usize = 0;
        while i < self.achievements.len()
            invariant
                i <= self.achievements@.len(),
                pred == (|a: Achievement| is_active(a, now_ms, self.duration())),
                r@.map_values(|a: &Achievement| *a) == self.achievements@.take(i as int).filter(pred),
            decreases self.achievements@.len() - i,
        {
            let a = &self.achievements[i];
            proof {
                assert(self.achievements@.take(i + 1).drop_last() =~= self.achievements@.take(i as int));
            }
            let age = if now_ms >= a.shown_at_ms {
                now_ms - a.shown_at_ms
            } else {
                0
            };
            let ghost before = r@;
            proof {
                reveal_with_fuel(Seq::<Achievement>::filter, 1);
                assert(self.achievements@.take(i + 1).last() == *a);
                assert(pred(*a) == (age < self.notification_duration_ms));
            }
            if age < self.notification_duration_ms {
                r.push(a);
                proof {
                    assert(r@.map_values(|a: &Achievement| *a) =~= before.map_values(
                        |a: &Achievement| *a,
                    ).push(*a));
                }
            }
            i = i + 1;
        }
        proof {
            assert(self.achievements@.take(i as int) =~= self.achievements@);
        }
        r
    }

    /// Drops the achievements no longer shown at `now_ms`, keeping the order.
    pub fn clear_old_notifications(&mut self, now_ms: u64)
        requires
            old(self).wf(),
        ensures
            final(self).wf(),
            final(self).duration() == old(self).duration(),
            final(self).max() == old(self).max(),
            final(self).achievements() == old(self).achievements().filter(
                |a: Achievement| is_active(a, now_ms, old(self).duration()),
            ),
    {
        let ghost orig = self.achievements@;
        let ghost pred = |a: Achievement| is_active(a, now_ms, self.duration());
        let ghost mut j: int = 0;
        let mut i: usize = 0;
        proof {
            reveal_with_fuel(Seq::<Achievement>::filter, 1);
            assert(orig.take(0).filter(pred) =~= Seq::<Achievement>::empty());
            assert(orig.skip(0) =~= orig);
            assert(self.achievements@ =~= orig.take(0).filter(pred) + orig.skip(0));
        }
        while i < self.achievements.len()
            invariant
                0 <= j <= orig.len(),
                self.notification_duration_ms == old(self).notification_duration_ms,
                self.max_notifications == old(self).max_notifications,
                pred == (|a: Achievement| is_active(a, now_ms, self.duration())),
                self.achievements@ == orig.take(j).filter(pred) + orig.skip(j),
                i == orig.take(j).filter(pred).len(),
                orig.take(j).filter(pred).len() <= j,
            decreases self.achievements@.len() - i,
        {
            let ghost f = orig.take(j).filter(pred);
            proof {
                assert(self.achievements@[i as int] == orig[j]);
                assert(orig.take(j + 1).drop_last() =~= orig.take(j));
                assert(orig.take(j + 1).last() == orig[j]);
                assert(orig.skip(j) =~= seq![orig[j]] + orig.skip(j + 1));
            }
            let a = &self.achievements[i];
            let age = if now_ms >= a.shown_at_ms {
                now_ms - a.shown_at_ms
            } else {
                0
            };
            proof {
                reveal_with_fuel(Seq::<Achievement>::filter, 1);
                assert(pred(orig[j]) == (age < self.notification_duration_ms));
            }
            if age < self.notification_duration_ms {
                proof {
                    assert(orig.take(j + 1).filter(pred) == f.push(orig[j]));
                    assert(self.achievements@ =~= orig.take(j + 1).filter(pred) + orig.skip(j + 1));
                }
                i = i + 1;
            } else {
                self.achievements.remove(i);
                proof {
                    assert(orig.take(j + 1).filter(pred) == f);
                    assert(self.achievements@ =~= orig.take(j + 1).filter(pred) + orig.skip(j + 1));
                }
            }
            proof {
                j = j + 1;
            }
        }
        proof {
            assert(j == orig.len());
            assert(orig.take(j) =~= orig);
            assert(orig.skip(j) =~= Seq::<Achievement>::empty());
            assert(self.achievements@ =~= orig.filter(pred));
            orig.filter_lemma(pred);
        }
    }
}

} // verus!

//! Timed animations. Times are milliseconds on the caller's clock.
use vstd::prelude::*;

verus! {

#[derive(Clone, Copy, Debug, PartialEq, Eq, Structural)]
pub enum EasingFunction {
    Linear,
    EaseIn,
    EaseOut,
    EaseInOut,
    Bounce,
    Elastic,
}

/// An animation of a fixed duration, with the time elapsed at its last update.
#[derive(Clone, Copy, Debug, PartialEq, Eq, Structural)]
pub struct Animation {
    pub start_ms: u64,
    pub duration_ms: u64,
    pub elapsed_ms: u64,
    pub easing: EasingFunction,
}

/// The animation after an update at `now`: elapsed time since its start,
/// zero if `now` comes first.
pub open spec fn updated(a: Animation, now: u64) -> Animation {
    Animation {
        elapsed_ms: if now >= a.start_ms {
            (now - a.start_ms) as u64
        } else {
            0
        },
        ..a
    }
}

pub open spec fn complete(a: Animation) -> bool {
    a.elapsed_ms >= a.duration_ms
}

impl Animation {
    pub fn new(duration_ms: u64, easing: EasingFunction, now_ms: u64) -> (r: Animation)
        ensures
            r == (Animation { start_ms: now_ms, duration_ms, elapsed_ms: 0, easing }),
    {
        Animation { start_ms: now_ms, duration_ms, elapsed_ms: 0, easing }
    }

    pub fn update(&mut self, now_ms: u64)
        ensures
            *final(self) == updated(*old(self), now_ms),
    {
        self.elapsed_ms = if now_ms >= self.start_ms {
            now_ms - self.start_ms
        } else {
            0
        };
    }

    pub fn is_complete(&self) -> (r: bool)
        ensures
            r == complete(*self),
    {
        self.elapsed_ms >= self.duration_ms
    }
}

/// The running animations, in the order added.
pub struct AnimationManager {
    animations: Vec<Animation>,
}

impl AnimationManager {
    pub closed spec fn animations(&self) -> Seq<Animation> {
        self.animations@
    }

    pub fn new() -> (r: AnimationManager)
        ensures
            r.animations() == Seq::<Animation>::empty(),
    {
        AnimationManager { animations: Vec::new() }
    }

    pub fn add_animation(&mut self, duration_ms: u64, easing: EasingFunction, now_ms: u64)
        ensures
            final(self).animations() == old(self).animations().push(
                Animation { start_ms: now_ms, duration_ms, elapsed_ms: 0, easing },
            ),
    {
        self.animations.push(Animation::new(duration_ms, easing, now_ms));
    }

    /// Updates every animation to `now_ms`, then drops the complete ones,
    /// keeping the order of the rest.
    pub fn update(&mut self, now_ms: u64)
        ensures
            final(self).animations() == old(self).animations().map_values(
                |a: Animation| updated(a, now_ms),
            ).filter(|a: Animation| !complete(a)),
    {
        let ghost src = self.animations@.map_values(|a: Animation| updated(a, now_ms));
        let ghost pred = |a: Animation| !complete(a);
        let mut kept: Vec<Animation> = Vec::new();
        let mut i: usize = 0;
        while i < self.animations.len()
            invariant
                i <= self.animations@.len(),
                self.animations@ == old(self).animations@,
                src == self.animations@.map_values(|a: Animation| updated(a, now_ms)),
                pred == (|a: Animation| !complete(a)),
                kept@ == src.take(i as int).filter(pred),
            decreases self.animations@.len() - i,
        {
            let mut a = self.animations[i];
            a.update(now_ms);
            proof {
                reveal_with_fuel(Seq::<Animation>::filter, 1);
                assert(src.take(i + 1).drop_last() =~= src.take(i as int));
                assert(src.take(i + 1).last() == a);
            }
            if !a.is_complete() {
                kept.push(a);
            }
            i = i + 1;
        }
        proof {
            assert(src.take(i as int) =~= src);
        }
        self.animations = kept;
    }

    pub fn len(&self) -> (r: usize)
        ensures
            r == self.animations().len(),
    {
        self.animations.len()
    }

    /// The animation at `index`, if there is one.
    pub fn get(&self, index: usize) -> (r: Option<Animation>)
        ensures
            index < self.animations().len() ==> r == Some(self.animations()[index as int]),
            index >= self.animations().len() ==> r is None,
    {
        if index < self.animations.len() {
            Some(self.animations[index])
        } else {
            None
        }
    }
}

} // verus!

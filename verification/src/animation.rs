use vstd::prelude::*;
use vstd::string::*;

verus! {

// -------------------------------------------------- state-driven animator

/// The frames of an animation of a sprite sheet.
#[derive(Debug, Clone, Copy, PartialEq, Eq, Structural)]
pub struct AnimationRange {
    pub first: usize,
    pub last: usize,
}

/// An animation of a sprite sheet, under its state name.
#[derive(Debug)]
pub struct NamedAnimation {
    pub name: String,
    pub range: AnimationRange,
}

/// The state of an animator driven by named states: the state shown,
/// the states queued after it, and the animation of each state (names
/// are unique, as in the map they come from).
#[derive(Debug)]
pub struct AnimatorState {
    pub current_state: String,
    pub state_queue: Vec<String>,
    pub animations: Vec<NamedAnimation>,
}

/// The animation of a state: that of the first entry with its name.
pub open spec fn animation_of(animations: Seq<NamedAnimation>, state: Seq<char>) -> Option<AnimationRange>
    decreases animations.len(),
{
    if animations.len() == 0 {
        None
    } else if animations[0].name@ == state {
        Some(animations[0].range)
    } else {
        animation_of(animations.drop_first(), state)
    }
}

/// Whether a frame index lies outside an animation.
pub open spec fn outside(index: int, range: AnimationRange) -> bool {
    index > range.last || index < range.first
}

impl AnimatorState {
    /// The animation of a state.
    pub fn get_animation(&self, state: &String) -> (animation: Option<AnimationRange>)
        ensures
            animation == animation_of(self.animations@, state@),
    {
        let mut k: usize = 0;
        proof {
            assert(self.animations@.subrange(0, self.animations@.len() as int) =~= self.animations@);
        }
        while k < self.animations.len()
            invariant
                k <= self.animations.len(),
                animation_of(self.animations@, state@) == animation_of(self.animations@.subrange(k as int, self.animations@.len() as int), state@),
            decreases self.animations.len() - k,
        {
            let ghost rest = self.animations@.subrange(k as int, self.animations@.len() as int);
            proof {
                assert(rest.drop_first() =~= self.animations@.subrange(k as int + 1, self.animations@.len() as int));
            }
            if self.animations[k].name == *state {
                return Some(self.animations[k].range);
            }
            k = k + 1;
        }
        None
    }

    /// The animation of the state shown.
    pub fn get_current_animation(&self) -> (animation: Option<AnimationRange>)
        ensures
            animation == animation_of(self.animations@, self.current_state@),
    {
        self.get_animation(&self.current_state)
    }

    /// Shows `new_state`; tells whether it differs from the state shown
    /// (the frame timer restarts only then).
    pub fn update_state(&mut self, new_state: String) -> (changed: bool)
        ensures
            changed == (new_state@ != old(self).current_state@),
            final(self).current_state@ == new_state@,
            final(self).state_queue@ == old(self).state_queue@,
            final(self).animations@ == old(self).animations@,
    {
        if new_state == self.current_state {
            return false;
        }
        self.current_state = new_state;
        true
    }

    /// Moves to the next frame when the frame timer has run out: past the
    /// end (or before the start) of the animation shown, the next queued
    /// state, or else the same one, starts from its first frame. Returns
    /// the new frame index and whether the state changed.
    pub fn advance_frame(&mut self, index: usize) -> (result: (usize, bool))
        requires
            index < usize::MAX,
            (animation_of(old(self).animations@, old(self).current_state@) matches Some(r) && outside(index + 1, r))
                ==> old(self).state_queue@.len() > 0 ==> animation_of(old(self).animations@, old(self).state_queue@[0]@) is Some,
        ensures
            final(self).animations@ == old(self).animations@,
            match animation_of(old(self).animations@, old(self).current_state@) {
                Some(r) if outside(index + 1, r) => {
                    if old(self).state_queue@.len() == 0 {
                        &&& final(self).current_state@ == old(self).current_state@
                        &&& final(self).state_queue@ == old(self).state_queue@
                        &&& result.0 == r.first && !result.1
                    } else {
                        let next = old(self).state_queue@[0];
                        &&& final(self).current_state@ == next@
                        &&& final(self).state_queue@ == old(self).state_queue@.drop_first()
                        &&& animation_of(old(self).animations@, next@) matches Some(n) && result.0 == n.first
                        &&& result.1 == (next@ != old(self).current_state@)
                    }
                },
                _ => {
                    &&& final(self).current_state@ == old(self).current_state@
                    &&& final(self).state_queue@ == old(self).state_queue@
                    &&& result.0 == index + 1 && !result.1
                },
            },
    {
        let index = index + 1;
        let animation_finished = match self.get_current_animation() {
            Some(current_animation) => index > current_animation.last || index < current_animation.first,
            None => false,
        };
        if animation_finished {
            let new_animation = if self.state_queue.len() == 0 {
                self.current_state.clone()
            } else {
                self.state_queue.remove(0)
            };
            let changed = self.update_state(new_animation);
            proof {
                assert(old(self).state_queue@.len() > 0 ==> self.state_queue@ =~= old(self).state_queue@.drop_first());
            }
            let first = match self.get_current_animation() {
                Some(a) => a.first,
                None => 0,
            };
            (first, changed)
        } else {
            (index, false)
        }
    }
}

/// Shows or hides the interaction icon: when the player enters a
/// trigger, a hidden (or hiding) icon fades in and then idles; when the
/// player leaves, a shown (or showing) icon fades out and then hides.
/// Returns whether the state changed.
pub fn update_interact_icon_visibility(player_is_in_trigger: bool, interact_icon_animator: &mut AnimatorState) -> (changed: bool)
    ensures
        final(interact_icon_animator).animations@ == old(interact_icon_animator).animations@,
        ({
            let s = old(interact_icon_animator).current_state@;
            let q = old(interact_icon_animator).state_queue@;
            if player_is_in_trigger && (s == "hidden"@ || s == "fade_out"@) {
                &&& final(interact_icon_animator).current_state@ == "fade_in"@
                &&& final(interact_icon_animator).state_queue@.map_values(|x: String| x@) == q.map_values(|x: String| x@).push("idle"@)
                &&& changed
            } else if !player_is_in_trigger && (s == "idle"@ || s == "fade_in"@) {
                &&& final(interact_icon_animator).current_state@ == "fade_out"@
                &&& final(interact_icon_animator).state_queue@.map_values(|x: String| x@) == q.map_values(|x: String| x@).push("hidden"@)
                &&& changed
            } else {
                &&& final(interact_icon_animator).current_state@ == s
                &&& final(interact_icon_animator).state_queue@ == q
                &&& !changed
            }
        }),
{
    let hidden = String::from_str("hidden");
    let fade_out = String::from_str("fade_out");
    let idle = String::from_str("idle");
    let fade_in = String::from_str("fade_in");
    proof {
        reveal_strlit("hidden");
        reveal_strlit("fade_out");
        reveal_strlit("idle");
        reveal_strlit("fade_in");
        assert("fade_in"@.len() == 7);
        assert("fade_in"@ != "hidden"@);
        assert("fade_in"@ != "fade_out"@);
        assert("idle"@.len() == 4);
        assert("fade_out"@.len() == 8);
        assert("fade_out"@ != "idle"@);
        assert("fade_out"@ != "fade_in"@);
    }
    if player_is_in_trigger {
        if interact_icon_animator.current_state == hidden || interact_icon_animator.current_state == fade_out {
            let changed = interact_icon_animator.update_state(fade_in);
            interact_icon_animator.state_queue.push(idle);
            proof {
                assert(interact_icon_animator.state_queue@.map_values(|x: String| x@)
                    =~= old(interact_icon_animator).state_queue@.map_values(|x: String| x@).push("idle"@));
            }
            return changed;
        }
    } else if interact_icon_animator.current_state == idle || interact_icon_animator.current_state == fade_in {
        let changed = interact_icon_animator.update_state(fade_out);
        interact_icon_animator.state_queue.push(hidden);
        proof {
            assert(interact_icon_animator.state_queue@.map_values(|x: String| x@)
                =~= old(interact_icon_animator).state_queue@.map_values(|x: String| x@).push("hidden"@));
        }
        return changed;
    }
    false
}

} // verus!

use vstd::prelude::*;
use vstd::string::*;

verus! {

/// The order in which an animation plays its frames.
#[derive(Debug, Clone, Copy, PartialEq, Eq, Structural)]
pub enum Direction {
    Forward,
    Reverse,
    PingpongForward,
    PingpongReverse,
}

/// A tagged run of frames of an aseprite sprite sheet.
#[derive(Debug)]
pub struct SpriteAnimation {
    pub name: String,
    pub from: usize,
    pub to: usize,
    pub direction: Direction,
}

impl SpriteAnimation {
    /// A copy of the animation.
    pub fn copied(&self) -> (r: SpriteAnimation)
        ensures
            r == *self,
    {
        SpriteAnimation { name: self.name.clone(), from: self.from, to: self.to, direction: self.direction }
    }
}

/// The animator of an aseprite sprite sheet: the animation playing, the
/// animations of the sheet, and those queued after the one playing.
#[derive(Debug)]
pub struct SpriteAnimator {
    pub current_animation: SpriteAnimation,
    pub animations: Vec<SpriteAnimation>,
    pub animation_queue: Vec<SpriteAnimation>,
}

/// The first animation of the sheet with the given name.
pub open spec fn named(animations: Seq<SpriteAnimation>, name: Seq<char>) -> Option<SpriteAnimation>
    decreases animations.len(),
{
    if animations.len() == 0 {
        None
    } else if animations[0].name@ == name {
        Some(animations[0])
    } else {
        named(animations.drop_first(), name)
    }
}

/// The frame an animation starts on: its first one, or its last one
/// when it plays backwards.
pub open spec fn start_frame(a: SpriteAnimation) -> int {
    match a.direction {
        Direction::Forward | Direction::PingpongForward => a.from as int,
        _ => a.to as int,
    }
}

/// What switching to `new_state` does: nothing when it is playing
/// already or the sheet has no such animation; otherwise it starts
/// playing on its start frame. The queue is emptied in every case.
pub open spec fn switched(a: SpriteAnimator, index: int, new_state: Seq<char>) -> (SpriteAnimation, int, Option<SpriteAnimation>) {
    if a.current_animation.name@ == new_state {
        (a.current_animation, index, None)
    } else {
        match named(a.animations@, new_state) {
            Some(n) => (n, start_frame(n), Some(n)),
            None => (a.current_animation, index, None),
        }
    }
}

fn find_named(animations: &Vec<SpriteAnimation>, name: &str) -> (r: Option<usize>)
    ensures
        match r {
            Some(i) => i < animations@.len() && named(animations@, name@) == Some(animations@[i as int]),
            None => named(animations@, name@) is None,
        },
{
    let mut k: usize = 0;
    proof {
        assert(animations@.subrange(0, animations@.len() as int) =~= animations@);
    }
    while k < animations.len()
        invariant
            k <= animations.len(),
            named(animations@, name@) == named(animations@.subrange(k as int, animations@.len() as int), name@),
        decreases animations.len() - k,
    {
        proof {
            let rest = animations@.subrange(k as int, animations@.len() as int);
            assert(rest.drop_first() =~= animations@.subrange(k as int + 1, animations@.len() as int));
        }
        if str_equal(animations[k].name.as_str(), name) {
            return Some(k);
        }
        k = k + 1;
    }
    None
}

/// Whether two texts are equal.
fn str_equal(a: &str, b: &str) -> (r: bool)
    ensures
        r == (a@ == b@),
{
    let n = a.unicode_len();
    if n != b.unicode_len() {
        return false;
    }
    let mut k: usize = 0;
    while k < n
        invariant
            n == a@.len() == b@.len(),
            k <= n,
            forall|j: int| 0 <= j < k ==> a@[j] == b@[j],
        decreases n - k,
    {
        if a.get_char(k) != b.get_char(k) {
            return false;
        }
        k = k + 1;
    }
    proof {
        assert(a@ =~= b@);
    }
    true
}

impl SpriteAnimator {
    /// Plays the animation named `new_state`, from its start frame, unless
    /// it plays already; empties the queue. Returns the animation started.
    pub fn change_animator_state(&mut self, sprite_index: &mut usize, new_state: &str) -> (started: Option<SpriteAnimation>)
        ensures
            final(self).animation_queue@.len() == 0,
            final(self).animations@ == old(self).animations@,
            ({
                let (current, index, result) = switched(*old(self), *old(sprite_index) as int, new_state@);
                &&& final(self).current_animation == current
                &&& *final(sprite_index) as int == index
                &&& started == result
            }),
    {
        self.animation_queue.clear();
        if str_equal(self.current_animation.name.as_str(), new_state) {
            return None;
        }
        match find_named(&self.animations, new_state) {
            Some(i) => {
                self.current_animation = self.animations[i].copied();
                if self.current_animation.direction == Direction::Forward
                    || self.current_animation.direction == Direction::PingpongForward {
                    *sprite_index = self.current_animation.from;
                } else {
                    *sprite_index = self.current_animation.to;
                }
                Some(self.animations[i].copied())
            },
            None => None,
        }
    }

    /// Queues the animation named `new_state`, unless it is the one
    /// playing or the sheet has no such animation.
    pub fn queue_animation(&mut self, new_state: &str)
        ensures
            final(self).current_animation == old(self).current_animation,
            final(self).animations@ == old(self).animations@,
            final(self).animation_queue@ == (if old(self).current_animation.name@ == new_state@ {
                old(self).animation_queue@
            } else {
                match named(old(self).animations@, new_state@) {
                    Some(a) => old(self).animation_queue@.push(a),
                    None => old(self).animation_queue@,
                }
            }),
    {
        if str_equal(self.current_animation.name.as_str(), new_state) {
            return;
        }
        match find_named(&self.animations, new_state) {
            Some(i) => {
                let a = self.animations[i].copied();
                self.animation_queue.push(a);
            },
            None => {},
        }
    }

    /// Plays the first queued animation; returns its first frame, or 0
    /// when it could not be started. The queue ends up empty.
    pub fn play_next_animation_in_queue(&mut self, sprite_index: &mut usize) -> (frame: usize)
        requires
            old(self).animation_queue@.len() > 0,
        ensures
            final(self).animation_queue@.len() == 0,
            final(self).animations@ == old(self).animations@,
            ({
                let next = old(self).animation_queue@[0];
                let (current, index, result) = switched(*old(self), *old(sprite_index) as int, next.name@);
                &&& final(self).current_animation == current
                &&& *final(sprite_index) as int == index
                &&& frame == (match result { Some(a) => a.from, None => 0 })
            }),
    {
        let new_state = self.animation_queue[0].name.clone();
        self.animation_queue.remove(0);
        let ghost mid = *self;
        match self.change_animator_state(sprite_index, new_state.as_str()) {
            Some(animation) => animation.from,
            None => 0,
        }
    }
}

/// What one tick of the frame timer does to the animation playing: move
/// to a frame (and maybe turn around), or play the next queued
/// animation.
pub enum FrameStep {
    To(int, Direction),
    PlayNext,
}

/// One tick of an animation on frame `i`: forwards it steps to the next
/// frame and wraps to its first one at the end; backwards it steps to
/// the previous frame and wraps to its last one; ping-pong turns around
/// at either end. At the end of a run, a queued animation takes over.
pub open spec fn frame_step(c: SpriteAnimation, queue_empty: bool, i: int) -> FrameStep {
    let from = c.from as int;
    let to = c.to as int;
    match c.direction {
        Direction::Forward => {
            let n = i + 1;
            if n < from || (n > to && queue_empty) {
                FrameStep::To(from, Direction::Forward)
            } else if n > to {
                FrameStep::PlayNext
            } else {
                FrameStep::To(n, Direction::Forward)
            }
        },
        Direction::Reverse => {
            if i > to || (i <= from && queue_empty) {
                FrameStep::To(to, Direction::Reverse)
            } else if i <= from {
                FrameStep::PlayNext
            } else {
                FrameStep::To(i - 1, Direction::Reverse)
            }
        },
        Direction::PingpongForward => {
            let n = i + 1;
            if n < from || (n > to && queue_empty) {
                FrameStep::To(if from < to { to - 1 } else { n - 1 }, Direction::PingpongReverse)
            } else if n > to {
                FrameStep::PlayNext
            } else {
                FrameStep::To(n, Direction::PingpongForward)
            }
        },
        Direction::PingpongReverse => {
            if (i > to && from < to) || (i <= from && queue_empty) {
                FrameStep::To(from + 1, Direction::PingpongForward)
            } else if i <= from {
                FrameStep::PlayNext
            } else {
                FrameStep::To(i - 1, Direction::PingpongReverse)
            }
        },
    }
}

/// An animation that plays at least two frames, and a frame inside it.
pub open spec fn runs_over(c: SpriteAnimation, i: int) -> bool {
    c.from < c.to && c.from <= i <= c.to
}

/// With nothing queued, an animation of at least two frames never leaves
/// its frames, whatever its direction.
pub proof fn lemma_frame_stays_in_animation(c: SpriteAnimation, i: int)
    requires
        runs_over(c, i),
    ensures
        frame_step(c, true, i) matches FrameStep::To(j, d) && c.from <= j <= c.to,
{
}

/// One tick of an animation on one of its frames. With nothing queued,
/// a forward animation steps to the next frame and from its last frame
/// back to its first; a reverse one steps to the previous frame and from
/// its first back to its last; a ping-pong of two frames or more turns
/// around at either end, onto the frame next to it. With an animation
/// queued, the end of the run (the last frame forwards, the first
/// backwards) hands over to it.
pub proof fn lemma_frame_tick(c: SpriteAnimation, queue_empty: bool, i: int)
    requires
        c.from <= i <= c.to,
    ensures
        c.direction == Direction::Forward && i < c.to
            ==> frame_step(c, queue_empty, i) == FrameStep::To(i + 1, Direction::Forward),
        c.direction == Direction::Forward && i == c.to && queue_empty
            ==> frame_step(c, queue_empty, i) == FrameStep::To(c.from as int, Direction::Forward),
        c.direction == Direction::Reverse && i > c.from
            ==> frame_step(c, queue_empty, i) == FrameStep::To(i - 1, Direction::Reverse),
        c.direction == Direction::Reverse && i == c.from && queue_empty
            ==> frame_step(c, queue_empty, i) == FrameStep::To(c.to as int, Direction::Reverse),
        c.direction == Direction::PingpongForward && i < c.to
            ==> frame_step(c, queue_empty, i) == FrameStep::To(i + 1, Direction::PingpongForward),
        c.direction == Direction::PingpongForward && c.from < i && i == c.to && queue_empty
            ==> frame_step(c, queue_empty, i) == FrameStep::To(i - 1, Direction::PingpongReverse),
        c.direction == Direction::PingpongReverse && i > c.from
            ==> frame_step(c, queue_empty, i) == FrameStep::To(i - 1, Direction::PingpongReverse),
        c.direction == Direction::PingpongReverse && i == c.from && i < c.to && queue_empty
            ==> frame_step(c, queue_empty, i) == FrameStep::To(i + 1, Direction::PingpongForward),
        !queue_empty && (c.direction == Direction::Forward || c.direction == Direction::PingpongForward) && i == c.to
            ==> frame_step(c, queue_empty, i) == FrameStep::PlayNext,
        !queue_empty && (c.direction == Direction::Reverse || c.direction == Direction::PingpongReverse) && i == c.from
            ==> frame_step(c, queue_empty, i) == FrameStep::PlayNext,
{
}

/// One tick of an animation on a frame outside it: a forward animation
/// before its frames jumps to its first frame; a reverse one after its
/// frames jumps to its last frame. Past its end, a forward animation
/// loops to its first frame with nothing queued and otherwise plays the
/// queued one; before its start, a reverse one does the same from its
/// last frame.
pub proof fn lemma_frame_tick_outside(c: SpriteAnimation, queue_empty: bool, i: int)
    ensures
        c.direction == Direction::Forward && i + 1 < c.from
            ==> frame_step(c, queue_empty, i) == FrameStep::To(c.from as int, Direction::Forward),
        c.direction == Direction::Forward && c.from <= c.to && i >= c.to
            ==> frame_step(c, queue_empty, i) == (if queue_empty {
                FrameStep::To(c.from as int, Direction::Forward)
            } else {
                FrameStep::PlayNext
            }),
        c.direction == Direction::Reverse && i > c.to
            ==> frame_step(c, queue_empty, i) == FrameStep::To(c.to as int, Direction::Reverse),
        c.direction == Direction::Reverse && i <= c.from && i <= c.to
            ==> frame_step(c, queue_empty, i) == (if queue_empty {
                FrameStep::To(c.to as int, Direction::Reverse)
            } else {
                FrameStep::PlayNext
            }),
{
}

/// The frame of a forward animation after `k` ticks from frame `i`, with
/// nothing queued.
pub open spec fn forward_frame_after(c: SpriteAnimation, i: int, k: nat) -> int
    decreases k,
{
    if k == 0 {
        i
    } else {
        match frame_step(c, true, forward_frame_after(c, i, (k - 1) as nat)) {
            FrameStep::To(j, _) => j,
            FrameStep::PlayNext => forward_frame_after(c, i, (k - 1) as nat),
        }
    }
}

/// With nothing queued, a forward animation loops: `k` ticks from its
/// first frame it is on frame `from + k` while `k` does not pass its
/// length, and after as many ticks as it has frames it is back on its
/// first frame.
pub proof fn lemma_forward_animation_loops(c: SpriteAnimation, k: nat)
    requires
        c.direction == Direction::Forward,
        c.from <= c.to,
        k <= c.to - c.from + 1,
    ensures
        k <= c.to - c.from ==> forward_frame_after(c, c.from as int, k) == c.from + k,
        k == c.to - c.from + 1 ==> forward_frame_after(c, c.from as int, k) == c.from,
    decreases k,
{
    if k > 0 {
        lemma_forward_animation_loops(c, (k - 1) as nat);
        lemma_frame_tick(c, true, c.from + k - 1);
    }
}

impl SpriteAnimator {
    /// Advances the sprite one frame, as when its frame timer runs out;
    /// the new frame index is written to `sprite_index`.
    pub fn update_animation_frame(&mut self, sprite_index: &mut usize)
        requires
            *old(sprite_index) < usize::MAX,
            old(self).current_animation.from < usize::MAX,
        ensures
            final(self).animations@ == old(self).animations@,
            match frame_step(old(self).current_animation, old(self).animation_queue@.len() == 0, *old(sprite_index) as int) {
                FrameStep::To(j, d) => {
                    &&& *final(sprite_index) as int == j
                    &&& final(self).current_animation.name == old(self).current_animation.name
                    &&& final(self).current_animation.from == old(self).current_animation.from
                    &&& final(self).current_animation.to == old(self).current_animation.to
                    &&& final(self).current_animation.direction == d
                    &&& final(self).animation_queue@ == old(self).animation_queue@
                },
                FrameStep::PlayNext => {
                    let next = old(self).animation_queue@[0];
                    let (current, index, result) = switched(*old(self), *old(sprite_index) as int, next.name@);
                    &&& final(self).current_animation == current
                    &&& *final(sprite_index) as int == (match result { Some(a) => a.from as int, None => 0 })
                    &&& final(self).animation_queue@.len() == 0
                },
            },
    {
        let mut new_index = *sprite_index;
        let from = self.current_animation.from;
        let to = self.current_animation.to;
        let queue_empty = self.animation_queue.len() == 0;
        match self.current_animation.direction {
            Direction::Forward => {
                new_index = new_index + 1;
                if new_index < from || (new_index > to && queue_empty) {
                    new_index = from;
                } else if new_index > to {
                    new_index = self.play_next_animation_in_queue(sprite_index);
                }
            },
            Direction::Reverse => {
                if new_index > to || (new_index <= from && queue_empty) {
                    new_index = to;
                } else if new_index <= from {
                    new_index = self.play_next_animation_in_queue(sprite_index);
                } else {
                    new_index = new_index - 1;
                }
            },
            Direction::PingpongForward => {
                new_index = new_index + 1;
                if new_index < from || (new_index > to && queue_empty) {
                    self.current_animation.direction = Direction::PingpongReverse;
                    if from < to {
                        new_index = to - 1;
                    } else {
                        new_index = new_index - 1;
                    }
                } else if new_index > to {
                    new_index = self.play_next_animation_in_queue(sprite_index);
                }
            },
            Direction::PingpongReverse => {
                if (new_index > to && from < to) || (new_index <= from && queue_empty) {
                    self.current_animation.direction = Direction::PingpongForward;
                    new_index = from + 1;
                } else if new_index <= from {
                    new_index = self.play_next_animation_in_queue(sprite_index);
                } else {
                    new_index = new_index - 1;
                }
            },
        }
        *sprite_index = new_index;
    }
}

/// Direction of a frame tag in an aseprite sheet.
#[derive(Debug, Clone, Copy, PartialEq, Eq, Structural)]
pub enum TagDirection {
    Forward,
    Reverse,
    Pingpong,
}

/// A frame tag of an aseprite sheet: a named run of frames.
#[derive(Debug)]
pub struct FrameTag {
    pub name: String,
    pub from: u32,
    pub to: u32,
    pub direction: TagDirection,
}

/// The animation a frame tag describes; a ping-pong starts forwards.
pub open spec fn tag_animation(t: FrameTag) -> SpriteAnimation {
    SpriteAnimation {
        name: t.name,
        from: t.from as usize,
        to: t.to as usize,
        direction: match t.direction {
            TagDirection::Forward => Direction::Forward,
            TagDirection::Reverse => Direction::Reverse,
            TagDirection::Pingpong => Direction::PingpongForward,
        },
    }
}

/// The animator of a sheet with the given frame tags: one animation per
/// tag, in order, the first one playing, nothing queued.
pub fn sprite_animator_from_tags(frame_tags: &Vec<FrameTag>) -> (animator: SpriteAnimator)
    requires
        frame_tags@.len() > 0,
    ensures
        animator.animations@ == frame_tags@.map_values(|t: FrameTag| tag_animation(t)),
        animator.current_animation == tag_animation(frame_tags@[0]),
        animator.animation_queue@.len() == 0,
{
    let mut animations: Vec<SpriteAnimation> = Vec::new();
    let mut k: usize = 0;
    while k < frame_tags.len()
        invariant
            k <= frame_tags.len(),
            animations@ == frame_tags@.subrange(0, k as int).map_values(|t: FrameTag| tag_animation(t)),
        decreases frame_tags.len() - k,
    {
        let t = &frame_tags[k];
        let direction = match t.direction {
            TagDirection::Forward => Direction::Forward,
            TagDirection::Reverse => Direction::Reverse,
            TagDirection::Pingpong => Direction::PingpongForward,
        };
        animations.push(SpriteAnimation { name: t.name.clone(), from: t.from as usize, to: t.to as usize, direction });
        proof {
            assert(animations@ =~= frame_tags@.subrange(0, k as int + 1).map_values(|t: FrameTag| tag_animation(t)));
        }
        k = k + 1;
    }
    proof {
        assert(frame_tags@.subrange(0, frame_tags@.len() as int) =~= frame_tags@);
    }
    let current_animation = animations[0].copied();
    SpriteAnimator { current_animation, animations, animation_queue: Vec::new() }
}

} // verus!

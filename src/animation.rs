//! The player's sprite animation: which atlas frame to show, and when to
//! move on to the next one.
use vstd::prelude::*;

use crate::timer::RepeatingTimer;

verus! {

/// Number of idle frames.
pub const IDLE_FRAMES: usize = 1;
/// How long each idle frame shows: 500 ms.
pub const IDLE_INTERVAL: u64 = 500_000_000;
/// Number of walking frames.
pub const WALKING_FRAMES: usize = 2;
/// How long each walking frame shows: 100 ms.
pub const WALKING_INTERVAL: u64 = 100_000_000;

#[derive(Debug, Clone, Copy, PartialEq, Eq, Structural)]
pub enum PlayerAnimationState {
    Idling,
    Walking,
}

impl PlayerAnimationState {
    pub open spec fn frames(self) -> usize {
        match self {
            PlayerAnimationState::Idling => IDLE_FRAMES,
            PlayerAnimationState::Walking => WALKING_FRAMES,
        }
    }

    pub open spec fn interval(self) -> u64 {
        match self {
            PlayerAnimationState::Idling => IDLE_INTERVAL,
            PlayerAnimationState::Walking => WALKING_INTERVAL,
        }
    }
}

/// The animation state, its frame timer and the current frame.
#[derive(Debug, Clone, Copy, PartialEq, Eq, Structural)]
pub struct PlayerAnimation {
    pub timer: RepeatingTimer,
    /// Whether the last timer update ended a frame.
    pub finished: bool,
    pub frame: usize,
    pub state: PlayerAnimationState,
}

impl PlayerAnimation {
    pub open spec fn wf(self) -> bool {
        &&& self.timer.wf()
        &&& self.timer.period == self.state.interval()
        &&& self.frame < self.state.frames()
    }

    /// The animation at the first frame of `state`, with a fresh timer.
    pub open spec fn spec_fresh(state: PlayerAnimationState) -> PlayerAnimation {
        PlayerAnimation {
            timer: RepeatingTimer { period: state.interval(), elapsed: 0 },
            finished: false,
            frame: 0,
            state,
        }
    }

    fn idling() -> (r: PlayerAnimation)
        ensures
            r == PlayerAnimation::spec_fresh(PlayerAnimationState::Idling),
            r.wf(),
    {
        PlayerAnimation {
            timer: RepeatingTimer::new(IDLE_INTERVAL),
            finished: false,
            frame: 0,
            state: PlayerAnimationState::Idling,
        }
    }

    fn walking() -> (r: PlayerAnimation)
        ensures
            r == PlayerAnimation::spec_fresh(PlayerAnimationState::Walking),
            r.wf(),
    {
        PlayerAnimation {
            timer: RepeatingTimer::new(WALKING_INTERVAL),
            finished: false,
            frame: 0,
            state: PlayerAnimationState::Walking,
        }
    }

    /// An idle animation at its first frame.
    pub fn new() -> (r: PlayerAnimation)
        ensures
            r == PlayerAnimation::spec_fresh(PlayerAnimationState::Idling),
            r.wf(),
    {
        PlayerAnimation::idling()
    }

    /// Lets `delta` nanoseconds pass; when the frame timer ends a period the
    /// animation moves on to the next frame, wrapping around.
    pub fn update_timer(&mut self, delta: u64)
        requires
            old(self).wf(),
        ensures
            final(self).wf(),
            final(self).state == old(self).state,
            (final(self).timer, final(self).finished) == old(self).timer.spec_tick(delta),
            final(self).frame == if final(self).finished {
                ((old(self).frame + 1) % (old(self).state.frames() as int)) as usize
            } else {
                old(self).frame
            },
    {
        self.finished = self.timer.tick(delta);
        if !self.finished {
            return;
        }
        let frames = match self.state {
            PlayerAnimationState::Idling => IDLE_FRAMES,
            PlayerAnimationState::Walking => WALKING_FRAMES,
        };
        self.frame = (self.frame + 1) % frames;
    }

    /// Switches to `state`, starting it afresh, unless it is the current one.
    pub fn update_state(&mut self, state: PlayerAnimationState)
        requires
            old(self).wf(),
        ensures
            final(self).wf(),
            state == old(self).state ==> *final(self) == *old(self),
            state != old(self).state ==> *final(self) == PlayerAnimation::spec_fresh(state),
    {
        if self.state != state {
            match state {
                PlayerAnimationState::Idling => {
                    *self = PlayerAnimation::idling();
                },
                PlayerAnimationState::Walking => {
                    *self = PlayerAnimation::walking();
                },
            }
        }
    }

    /// Whether the last update moved to another frame.
    pub fn changed(&self) -> (r: bool)
        ensures
            r == self.finished,
    {
        self.finished
    }

    /// The index of the frame in the sprite atlas.
    pub fn get_atlas_index(&self) -> (r: usize)
        ensures
            r == self.frame,
    {
        self.frame
    }
}

} // verus!

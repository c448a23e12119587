//! Animations: reels of frames, and the player that runs them.

use crate::tools::timer::{as_nanos, no_time, Timer};
use std::time::Duration;
use vstd::prelude::*;

verus! {

/// A list of frames, each the number of a tile with the time for which it
/// shows, that is played again and again from the start.
///
/// `index` and `duration` are those of the frame that shows.
pub struct AnimationReel<'a> {
    frames: &'a [(usize, Duration)],
    cursor: usize,
    pub index: usize,
    pub duration: Duration,
}

impl<'a> AnimationReel<'a> {
    /// The frames of the reel.
    pub closed spec fn frames(&self) -> Seq<(usize, Duration)> {
        self.frames@
    }

    /// The place in the reel of the frame that shows next.
    pub closed spec fn cursor(&self) -> int {
        self.cursor as int
    }

    /// The number of the tile that shows.
    pub closed spec fn shown(&self) -> usize {
        self.index
    }

    /// The time for which the tile that shows is to show.
    pub closed spec fn lasting(&self) -> Duration {
        self.duration
    }

    /// The place of the frame that shows after the next: one further, and
    /// the start again after the last frame.
    pub open spec fn following(&self) -> int {
        if self.cursor() + 1 == self.frames().len() {
            0
        } else {
            self.cursor() + 1
        }
    }

    /// The reel has frames, and the next frame is one of them.
    pub closed spec fn wf(&self) -> bool {
        self.cursor < self.frames@.len()
    }

    /// A reel that shows its first frame. The frame that shows next is
    /// the first frame once more.
    pub fn new(frames: &'a [(usize, Duration)]) -> (reel: Self)
        requires
            frames@.len() > 0,
        ensures
            reel.wf(),
            reel.frames() == frames@,
            reel.cursor() == 0,
            reel.shown() == frames@[0].0,
            reel.lasting() == frames@[0].1,
    {
        let index: usize = frames[0].0;
        let duration: Duration = frames[0].1;
        Self { frames, cursor: 0, index, duration }
    }

    /// Shows the next frame; after the last frame the first comes again.
    pub fn next(&mut self)
        requires
            old(self).wf(),
        ensures
            final(self).wf(),
            final(self).frames() == old(self).frames(),
            final(self).shown() == old(self).frames()[old(self).cursor()].0,
            final(self).lasting() == old(self).frames()[old(self).cursor()].1,
            final(self).cursor() == old(self).following(),
    {
        self.index = self.frames[self.cursor].0;
        self.duration = self.frames[self.cursor].1;
        self.cursor = if self.cursor + 1 == self.frames.len() {
            0
        } else {
            self.cursor + 1
        };
    }

    /// The tile that shows.
    pub fn get_index(&self) -> (index: usize)
        ensures
            index == self.shown(),
    {
        self.index
    }

    /// The time for which the tile that shows is to show.
    pub fn get_duration(&self) -> (duration: Duration)
        ensures
            duration == self.lasting(),
    {
        self.duration
    }
}

/// Plays one of several reels over a list of tiles: the tile that shows
/// is the one whose number the reel that plays shows.
pub struct AnimationPlayer<'a, T> {
    /// The tiles that the reels number.
    pub frames: &'a [T],
    /// Tells when the frame is to change.
    pub timer: Timer,
    /// The reels that can be played.
    pub reels: &'a mut [AnimationReel<'a>],
    /// The place of the reel that plays.
    pub index: usize,
}

impl<'a, T> AnimationPlayer<'a, T> {
    /// The reels, in order.
    pub open spec fn reels(&self) -> Seq<AnimationReel<'a>> {
        self.reels@
    }

    /// The reel that plays is one of the reels, and it is well formed.
    pub open spec fn wf(&self) -> bool {
        self.index < self.reels().len() && self.reels()[self.index as int].wf()
    }

    /// A player of the first reel, whose timer has no time to wait.
    pub fn new(frames: &'a [T], reels: &'a mut [AnimationReel<'a>]) -> (player: Self)
        ensures
            player.frames@ == frames@,
            player.reels() == old(reels)@,
            player.index == 0,
            as_nanos(player.timer.goal()) == 0,
            as_nanos(player.timer.elapsed()) == 0,
    {
        Self { frames, timer: Timer::new(no_time()), reels, index: 0 }
    }

    /// Plays the reel at place `index` from now on, and restarts the
    /// timer. The reel goes on where it was.
    pub fn set_reel(&mut self, index: usize)
        ensures
            final(self).index == index,
            final(self).frames@ == old(self).frames@,
            final(self).reels() == old(self).reels(),
            final(self).timer.goal() == old(self).timer.goal(),
            as_nanos(final(self).timer.elapsed()) == 0,
    {
        self.index = index;
        self.timer.reset();
    }

    /// The tile that shows.
    pub fn get_frame(&self) -> (frame: &T)
        requires
            self.index < self.reels().len(),
            self.reels()[self.index as int].shown() < self.frames@.len(),
        ensures
            *frame == self.frames@[self.reels()[self.index as int].shown() as int],
    {
        &self.frames[self.get_reel().get_index()]
    }

    fn get_reel(&self) -> (reel: &AnimationReel<'a>)
        requires
            self.index < self.reels().len(),
        ensures
            *reel == self.reels()[self.index as int],
    {
        &self.reels[self.index]
    }

    fn get_reel_mut(&mut self) -> (reel: &mut AnimationReel<'a>)
        requires
            old(self).index < old(self).reels().len(),
        ensures
            *reel == old(self).reels()[old(self).index as int],
            final(self).reels() == old(self).reels().update(old(self).index as int, *final(reel)),
            final(self).index == old(self).index,
            final(self).frames@ == old(self).frames@,
            final(self).timer == old(self).timer,
    {
        &mut self.reels[self.index]
    }

    /// Shows the next frame of the reel that plays, if the timer has
    /// reached its duration, and gives the timer the duration of that
    /// frame. The time that the timer has read stays.
    pub fn advance(&mut self)
        requires
            old(self).wf(),
        ensures
            final(self).index == old(self).index,
            final(self).frames@ == old(self).frames@,
            final(self).reels().len() == old(self).reels().len(),
            forall|k: int|
                0 <= k < old(self).reels().len() && k != old(self).index ==> final(self).reels()[k]
                    == old(self).reels()[k],
            final(self).timer.elapsed() == old(self).timer.elapsed(),
            old(self).timer.finished() ==> {
                let before = old(self).reels()[old(self).index as int];
                let after = final(self).reels()[old(self).index as int];
                &&& after.wf()
                &&& after.frames() == before.frames()
                &&& after.shown() == before.frames()[before.cursor()].0
                &&& after.lasting() == before.frames()[before.cursor()].1
                &&& after.cursor() == before.following()
                &&& final(self).timer.goal() == after.lasting()
            },
            !old(self).timer.finished() ==> {
                &&& final(self).reels() == old(self).reels()
                &&& final(self).timer.goal() == old(self).timer.goal()
            },
    {
        if self.timer.is_finished() {
            let reel = self.get_reel_mut();
            reel.next();
            let duration: Duration = reel.get_duration();
            self.timer.set_duration(duration);
        }
    }

    /// Reads the clock and changes the frame if its time is up.
    ///
    /// The timer reads the time; then the player does what
    /// [`AnimationPlayer::advance`] does.
    pub fn update_timer(&mut self)
        requires
            old(self).wf(),
        ensures
            final(self).wf(),
            final(self).index == old(self).index,
            final(self).frames@ == old(self).frames@,
            final(self).reels().len() == old(self).reels().len(),
            forall|k: int|
                0 <= k < old(self).reels().len() && k != old(self).index ==> final(self).reels()[k]
                    == old(self).reels()[k],
            as_nanos(final(self).timer.elapsed()) >= as_nanos(old(self).timer.goal()) ==> {
                let before = old(self).reels()[old(self).index as int];
                let after = final(self).reels()[old(self).index as int];
                &&& after.frames() == before.frames()
                &&& after.shown() == before.frames()[before.cursor()].0
                &&& after.lasting() == before.frames()[before.cursor()].1
                &&& after.cursor() == before.following()
                &&& final(self).timer.goal() == after.lasting()
            },
            as_nanos(final(self).timer.elapsed()) < as_nanos(old(self).timer.goal()) ==> {
                &&& final(self).reels() == old(self).reels()
                &&& final(self).timer.goal() == old(self).timer.goal()
            },
    {
        self.timer.update();
        self.advance();
    }
}

} // verus!

use vstd::prelude::*;

use crate::track::{track_tiles_seq, Track};
use crate::train::{train_ticked, train_tiles_upto, train_total_cols, Train};
use crate::util::Draw;

verus! {

/// What the train scene is doing: rolling, coming to a stop once the
/// train has left the screen, or standing still.
pub enum State {
    Freezing,
    Frozen,
    Moving,
}

/// A track with a train on it, frozen or rolling across the scene.
pub struct TrainScene {
    pub state: State,
    pub track: Track,
    pub train: Train,
    pub width: u32,
    pub height: u32,
}

/// Whether any part of the train lies within the scene's columns.
pub open spec fn train_visible(s: TrainScene) -> bool {
    s.train.x < s.width && s.train.x + train_total_cols(s.train.len as int) > 0
}

impl TrainScene {
    pub open spec fn wf(self) -> bool {
        &&& self.width <= 100_000
        &&& self.height <= 100_000
        &&& self.train.wf()
    }

    /// A frozen scene: the track on the lower part of the screen, the
    /// train of five cars waiting off-screen to the right.
    pub fn new(width: u32, height: u32) -> (r: Self)
        requires
            width <= 100_000,
            4 <= height <= 100_000,
        ensures
            r.wf(),
            r.state is Frozen,
            r.width == width,
            r.height == height,
            r.track == (Track { y: (height * 5 / 8) as u32, width }),
            r.train == (Train {
                len: 5,
                y: (height * 5 / 8 - 2) as u32,
                x: (4 * width) as i32,
                orig_x: (4 * width) as i32,
            }),
    {
        let track_y = height * 5 / 8;
        TrainScene {
            state: State::Frozen,
            track: Track::new(track_y, width),
            train: Train::new(5, 4 * (width as i32), track_y - 2),
            width,
            height,
        }
    }

    /// Begin stopping: the train keeps rolling until it has left the
    /// screen, then freezes.
    pub fn freeze(&mut self)
        ensures
            *final(self) == (TrainScene { state: State::Freezing, ..*old(self) }),
    {
        self.state = State::Freezing;
    }

    /// Set the train rolling.
    pub fn unfreeze(&mut self)
        ensures
            *final(self) == (TrainScene { state: State::Moving, ..*old(self) }),
    {
        self.state = State::Moving;
    }

    pub fn train(&self) -> (r: &Train)
        ensures
            r == self.train,
    {
        &self.train
    }

    /// Whether any part of the train lies within the scene's columns.
    pub fn train_is_visible(&self) -> (r: bool)
        requires
            self.wf(),
        ensures
            r == train_visible(*self),
    {
        self.train.left_x() < self.width as i32 && self.train.right_x() > 0
    }

    /// One tick: a frozen scene stands still; a freezing one stops for
    /// good once the train has left the screen and rolls on otherwise;
    /// a moving one rolls.
    pub fn tick(&mut self)
        requires
            old(self).wf(),
        ensures
            final(self).wf(),
            match old(self).state {
                State::Frozen => *final(self) == *old(self),
                State::Freezing => if !train_visible(*old(self)) {
                    *final(self) == (TrainScene { state: State::Frozen, ..*old(self) })
                } else {
                    *final(self) == (TrainScene {
                        train: train_ticked(old(self).train),
                        ..*old(self)
                    })
                },
                State::Moving => *final(self) == (TrainScene {
                    train: train_ticked(old(self).train),
                    ..*old(self)
                }),
            },
    {
        match self.state {
            State::Frozen => {},
            State::Freezing => {
                if !self.train_is_visible() {
                    self.state = State::Frozen;
                } else {
                    self.train.tick();
                }
            },
            State::Moving => {
                self.train.tick();
            },
        }
    }

    /// The scene's tiles: the track, then the train over it.
    pub fn tiles(&self) -> (r: Vec<(Draw, (i32, i32))>)
        requires
            self.wf(),
            self.track.y <= 1_000_000,
            self.track.width <= 1_000_000,
        ensures
            r@ == track_tiles_seq(self.track) + train_tiles_upto(
                self.train,
                self.train.len as int,
            ),
    {
        let mut r = self.track.tiles();
        let mut t = self.train.tiles();
        r.append(&mut t);
        r
    }
}

} // verus!
